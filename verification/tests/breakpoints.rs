//! The execution-mode gate: breakpoint validation and round trips, and
//! target selection.

use dualbuild::errors::CoreError;
use dualbuild::gate::CallerAddress;
use dualbuild::gate::ExecutionModeGate;
use dualbuild::registry::Target;

fn caller() -> CallerAddress {
    CallerAddress { w0: 0x1111_2222_3333_4444, w1: 0x5555_6666_7777_8888, w2: 0x9999_aaaa }
}

#[test]
fn set_breakpoint_round_trip() {
    let mut gate = ExecutionModeGate::new();
    assert!(gate.set_breakpoint(caller(), "a", 1234).is_ok());
    assert_eq!(gate.get_breakpoint('a'), Some((caller(), 1234)));
}

#[test]
fn two_character_label_fails_validation() {
    let mut gate = ExecutionModeGate::new();
    let r = gate.set_breakpoint(caller(), "ab", 1);
    assert_eq!(r, Err(CoreError::InvalidBreakpointLabel("ab".to_string())));
    assert_eq!(gate.get_breakpoint('a'), None);
}

#[test]
fn non_alphabetic_label_fails_validation() {
    let mut gate = ExecutionModeGate::new();
    assert!(gate.set_breakpoint(caller(), "1", 1).is_err());
    assert!(gate.set_breakpoint(caller(), "", 1).is_err());
}

#[test]
fn clear_absent_breakpoint_is_noop_success() {
    let mut gate = ExecutionModeGate::new();
    assert!(gate.clear_breakpoint("z").is_ok());
    assert_eq!(gate.get_breakpoint('z'), None);
}

#[test]
fn insert_overwrites_prior_location() {
    let mut gate = ExecutionModeGate::new();
    let other = CallerAddress { w0: 1, w1: 2, w2: 3 };
    assert!(gate.set_breakpoint(caller(), "b", 10).is_ok());
    assert!(gate.set_breakpoint(other, "b", 20).is_ok());
    assert_eq!(gate.get_breakpoint('b'), Some((other, 20)));
}

#[test]
fn toggle_form_adds_and_removes() {
    let mut gate = ExecutionModeGate::new();
    assert!(gate.breakpoint(caller(), "c", 7, true).is_ok());
    assert_eq!(gate.get_breakpoint('c'), Some((caller(), 7)));
    assert!(gate.breakpoint(caller(), "c", 7, false).is_ok());
    assert_eq!(gate.get_breakpoint('c'), None);
}

#[test]
fn removal_is_idempotent() {
    let mut gate = ExecutionModeGate::new();
    assert!(gate.set_breakpoint(caller(), "d", 5).is_ok());
    assert!(gate.clear_breakpoint("d").is_ok());
    assert!(gate.clear_breakpoint("d").is_ok());
    assert_eq!(gate.get_breakpoint('d'), None);
}

#[test]
fn select_target_switches_only_the_selection() {
    let mut gate = ExecutionModeGate::new();
    assert_eq!(gate.active_target(), Target::Evm);
    assert!(gate.set_breakpoint(caller(), "e", 42).is_ok());
    gate.select_target(true);
    assert_eq!(gate.active_target(), Target::Zk);
    assert_eq!(gate.get_breakpoint('e'), Some((caller(), 42)));
    gate.select_target(false);
    assert_eq!(gate.active_target(), Target::Evm);
    assert_eq!(gate.get_breakpoint('e'), Some((caller(), 42)));
}

#[test]
fn unicode_alphabetic_label_is_accepted() {
    let mut gate = ExecutionModeGate::new();
    assert!(gate.set_breakpoint(caller(), "é", 9).is_ok());
    assert_eq!(gate.get_breakpoint('é'), Some((caller(), 9)));
}
