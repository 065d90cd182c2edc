//! The runtime-facing execution-mode gate.
//!
//! Minimal harness-facing state: the active target that future
//! deployments and calls resolve against, and the breakpoint map (one
//! alphabetic label to a caller address and program counter). Switching
//! the target never touches the breakpoints nor anything already
//! deployed; it only changes future resolution.

use vstd::prelude::*;

use crate::assoc::distinct_keys;
use crate::assoc::lemma_pairs_map_absent;
use crate::assoc::lemma_pairs_map_index;
use crate::assoc::lemma_pairs_map_remove;
use crate::assoc::lemma_pairs_map_update;
use crate::assoc::lemma_distinct_keys_remove;
use crate::assoc::pairs_map;
use crate::errors::CoreError;
use crate::registry::Target;

verus! {

/// A 20-byte caller address, held as two 64-bit words and one 32-bit
/// word, most significant first.
#[derive(Debug, Clone, Copy, PartialEq, Eq, Structural)]
pub struct CallerAddress {
    pub w0: u64,
    pub w1: u64,
    pub w2: u32,
}

/// True iff the label is valid: exactly one alphabetic character.
pub open spec fn valid_label(label: Seq<char>) -> bool {
    label.len() == 1 && char_is_alphabetic(label[0])
}

/// Whether `char::is_alphabetic` holds of the character; the predicate
/// depends on the character alone.
pub uninterp spec fn char_is_alphabetic(c: char) -> bool;

/// Relies on `char::is_alphabetic`: true iff the character has the
/// Unicode `Alphabetic` property, a pure function of the character.
#[verifier::external_body]
fn is_alphabetic_char(c: char) -> (r: bool)
    ensures
        r == char_is_alphabetic(c),
{
    c.is_alphabetic()
}

/// The minimal runtime-facing state: the active target selection and
/// the breakpoint map.
#[derive(Debug, Clone)]
pub struct ExecutionModeGate {
    active: Target,
    breakpoints: Vec<(char, (CallerAddress, u64))>,
}

/// Ghost image of an [`ExecutionModeGate`].
pub ghost struct ExecutionModeGateView {
    pub active: Target,
    pub breakpoints: Seq<(char, (CallerAddress, u64))>,
}

impl View for ExecutionModeGate {
    type V = ExecutionModeGateView;

    closed spec fn view(&self) -> ExecutionModeGateView {
        ExecutionModeGateView { active: self.active, breakpoints: self.breakpoints@ }
    }
}

impl ExecutionModeGate {
    /// At most one location per label.
    pub open spec fn wf(&self) -> bool {
        distinct_keys(self@.breakpoints)
    }

    /// The breakpoints as a label-keyed map.
    pub open spec fn breakpoint_map(&self) -> Map<char, (CallerAddress, u64)> {
        pairs_map(self@.breakpoints)
    }

    /// A fresh gate: primary target active, no breakpoints.
    pub fn new() -> (r: ExecutionModeGate)
        ensures
            r.wf(),
            r@.active == Target::Evm,
            r@.breakpoints.len() == 0,
    {
        ExecutionModeGate { active: Target::Evm, breakpoints: Vec::new() }
    }

    /// The target subsequent creations and calls resolve to.
    pub fn active_target(&self) -> (r: Target)
        ensures
            r == self@.active,
    {
        self.active
    }

    /// Switches the active target: the alternate target when `enable` is
    /// set, the primary one otherwise. Nothing else changes; in
    /// particular the breakpoints, and anything already deployed, stay
    /// as they are.
    pub fn select_target(&mut self, enable: bool)
        ensures
            final(self)@.active == if enable {
                Target::Zk
            } else {
                Target::Evm
            },
            final(self)@.breakpoints == old(self)@.breakpoints,
    {
        self.active = if enable {
            Target::Zk
        } else {
            Target::Evm
        };
    }

    /// Adds or removes a breakpoint in one host-facing call: `add` set
    /// inserts (overwriting any prior location for the label), `add`
    /// clear removes (a no-op when the label is absent). A label
    /// that is not exactly one alphabetic character fails validation and
    /// changes nothing.
    pub fn breakpoint(&mut self, caller: CallerAddress, label: &str, pc: u64, add: bool) -> (r:
        Result<(), CoreError>)
        requires
            old(self).wf(),
        ensures
            final(self).wf(),
            final(self)@.active == old(self)@.active,
            match r {
                Result::Ok(_) => {
                    &&& valid_label(label@)
                    &&& final(self).breakpoint_map() == if add {
                        old(self).breakpoint_map().insert(label@[0], (caller, pc))
                    } else {
                        old(self).breakpoint_map().remove(label@[0])
                    }
                },
                Result::Err(e) => {
                    &&& !valid_label(label@)
                    &&& e matches CoreError::InvalidBreakpointLabel(s) && s@ == label@
                    &&& final(self)@ == old(self)@
                },
            },
    {
        if label.unicode_len() != 1 {
            return Result::Err(CoreError::InvalidBreakpointLabel(String::from_str(label)));
        }
        let point = label.get_char(0);
        if !is_alphabetic_char(point) {
            return Result::Err(CoreError::InvalidBreakpointLabel(String::from_str(label)));
        }
        if add {
            self.insert_breakpoint(point, caller, pc);
        } else {
            self.remove_breakpoint(point);
        }
        Result::Ok(())
    }

    /// Sets a breakpoint: label to (caller, program counter), the prior
    /// location for that label overwritten.
    pub fn set_breakpoint(&mut self, caller: CallerAddress, label: &str, pc: u64) -> (r: Result<
        (),
        CoreError,
    >)
        requires
            old(self).wf(),
        ensures
            final(self).wf(),
            final(self)@.active == old(self)@.active,
            match r {
                Result::Ok(_) => valid_label(label@) && final(self).breakpoint_map() == old(
                    self,
                ).breakpoint_map().insert(label@[0], (caller, pc)),
                Result::Err(e) => {
                    &&& !valid_label(label@)
                    &&& e matches CoreError::InvalidBreakpointLabel(s) && s@ == label@
                    &&& final(self)@ == old(self)@
                },
            },
    {
        self.breakpoint(caller, label, pc, true)
    }

    /// Clears a breakpoint; clearing an absent label is a no-op success.
    pub fn clear_breakpoint(&mut self, label: &str) -> (r: Result<(), CoreError>)
        requires
            old(self).wf(),
        ensures
            final(self).wf(),
            final(self)@.active == old(self)@.active,
            match r {
                Result::Ok(_) => valid_label(label@) && final(self).breakpoint_map() == old(
                    self,
                ).breakpoint_map().remove(label@[0]),
                Result::Err(e) => {
                    &&& !valid_label(label@)
                    &&& e matches CoreError::InvalidBreakpointLabel(s) && s@ == label@
                    &&& final(self)@ == old(self)@
                },
            },
    {
        self.breakpoint(CallerAddress { w0: 0, w1: 0, w2: 0 }, label, 0, false)
    }

    /// The location recorded for a label, if any.
    pub fn get_breakpoint(&self, label: char) -> (r: Option<(CallerAddress, u64)>)
        requires
            self.wf(),
        ensures
            r == if self.breakpoint_map().contains_key(label) {
                Option::Some(self.breakpoint_map()[label])
            } else {
                Option::None::<(CallerAddress, u64)>
            },
    {
        let ghost s0 = self@.breakpoints;
        let mut i: usize = 0;
        while i < self.breakpoints.len()
            invariant
                self@.breakpoints == s0,
                self.wf(),
                i <= self.breakpoints@.len(),
                self@.breakpoints.len() == self.breakpoints@.len(),
                forall|j: int| 0 <= j < i ==> (#[trigger] s0[j]).0 != label,
            decreases self.breakpoints@.len() - i,
        {
            let e = &self.breakpoints[i];
            if e.0 == label {
                proof {
                    lemma_pairs_map_index(s0, i as int);
                }
                return Option::Some(e.1);
            }
            i += 1;
        }
        proof {
            lemma_pairs_map_absent(s0, label);
        }
        Option::None
    }

    /// Inserts, overwriting the prior pair for the label.
    fn insert_breakpoint(&mut self, label: char, caller: CallerAddress, pc: u64)
        requires
            old(self).wf(),
        ensures
            final(self).wf(),
            final(self)@.active == old(self)@.active,
            final(self).breakpoint_map() == old(self).breakpoint_map().insert(
                label,
                (caller, pc),
            ),
    {
        let ghost s0 = self@.breakpoints;
        let mut i: usize = 0;
        while i < self.breakpoints.len()
            invariant
                s0 == old(self)@.breakpoints,
                self@ == old(self)@,
                self.wf(),
                i <= self.breakpoints@.len(),
                self@.breakpoints.len() == self.breakpoints@.len(),
                forall|j: int| 0 <= j < i ==> (#[trigger] s0[j]).0 != label,
            decreases self.breakpoints@.len() - i,
        {
            if self.breakpoints[i].0 == label {
                self.breakpoints[i] = (label, (caller, pc));
                proof {
                    assert(self@.breakpoints =~= s0.update(i as int, (label, (caller, pc))));
                    lemma_pairs_map_update(s0, i as int, (label, (caller, pc)));
                }
                return ;
            }
            i += 1;
        }
        self.breakpoints.push((label, (caller, pc)));
        proof {
            assert(self@.breakpoints =~= s0.push((label, (caller, pc))));
            assert(self@.breakpoints.drop_last() =~= s0);
        }
    }

    /// Removes the pair for the label; absent labels leave the map as it
    /// is.
    fn remove_breakpoint(&mut self, label: char)
        requires
            old(self).wf(),
        ensures
            final(self).wf(),
            final(self)@.active == old(self)@.active,
            final(self).breakpoint_map() == old(self).breakpoint_map().remove(label),
    {
        let ghost s0 = self@.breakpoints;
        let mut i: usize = 0;
        while i < self.breakpoints.len()
            invariant
                s0 == old(self)@.breakpoints,
                self@ == old(self)@,
                self.wf(),
                i <= self.breakpoints@.len(),
                self@.breakpoints.len() == self.breakpoints@.len(),
                forall|j: int| 0 <= j < i ==> (#[trigger] s0[j]).0 != label,
            decreases self.breakpoints@.len() - i,
        {
            if self.breakpoints[i].0 == label {
                self.breakpoints.remove(i);
                proof {
                    assert(self@.breakpoints =~= s0.remove(i as int));
                    lemma_pairs_map_remove(s0, i as int);
                    lemma_distinct_keys_remove(s0, i as int);
                }
                return ;
            }
            i += 1;
        }
        proof {
            lemma_pairs_map_absent(s0, label);
            assert(pairs_map(s0).remove(label) =~= pairs_map(s0));
        }
    }
}

} // verus!
