//! Toolchain-resolution decisions and remapping normalization.

use dualbuild::build_output::Version;
use dualbuild::errors::CoreError;
use dualbuild::remappings::normalize_remappings;
use dualbuild::remappings::Remapping;
use dualbuild::toolchain::choose_solc;
use dualbuild::toolchain::ensure_zksolc_step;
use dualbuild::toolchain::zksolc_binary_fallback;
use dualbuild::toolchain::SolcDecision;
use dualbuild::toolchain::SolcReq;
use dualbuild::toolchain::ToolchainStep;
use dualbuild::toolchain::ZksolcBinary;

fn v153() -> Version {
    Version { major: 1, minor: 5, patch: 3 }
}

#[test]
fn unconfigured_requirement_needs_nothing() {
    let r = ensure_zksolc_step(&None, false, &None, false, false);
    assert_eq!(r, ToolchainStep::Unconfigured);
}

#[test]
fn installed_version_is_used() {
    let req = Some(SolcReq::Version(v153()));
    let installed = Some("/tools/zksolc-1.5.3".to_string());
    let r = ensure_zksolc_step(&req, false, &installed, false, false);
    assert_eq!(r, ToolchainStep::Use("/tools/zksolc-1.5.3".to_string()));
}

#[test]
fn missing_version_is_installed_then_reported() {
    let req = Some(SolcReq::Version(v153()));
    assert_eq!(
        ensure_zksolc_step(&req, false, &None, false, false),
        ToolchainStep::Install(v153())
    );
    assert_eq!(
        ensure_zksolc_step(&req, false, &None, true, false),
        ToolchainStep::NotFound
    );
}

#[test]
fn missing_version_offline_is_rejected() {
    let req = Some(SolcReq::Version(v153()));
    let r = ensure_zksolc_step(&req, true, &None, false, false);
    assert_eq!(r, ToolchainStep::Reject(CoreError::ToolUnavailableOffline(1, 5, 3)));
}

#[test]
fn local_path_must_exist() {
    let req = Some(SolcReq::Local("/tools/zksolc".to_string()));
    assert_eq!(
        ensure_zksolc_step(&req, false, &None, false, true),
        ToolchainStep::Use("/tools/zksolc".to_string())
    );
    assert_eq!(
        ensure_zksolc_step(&req, false, &None, false, false),
        ToolchainStep::Reject(CoreError::ToolPathMissing("/tools/zksolc".to_string()))
    );
}

#[test]
fn base_compiler_precedence() {
    let path = Some("/tools/solc".to_string());
    assert_eq!(
        choose_solc(&path, &Some(SolcReq::Version(v153()))),
        SolcDecision::UseConfiguredPath("/tools/solc".to_string())
    );
    assert_eq!(
        choose_solc(&None, &Some(SolcReq::Version(v153()))),
        SolcDecision::UseRequestedVersion(v153())
    );
    assert_eq!(
        choose_solc(&None, &Some(SolcReq::Local("/usr/bin/solc".to_string()))),
        SolcDecision::UseLocalPath("/usr/bin/solc".to_string())
    );
    assert_eq!(choose_solc(&None, &None), SolcDecision::AutoDetect);
}

#[test]
fn zksolc_fallback_rules() {
    assert_eq!(
        zksolc_binary_fallback(&Some("/tools/zksolc".to_string()), true),
        ZksolcBinary::Configured("/tools/zksolc".to_string())
    );
    assert_eq!(zksolc_binary_fallback(&None, false), ZksolcBinary::InstallDefault(v153()));
    assert_eq!(zksolc_binary_fallback(&None, true), ZksolcBinary::PathLookup);
}

#[test]
fn remappings_are_rerooted_under_the_sources_path() {
    let normalized = normalize_remappings(
        vec![Remapping {
            context: None,
            name: "@openzeppelin/".to_string(),
            path: "/lib/oz".to_string(),
        }],
        "root/Counter",
    );
    assert_eq!(normalized.len(), 1);
    assert_eq!(normalized[0].path, "root/Counter/lib/oz");
    assert_eq!(normalized[0].name, "@openzeppelin/");
}

#[test]
fn missing_std_remapping_is_supplied() {
    let normalized = normalize_remappings(
        vec![Remapping {
            context: Some("test/".to_string()),
            name: "forge-std/".to_string(),
            path: "lib/forge-std".to_string(),
        }],
        "root/Counter",
    );
    assert_eq!(normalized.len(), 2);
    assert_eq!(normalized[0].path, "root/Counter/lib/forge-std");
    assert_eq!(normalized[0].context, Some("test/".to_string()));
    assert_eq!(normalized[1].name, "@openzeppelin/");
    assert_eq!(normalized[1].path, "root/Counter/@openzeppelin");
    assert_eq!(normalized[1].context, None);
}
