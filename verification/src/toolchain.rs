//! Compiler-toolchain resolution decisions.
//!
//! Locating an installed compiler binary, downloading one and probing
//! the file system are the host's business. The decisions — which
//! binary a configured requirement selects, when an installation must
//! happen first, and when the requirement cannot be met — are functions
//! from the configuration and the host's probe results to the next
//! action, so the host's retry loop carries no policy of its own.

use vstd::prelude::*;

use crate::build_output::Version;
use crate::errors::CoreError;

verus! {

/// A configured compiler requirement: an exact version to be looked up
/// (and installed when absent), or a local binary path.
#[derive(Debug, Clone, PartialEq, Eq)]
pub enum SolcReq {
    Version(Version),
    Local(String),
}

/// The next step in resolving a configured alternate-target compiler.
#[derive(Debug, Clone, PartialEq, Eq)]
pub enum ToolchainStep {
    /// No requirement is configured; nothing to ensure.
    Unconfigured,
    /// Use this binary.
    Use(String),
    /// Install this version, then probe and decide again.
    Install(Version),
    /// Probing after the installation still found nothing; the caller
    /// falls back to its default resolution.
    NotFound,
    /// The requirement cannot be met.
    Reject(CoreError),
}

/// One decision round for an explicitly configured alternate-target
/// compiler, from the requirement and the host's probe results. For a
/// version requirement: an installed binary is used; a missing one is
/// rejected offline, installed once, and reported not found when it is
/// still missing after that installation. For a local path: the file is
/// used when it exists and rejected otherwise.
pub fn ensure_zksolc_step(
    req: &Option<SolcReq>,
    offline: bool,
    installed: &Option<String>,
    install_attempted: bool,
    local_is_file: bool,
) -> (r: ToolchainStep)
    ensures
        match r {
            ToolchainStep::Unconfigured => req is None,
            ToolchainStep::Use(p) => {
                ||| (req matches Option::Some(SolcReq::Version(_)) && installed matches
                    Option::Some(q) && p@ == q@)
                ||| (req matches Option::Some(SolcReq::Local(q)) && local_is_file && p@ == q@)
            },
            ToolchainStep::Install(v) => req == Option::Some(SolcReq::Version(v)) && installed
                is None && !offline && !install_attempted,
            ToolchainStep::NotFound => req matches Option::Some(SolcReq::Version(_)) && installed
                is None && !offline && install_attempted,
            ToolchainStep::Reject(e) => match e {
                CoreError::ToolUnavailableOffline(major, minor, patch) => req == Option::Some(
                    SolcReq::Version(Version { major, minor, patch }),
                ) && installed is None && offline,
                CoreError::ToolPathMissing(p) => req matches Option::Some(SolcReq::Local(q))
                    && !local_is_file && p@ == q@,
                _ => false,
            },
        },
{
    match req {
        Option::None => ToolchainStep::Unconfigured,
        Option::Some(SolcReq::Version(v)) => match installed {
            Option::Some(p) => ToolchainStep::Use(p.clone()),
            Option::None => {
                if offline {
                    ToolchainStep::Reject(
                        CoreError::ToolUnavailableOffline(v.major, v.minor, v.patch),
                    )
                } else if !install_attempted {
                    ToolchainStep::Install(*v)
                } else {
                    ToolchainStep::NotFound
                }
            },
        },
        Option::Some(SolcReq::Local(p)) => {
            if local_is_file {
                ToolchainStep::Use(p.clone())
            } else {
                ToolchainStep::Reject(CoreError::ToolPathMissing(p.clone()))
            }
        },
    }
}

/// How the base compiler used alongside the alternate toolchain is
/// picked.
#[derive(Debug, Clone, PartialEq, Eq)]
pub enum SolcDecision {
    /// The alternate-target configuration names a binary path: use it.
    UseConfiguredPath(String),
    /// The general compiler requirement names a version: use the
    /// alternate toolchain's build of that version.
    UseRequestedVersion(Version),
    /// The general compiler requirement names a binary path: use it.
    UseLocalPath(String),
    /// Nothing is configured: match source files to a compiler version
    /// automatically.
    AutoDetect,
}

/// Picks the base compiler: an explicitly configured path wins, then
/// the general compiler requirement (a version or a local path), then
/// automatic detection.
pub fn choose_solc(configured_solc_path: &Option<String>, solc_req: &Option<SolcReq>) -> (r:
    SolcDecision)
    ensures
        match r {
            SolcDecision::UseConfiguredPath(p) => configured_solc_path matches Option::Some(q)
                && p@ == q@,
            SolcDecision::UseRequestedVersion(v) => configured_solc_path is None && solc_req
                == Option::Some(SolcReq::Version(v)),
            SolcDecision::UseLocalPath(p) => configured_solc_path is None && (solc_req matches
            Option::Some(SolcReq::Local(q)) && p@ == q@),
            SolcDecision::AutoDetect => configured_solc_path is None && solc_req is None,
        },
{
    match configured_solc_path {
        Option::Some(p) => SolcDecision::UseConfiguredPath(p.clone()),
        Option::None => match solc_req {
            Option::Some(SolcReq::Version(v)) => SolcDecision::UseRequestedVersion(*v),
            Option::Some(SolcReq::Local(p)) => SolcDecision::UseLocalPath(p.clone()),
            Option::None => SolcDecision::AutoDetect,
        },
    }
}

/// How the alternate compiler binary is picked when building a project.
#[derive(Debug, Clone, PartialEq, Eq)]
pub enum ZksolcBinary {
    /// The explicitly ensured binary.
    Configured(String),
    /// Nothing ensured and downloads allowed: install this default
    /// version.
    InstallDefault(Version),
    /// Nothing ensured while offline: rely on a binary found on the
    /// search path.
    PathLookup,
}

/// Picks the alternate compiler binary for a project build: the ensured
/// binary when the configuration produced one, the default version
/// otherwise, and a plain path lookup when offline forbids installing
/// the default.
pub fn zksolc_binary_fallback(ensured: &Option<String>, offline: bool) -> (r: ZksolcBinary)
    ensures
        match r {
            ZksolcBinary::Configured(p) => ensured matches Option::Some(q) && p@ == q@,
            ZksolcBinary::InstallDefault(v) => ensured is None && !offline && v == (Version {
                major: 1,
                minor: 5,
                patch: 3,
            }),
            ZksolcBinary::PathLookup => ensured is None && offline,
        },
{
    match ensured {
        Option::Some(p) => ZksolcBinary::Configured(p.clone()),
        Option::None => {
            if !offline {
                ZksolcBinary::InstallDefault(Version { major: 1, minor: 5, patch: 3 })
            } else {
                ZksolcBinary::PathLookup
            }
        },
    }
}

} // verus!
