//! Contract-verification contexts for the two back ends.
//!
//! The two structurally different compiler back ends are treated
//! uniformly as a tagged variant sharing one capability surface: the
//! configuration, the target's path, name and compiler version, and
//! the target artifact's ABI, imports and metadata out of a compile
//! output the host supplies. Dispatch is by tag.

use vstd::prelude::*;

use crate::build_output::BuildOutput;
use crate::build_output::Version;
use crate::errors::CoreError;
use crate::text::clone_strings;

verus! {

/// The slice of the project configuration the contexts carry.
#[derive(Debug, Clone)]
pub struct ProjectConfig {
    /// The project root.
    pub root: String,
}

/// Ghost image of a [`ProjectConfig`].
pub ghost struct ProjectConfigView {
    pub root: Seq<char>,
}

impl View for ProjectConfig {
    type V = ProjectConfigView;

    open spec fn view(&self) -> ProjectConfigView {
        ProjectConfigView { root: self.root@ }
    }
}

/// The compiler versions of an alternate-target context: the alternate
/// compiler's own version, the base compiler version used alongside
/// it, and whether that base compiler is the alternate toolchain's
/// own build.
#[derive(Debug, Clone, Copy, PartialEq, Eq, Structural)]
pub struct ZkVersion {
    pub zksolc: Version,
    pub solc: Version,
    pub is_zksync_solc: bool,
}

/// Data required to verify a contract compiled for the primary target.
#[derive(Debug, Clone)]
pub struct VerificationContext {
    pub config: ProjectConfig,
    pub target_path: String,
    pub target_name: String,
    pub compiler_version: Version,
}

/// Data required to verify a contract compiled for the alternate
/// target.
#[derive(Debug, Clone)]
pub struct ZkVerificationContext {
    pub config: ProjectConfig,
    pub target_path: String,
    pub target_name: String,
    pub compiler_version: ZkVersion,
}

impl ZkVerificationContext {
    /// Builds a context. The base compiler version is the configured
    /// one when the configuration names one; otherwise the version the
    /// surrounding context supplies is used, and the base compiler is
    /// the alternate toolchain's own build.
    pub fn new(
        target_path: String,
        target_name: String,
        context_solc_version: Version,
        config: ProjectConfig,
        zksolc_version: Version,
        configured_solc_version: Option<Version>,
    ) -> (r: ZkVerificationContext)
        ensures
            r.config@ == config@,
            r.target_path@ == target_path@,
            r.target_name@ == target_name@,
            r.compiler_version.zksolc == zksolc_version,
            r.compiler_version.solc == (match configured_solc_version {
                Option::Some(v) => v,
                Option::None => context_solc_version,
            }),
            r.compiler_version.is_zksync_solc == (configured_solc_version is None),
    {
        let (solc, is_zksync_solc) = match configured_solc_version {
            Option::Some(v) => (v, false),
            Option::None => (context_solc_version, true),
        };
        ZkVerificationContext {
            config,
            target_path,
            target_name,
            compiler_version: ZkVersion { zksolc: zksolc_version, solc, is_zksync_solc },
        }
    }
}

/// A verification context for either back end, dispatched by tag.
#[derive(Debug, Clone)]
pub enum CompilerVerificationContext {
    Solc(VerificationContext),
    ZkSolc(ZkVerificationContext),
}

impl CompilerVerificationContext {
    /// The target contract's source path, in specifications.
    pub open spec fn spec_target_path(&self) -> Seq<char> {
        match self {
            CompilerVerificationContext::Solc(c) => c.target_path@,
            CompilerVerificationContext::ZkSolc(c) => c.target_path@,
        }
    }

    /// The target contract's name, in specifications.
    pub open spec fn spec_target_name(&self) -> Seq<char> {
        match self {
            CompilerVerificationContext::Solc(c) => c.target_name@,
            CompilerVerificationContext::ZkSolc(c) => c.target_name@,
        }
    }

    /// The context's configuration.
    pub fn config(&self) -> (r: &ProjectConfig)
        ensures
            r@ == match self {
                CompilerVerificationContext::Solc(c) => c.config@,
                CompilerVerificationContext::ZkSolc(c) => c.config@,
            },
    {
        match self {
            CompilerVerificationContext::Solc(c) => &c.config,
            CompilerVerificationContext::ZkSolc(c) => &c.config,
        }
    }

    /// The target contract's source path.
    pub fn target_path(&self) -> (r: &String)
        ensures
            r@ == match self {
                CompilerVerificationContext::Solc(c) => c.target_path@,
                CompilerVerificationContext::ZkSolc(c) => c.target_path@,
            },
    {
        match self {
            CompilerVerificationContext::Solc(c) => &c.target_path,
            CompilerVerificationContext::ZkSolc(c) => &c.target_path,
        }
    }

    /// The target contract's name.
    pub fn target_name(&self) -> (r: &String)
        ensures
            r@ == match self {
                CompilerVerificationContext::Solc(c) => c.target_name@,
                CompilerVerificationContext::ZkSolc(c) => c.target_name@,
            },
    {
        match self {
            CompilerVerificationContext::Solc(c) => &c.target_name,
            CompilerVerificationContext::ZkSolc(c) => &c.target_name,
        }
    }

    /// The base compiler version the verification provider reports:
    /// for the alternate target, the base compiler component of its
    /// version pair.
    pub fn compiler_version(&self) -> (r: &Version)
        ensures
            *r == match self {
                CompilerVerificationContext::Solc(c) => c.compiler_version,
                CompilerVerificationContext::ZkSolc(c) => c.compiler_version.solc,
            },
    {
        match self {
            CompilerVerificationContext::Solc(c) => &c.compiler_version,
            CompilerVerificationContext::ZkSolc(c) => &c.compiler_version.solc,
        }
    }

    /// The target artifact's interface out of the supplied compile
    /// output: the names of its functions, or an error when the target
    /// has no artifact there or the artifact carries no ABI.
    pub fn get_target_abi(&self, output: &BuildOutput) -> (r: Result<Vec<String>, CoreError>)
        ensures
            match r {
                Result::Ok(functions) => exists|i: int|
                    0 <= i < output@.artifacts.len() && {
                        let a = #[trigger] output@.artifacts[i];
                        &&& a.path == self.spec_target_path()
                        &&& a.name == self.spec_target_name()
                        &&& a.abi_functions == Option::Some(functions.deep_view())
                    },
                Result::Err(CoreError::TargetArtifactNotFound(n)) => n@ == self.spec_target_name()
                    && forall|i: int|
                    0 <= i < output@.artifacts.len() ==> !((#[trigger] output@.artifacts[i]).path
                        == self.spec_target_path() && output@.artifacts[i].name
                        == self.spec_target_name()),
                Result::Err(CoreError::TargetAbiMissing(n)) => n@ == self.spec_target_name() && exists|
                    i: int,
                |
                    0 <= i < output@.artifacts.len() && {
                        let a = #[trigger] output@.artifacts[i];
                        &&& a.path == self.spec_target_path()
                        &&& a.name == self.spec_target_name()
                        &&& a.abi_functions is None
                    },
                Result::Err(_) => false,
            },
    {
        let path = self.target_path();
        let name = self.target_name();
        match output.find(path.as_str(), name.as_str()) {
            Option::None => Result::Err(CoreError::TargetArtifactNotFound(name.clone())),
            Option::Some(artifact) => match &artifact.abi_functions {
                Option::Some(functions) => Result::Ok(clone_strings(functions)),
                Option::None => Result::Err(CoreError::TargetAbiMissing(name.clone())),
            },
        }
    }

    /// The paths the target's source imports, out of the supplied
    /// compile output.
    pub fn get_target_imports(&self, output: &BuildOutput) -> (r: Result<Vec<String>, CoreError>)
        ensures
            match r {
                Result::Ok(imports) => exists|i: int|
                    0 <= i < output@.artifacts.len() && {
                        let a = #[trigger] output@.artifacts[i];
                        &&& a.path == self.spec_target_path()
                        &&& a.name == self.spec_target_name()
                        &&& a.imports == imports.deep_view()
                    },
                Result::Err(CoreError::TargetArtifactNotFound(n)) => n@ == self.spec_target_name()
                    && forall|i: int|
                    0 <= i < output@.artifacts.len() ==> !((#[trigger] output@.artifacts[i]).path
                        == self.spec_target_path() && output@.artifacts[i].name
                        == self.spec_target_name()),
                Result::Err(_) => false,
            },
    {
        let path = self.target_path();
        let name = self.target_name();
        match output.find(path.as_str(), name.as_str()) {
            Option::None => Result::Err(CoreError::TargetArtifactNotFound(name.clone())),
            Option::Some(artifact) => Result::Ok(clone_strings(&artifact.imports)),
        }
    }

    /// The target artifact's metadata payload out of the supplied
    /// compile output, or an error when the target has no artifact
    /// there or the artifact carries none.
    pub fn get_target_metadata(&self, output: &BuildOutput) -> (r: Result<String, CoreError>)
        ensures
            match r {
                Result::Ok(metadata) => exists|i: int|
                    0 <= i < output@.artifacts.len() && {
                        let a = #[trigger] output@.artifacts[i];
                        &&& a.path == self.spec_target_path()
                        &&& a.name == self.spec_target_name()
                        &&& a.metadata == Option::Some(metadata@)
                    },
                Result::Err(CoreError::TargetArtifactNotFound(n)) => n@ == self.spec_target_name()
                    && forall|i: int|
                    0 <= i < output@.artifacts.len() ==> !((#[trigger] output@.artifacts[i]).path
                        == self.spec_target_path() && output@.artifacts[i].name
                        == self.spec_target_name()),
                Result::Err(CoreError::TargetMetadataMissing(n)) => n@ == self.spec_target_name()
                    && exists|i: int|
                    0 <= i < output@.artifacts.len() && {
                        let a = #[trigger] output@.artifacts[i];
                        &&& a.path == self.spec_target_path()
                        &&& a.name == self.spec_target_name()
                        &&& a.metadata is None
                    },
                Result::Err(_) => false,
            },
    {
        let path = self.target_path();
        let name = self.target_name();
        match output.find(path.as_str(), name.as_str()) {
            Option::None => Result::Err(CoreError::TargetArtifactNotFound(name.clone())),
            Option::Some(artifact) => match &artifact.metadata {
                Option::Some(metadata) => Result::Ok(metadata.clone()),
                Option::None => Result::Err(CoreError::TargetMetadataMissing(name.clone())),
            },
        }
    }
}

} // verus!
