//! The caller-supplied model of one build round's output.
//!
//! Invoking the compiler toolchains and parsing their raw output are the
//! host's business; the core only aggregates the results it is fed. A
//! build output lists the produced artifacts and, per build, the table
//! mapping source ids to source paths.

use vstd::prelude::*;

use crate::bytecode::object_wf;
use crate::bytecode::BytecodeObject;
use crate::bytecode::BytecodeObjectView;
use crate::text::str_eq;

verus! {

/// A compiler version as the three numeric components.
#[derive(Debug, Clone, Copy, PartialEq, Eq, Structural)]
pub struct Version {
    pub major: u64,
    pub minor: u64,
    pub patch: u64,
}

/// Strict lexicographic order on versions.
pub open spec fn version_lt(a: Version, b: Version) -> bool {
    ||| a.major < b.major
    ||| (a.major == b.major && a.minor < b.minor)
    ||| (a.major == b.major && a.minor == b.minor && a.patch < b.patch)
}

impl Version {
    /// Strict lexicographic comparison.
    pub fn lt(&self, other: &Version) -> (r: bool)
        ensures
            r == version_lt(*self, *other),
    {
        if self.major != other.major {
            self.major < other.major
        } else if self.minor != other.minor {
            self.minor < other.minor
        } else {
            self.patch < other.patch
        }
    }
}

/// The language tag a build attaches to its sources.
#[derive(Debug, Clone, Copy, PartialEq, Eq, Structural)]
pub enum SourceLanguage {
    Solidity,
    Yul,
    Vyper,
}

/// One artifact identity produced by a build round.
#[derive(Debug, Clone, PartialEq, Eq)]
pub struct BuildArtifact {
    /// Contract name.
    pub name: String,
    /// Source path, relative to the project root.
    pub path: String,
    /// The build that produced the artifact.
    pub build_id: String,
    /// Source file id within the build; absent for intentionally partial
    /// outputs such as interfaces.
    pub file_id: Option<u32>,
    /// Version of the compiler that produced the artifact.
    pub version: Version,
    /// Creation bytecode, when emitted.
    pub bytecode: Option<BytecodeObject>,
    /// Deployed bytecode, when emitted.
    pub deployed_bytecode: Option<BytecodeObject>,
    /// The compiler's own list of unresolved `path:name` library tokens.
    pub missing_libraries: Vec<String>,
    /// Names of the functions the artifact's interface exposes; absent
    /// when the artifact carries no ABI.
    pub abi_functions: Option<Vec<String>>,
    /// Paths imported by the artifact's source.
    pub imports: Vec<String>,
    /// Opaque metadata payload, when emitted.
    pub metadata: Option<String>,
}

/// Ghost image of a [`BuildArtifact`].
pub ghost struct BuildArtifactView {
    pub name: Seq<char>,
    pub path: Seq<char>,
    pub build_id: Seq<char>,
    pub file_id: Option<u32>,
    pub version: Version,
    pub bytecode: Option<BytecodeObjectView>,
    pub deployed_bytecode: Option<BytecodeObjectView>,
    pub missing_libraries: Seq<Seq<char>>,
    pub abi_functions: Option<Seq<Seq<char>>>,
    pub imports: Seq<Seq<char>>,
    pub metadata: Option<Seq<char>>,
}

impl View for BuildArtifact {
    type V = BuildArtifactView;

    open spec fn view(&self) -> BuildArtifactView {
        BuildArtifactView {
            name: self.name@,
            path: self.path@,
            build_id: self.build_id@,
            file_id: self.file_id,
            version: self.version,
            bytecode: self.bytecode.deep_view(),
            deployed_bytecode: self.deployed_bytecode.deep_view(),
            missing_libraries: self.missing_libraries.deep_view(),
            abi_functions: self.abi_functions.deep_view(),
            imports: self.imports.deep_view(),
            metadata: self.metadata.deep_view(),
        }
    }
}

impl DeepView for BuildArtifact {
    type V = BuildArtifactView;

    open spec fn deep_view(&self) -> BuildArtifactView {
        self.view()
    }
}

/// Well-formed artifact: its bytecode objects, where present, are.
pub open spec fn artifact_wf(a: BuildArtifactView) -> bool {
    &&& (a.bytecode matches Option::Some(o) ==> object_wf(o))
    &&& (a.deployed_bytecode matches Option::Some(o) ==> object_wf(o))
}

/// One build's source-id table.
#[derive(Debug, Clone, PartialEq, Eq)]
pub struct BuildRecord {
    pub build_id: String,
    pub language: SourceLanguage,
    /// Pairs of source id and source path, relative to the project root.
    pub source_id_to_path: Vec<(u32, String)>,
}

/// Ghost image of a [`BuildRecord`].
pub ghost struct BuildRecordView {
    pub build_id: Seq<char>,
    pub language: SourceLanguage,
    pub source_id_to_path: Seq<(u32, Seq<char>)>,
}

impl View for BuildRecord {
    type V = BuildRecordView;

    open spec fn view(&self) -> BuildRecordView {
        BuildRecordView {
            build_id: self.build_id@,
            language: self.language,
            source_id_to_path: self.source_id_to_path.deep_view(),
        }
    }
}

impl DeepView for BuildRecord {
    type V = BuildRecordView;

    open spec fn deep_view(&self) -> BuildRecordView {
        self.view()
    }
}

/// One build round's output, as the host hands it to the core.
#[derive(Debug, Clone, PartialEq, Eq)]
pub struct BuildOutput {
    pub artifacts: Vec<BuildArtifact>,
    pub builds: Vec<BuildRecord>,
}

/// Ghost image of a [`BuildOutput`].
pub ghost struct BuildOutputView {
    pub artifacts: Seq<BuildArtifactView>,
    pub builds: Seq<BuildRecordView>,
}

impl View for BuildOutput {
    type V = BuildOutputView;

    open spec fn view(&self) -> BuildOutputView {
        BuildOutputView { artifacts: self.artifacts.deep_view(), builds: self.builds.deep_view() }
    }
}

impl DeepView for BuildOutput {
    type V = BuildOutputView;

    open spec fn deep_view(&self) -> BuildOutputView {
        self.view()
    }
}

/// Well-formed output: artifacts are well formed, build ids are distinct,
/// and source ids are distinct within each build.
pub open spec fn output_wf(o: BuildOutputView) -> bool {
    &&& forall|i: int| 0 <= i < o.artifacts.len() ==> artifact_wf(#[trigger] o.artifacts[i])
    &&& forall|i: int, j: int|
        0 <= i < j < o.builds.len() ==> o.builds[i].build_id != o.builds[j].build_id
    &&& forall|b: int, i: int, j: int|
        0 <= b < o.builds.len() && 0 <= i < j < o.builds[b].source_id_to_path.len()
            ==> #[trigger] o.builds[b].source_id_to_path[i].0
            != #[trigger] o.builds[b].source_id_to_path[j].0
}

/// Index of the first artifact with the given source path and name, if
/// any.
pub open spec fn find_index(o: BuildOutputView, path: Seq<char>, name: Seq<char>) -> Option<int> {
    if exists|i: int|
        0 <= i < o.artifacts.len() && (#[trigger] o.artifacts[i]).path == path
            && o.artifacts[i].name == name {
        Option::Some(
            choose|i: int|
                0 <= i < o.artifacts.len() && (#[trigger] o.artifacts[i]).path == path
                    && o.artifacts[i].name == name,
        )
    } else {
        Option::None
    }
}

impl BuildOutput {
    /// The first artifact with the given source path and contract name.
    pub fn find(&self, path: &str, name: &str) -> (r: Option<&BuildArtifact>)
        ensures
            match r {
                Option::Some(a) => {
                    &&& a@.path == path@
                    &&& a@.name == name@
                    &&& exists|i: int|
                        0 <= i < self@.artifacts.len() && a.deep_view() == #[trigger] self@.artifacts[i]
                            && forall|j: int|
                            0 <= j < i ==> !((#[trigger] self@.artifacts[j]).path == path@
                                && self@.artifacts[j].name == name@)
                },
                Option::None => forall|i: int|
                    0 <= i < self@.artifacts.len() ==> !((#[trigger] self@.artifacts[i]).path
                        == path@ && self@.artifacts[i].name == name@),
            },
    {
        let mut i: usize = 0;
        while i < self.artifacts.len()
            invariant
                i <= self.artifacts@.len(),
                self@.artifacts.len() == self.artifacts@.len(),
                forall|j: int|
                    0 <= j < i ==> !((#[trigger] self@.artifacts[j]).path == path@
                        && self@.artifacts[j].name == name@),
            decreases self.artifacts@.len() - i,
        {
            let a = &self.artifacts[i];
            if str_eq(a.path.as_str(), path) && str_eq(a.name.as_str(), name) {
                proof {
                    assert(self.artifacts[i as int].deep_view() == self@.artifacts[i as int]);
                }
                return Option::Some(a);
            }
            i += 1;
        }
        Option::None
    }
}

} // verus!
