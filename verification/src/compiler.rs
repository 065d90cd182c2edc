//! The compile-run configuration and its decisions.
//!
//! `ProjectCompiler` is the builder the host configures before a
//! compile run. Invoking the compiler toolchain, reading sources and
//! printing are the host's business; this module holds the decisions:
//! which sources a run takes, what to do with a finished output, and
//! the size report the run derives from the produced artifacts.

use vstd::prelude::*;

use crate::build_output::artifact_wf;
use crate::build_output::BuildArtifact;
use crate::build_output::BuildArtifactView;
use crate::bytecode::object_size;
use crate::bytecode::BytecodeObjectView;
use crate::size::classify_dev_contract;
use crate::size::spec_is_dev_contract;
use crate::size::ContractInfo;
use crate::size::SizeReport;
use crate::text::seq_contains_str;
use crate::text::str_contains;

verus! {

/// The value of an optional flag, or its default.
pub open spec fn flag_or(o: Option<bool>, default: bool) -> bool {
    match o {
        Option::Some(b) => b,
        Option::None => default,
    }
}

/// Builder configuring how to compile a project.
#[derive(Debug, Clone)]
pub struct ProjectCompiler {
    verify: Option<bool>,
    print_names: Option<bool>,
    print_sizes: Option<bool>,
    quiet: Option<bool>,
    bail: Option<bool>,
    files: Vec<String>,
    zksync: bool,
}

/// Ghost image of a [`ProjectCompiler`].
pub ghost struct ProjectCompilerView {
    pub verify: Option<bool>,
    pub print_names: Option<bool>,
    pub print_sizes: Option<bool>,
    pub quiet: Option<bool>,
    pub bail: Option<bool>,
    pub files: Seq<Seq<char>>,
    pub zksync: bool,
}

impl View for ProjectCompiler {
    type V = ProjectCompilerView;

    closed spec fn view(&self) -> ProjectCompilerView {
        ProjectCompilerView {
            verify: self.verify,
            print_names: self.print_names,
            print_sizes: self.print_sizes,
            quiet: self.quiet,
            bail: self.bail,
            files: self.files.deep_view(),
            zksync: self.zksync,
        }
    }
}

/// What a finished compile run does with its output.
#[derive(Debug, Clone, Copy, PartialEq, Eq, Structural)]
pub enum CompileDisposition {
    /// Compiler errors and bailing configured: the run fails.
    Abort,
    /// Quiet: nothing is reported.
    Silent,
    /// Nothing changed: report that compilation was skipped.
    ReportUnchanged,
    /// Report the full output, then names and sizes as configured.
    ReportFull,
}

/// Which sources a compile run takes.
#[derive(Debug, Clone, Copy, PartialEq, Eq, Structural)]
pub enum SourceSelection {
    /// Neither project inputs nor extra files: nothing to compile.
    NothingToCompile,
    /// The extra files configured on the builder.
    UseGivenFiles,
    /// The project's own input files.
    UseProjectPaths,
}

impl Default for ProjectCompiler {
    fn default() -> (r: ProjectCompiler)
        ensures
            r@ == (ProjectCompilerView {
                verify: Option::None,
                print_names: Option::None,
                print_sizes: Option::None,
                quiet: Option::None,
                bail: Option::None,
                files: Seq::empty(),
                zksync: false,
            }),
    {
        ProjectCompiler::new()
    }
}

impl ProjectCompiler {
    /// Creates a new builder with the default settings. Whether the run
    /// is quiet is left unset; the host applies its output policy
    /// through [`Self::quiet`] or [`Self::quiet_if`].
    pub fn new() -> (r: ProjectCompiler)
        ensures
            r@ == (ProjectCompilerView {
                verify: Option::None,
                print_names: Option::None,
                print_sizes: Option::None,
                quiet: Option::None,
                bail: Option::None,
                files: Seq::empty(),
                zksync: false,
            }),
    {
        let r = ProjectCompiler {
            verify: Option::None,
            print_names: Option::None,
            print_sizes: Option::None,
            quiet: Option::None,
            bail: Option::None,
            files: Vec::new(),
            zksync: false,
        };
        proof {
            assert(r@.files =~= Seq::<Seq<char>>::empty());
        }
        r
    }

    /// Sets whether the contracts are verified after compilation.
    pub fn verify(self, yes: bool) -> (r: ProjectCompiler)
        ensures
            r@ == (ProjectCompilerView { verify: Option::Some(yes), ..self@ }),
    {
        ProjectCompiler { verify: Option::Some(yes), ..self }
    }

    /// Sets whether contract names are printed.
    pub fn print_names(self, yes: bool) -> (r: ProjectCompiler)
        ensures
            r@ == (ProjectCompilerView { print_names: Option::Some(yes), ..self@ }),
    {
        ProjectCompiler { print_names: Option::Some(yes), ..self }
    }

    /// Sets whether contract sizes are printed.
    pub fn print_sizes(self, yes: bool) -> (r: ProjectCompiler)
        ensures
            r@ == (ProjectCompilerView { print_sizes: Option::Some(yes), ..self@ }),
    {
        ProjectCompiler { print_sizes: Option::Some(yes), ..self }
    }

    /// Sets whether to print anything at all; overrides the other print
    /// options.
    pub fn quiet(self, yes: bool) -> (r: ProjectCompiler)
        ensures
            r@ == (ProjectCompilerView { quiet: Option::Some(yes), ..self@ }),
    {
        ProjectCompiler { quiet: Option::Some(yes), ..self }
    }

    /// Makes the run quiet when `maybe` holds; otherwise changes
    /// nothing.
    pub fn quiet_if(self, maybe: bool) -> (r: ProjectCompiler)
        ensures
            maybe ==> r@ == (ProjectCompilerView { quiet: Option::Some(true), ..self@ }),
            !maybe ==> r@ == self@,
    {
        if maybe {
            ProjectCompiler { quiet: Option::Some(true), ..self }
        } else {
            self
        }
    }

    /// Sets whether to bail on compiler errors.
    pub fn bail(self, yes: bool) -> (r: ProjectCompiler)
        ensures
            r@ == (ProjectCompilerView { bail: Option::Some(yes), ..self@ }),
    {
        ProjectCompiler { bail: Option::Some(yes), ..self }
    }

    /// Adds extra files to compile that are not necessarily under the
    /// project's source directory.
    pub fn files(self, files: Vec<String>) -> (r: ProjectCompiler)
        ensures
            r@ == (ProjectCompilerView { files: self@.files + files.deep_view(), ..self@ }),
    {
        let mut this = self;
        let ghost f0 = this@.files;
        let mut i: usize = 0;
        while i < files.len()
            invariant
                i <= files@.len(),
                files.deep_view().len() == files@.len(),
                this@.files == f0 + files.deep_view().subrange(0, i as int),
                this@.verify == self@.verify,
                this@.print_names == self@.print_names,
                this@.print_sizes == self@.print_sizes,
                this@.quiet == self@.quiet,
                this@.bail == self@.bail,
                this@.zksync == self@.zksync,
            decreases files@.len() - i,
        {
            let ghost cur = this@.files;
            this.files.push(files[i].clone());
            proof {
                assert(this@.files =~= cur.push(files.deep_view()[i as int]));
                assert(this@.files =~= f0 + files.deep_view().subrange(0, i + 1 as int));
            }
            i += 1;
        }
        proof {
            assert(files.deep_view().subrange(0, files.deep_view().len() as int)
                =~= files.deep_view());
        }
        this
    }

    /// Enables the alternate target's contract sizes.
    pub fn zksync_sizes(self) -> (r: ProjectCompiler)
        ensures
            r@ == (ProjectCompilerView { zksync: true, ..self@ }),
    {
        ProjectCompiler { zksync: true, ..self }
    }

    /// The extra files configured on the builder.
    pub fn extra_files(&self) -> (r: &Vec<String>)
        ensures
            r.deep_view() == self@.files,
    {
        &self.files
    }

    /// Whether the run is quiet; unset means not quiet.
    pub fn effective_quiet(&self) -> (r: bool)
        ensures
            r == flag_or(self@.quiet, false),
    {
        match self.quiet {
            Option::Some(b) => b,
            Option::None => false,
        }
    }

    /// Whether contract names are printed; unset means not.
    pub fn effective_print_names(&self) -> (r: bool)
        ensures
            r == flag_or(self@.print_names, false),
    {
        match self.print_names {
            Option::Some(b) => b,
            Option::None => false,
        }
    }

    /// Whether contract sizes are printed; unset means not.
    pub fn effective_print_sizes(&self) -> (r: bool)
        ensures
            r == flag_or(self@.print_sizes, false),
    {
        match self.print_sizes {
            Option::Some(b) => b,
            Option::None => false,
        }
    }

    /// Which sources the run takes: nothing when the project has no
    /// input files and no extra files were given; the extra files when
    /// any were given; the project's inputs otherwise.
    pub fn select_sources(&self, project_has_input_files: bool) -> (r: SourceSelection)
        ensures
            r == if !project_has_input_files && self@.files.len() == 0 {
                SourceSelection::NothingToCompile
            } else if self@.files.len() > 0 {
                SourceSelection::UseGivenFiles
            } else {
                SourceSelection::UseProjectPaths
            },
    {
        if !project_has_input_files && self.files.len() == 0 {
            SourceSelection::NothingToCompile
        } else if self.files.len() > 0 {
            SourceSelection::UseGivenFiles
        } else {
            SourceSelection::UseProjectPaths
        }
    }

    /// What a finished run does with its output: fail when bailing on
    /// errors (the default) and the output has any; stay silent when
    /// quiet; otherwise report, noting when nothing changed.
    pub fn disposition(&self, has_compiler_errors: bool, is_unchanged: bool) -> (r:
        CompileDisposition)
        ensures
            r == if flag_or(self@.bail, true) && has_compiler_errors {
                CompileDisposition::Abort
            } else if flag_or(self@.quiet, false) {
                CompileDisposition::Silent
            } else if is_unchanged {
                CompileDisposition::ReportUnchanged
            } else {
                CompileDisposition::ReportFull
            },
    {
        let bail = match self.bail {
            Option::Some(b) => b,
            Option::None => true,
        };
        if bail && has_compiler_errors {
            CompileDisposition::Abort
        } else if self.effective_quiet() {
            CompileDisposition::Silent
        } else if is_unchanged {
            CompileDisposition::ReportUnchanged
        } else {
            CompileDisposition::ReportFull
        }
    }

    /// Builds the size report over the produced artifacts, as
    /// [`report_contracts`] describes.
    pub fn size_report(&self, artifacts: &Vec<BuildArtifact>) -> (r: SizeReport)
        requires
            forall|i: int|
                0 <= i < artifacts.deep_view().len() ==> artifact_wf(
                    #[trigger] artifacts.deep_view()[i],
                ),
        ensures
            r.wf(),
            r@.zksync == self@.zksync,
            r.contracts_map() == report_contracts(artifacts.deep_view(), self@.zksync),
    {
        let ghost av = artifacts.deep_view();
        let ghost zk = self@.zksync;
        let mut report = SizeReport::new(self.zksync);
        proof {
            assert(report.contracts_map() =~= Map::<Seq<char>, ContractInfo>::empty());
            assert(av.subrange(0, 0) =~= Seq::<BuildArtifactView>::empty());
        }
        let mut i: usize = 0;
        while i < artifacts.len()
            invariant
                av == artifacts.deep_view(),
                zk == self@.zksync,
                forall|x: int| 0 <= x < av.len() ==> artifact_wf(#[trigger] av[x]),
                i <= artifacts@.len(),
                av.len() == artifacts@.len(),
                report.wf(),
                report@.zksync == zk,
                report.contracts_map() == report_contracts(av.subrange(0, i as int), zk),
            decreases artifacts@.len() - i,
        {
            let artifact = &artifacts[i];
            proof {
                assert(artifact.deep_view() == av[i as int]);
                assert(av.subrange(0, i + 1 as int).drop_last() =~= av.subrange(0, i as int));
                assert(av.subrange(0, i + 1 as int).last() == av[i as int]);
            }
            if !str_contains(artifact.path.as_str(), "/forge-std/src/") {
                let size = report_size(artifact, self.zksync);
                let is_dev_contract = match &artifact.abi_functions {
                    Option::Some(functions) => classify_dev_contract(functions),
                    Option::None => false,
                };
                proof {
                    assert(size == artifact_report_size(av[i as int], zk));
                    assert(is_dev_contract == artifact_is_dev(av[i as int]));
                }
                report.insert_contract(
                    artifact.name.clone(),
                    ContractInfo { size, is_dev_contract },
                );
            }
            i += 1;
        }
        proof {
            assert(av.subrange(0, av.len() as int) =~= av);
        }
        report
    }
}

/// The size a report records for an artifact, computed per target: the
/// creation bytecode's size on the alternate target, the deployed
/// bytecode's on the primary one, and zero when the bytecode in
/// question was not emitted. Bytecode still containing placeholders is
/// sized from its textual hex representation, like any other bytecode
/// object.
pub open spec fn artifact_report_size(a: BuildArtifactView, zksync: bool) -> usize {
    if zksync {
        match a.bytecode {
            Option::Some(o) => object_size(o) as usize,
            Option::None => 0,
        }
    } else {
        match a.deployed_bytecode {
            Option::Some(o) => object_size(o) as usize,
            Option::None => 0,
        }
    }
}

/// The recorded size of one artifact, per [`artifact_report_size`].
fn report_size(artifact: &BuildArtifact, zksync: bool) -> (r: usize)
    requires
        artifact_wf(artifact@),
    ensures
        r == artifact_report_size(artifact@, zksync),
{
    if zksync {
        match &artifact.bytecode {
            Option::Some(o) => {
                return o.size();
            },
            Option::None => {
                return 0;
            },
        }
    }
    match crate::size::deployed_contract_size(artifact) {
        Option::Some(s) => s,
        Option::None => 0,
    }
}

/// An artifact marks a dev contract iff its interface says so; one
/// without an ABI does not.
pub open spec fn artifact_is_dev(a: BuildArtifactView) -> bool {
    match a.abi_functions {
        Option::Some(functions) => spec_is_dev_contract(functions),
        Option::None => false,
    }
}

/// Whether an artifact is left out of the size report: vendored
/// standard-library contracts are.
pub open spec fn skip_in_report(a: BuildArtifactView) -> bool {
    seq_contains_str(a.path, "/forge-std/src/"@)
}

/// The contracts of the size report, name-keyed, a later artifact under
/// the same name winning.
pub open spec fn report_contracts(arts: Seq<BuildArtifactView>, zksync: bool) -> Map<
    Seq<char>,
    ContractInfo,
>
    decreases arts.len(),
{
    if arts.len() == 0 {
        Map::empty()
    } else {
        let m = report_contracts(arts.drop_last(), zksync);
        let a = arts.last();
        if skip_in_report(a) {
            m
        } else {
            m.insert(
                a.name,
                ContractInfo {
                    size: artifact_report_size(a, zksync),
                    is_dev_contract: artifact_is_dev(a),
                },
            )
        }
    }
}

} // verus!
