//! The compile-run builder: its flags, source selection, output
//! disposition and the size report it derives.

use dualbuild::build_output::BuildArtifact;
use dualbuild::build_output::Version;
use dualbuild::bytecode::BytecodeObject;
use dualbuild::bytecode::Segment;
use dualbuild::bytecode::UnlinkedBytecode;
use dualbuild::compiler::CompileDisposition;
use dualbuild::compiler::ProjectCompiler;
use dualbuild::compiler::SourceSelection;

fn artifact(name: &str, path: &str, deployed_len: usize, dev: bool) -> BuildArtifact {
    BuildArtifact {
        name: name.to_string(),
        path: path.to_string(),
        build_id: "b1".to_string(),
        file_id: Some(1),
        version: Version { major: 0, minor: 8, patch: 20 },
        bytecode: Some(BytecodeObject::Bytecode(vec![0u8; deployed_len + 7])),
        deployed_bytecode: Some(BytecodeObject::Bytecode(vec![0u8; deployed_len])),
        missing_libraries: vec![],
        abi_functions: Some(if dev {
            vec!["testSomething".to_string()]
        } else {
            vec!["transfer".to_string()]
        }),
        imports: vec![],
        metadata: None,
    }
}

#[test]
fn quiet_if_only_sets_quiet_when_asked() {
    let pc = ProjectCompiler::new().quiet_if(false);
    assert_eq!(pc.effective_quiet(), false);
    let pc = ProjectCompiler::new().quiet_if(true);
    assert_eq!(pc.effective_quiet(), true);
    let pc = ProjectCompiler::new().quiet(true).quiet_if(false);
    assert_eq!(pc.effective_quiet(), true);
}

#[test]
fn print_flags_default_off() {
    let pc = ProjectCompiler::new();
    assert!(!pc.effective_print_names());
    assert!(!pc.effective_print_sizes());
    let pc = pc.print_names(true).print_sizes(true);
    assert!(pc.effective_print_names());
    assert!(pc.effective_print_sizes());
}

#[test]
fn source_selection_rules() {
    let pc = ProjectCompiler::new();
    assert_eq!(pc.select_sources(false), SourceSelection::NothingToCompile);
    assert_eq!(pc.select_sources(true), SourceSelection::UseProjectPaths);
    let pc = pc.files(vec!["src/C.sol".to_string()]);
    assert_eq!(pc.select_sources(false), SourceSelection::UseGivenFiles);
    assert_eq!(pc.select_sources(true), SourceSelection::UseGivenFiles);
    assert_eq!(pc.extra_files(), &vec!["src/C.sol".to_string()]);
}

#[test]
fn disposition_bails_on_errors_by_default() {
    let pc = ProjectCompiler::new();
    assert_eq!(pc.disposition(true, false), CompileDisposition::Abort);
    let pc = ProjectCompiler::new().bail(false);
    assert_eq!(pc.disposition(true, false), CompileDisposition::ReportFull);
}

#[test]
fn disposition_reporting_modes() {
    let pc = ProjectCompiler::new();
    assert_eq!(pc.disposition(false, true), CompileDisposition::ReportUnchanged);
    assert_eq!(pc.disposition(false, false), CompileDisposition::ReportFull);
    let pc = ProjectCompiler::new().quiet(true);
    assert_eq!(pc.disposition(false, false), CompileDisposition::Silent);
}

#[test]
fn size_report_classifies_and_measures() {
    let pc = ProjectCompiler::new().print_sizes(true);
    let report = pc.size_report(&vec![
        artifact("Token", "src/Token.sol", 1000, false),
        artifact("TokenTest", "test/Token.t.sol", 30_000, true),
    ]);
    assert!(!report.zksync);
    assert_eq!(report.max_size(), 1000);
    assert!(!report.exceeds_size_limit());
}

#[test]
fn size_report_skips_vendored_std_contracts() {
    let pc = ProjectCompiler::new();
    let report = pc.size_report(&vec![
        artifact("Test", "lib/forge-std/src/Test.sol", 50_000, false),
        artifact("Token", "src/Token.sol", 1000, false),
    ]);
    assert_eq!(report.contracts.len(), 1);
    assert_eq!(report.max_size(), 1000);
}

#[test]
fn zksync_size_report_uses_creation_bytes() {
    let pc = ProjectCompiler::new().zksync_sizes();
    let report = pc.size_report(&vec![artifact("Token", "src/Token.sol", 1000, false)]);
    assert!(report.zksync);
    // The alternate target measures the creation bytecode.
    assert_eq!(report.max_size(), 1007);
}

#[test]
fn zksync_size_report_sizes_unlinked_text_from_hex() {
    // Creation bytecode still carrying a placeholder is sized from its
    // textual hex representation: character count over two, the
    // placeholder as wide as an address.
    let mut unlinked = artifact("Token", "src/Token.sol", 10, false);
    unlinked.bytecode = Some(BytecodeObject::Unlinked(UnlinkedBytecode {
        prefixed: false,
        segments: vec![
            Segment::Hex("60016002".to_string()),
            Segment::Placeholder("src/Lib.sol:Lib".to_string()),
        ],
    }));
    let report = ProjectCompiler::new().zksync_sizes().size_report(&vec![unlinked]);
    assert_eq!(report.max_size(), (8 + 40) / 2);
}

#[test]
fn version_order_is_lexicographic() {
    let a = Version { major: 0, minor: 8, patch: 20 };
    let b = Version { major: 0, minor: 9, patch: 0 };
    let c = Version { major: 1, minor: 0, patch: 0 };
    assert!(a.lt(&b));
    assert!(b.lt(&c));
    assert!(!c.lt(&a));
    assert!(!a.lt(&a));
}
