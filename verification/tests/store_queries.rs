//! The artifact and source store: ingestion, linking during ingestion,
//! source-text failures and the debugger queries.

use dualbuild::build_output::BuildArtifact;
use dualbuild::build_output::BuildOutput;
use dualbuild::build_output::BuildRecord;
use dualbuild::build_output::SourceLanguage;
use dualbuild::build_output::Version;
use dualbuild::bytecode::BytecodeObject;
use dualbuild::bytecode::Segment;
use dualbuild::bytecode::UnlinkedBytecode;
use dualbuild::errors::CoreError;
use dualbuild::linker::LibraryMap;
use dualbuild::store::ContractSources;

fn artifact(name: &str, path: &str, file_id: Option<u32>) -> BuildArtifact {
    BuildArtifact {
        name: name.to_string(),
        path: path.to_string(),
        build_id: "b1".to_string(),
        file_id,
        version: Version { major: 0, minor: 8, patch: 20 },
        bytecode: Some(BytecodeObject::Bytecode(vec![0x60, 0x80])),
        deployed_bytecode: Some(BytecodeObject::Bytecode(vec![0x60, 0x40])),
        missing_libraries: vec![],
        abi_functions: None,
        imports: vec![],
        metadata: None,
    }
}

fn output_with(artifacts: Vec<BuildArtifact>) -> BuildOutput {
    BuildOutput {
        artifacts,
        builds: vec![BuildRecord {
            build_id: "b1".to_string(),
            language: SourceLanguage::Solidity,
            source_id_to_path: vec![(1, "proj/src/C.sol".to_string())],
        }],
    }
}

fn contents() -> Vec<(String, String)> {
    vec![("proj/src/C.sol".to_string(), "contract C {}".to_string())]
}

#[test]
fn ingest_then_query_sources_by_name() {
    let mut store = ContractSources::new();
    let output = output_with(vec![artifact("C", "proj/src/C.sol", Some(1))]);
    assert!(store.insert(&output, "proj", None, &contents()).is_ok());

    let pairs = store.get_sources("C").expect("known contract name");
    assert_eq!(pairs.len(), 1);
    let (artifact_data, source_data) = &pairs[0];
    assert_eq!(artifact_data.build_id, "b1");
    assert_eq!(artifact_data.file_id, 1);
    assert_eq!(source_data.source, "contract C {}");
    assert_eq!(source_data.language, SourceLanguage::Solidity);
    assert_eq!(source_data.name, "src/C.sol");

    assert!(store.get_sources("Unknown").is_none());
}

#[test]
fn unreadable_source_aborts_and_leaves_store_untouched() {
    let mut store = ContractSources::new();
    let output = output_with(vec![artifact("C", "proj/src/C.sol", Some(1))]);
    let r = store.insert(&output, "proj", None, &vec![]);
    assert_eq!(r, Err(CoreError::SourceUnreadable("proj/src/C.sol".to_string())));
    assert_eq!(store.artifact_count(), 0);
    assert!(store.get_sources("C").is_none());
}

#[test]
fn artifacts_without_file_id_are_skipped_not_errors() {
    let mut store = ContractSources::new();
    let output = output_with(vec![artifact("IFace", "proj/src/C.sol", None)]);
    assert!(store.insert(&output, "proj", None, &contents()).is_ok());
    assert_eq!(store.artifact_count(), 0);
}

#[test]
fn ingestion_links_placeholders_with_supplied_addresses() {
    let address: String = std::iter::repeat('a').take(40).collect();
    let libraries = LibraryMap {
        entries: vec![("src/Lib.sol:Lib".to_string(), address.clone())],
    };
    let mut unlinked_artifact = artifact("C", "proj/src/C.sol", Some(1));
    unlinked_artifact.deployed_bytecode = Some(BytecodeObject::Unlinked(UnlinkedBytecode {
        prefixed: false,
        segments: vec![
            Segment::Hex("6001".to_string()),
            Segment::Placeholder("src/Lib.sol:Lib".to_string()),
        ],
    }));
    let mut store = ContractSources::new();
    let output = output_with(vec![unlinked_artifact]);
    assert!(store.insert(&output, "proj", Some(&libraries), &contents()).is_ok());

    let pairs = store.get_sources("C").expect("known contract name");
    match &pairs[0].0.bytecode.deployed_bytecode {
        BytecodeObject::Unlinked(u) => {
            assert_eq!(
                u.segments,
                vec![Segment::Hex("6001".to_string()), Segment::Hex(address)]
            );
        },
        other => panic!("expected unlinked text, got {:?}", other),
    }
}

#[test]
fn entries_lists_every_stored_artifact_with_its_source() {
    let output = output_with(vec![
        artifact("C", "proj/src/C.sol", Some(1)),
        artifact("D", "proj/src/C.sol", Some(1)),
    ]);
    let store = ContractSources::from_project_output(&output, "proj", None, &contents())
        .expect("readable sources");
    let all = store.entries();
    assert_eq!(all.len(), 2);
    assert_eq!(all[0].0, "C");
    assert_eq!(all[1].0, "D");
    assert_eq!(all[0].2.source, "contract C {}");
}

#[test]
fn reingestion_appends_artifacts_and_keeps_one_source_per_id() {
    let mut store = ContractSources::new();
    let output = output_with(vec![artifact("C", "proj/src/C.sol", Some(1))]);
    assert!(store.insert(&output, "proj", None, &contents()).is_ok());
    assert!(store.insert(&output, "proj", None, &contents()).is_ok());
    assert_eq!(store.artifact_count(), 2);
    let pairs = store.get_sources("C").expect("known contract name");
    assert_eq!(pairs.len(), 2);
    assert_eq!(store.entries().len(), 2);
}

#[test]
fn root_prefix_is_stripped_from_source_names() {
    let mut store = ContractSources::new();
    let mut output = output_with(vec![artifact("C", "other/C.sol", Some(1))]);
    output.builds[0].source_id_to_path = vec![(1, "other/C.sol".to_string())];
    let table = vec![("other/C.sol".to_string(), "contract C {}".to_string())];
    assert!(store.insert(&output, "proj", None, &table).is_ok());
    let pairs = store.get_sources("C").expect("known contract name");
    // The path is outside the project root, so it is kept as it is.
    assert_eq!(pairs[0].1.name, "other/C.sol");
}
