//! Missing-library detection and the persisted cache: aggregation of
//! transitive misses in one pass, token validation, the target-file
//! filter and union merging.

use dualbuild::build_output::BuildArtifact;
use dualbuild::build_output::BuildOutput;
use dualbuild::build_output::Version;
use dualbuild::bytecode::BytecodeObject;
use dualbuild::errors::CoreError;
use dualbuild::missing::detect_missing;
use dualbuild::missing::MissingLibraryCache;
use dualbuild::missing::MissingLibraryRecord;

fn artifact(path: &str, name: &str, missing: &[&str]) -> BuildArtifact {
    BuildArtifact {
        name: name.to_string(),
        path: path.to_string(),
        build_id: "b1".to_string(),
        file_id: Some(1),
        version: Version { major: 0, minor: 8, patch: 20 },
        bytecode: Some(BytecodeObject::Bytecode(vec![1])),
        deployed_bytecode: Some(BytecodeObject::Bytecode(vec![2])),
        missing_libraries: missing.iter().map(|m| m.to_string()).collect(),
        abi_functions: None,
        imports: vec![],
        metadata: None,
    }
}

fn chain_output() -> BuildOutput {
    BuildOutput {
        artifacts: vec![
            artifact("src/X.sol", "X", &["src/L1.sol:L1"]),
            artifact("src/L1.sol", "L1", &["src/L2.sol:L2"]),
            artifact("src/L2.sol", "L2", &["src/L3.sol:L3"]),
            artifact("src/L3.sol", "L3", &[]),
        ],
        builds: vec![],
    }
}

#[test]
fn one_pass_surfaces_the_whole_dependency_chain() {
    let mut cache = MissingLibraryCache::new();
    let r = detect_missing(&chain_output(), &vec![], &mut cache);
    match r {
        Err(CoreError::MissingDependencies(list)) => {
            assert_eq!(list.len(), 3);
            assert!(list.contains(&"src/L1.sol:L1".to_string()));
            assert!(list.contains(&"src/L2.sol:L2".to_string()));
            assert!(list.contains(&"src/L3.sol:L3".to_string()));
        },
        other => panic!("expected the missing-dependency enumeration, got {:?}", other),
    }
    // The cache recorded each library with its own transitive misses.
    assert_eq!(cache.len(), 3);
    let mut seen_l1 = false;
    for i in 0..cache.len() {
        let record = cache.record_at(i);
        if record.contract_name == "L1" {
            seen_l1 = true;
            assert_eq!(record.contract_path, "src/L1.sol");
            assert_eq!(record.missing_libraries, vec!["src/L2.sol:L2".to_string()]);
        }
    }
    assert!(seen_l1);
}

#[test]
fn no_missing_libraries_is_success_and_keeps_the_cache() {
    let output = BuildOutput {
        artifacts: vec![artifact("src/X.sol", "X", &[])],
        builds: vec![],
    };
    let mut cache = MissingLibraryCache::new();
    assert!(detect_missing(&output, &vec![], &mut cache).is_ok());
    assert_eq!(cache.len(), 0);
}

#[test]
fn malformed_token_is_a_validation_error() {
    let output = BuildOutput {
        artifacts: vec![artifact("src/X.sol", "X", &["noseparator"])],
        builds: vec![],
    };
    let mut cache = MissingLibraryCache::new();
    let r = detect_missing(&output, &vec![], &mut cache);
    assert_eq!(r, Err(CoreError::MalformedLibraryToken("noseparator".to_string())));
    assert_eq!(cache.len(), 0);
}

#[test]
fn unresolvable_token_is_a_validation_error() {
    let output = BuildOutput {
        artifacts: vec![artifact("src/X.sol", "X", &["src/Gone.sol:Gone"])],
        builds: vec![],
    };
    let mut cache = MissingLibraryCache::new();
    let r = detect_missing(&output, &vec![], &mut cache);
    assert_eq!(r, Err(CoreError::UnknownLibraryArtifact("src/Gone.sol:Gone".to_string())));
    assert_eq!(cache.len(), 0);
}

#[test]
fn target_file_filter_ignores_out_of_scope_artifacts() {
    let mut cache = MissingLibraryCache::new();
    let files = vec!["src/Other.sol".to_string()];
    assert!(detect_missing(&chain_output(), &files, &mut cache).is_ok());
    assert_eq!(cache.len(), 0);
}

#[test]
fn cache_merge_is_union_per_contract() {
    let mut cache = MissingLibraryCache::new();
    cache.merge(&vec![MissingLibraryRecord {
        contract_path: "src/L1.sol".to_string(),
        contract_name: "L1".to_string(),
        missing_libraries: vec!["src/L2.sol:L2".to_string()],
    }]);
    cache.merge(&vec![MissingLibraryRecord {
        contract_path: "src/L1.sol".to_string(),
        contract_name: "L1".to_string(),
        missing_libraries: vec!["src/L2.sol:L2".to_string(), "src/L4.sol:L4".to_string()],
    }]);
    assert_eq!(cache.len(), 1);
    let record = cache.record_at(0);
    assert_eq!(
        record.missing_libraries,
        vec!["src/L2.sol:L2".to_string(), "src/L4.sol:L4".to_string()]
    );
}

#[test]
fn cache_keeps_what_it_learned_on_failure() {
    let mut cache = MissingLibraryCache::new();
    let _ = detect_missing(&chain_output(), &vec![], &mut cache);
    assert_eq!(cache.len(), 3);
    // A later clean round does not erase the records.
    let clean = BuildOutput {
        artifacts: vec![artifact("src/X.sol", "X", &[])],
        builds: vec![],
    };
    assert!(detect_missing(&clean, &vec![], &mut cache).is_ok());
    assert_eq!(cache.len(), 3);
}
