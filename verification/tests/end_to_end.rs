//! End to end: two build outputs for one contract ingested, the pair
//! registered by hash identity, and the alternate target's size report
//! staying under its limit.

use dualbuild::build_output::BuildArtifact;
use dualbuild::build_output::BuildOutput;
use dualbuild::build_output::BuildRecord;
use dualbuild::build_output::SourceLanguage;
use dualbuild::build_output::Version;
use dualbuild::bytecode::BytecodeObject;
use dualbuild::compiler::ProjectCompiler;
use dualbuild::registry::BytecodeHash;
use dualbuild::registry::DualArtifactEntry;
use dualbuild::registry::DualArtifactRegistry;
use dualbuild::registry::RegisterOutcome;
use dualbuild::registry::Target;
use dualbuild::store::ContractSources;

fn counter_artifact(build_id: &str, creation: Vec<u8>, deployed: Vec<u8>) -> BuildArtifact {
    BuildArtifact {
        name: "Counter".to_string(),
        path: "src/Counter.sol".to_string(),
        build_id: build_id.to_string(),
        file_id: Some(1),
        version: Version { major: 0, minor: 8, patch: 20 },
        bytecode: Some(BytecodeObject::Bytecode(creation)),
        deployed_bytecode: Some(BytecodeObject::Bytecode(deployed)),
        missing_libraries: vec![],
        abi_functions: Some(vec!["increment".to_string()]),
        imports: vec![],
        metadata: None,
    }
}

fn output_for(build_id: &str, artifact: BuildArtifact) -> BuildOutput {
    BuildOutput {
        artifacts: vec![artifact],
        builds: vec![BuildRecord {
            build_id: build_id.to_string(),
            language: SourceLanguage::Solidity,
            source_id_to_path: vec![(1, "src/Counter.sol".to_string())],
        }],
    }
}

#[test]
fn dual_build_register_and_validate_sizes() {
    let contents = vec![(
        "src/Counter.sol".to_string(),
        "contract Counter { uint256 n; }".to_string(),
    )];

    // Primary-target build round.
    let evm_artifact = counter_artifact("evm-1", vec![0x60; 2_000], vec![0x60; 1_500]);
    // Alternate-target build round: near the alternate limit but under it.
    let zk_artifact = counter_artifact("zk-1", vec![0xfe; 450_199], vec![0xfe; 450_199]);

    let mut store = ContractSources::new();
    assert!(store
        .insert(&output_for("evm-1", evm_artifact.clone()), "", None, &contents)
        .is_ok());
    assert!(store
        .insert(&output_for("zk-1", zk_artifact.clone()), "", None, &contents)
        .is_ok());
    assert_eq!(store.get_sources("Counter").expect("ingested contract").len(), 2);

    // Pair the two compiled forms by distinct bytecode hashes.
    let evm_hash = BytecodeHash { w0: 0xaaaa, w1: 1, w2: 2, w3: 3 };
    let zk_hash = BytecodeHash { w0: 0xbbbb, w1: 4, w2: 5, w3: 6 };
    let entry = DualArtifactEntry {
        name: "Counter".to_string(),
        zk_bytecode_hash: zk_hash,
        zk_deployed_bytecode: vec![0xfe; 32],
        zk_factory_deps: vec![],
        evm_bytecode_hash: evm_hash,
        evm_deployed_bytecode: vec![0x60; 32],
        evm_bytecode: vec![0x60; 16],
    };
    let mut registry = DualArtifactRegistry::new();
    assert_eq!(registry.register(entry.clone()), RegisterOutcome::Added);
    assert_eq!(registry.register(entry), RegisterOutcome::AlreadyRegistered);
    assert_eq!(registry.len(), 1);
    let counterpart = registry
        .lookup_counterpart(&evm_hash, Target::Evm)
        .expect("registered pair");
    assert_eq!(counterpart.zk_bytecode_hash, zk_hash);

    // The alternate target's size report: near 450,199 bytes and not
    // flagged against the 450,999 limit.
    let report = ProjectCompiler::new()
        .print_sizes(true)
        .zksync_sizes()
        .size_report(&vec![zk_artifact]);
    assert_eq!(report.max_size(), 450_199);
    assert!(!report.exceeds_size_limit());
}
