//! Size validation: per-target size computation, dev-contract
//! classification and limit checks.

use dualbuild::build_output::BuildArtifact;
use dualbuild::build_output::Version;
use dualbuild::bytecode::BytecodeObject;
use dualbuild::bytecode::Segment;
use dualbuild::bytecode::UnlinkedBytecode;
use dualbuild::size::classify_dev_contract;
use dualbuild::size::deployed_contract_size;
use dualbuild::size::is_dev_function_name;
use dualbuild::size::ContractInfo;
use dualbuild::size::SizeReport;
use dualbuild::size::CONTRACT_SIZE_LIMIT;
use dualbuild::size::ZKSYNC_CONTRACT_SIZE_LIMIT;

fn artifact_with_deployed(deployed: BytecodeObject) -> BuildArtifact {
    BuildArtifact {
        name: "C".to_string(),
        path: "src/C.sol".to_string(),
        build_id: "b1".to_string(),
        file_id: Some(1),
        version: Version { major: 0, minor: 8, patch: 20 },
        bytecode: Some(BytecodeObject::Bytecode(vec![0x60])),
        deployed_bytecode: Some(deployed),
        missing_libraries: vec![],
        abi_functions: Some(vec![]),
        imports: vec![],
        metadata: None,
    }
}

#[test]
fn compute_size_of_prefixed_hex_text() {
    // A hex string of 24578 characters, the `0x` prefix included,
    // sizes to exactly (24578 - 2) / 2 bytes.
    let hex_chars: String = std::iter::repeat('a').take(24576).collect();
    let unlinked = UnlinkedBytecode { prefixed: true, segments: vec![Segment::Hex(hex_chars)] };
    assert_eq!(unlinked.hex_len(), 24578);
    let artifact = artifact_with_deployed(BytecodeObject::Unlinked(unlinked));
    assert_eq!(deployed_contract_size(&artifact), Some(12288));
}

#[test]
fn compute_size_counts_placeholder_as_address_width() {
    let unlinked = UnlinkedBytecode {
        prefixed: false,
        segments: vec![
            Segment::Hex("60016002".to_string()),
            Segment::Placeholder("src/Lib.sol:Lib".to_string()),
        ],
    };
    let artifact = artifact_with_deployed(BytecodeObject::Unlinked(unlinked));
    assert_eq!(deployed_contract_size(&artifact), Some((8 + 40) / 2));
}

#[test]
fn compute_size_of_resolved_bytes() {
    let artifact = artifact_with_deployed(BytecodeObject::Bytecode(vec![0u8; 321]));
    assert_eq!(deployed_contract_size(&artifact), Some(321));
}

#[test]
fn compute_size_none_without_deployed_bytecode() {
    let mut artifact = artifact_with_deployed(BytecodeObject::Bytecode(vec![]));
    artifact.deployed_bytecode = None;
    assert_eq!(deployed_contract_size(&artifact), None);
}

#[test]
fn dev_function_name_convention() {
    assert!(is_dev_function_name("testTransfer"));
    assert!(is_dev_function_name("invariantBalance"));
    assert!(is_dev_function_name("statefulFuzzRun"));
    assert!(is_dev_function_name("setUp"));
    assert!(is_dev_function_name("IS_TEST"));
    assert!(is_dev_function_name("IS_SCRIPT"));
    assert!(!is_dev_function_name("transfer"));
    assert!(!is_dev_function_name("setup"));
}

#[test]
fn classify_dev_contract_any_match() {
    assert!(classify_dev_contract(&vec!["transfer".to_string(), "testFoo".to_string()]));
    assert!(!classify_dev_contract(&vec!["transfer".to_string(), "approve".to_string()]));
    assert!(!classify_dev_contract(&vec![]));
}

#[test]
fn max_size_excludes_dev_contracts() {
    let mut report = SizeReport::new(false);
    report.insert_contract(
        "BigTest".to_string(),
        ContractInfo { size: 1_000_000, is_dev_contract: true },
    );
    report.insert_contract("Small".to_string(), ContractInfo { size: 100, is_dev_contract: false });
    assert_eq!(report.max_size(), 100);
    assert!(!report.exceeds_size_limit());
}

#[test]
fn exceeds_is_strict_at_the_limit() {
    let mut at_limit = SizeReport::new(false);
    at_limit.insert_contract(
        "C".to_string(),
        ContractInfo { size: CONTRACT_SIZE_LIMIT, is_dev_contract: false },
    );
    assert!(!at_limit.exceeds_size_limit());

    let mut over = SizeReport::new(false);
    over.insert_contract(
        "C".to_string(),
        ContractInfo { size: CONTRACT_SIZE_LIMIT + 1, is_dev_contract: false },
    );
    assert!(over.exceeds_size_limit());
}

#[test]
fn exceeds_uses_the_alternate_limit_when_selected() {
    let mut report = SizeReport::new(true);
    report.insert_contract(
        "C".to_string(),
        ContractInfo { size: CONTRACT_SIZE_LIMIT + 1, is_dev_contract: false },
    );
    assert!(!report.exceeds_size_limit());
    report.insert_contract(
        "D".to_string(),
        ContractInfo { size: ZKSYNC_CONTRACT_SIZE_LIMIT + 1, is_dev_contract: false },
    );
    assert!(report.exceeds_size_limit());
}

#[test]
fn insert_contract_overwrites_by_name() {
    let mut report = SizeReport::new(false);
    report.insert_contract("C".to_string(), ContractInfo { size: 30_000, is_dev_contract: false });
    report.insert_contract("C".to_string(), ContractInfo { size: 10, is_dev_contract: false });
    assert_eq!(report.max_size(), 10);
    assert_eq!(report.contracts.len(), 1);
}
