//! The dual-artifact registry: idempotent registration and counterpart
//! lookup.

use dualbuild::registry::BytecodeHash;
use dualbuild::registry::DualArtifactEntry;
use dualbuild::registry::DualArtifactRegistry;
use dualbuild::registry::RegisterOutcome;
use dualbuild::registry::Target;

fn hash(n: u64) -> BytecodeHash {
    BytecodeHash { w0: n, w1: n ^ 1, w2: n ^ 2, w3: n ^ 3 }
}

fn entry(name: &str, evm: u64, zk: u64) -> DualArtifactEntry {
    DualArtifactEntry {
        name: name.to_string(),
        zk_bytecode_hash: hash(zk),
        zk_deployed_bytecode: vec![0xfe, zk as u8],
        zk_factory_deps: vec![],
        evm_bytecode_hash: hash(evm),
        evm_deployed_bytecode: vec![0x60, evm as u8],
        evm_bytecode: vec![0x60, 0x80],
    }
}

#[test]
fn registry_grows_by_one_per_distinct_key() {
    let mut registry = DualArtifactRegistry::new();
    assert_eq!(registry.register(entry("A", 1, 2)), RegisterOutcome::Added);
    assert_eq!(registry.len(), 1);
    assert_eq!(registry.register(entry("B", 3, 4)), RegisterOutcome::Added);
    assert_eq!(registry.len(), 2);
    // Same primary hash but a different alternate hash is a new key.
    assert_eq!(registry.register(entry("C", 1, 5)), RegisterOutcome::Added);
    assert_eq!(registry.len(), 3);
}

#[test]
fn reregistering_an_identical_pair_leaves_size_unchanged() {
    let mut registry = DualArtifactRegistry::new();
    assert_eq!(registry.register(entry("A", 1, 2)), RegisterOutcome::Added);
    assert_eq!(registry.register(entry("A", 1, 2)), RegisterOutcome::AlreadyRegistered);
    // The same key under another name is still a duplicate.
    assert_eq!(registry.register(entry("Other", 1, 2)), RegisterOutcome::AlreadyRegistered);
    assert_eq!(registry.len(), 1);
    assert_eq!(registry.entry_at(0).name, "A");
}

#[test]
fn lookup_counterpart_by_either_side() {
    let mut registry = DualArtifactRegistry::new();
    registry.register(entry("A", 1, 2));
    registry.register(entry("B", 3, 4));

    let by_evm = registry.lookup_counterpart(&hash(3), Target::Evm).expect("known primary hash");
    assert_eq!(by_evm.name, "B");
    assert_eq!(by_evm.zk_bytecode_hash, hash(4));

    let by_zk = registry.lookup_counterpart(&hash(2), Target::Zk).expect("known alternate hash");
    assert_eq!(by_zk.name, "A");
    assert_eq!(by_zk.evm_bytecode_hash, hash(1));

    assert!(registry.lookup_counterpart(&hash(9), Target::Evm).is_none());
    // A hash known on one side only is not found on the other.
    assert!(registry.lookup_counterpart(&hash(2), Target::Evm).is_none());
}

#[test]
fn find_by_name_returns_first_registration() {
    let mut registry = DualArtifactRegistry::new();
    registry.register(entry("A", 1, 2));
    registry.register(entry("A", 5, 6));
    let found = registry.find_by_name("A").expect("registered name");
    assert_eq!(found.evm_bytecode_hash, hash(1));
    assert!(registry.find_by_name("Missing").is_none());
}
