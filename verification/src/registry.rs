//! The dual-artifact registry.
//!
//! A contract compiled against both back ends is paired by bytecode-hash
//! identity: the key of an entry is its (primary hash, alternate hash)
//! pair. Registration is append-only and idempotent: a second
//! registration under an existing key is a no-op, never an error, so a
//! test that re-registers across iterations cannot fail on it.

use vstd::prelude::*;

use crate::text::str_eq;

verus! {

/// A 32-byte bytecode hash, held as four 64-bit words, most significant
/// first.
#[derive(Debug, Clone, Copy, PartialEq, Eq, Structural)]
pub struct BytecodeHash {
    pub w0: u64,
    pub w1: u64,
    pub w2: u64,
    pub w3: u64,
}

impl View for BytecodeHash {
    type V = BytecodeHash;

    open spec fn view(&self) -> BytecodeHash {
        *self
    }
}

impl DeepView for BytecodeHash {
    type V = BytecodeHash;

    open spec fn deep_view(&self) -> BytecodeHash {
        *self
    }
}

/// The two bytecode-producing back ends.
#[derive(Debug, Clone, Copy, PartialEq, Eq, Structural)]
pub enum Target {
    /// The primary execution target.
    Evm,
    /// The alternate execution target.
    Zk,
}

/// One contract's paired compiled outputs.
#[derive(Debug, Clone, PartialEq, Eq)]
pub struct DualArtifactEntry {
    /// Contract name.
    pub name: String,
    /// Hash of the alternate target's bytecode.
    pub zk_bytecode_hash: BytecodeHash,
    /// The alternate target's deployed bytecode.
    pub zk_deployed_bytecode: Vec<u8>,
    /// Hashes of the bytecodes the alternate artifact transitively
    /// references for deployment.
    pub zk_factory_deps: Vec<BytecodeHash>,
    /// Hash of the primary target's bytecode.
    pub evm_bytecode_hash: BytecodeHash,
    /// The primary target's deployed bytecode.
    pub evm_deployed_bytecode: Vec<u8>,
    /// The primary target's creation bytecode.
    pub evm_bytecode: Vec<u8>,
}

/// Ghost image of a [`DualArtifactEntry`].
pub ghost struct DualArtifactEntryView {
    pub name: Seq<char>,
    pub zk_bytecode_hash: BytecodeHash,
    pub zk_deployed_bytecode: Seq<u8>,
    pub zk_factory_deps: Seq<BytecodeHash>,
    pub evm_bytecode_hash: BytecodeHash,
    pub evm_deployed_bytecode: Seq<u8>,
    pub evm_bytecode: Seq<u8>,
}

impl View for DualArtifactEntry {
    type V = DualArtifactEntryView;

    open spec fn view(&self) -> DualArtifactEntryView {
        DualArtifactEntryView {
            name: self.name@,
            zk_bytecode_hash: self.zk_bytecode_hash,
            zk_deployed_bytecode: self.zk_deployed_bytecode@,
            zk_factory_deps: self.zk_factory_deps@,
            evm_bytecode_hash: self.evm_bytecode_hash,
            evm_deployed_bytecode: self.evm_deployed_bytecode@,
            evm_bytecode: self.evm_bytecode@,
        }
    }
}

impl DeepView for DualArtifactEntry {
    type V = DualArtifactEntryView;

    open spec fn deep_view(&self) -> DualArtifactEntryView {
        self.view()
    }
}

/// The entry's identity key matches the given hash pair.
pub open spec fn key_matches(e: DualArtifactEntryView, evm: BytecodeHash, zk: BytecodeHash) -> bool {
    e.evm_bytecode_hash == evm && e.zk_bytecode_hash == zk
}

/// Some entry carries the given identity key.
pub open spec fn has_key(
    s: Seq<DualArtifactEntryView>,
    evm: BytecodeHash,
    zk: BytecodeHash,
) -> bool {
    exists|i: int| 0 <= i < s.len() && key_matches(#[trigger] s[i], evm, zk)
}

/// The hash an entry carries for the given target.
pub open spec fn side_hash(e: DualArtifactEntryView, target: Target) -> BytecodeHash {
    match target {
        Target::Evm => e.evm_bytecode_hash,
        Target::Zk => e.zk_bytecode_hash,
    }
}

/// What a registration did.
#[derive(Debug, Clone, Copy, PartialEq, Eq, Structural)]
pub enum RegisterOutcome {
    /// The entry was appended.
    Added,
    /// An entry with the same identity key already existed; nothing
    /// changed.
    AlreadyRegistered,
}

/// The append-only catalog pairing each contract's two compiled forms.
#[derive(Debug, Clone)]
pub struct DualArtifactRegistry {
    entries: Vec<DualArtifactEntry>,
}

impl View for DualArtifactRegistry {
    type V = Seq<DualArtifactEntryView>;

    closed spec fn view(&self) -> Seq<DualArtifactEntryView> {
        self.entries.deep_view()
    }
}

impl DualArtifactRegistry {
    /// At most one entry per identity key.
    pub open spec fn wf(&self) -> bool {
        forall|i: int, j: int|
            0 <= i < j < self@.len() ==> !key_matches(
                #[trigger] self@[j],
                (#[trigger] self@[i]).evm_bytecode_hash,
                self@[i].zk_bytecode_hash,
            )
    }

    /// An empty registry.
    pub fn new() -> (r: DualArtifactRegistry)
        ensures
            r.wf(),
            r@.len() == 0,
    {
        DualArtifactRegistry { entries: Vec::new() }
    }

    /// Number of registered pairs.
    pub fn len(&self) -> (r: usize)
        ensures
            r == self@.len(),
    {
        self.entries.len()
    }

    /// The entry at the given position.
    pub fn entry_at(&self, i: usize) -> (r: &DualArtifactEntry)
        requires
            i < self@.len(),
        ensures
            r.deep_view() == self@[i as int],
    {
        &self.entries[i]
    }

    /// Registers a pair. Appends when the identity key is new; an entry
    /// under an existing key leaves the registry untouched. The registry
    /// grows by exactly one entry per registration under a fresh key and
    /// not at all otherwise.
    pub fn register(&mut self, entry: DualArtifactEntry) -> (r: RegisterOutcome)
        requires
            old(self).wf(),
        ensures
            final(self).wf(),
            (r is Added) == !has_key(
                old(self)@,
                entry@.evm_bytecode_hash,
                entry@.zk_bytecode_hash,
            ),
            r is Added ==> final(self)@ == old(self)@.push(entry@),
            r is AlreadyRegistered ==> final(self)@ == old(self)@,
            final(self)@.len() == old(self)@.len() + if r is Added {
                1int
            } else {
                0int
            },
    {
        let ghost s0 = self@;
        let mut i: usize = 0;
        while i < self.entries.len()
            invariant
                s0 == old(self)@,
                self@ == s0,
                self.wf(),
                i <= self.entries@.len(),
                self@.len() == self.entries@.len(),
                forall|j: int|
                    0 <= j < i ==> !key_matches(
                        #[trigger] s0[j],
                        entry@.evm_bytecode_hash,
                        entry@.zk_bytecode_hash,
                    ),
            decreases self.entries@.len() - i,
        {
            let e = &self.entries[i];
            if e.evm_bytecode_hash == entry.evm_bytecode_hash && e.zk_bytecode_hash
                == entry.zk_bytecode_hash {
                proof {
                    assert(key_matches(s0[i as int], entry@.evm_bytecode_hash,
                        entry@.zk_bytecode_hash));
                }
                return RegisterOutcome::AlreadyRegistered;
            }
            i += 1;
        }
        self.entries.push(entry);
        proof {
            assert(self@ =~= s0.push(entry@));
        }
        RegisterOutcome::Added
    }

    /// The entry whose hash on the given target matches, if any; the
    /// first match wins. The opposite side of the returned entry is the
    /// counterpart artifact for the crossing call.
    pub fn lookup_counterpart(&self, hash: &BytecodeHash, target: Target) -> (r: Option<
        &DualArtifactEntry,
    >)
        ensures
            match r {
                Option::Some(e) => exists|i: int|
                    0 <= i < self@.len() && e.deep_view() == self@[i] && side_hash(
                        #[trigger] self@[i],
                        target,
                    ) == *hash && forall|j: int|
                        0 <= j < i ==> side_hash(#[trigger] self@[j], target) != *hash,
                Option::None => forall|j: int|
                    0 <= j < self@.len() ==> side_hash(#[trigger] self@[j], target) != *hash,
            },
    {
        let mut i: usize = 0;
        while i < self.entries.len()
            invariant
                i <= self.entries@.len(),
                self@.len() == self.entries@.len(),
                forall|j: int| 0 <= j < i ==> side_hash(#[trigger] self@[j], target) != *hash,
            decreases self.entries@.len() - i,
        {
            let e = &self.entries[i];
            let matched = match target {
                Target::Evm => e.evm_bytecode_hash == *hash,
                Target::Zk => e.zk_bytecode_hash == *hash,
            };
            if matched {
                proof {
                    assert(side_hash(self@[i as int], target) == *hash);
                }
                return Option::Some(e);
            }
            i += 1;
        }
        Option::None
    }

    /// The first entry registered under the given contract name, if any.
    pub fn find_by_name(&self, name: &str) -> (r: Option<&DualArtifactEntry>)
        ensures
            match r {
                Option::Some(e) => exists|i: int|
                    0 <= i < self@.len() && e.deep_view() == self@[i] && (#[trigger] self@[i]).name
                        == name@,
                Option::None => forall|i: int|
                    0 <= i < self@.len() ==> (#[trigger] self@[i]).name != name@,
            },
    {
        let mut i: usize = 0;
        while i < self.entries.len()
            invariant
                i <= self.entries@.len(),
                self@.len() == self.entries@.len(),
                forall|j: int| 0 <= j < i ==> (#[trigger] self@[j]).name != name@,
            decreases self.entries@.len() - i,
        {
            let e = &self.entries[i];
            if str_eq(e.name.as_str(), name) {
                proof {
                    assert(self@[i as int].name == name@);
                }
                return Option::Some(e);
            }
            i += 1;
        }
        Option::None
    }
}

} // verus!
