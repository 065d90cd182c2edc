//! Deployed-bytecode size validation.
//!
//! Sizes are computed per target, development contracts (test or script
//! tooling) are exempt from limit enforcement, and a report classifies
//! every contract of a build against the active target's fixed limit.

use vstd::prelude::*;

use crate::assoc::distinct_keys;
use crate::assoc::lemma_pairs_map_update;
use crate::assoc::pairs_map;
use crate::build_output::artifact_wf;
use crate::build_output::BuildArtifact;
use crate::bytecode::object_size;
use crate::text::str_eq;
use crate::text::str_starts_with;

verus! {

/// Size limit in bytes for deployed bytecode on the primary target.
pub const CONTRACT_SIZE_LIMIT: usize = 24576;

/// Size limit in bytes for deployed bytecode on the alternate target.
pub const ZKSYNC_CONTRACT_SIZE_LIMIT: usize = 450999;

/// How big a contract is and whether it is a dev contract whose size
/// limits can be neglected.
#[derive(Debug, Clone, Copy, PartialEq, Eq, Structural)]
pub struct ContractInfo {
    /// Size of the contract in bytes.
    pub size: usize,
    /// A development contract is either a script or a test contract.
    pub is_dev_contract: bool,
}

impl View for ContractInfo {
    type V = ContractInfo;

    open spec fn view(&self) -> ContractInfo {
        *self
    }
}

impl DeepView for ContractInfo {
    type V = ContractInfo;

    open spec fn deep_view(&self) -> ContractInfo {
        *self
    }
}

/// True iff the function name follows the test or script naming
/// convention that marks a contract as development tooling.
pub open spec fn spec_is_dev_fn(n: Seq<char>) -> bool {
    ||| "test"@.is_prefix_of(n)
    ||| "invariant"@.is_prefix_of(n)
    ||| "statefulFuzz"@.is_prefix_of(n)
    ||| n == "setUp"@
    ||| n == "IS_TEST"@
    ||| n == "IS_SCRIPT"@
}

/// Checks one function name against the dev-contract convention.
pub fn is_dev_function_name(name: &str) -> (r: bool)
    ensures
        r == spec_is_dev_fn(name@),
{
    str_starts_with(name, "test") || str_starts_with(name, "invariant") || str_starts_with(
        name,
        "statefulFuzz",
    ) || str_eq(name, "setUp") || str_eq(name, "IS_TEST") || str_eq(name, "IS_SCRIPT")
}

/// An interface marks a dev contract iff it exposes at least one
/// function matching the convention.
pub open spec fn spec_is_dev_contract(functions: Seq<Seq<char>>) -> bool {
    exists|i: int| 0 <= i < functions.len() && spec_is_dev_fn(#[trigger] functions[i])
}

/// Classifies an interface, given the names of its functions.
pub fn classify_dev_contract(functions: &Vec<String>) -> (r: bool)
    ensures
        r == spec_is_dev_contract(functions.deep_view()),
{
    let mut i: usize = 0;
    while i < functions.len()
        invariant
            i <= functions@.len(),
            functions.deep_view().len() == functions@.len(),
            forall|j: int| 0 <= j < i ==> !spec_is_dev_fn(#[trigger] functions.deep_view()[j]),
        decreases functions@.len() - i,
    {
        if is_dev_function_name(functions[i].as_str()) {
            proof {
                assert(functions.deep_view()[i as int] == functions@[i as int]@);
            }
            return true;
        }
        proof {
            assert(functions.deep_view()[i as int] == functions@[i as int]@);
        }
        i += 1;
    }
    false
}

/// Returns the size in bytes of the deployed contract, or `None` when
/// the artifact carries no deployed bytecode. For bytecode that still
/// contains placeholders the size is computed from the textual hex
/// representation; a placeholder takes exactly the width of a real
/// address, so nothing is mis-sized or double-counted.
pub fn deployed_contract_size(artifact: &BuildArtifact) -> (r: Option<usize>)
    requires
        artifact_wf(artifact@),
    ensures
        match artifact@.deployed_bytecode {
            Option::Some(o) => r matches Option::Some(s) && s == object_size(o),
            Option::None => r is None,
        },
{
    match &artifact.deployed_bytecode {
        Option::Some(o) => Option::Some(o.size()),
        Option::None => Option::None,
    }
}

/// The largest size among contracts that are not dev contracts; zero
/// when there is none.
pub open spec fn max_nondev_size(s: Seq<(Seq<char>, ContractInfo)>) -> nat
    decreases s.len(),
{
    if s.len() == 0 {
        0
    } else {
        let rest = max_nondev_size(s.drop_last());
        let info = s.last().1;
        if !info.is_dev_contract && info.size > rest {
            info.size as nat
        } else {
            rest
        }
    }
}

/// The maximum is an upper bound on every non-dev size and, when
/// positive, is attained by some non-dev contract.
pub proof fn lemma_max_nondev_size(s: Seq<(Seq<char>, ContractInfo)>)
    ensures
        forall|i: int|
            0 <= i < s.len() && !(#[trigger] s[i]).1.is_dev_contract ==> s[i].1.size
                <= max_nondev_size(s),
        max_nondev_size(s) == 0 || exists|i: int|
            0 <= i < s.len() && !(#[trigger] s[i]).1.is_dev_contract && s[i].1.size
                == max_nondev_size(s),
    decreases s.len(),
{
    if s.len() > 0 {
        lemma_max_nondev_size(s.drop_last());
        assert forall|i: int|
            0 <= i < s.len() && !(#[trigger] s[i]).1.is_dev_contract implies s[i].1.size
            <= max_nondev_size(s) by {
            if i < s.len() - 1 {
                assert(s.drop_last()[i] == s[i]);
            }
        }
        if max_nondev_size(s) != 0 {
            let info = s.last().1;
            if !info.is_dev_contract && info.size > max_nondev_size(s.drop_last()) {
                assert(s[s.len() - 1].1.size == max_nondev_size(s));
            } else {
                let j = choose|j: int|
                    0 <= j < s.drop_last().len() && !(#[trigger] s.drop_last()[j]).1.is_dev_contract
                        && s.drop_last()[j].1.size == max_nondev_size(s.drop_last());
                assert(s[j] == s.drop_last()[j]);
            }
        }
    }
}

/// A development contract never contributes to the maximum: recording
/// one, whatever its size, leaves the maximum unchanged.
pub proof fn lemma_dev_contract_exempt(
    s: Seq<(Seq<char>, ContractInfo)>,
    name: Seq<char>,
    info: ContractInfo,
)
    requires
        info.is_dev_contract,
    ensures
        max_nondev_size(s.push((name, info))) == max_nondev_size(s),
{
    assert(s.push((name, info)).drop_last() =~= s);
}

/// Contracts with info about their size, one entry per contract name.
#[derive(Debug, Clone)]
pub struct SizeReport {
    /// Contract name paired with its info; names are distinct.
    pub contracts: Vec<(String, ContractInfo)>,
    /// Whether the report validates against the alternate target's limit.
    pub zksync: bool,
}

/// Ghost image of a [`SizeReport`].
pub ghost struct SizeReportView {
    pub contracts: Seq<(Seq<char>, ContractInfo)>,
    pub zksync: bool,
}

impl View for SizeReport {
    type V = SizeReportView;

    open spec fn view(&self) -> SizeReportView {
        SizeReportView { contracts: self.contracts.deep_view(), zksync: self.zksync }
    }
}

impl SizeReport {
    /// Names are distinct.
    pub open spec fn wf(&self) -> bool {
        distinct_keys(self@.contracts)
    }

    /// The recorded contracts as a name-keyed map.
    pub open spec fn contracts_map(&self) -> Map<Seq<char>, ContractInfo> {
        pairs_map(self@.contracts)
    }

    /// An empty report for the given target.
    pub fn new(zksync: bool) -> (r: SizeReport)
        ensures
            r.wf(),
            r@.contracts.len() == 0,
            r@.zksync == zksync,
    {
        SizeReport { contracts: Vec::new(), zksync }
    }

    /// Records a contract; a second record under the same name replaces
    /// the first.
    pub fn insert_contract(&mut self, name: String, info: ContractInfo)
        requires
            old(self).wf(),
        ensures
            final(self).wf(),
            final(self).zksync == old(self).zksync,
            final(self).contracts_map() == old(self).contracts_map().insert(name@, info),
    {
        let ghost s0 = self@.contracts;
        let mut i: usize = 0;
        while i < self.contracts.len()
            invariant
                s0 == old(self)@.contracts,
                self@.contracts == s0,
                self.zksync == old(self).zksync,
                self.wf(),
                i <= self.contracts@.len(),
                self@.contracts.len() == self.contracts@.len(),
                forall|j: int| 0 <= j < i ==> (#[trigger] s0[j]).0 != name@,
            decreases self.contracts@.len() - i,
        {
            if str_eq(self.contracts[i].0.as_str(), name.as_str()) {
                proof {
                    assert(s0[i as int].0 == name@);
                }
                self.contracts[i] = (name, info);
                proof {
                    assert(self@.contracts.len() == s0.len());
                    assert(self@.contracts[i as int] == (name@, info));
                    assert forall|j: int| 0 <= j < s0.len() && j != i implies self@.contracts[j]
                        == s0[j] by {}
                    assert(self@.contracts =~= s0.update(i as int, (name@, info)));
                    lemma_pairs_map_update(s0, i as int, (name@, info));
                    assert(self.contracts_map() == pairs_map(s0.update(i as int, (name@, info))));
                }
                return ;
            }
            i += 1;
        }
        self.contracts.push((name, info));
        proof {
            assert(self@.contracts =~= s0.push((name@, info)));
            assert(self@.contracts.drop_last() =~= s0);
            assert(distinct_keys(self@.contracts));
        }
    }

    /// Returns the size of the largest contract, excluding dev
    /// contracts.
    pub fn max_size(&self) -> (r: usize)
        ensures
            r == max_nondev_size(self@.contracts),
    {
        let mut max_size: usize = 0;
        let mut i: usize = 0;
        while i < self.contracts.len()
            invariant
                i <= self.contracts@.len(),
                self@.contracts.len() == self.contracts@.len(),
                max_size == max_nondev_size(self@.contracts.subrange(0, i as int)),
            decreases self.contracts@.len() - i,
        {
            let info = &self.contracts[i].1;
            if !info.is_dev_contract && info.size > max_size {
                max_size = info.size;
            }
            proof {
                assert(self@.contracts.subrange(0, i + 1 as int).drop_last() =~= self@.contracts
                    .subrange(0, i as int));
                assert(self@.contracts.subrange(0, i + 1 as int).last() == self@.contracts[
                    i as int]);
            }
            i += 1;
        }
        proof {
            assert(self@.contracts.subrange(0, self@.contracts.len() as int) =~= self@.contracts);
        }
        max_size
    }

    /// The limit the report validates against.
    pub open spec fn spec_limit(&self) -> nat {
        if self@.zksync {
            ZKSYNC_CONTRACT_SIZE_LIMIT as nat
        } else {
            CONTRACT_SIZE_LIMIT as nat
        }
    }

    /// Returns true iff any contract exceeds the active target's size
    /// limit, excluding dev contracts.
    pub fn exceeds_size_limit(&self) -> (r: bool)
        ensures
            r == (max_nondev_size(self@.contracts) > self.spec_limit()),
            r == exists|i: int|
                0 <= i < self@.contracts.len() && !(#[trigger] self@.contracts[i]).1.is_dev_contract
                    && self@.contracts[i].1.size > self.spec_limit(),
    {
        proof {
            lemma_max_nondev_size(self@.contracts);
        }
        if self.zksync {
            self.max_size() > ZKSYNC_CONTRACT_SIZE_LIMIT
        } else {
            self.max_size() > CONTRACT_SIZE_LIMIT
        }
    }
}

} // verus!
