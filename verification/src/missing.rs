//! Missing-library detection and the persisted cache.
//!
//! After a build round, the compiler's own lists of unresolved library
//! tokens are collected from the artifacts in scope, each token is
//! resolved to its own artifact so that the artifact's transitive
//! misses are recorded alongside it, and the records are merged, union
//! semantics per contract, into the project-root-keyed cache. When
//! anything is still missing the round fails with a user-recoverable
//! error that enumerates every `path:name` pair; the cache keeps what
//! it learned.

use vstd::prelude::*;

use crate::assoc::distinct_keys;
use crate::assoc::lemma_pairs_map_absent;
use crate::assoc::lemma_pairs_map_index;
use crate::assoc::lemma_pairs_map_update;
use crate::assoc::pairs_map;
use crate::build_output::BuildArtifactView;
use crate::build_output::BuildOutput;
use crate::build_output::BuildOutputView;
use crate::errors::CoreError;
use crate::text::clone_strings;
use crate::text::str_eq;
use crate::text::vec_contains_string;

verus! {

/// `i` is the position of the one `:` separator of a well-formed
/// `path:name` token: both parts are non-empty and no other `:` occurs.
pub open spec fn wf_split_at(s: Seq<char>, i: int) -> bool {
    &&& 1 <= i
    &&& i + 2 <= s.len()
    &&& s[i] == ':'
    &&& forall|j: int| 0 <= j < s.len() && j != i ==> s[j] != ':'
}

/// The token splits into exactly two non-empty parts on `:`.
pub open spec fn splittable(s: Seq<char>) -> bool {
    exists|i: int| wf_split_at(s, i)
}

/// Splits a library token into its `path` and `name` parts. Returns
/// `None` unless the token splits into exactly two non-empty parts on
/// the `:` separator; such a token is corrupted compiler output.
pub fn split_token(s: &str) -> (r: Option<(String, String)>)
    ensures
        match r {
            Option::Some(parts) => {
                &&& wf_split_at(s@, parts.0@.len() as int)
                &&& parts.0@ == s@.subrange(0, parts.0@.len() as int)
                &&& parts.1@ == s@.subrange(parts.0@.len() as int + 1, s@.len() as int)
            },
            Option::None => !splittable(s@),
        },
{
    let len = s.unicode_len();
    let mut first: Option<usize> = Option::None;
    let mut i: usize = 0;
    while i < len
        invariant
            len == s@.len(),
            i <= len,
            match first {
                Option::Some(c) => c < i && s@[c as int] == ':' && forall|j: int|
                    0 <= j < i && j != c ==> s@[j] != ':',
                Option::None => forall|j: int| 0 <= j < i ==> s@[j] != ':',
            },
        decreases len - i,
    {
        if s.get_char(i) == ':' {
            match first {
                Option::Some(c) => {
                    proof {
                        assert forall|k: int| !wf_split_at(s@, k) by {
                            if k != c {
                                assert(s@[c as int] == ':');
                            } else {
                                assert(s@[i as int] == ':');
                            }
                        }
                    }
                    return Option::None;
                },
                Option::None => {
                    first = Option::Some(i);
                },
            }
        }
        i += 1;
    }
    match first {
        Option::None => {
            proof {
                assert forall|k: int| !wf_split_at(s@, k) by {
                    if 1 <= k && k + 2 <= s@.len() {
                        assert(s@[k] != ':');
                    }
                }
            }
            Option::None
        },
        Option::Some(c) => {
            if c == 0 || c >= len - 1 {
                proof {
                    assert forall|k: int| !wf_split_at(s@, k) by {
                        if k != c && 0 <= k < s@.len() {
                            assert(s@[k] != ':');
                        }
                    }
                }
                Option::None
            } else {
                let a = s.substring_char(0, c);
                let b = s.substring_char(c + 1, len);
                proof {
                    assert(a@ =~= s@.subrange(0, c as int));
                    assert(b@ =~= s@.subrange(c + 1 as int, s@.len() as int));
                    assert(wf_split_at(s@, c as int));
                }
                Option::Some((String::from_str(a), String::from_str(b)))
            }
        },
    }
}

/// One library that is still missing: its own path and name, and the
/// `path:name` tokens it itself still misses.
#[derive(Debug, Clone, PartialEq, Eq)]
pub struct MissingLibraryRecord {
    pub contract_path: String,
    pub contract_name: String,
    pub missing_libraries: Vec<String>,
}

/// Ghost image of a [`MissingLibraryRecord`].
pub ghost struct MissingLibraryRecordView {
    pub contract_path: Seq<char>,
    pub contract_name: Seq<char>,
    pub missing_libraries: Seq<Seq<char>>,
}

impl View for MissingLibraryRecord {
    type V = MissingLibraryRecordView;

    open spec fn view(&self) -> MissingLibraryRecordView {
        MissingLibraryRecordView {
            contract_path: self.contract_path@,
            contract_name: self.contract_name@,
            missing_libraries: self.missing_libraries.deep_view(),
        }
    }
}

impl DeepView for MissingLibraryRecord {
    type V = MissingLibraryRecordView;

    open spec fn deep_view(&self) -> MissingLibraryRecordView {
        self.view()
    }
}

/// The cache key of a record: the library's own (path, name).
pub open spec fn record_key(r: MissingLibraryRecordView) -> (Seq<char>, Seq<char>) {
    (r.contract_path, r.contract_name)
}

/// A record as a key-value pair: its key and its token set.
pub open spec fn record_pair(r: MissingLibraryRecordView) -> (
    (Seq<char>, Seq<char>),
    Set<Seq<char>>,
) {
    (record_key(r), r.missing_libraries.to_set())
}

/// A record sequence as key-value pairs.
pub open spec fn cache_pairs(s: Seq<MissingLibraryRecordView>) -> Seq<
    ((Seq<char>, Seq<char>), Set<Seq<char>>),
> {
    s.map_values(|r: MissingLibraryRecordView| record_pair(r))
}

/// One record merged into the map: union with whatever the key held.
pub open spec fn merge_one(
    m: Map<(Seq<char>, Seq<char>), Set<Seq<char>>>,
    r: MissingLibraryRecordView,
) -> Map<(Seq<char>, Seq<char>), Set<Seq<char>>> {
    m.insert(
        record_key(r),
        (if m.contains_key(record_key(r)) {
            m[record_key(r)]
        } else {
            Set::empty()
        }).union(r.missing_libraries.to_set()),
    )
}

/// A record sequence merged into the map, in order.
pub open spec fn merged_map(
    m: Map<(Seq<char>, Seq<char>), Set<Seq<char>>>,
    rs: Seq<MissingLibraryRecordView>,
) -> Map<(Seq<char>, Seq<char>), Set<Seq<char>>>
    decreases rs.len(),
{
    if rs.len() == 0 {
        m
    } else {
        merged_map(merge_one(m, rs.first()), rs.drop_first())
    }
}

/// The persisted knowledge of one project root: which libraries are
/// still missing, merged append-only across build rounds and never
/// overwritten wholesale.
#[derive(Debug, Clone)]
pub struct MissingLibraryCache {
    records: Vec<MissingLibraryRecord>,
}

impl View for MissingLibraryCache {
    type V = Seq<MissingLibraryRecordView>;

    closed spec fn view(&self) -> Seq<MissingLibraryRecordView> {
        self.records.deep_view()
    }
}

impl MissingLibraryCache {
    /// One record per (path, name); token lists without duplicates.
    pub open spec fn wf(&self) -> bool {
        &&& forall|i: int, j: int|
            0 <= i < j < self@.len() ==> record_key(#[trigger] self@[i]) != record_key(
                #[trigger] self@[j],
            )
        &&& forall|i: int| 0 <= i < self@.len() ==> (#[trigger] self@[i]).missing_libraries.no_duplicates()
    }

    /// The cache as a map from (path, name) to the token set.
    pub open spec fn cache_map(&self) -> Map<(Seq<char>, Seq<char>), Set<Seq<char>>> {
        pairs_map(cache_pairs(self@))
    }

    /// An empty cache.
    pub fn new() -> (r: MissingLibraryCache)
        ensures
            r.wf(),
            r@.len() == 0,
    {
        MissingLibraryCache { records: Vec::new() }
    }

    /// Number of records held.
    pub fn len(&self) -> (r: usize)
        ensures
            r == self@.len(),
    {
        self.records.len()
    }

    /// The record at the given position.
    pub fn record_at(&self, i: usize) -> (r: &MissingLibraryRecord)
        requires
            i < self@.len(),
        ensures
            r.deep_view() == self@[i as int],
    {
        &self.records[i]
    }

    /// Merges the records of one build round into the cache, in order,
    /// union semantics per key.
    pub fn merge(&mut self, records: &Vec<MissingLibraryRecord>)
        requires
            old(self).wf(),
        ensures
            final(self).wf(),
            final(self).cache_map() == merged_map(old(self).cache_map(), records.deep_view()),
    {
        let ghost rs = records.deep_view();
        let ghost m0 = old(self).cache_map();
        proof {
            assert(rs.skip(0) =~= rs);
        }
        let mut i: usize = 0;
        while i < records.len()
            invariant
                rs == records.deep_view(),
                i <= records@.len(),
                rs.len() == records@.len(),
                self.wf(),
                merged_map(m0, rs) == merged_map(self.cache_map(), rs.skip(i as int)),
            decreases records@.len() - i,
        {
            let ghost before = self.cache_map();
            self.merge_record(&records[i]);
            proof {
                assert(records@[i as int].deep_view() == rs[i as int]);
                assert(rs.skip(i as int).first() == rs[i as int]);
                assert(rs.skip(i as int).drop_first() =~= rs.skip(i + 1 as int));
                assert(merged_map(before, rs.skip(i as int)) == merged_map(
                    merge_one(before, rs[i as int]),
                    rs.skip(i + 1 as int),
                ));
            }
            i += 1;
        }
        proof {
            assert(rs.skip(rs.len() as int) =~= Seq::<MissingLibraryRecordView>::empty());
        }
    }

    /// Merges a single record: its tokens join whatever its key already
    /// held.
    pub fn merge_record(&mut self, rec: &MissingLibraryRecord)
        requires
            old(self).wf(),
        ensures
            final(self).wf(),
            final(self).cache_map() == merge_one(old(self).cache_map(), rec.deep_view()),
    {
        let ghost s0 = self@;
        let mut i: usize = 0;
        while i < self.records.len()
            invariant
                s0 == old(self)@,
                self@ == s0,
                self.wf(),
                i <= self.records@.len(),
                s0.len() == self.records@.len(),
                forall|j: int| 0 <= j < i ==> record_key(#[trigger] s0[j]) != record_key(rec@),
            decreases self.records@.len() - i,
        {
            let same = str_eq(self.records[i].contract_path.as_str(), rec.contract_path.as_str())
                && str_eq(self.records[i].contract_name.as_str(), rec.contract_name.as_str());
            if same {
                proof {
                    assert(self.records@[i as int].deep_view() == s0[i as int]);
                }
                let merged = union_tokens(
                    &self.records[i].missing_libraries,
                    &rec.missing_libraries,
                );
                let updated = MissingLibraryRecord {
                    contract_path: rec.contract_path.clone(),
                    contract_name: rec.contract_name.clone(),
                    missing_libraries: merged,
                };
                let ghost uv = updated.deep_view();
                self.records[i] = updated;
                proof {
                    assert(record_key(uv) == record_key(s0[i as int]));
                    assert(self@ =~= s0.update(i as int, uv));
                    assert(cache_pairs(self@) =~= cache_pairs(s0).update(
                        i as int,
                        record_pair(uv),
                    ));
                    assert(distinct_keys(cache_pairs(s0)));
                    lemma_pairs_map_update(cache_pairs(s0), i as int, record_pair(uv));
                    lemma_pairs_map_index(cache_pairs(s0), i as int);
                    assert(pairs_map(cache_pairs(s0)).contains_key(record_key(rec@)));
                    assert(pairs_map(cache_pairs(s0))[record_key(rec@)] == s0[
                        i as int].missing_libraries.to_set());
                    assert(uv.missing_libraries.to_set() =~= s0[
                        i as int].missing_libraries.to_set().union(rec@.missing_libraries.to_set()));
                    assert(self.cache_map() =~= merge_one(pairs_map(cache_pairs(s0)), rec@));
                }
                return ;
            }
            i += 1;
        }
        let empty_base: Vec<String> = Vec::new();
        let fresh = MissingLibraryRecord {
            contract_path: rec.contract_path.clone(),
            contract_name: rec.contract_name.clone(),
            missing_libraries: union_tokens(&empty_base, &rec.missing_libraries),
        };
        let ghost fv = fresh.deep_view();
        self.records.push(fresh);
        proof {
            assert(self@ =~= s0.push(fv));
            assert(cache_pairs(self@) =~= cache_pairs(s0).push(record_pair(fv)));
            assert(cache_pairs(self@).drop_last() =~= cache_pairs(s0));
            assert forall|j: int| 0 <= j < s0.len() implies (#[trigger] cache_pairs(s0)[j]).0
                != record_key(rec@) by {
                assert(cache_pairs(s0)[j].0 == record_key(s0[j]));
            }
            lemma_pairs_map_absent(cache_pairs(s0), record_key(rec@));
            assert(fv.missing_libraries.to_set() =~= Set::empty().union(
                rec@.missing_libraries.to_set(),
            ));
            assert(self.cache_map() =~= merge_one(pairs_map(cache_pairs(s0)), rec@));
            assert(self.wf());
        }
    }
}

/// The union of two token lists, first list's order kept, new tokens
/// appended in order of first occurrence.
pub fn union_tokens(a: &Vec<String>, b: &Vec<String>) -> (r: Vec<String>)
    requires
        a.deep_view().no_duplicates(),
    ensures
        r.deep_view().no_duplicates(),
        r.deep_view().to_set() == a.deep_view().to_set().union(b.deep_view().to_set()),
{
    let ghost av = a.deep_view();
    let ghost bv = b.deep_view();
    let mut out = clone_strings(a);
    proof {
        assert(out.deep_view() =~= av);
        assert(bv.subrange(0, 0) =~= Seq::<Seq<char>>::empty());
        assert(out.deep_view().to_set() =~= av.to_set().union(bv.subrange(0, 0).to_set()));
    }
    let mut i: usize = 0;
    while i < b.len()
        invariant
            av == a.deep_view(),
            bv == b.deep_view(),
            i <= b@.len(),
            bv.len() == b@.len(),
            out.deep_view().no_duplicates(),
            out.deep_view().to_set() == av.to_set().union(bv.subrange(0, i as int).to_set()),
        decreases b@.len() - i,
    {
        let ghost out0 = out.deep_view();
        proof {
            assert(bv[i as int] == b@[i as int]@);
            assert(bv.subrange(0, i + 1 as int) =~= bv.subrange(0, i as int).push(bv[i as int]));
            assert(bv.subrange(0, i as int).push(bv[i as int]) =~= bv.subrange(0, i as int) + seq![
                bv[i as int],
            ]);
            Seq::<Seq<char>>::lemma_to_set_insert_commutes(bv.subrange(0, i as int), bv[i as int]);
        }
        if !vec_contains_string(&out, b[i].as_str()) {
            out.push(b[i].clone());
            proof {
                assert(out.deep_view() =~= out0.push(bv[i as int]));
                assert(out0.push(bv[i as int]) =~= out0 + seq![bv[i as int]]);
                Seq::<Seq<char>>::lemma_to_set_insert_commutes(out0, bv[i as int]);
                assert(!out0.contains(bv[i as int]));
                assert(out.deep_view().to_set() =~= av.to_set().union(
                    bv.subrange(0, i + 1 as int).to_set(),
                ));
            }
        } else {
            proof {
                let t = choose|t: int| 0 <= t < out@.len() && out@[t]@ == bv[i as int];
                assert(out0[t] == out@[t]@);
                assert(out0.contains(bv[i as int]));
                assert(out0.to_set().contains(bv[i as int]));
                assert(out.deep_view().to_set() =~= av.to_set().union(
                    bv.subrange(0, i + 1 as int).to_set(),
                ));
            }
        }
        i += 1;
    }
    proof {
        assert(bv.subrange(0, bv.len() as int) =~= bv);
    }
    out
}

/// The artifact is in scope of the round: either no target-file filter
/// was given, or its path is among the target files.
pub open spec fn in_scope(a: BuildArtifactView, files: Seq<Seq<char>>) -> bool {
    files.len() == 0 || files.contains(a.path)
}

/// `t` is reported missing by some artifact in scope.
pub open spec fn is_missing_token(o: BuildOutputView, files: Seq<Seq<char>>, t: Seq<char>) -> bool {
    exists|i: int|
        0 <= i < o.artifacts.len() && in_scope(#[trigger] o.artifacts[i], files)
            && o.artifacts[i].missing_libraries.contains(t)
}

/// Collects the deduplicated set of missing-library tokens reported by
/// the artifacts in scope.
pub fn collect_missing_tokens(output: &BuildOutput, files: &Vec<String>) -> (r: Vec<String>)
    ensures
        r.deep_view().no_duplicates(),
        forall|t: int|
            0 <= t < r.deep_view().len() ==> is_missing_token(
                output@,
                files.deep_view(),
                #[trigger] r.deep_view()[t],
            ),
        forall|k: Seq<char>|
            is_missing_token(output@, files.deep_view(), k) ==> r.deep_view().contains(k),
{
    let ghost ov = output@;
    let ghost fv = files.deep_view();
    let mut tokens: Vec<String> = Vec::new();
    let mut i: usize = 0;
    while i < output.artifacts.len()
        invariant
            ov == output@,
            fv == files.deep_view(),
            i <= output.artifacts@.len(),
            ov.artifacts.len() == output.artifacts@.len(),
            tokens.deep_view().no_duplicates(),
            forall|t: int|
                0 <= t < tokens.deep_view().len() ==> is_missing_token(
                    ov,
                    fv,
                    #[trigger] tokens.deep_view()[t],
                ),
            forall|j: int, k: Seq<char>|
                0 <= j < i && in_scope(#[trigger] ov.artifacts[j], fv)
                    && #[trigger] ov.artifacts[j].missing_libraries.contains(k)
                    ==> tokens.deep_view().contains(k),
        decreases output.artifacts@.len() - i,
    {
        let artifact = &output.artifacts[i];
        proof {
            assert(artifact.deep_view() == ov.artifacts[i as int]);
        }
        let mut in_target = files.len() == 0;
        if !in_target {
            in_target = vec_contains_string(files, artifact.path.as_str());
            proof {
                if in_target {
                    let t = choose|t: int| 0 <= t < files@.len() && files@[t]@ == artifact.path@;
                    assert(fv[t] == files@[t]@);
                }
            }
        }
        proof {
            assert(in_target == in_scope(ov.artifacts[i as int], fv));
        }
        if in_target {
            let mls = &artifact.missing_libraries;
            let ghost mv = ov.artifacts[i as int].missing_libraries;
            let mut j: usize = 0;
            while j < mls.len()
                invariant
                    ov == output@,
                    fv == files.deep_view(),
                    i < ov.artifacts.len(),
                    in_scope(ov.artifacts[i as int], fv),
                    mv == ov.artifacts[i as int].missing_libraries,
                    mv == mls.deep_view(),
                    j <= mls@.len(),
                    mv.len() == mls@.len(),
                    tokens.deep_view().no_duplicates(),
                    forall|t: int|
                        0 <= t < tokens.deep_view().len() ==> is_missing_token(
                            ov,
                            fv,
                            #[trigger] tokens.deep_view()[t],
                        ),
                    forall|j0: int, k: Seq<char>|
                        0 <= j0 < i && in_scope(#[trigger] ov.artifacts[j0], fv)
                            && #[trigger] ov.artifacts[j0].missing_libraries.contains(k)
                            ==> tokens.deep_view().contains(k),
                    forall|t0: int| 0 <= t0 < j ==> tokens.deep_view().contains(#[trigger] mv[t0]),
                decreases mls@.len() - j,
            {
                let ghost tokens0 = tokens.deep_view();
                proof {
                    assert(mv[j as int] == mls@[j as int]@);
                }
                if !vec_contains_string(&tokens, mls[j].as_str()) {
                    tokens.push(mls[j].clone());
                    proof {
                        assert(tokens.deep_view() =~= tokens0.push(mv[j as int]));
                        assert(tokens.deep_view()[tokens0.len() as int] == mv[j as int]);
                        assert(!tokens0.contains(mv[j as int]));
                        assert(is_missing_token(ov, fv, mv[j as int]));
                    }
                } else {
                    proof {
                        let t = choose|t: int|
                            0 <= t < tokens@.len() && tokens@[t]@ == mv[j as int];
                        assert(tokens0[t] == tokens@[t]@);
                        assert(tokens0.contains(mv[j as int]));
                    }
                }
                proof {
                    assert forall|y: Seq<char>| tokens0.contains(y) implies tokens.deep_view()
                        .contains(y) by {
                        let t = choose|t: int| 0 <= t < tokens0.len() && tokens0[t] == y;
                        assert(tokens.deep_view()[t] == y);
                    }
                }
                j += 1;
            }
        }
        i += 1;
    }
    tokens
}

/// The record the round writes for the token: the token's own path and
/// name, and the missing list of an artifact at that path and name.
pub open spec fn record_matches_token(
    o: BuildOutputView,
    t: Seq<char>,
    rec: MissingLibraryRecordView,
) -> bool {
    &&& wf_split_at(t, rec.contract_path.len() as int)
    &&& rec.contract_path == t.subrange(0, rec.contract_path.len() as int)
    &&& rec.contract_name == t.subrange(rec.contract_path.len() as int + 1, t.len() as int)
    &&& exists|i: int|
        0 <= i < o.artifacts.len() && (#[trigger] o.artifacts[i]).path == rec.contract_path
            && o.artifacts[i].name == rec.contract_name && o.artifacts[i].missing_libraries
            == rec.missing_libraries
}

/// One aggregation pass over a build round: collects every missing
/// token from the artifacts in scope (the whole output when `files` is
/// empty), resolves each token to its own artifact so that transitive
/// misses surface in the same pass, merges the records into the cache,
/// and fails with the full enumeration when anything is missing. The
/// cache keeps what it learned even on failure; a malformed or
/// unresolvable token is corrupted compiler output and changes nothing.
pub fn detect_missing(
    output: &BuildOutput,
    files: &Vec<String>,
    cache: &mut MissingLibraryCache,
) -> (r: Result<(), CoreError>)
    requires
        old(cache).wf(),
    ensures
        final(cache).wf(),
        match r {
            Result::Ok(_) => {
                &&& forall|k: Seq<char>| !is_missing_token(output@, files.deep_view(), k)
                &&& final(cache)@ == old(cache)@
            },
            Result::Err(e) => match e {
                CoreError::MissingDependencies(list) => {
                    &&& list.deep_view().no_duplicates()
                    &&& list.deep_view().len() > 0
                    &&& forall|t: int|
                        0 <= t < list.deep_view().len() ==> is_missing_token(
                            output@,
                            files.deep_view(),
                            #[trigger] list.deep_view()[t],
                        )
                    &&& forall|k: Seq<char>|
                        is_missing_token(output@, files.deep_view(), k) ==> list.deep_view()
                            .contains(k)
                    &&& exists|recs: Seq<MissingLibraryRecordView>|
                        {
                            &&& recs.len() == list.deep_view().len()
                            &&& (forall|x: int|
                                0 <= x < recs.len() ==> record_matches_token(
                                    output@,
                                    list.deep_view()[x],
                                    #[trigger] recs[x],
                                ))
                            &&& final(cache).cache_map() == merged_map(
                                old(cache).cache_map(),
                                recs,
                            )
                        }
                },
                CoreError::MalformedLibraryToken(t) => {
                    &&& is_missing_token(output@, files.deep_view(), t@)
                    &&& !splittable(t@)
                    &&& final(cache)@ == old(cache)@
                },
                CoreError::UnknownLibraryArtifact(t) => {
                    &&& is_missing_token(output@, files.deep_view(), t@)
                    &&& exists|c: int|
                        #[trigger] wf_split_at(t@, c) && forall|i: int|
                            0 <= i < output@.artifacts.len() ==> !((
                            #[trigger] output@.artifacts[i]).path == t@.subrange(0, c)
                                && output@.artifacts[i].name == t@.subrange(
                                c + 1,
                                t@.len() as int,
                            ))
                    &&& final(cache)@ == old(cache)@
                },
                _ => false,
            },
        },
{
    let tokens = collect_missing_tokens(output, files);
    if tokens.len() == 0 {
        proof {
            assert forall|k: Seq<char>| !is_missing_token(output@, files.deep_view(), k) by {
                if is_missing_token(output@, files.deep_view(), k) {
                    assert(tokens.deep_view().contains(k));
                }
            }
        }
        return Result::Ok(());
    }
    let ghost tv = tokens.deep_view();
    let mut records: Vec<MissingLibraryRecord> = Vec::new();
    let mut ti: usize = 0;
    while ti < tokens.len()
        invariant
            tv == tokens.deep_view(),
            ti <= tokens@.len(),
            tv.len() == tokens@.len(),
            cache.wf(),
            cache@ == old(cache)@,
            tv.no_duplicates(),
            tv.len() > 0,
            forall|t: int|
                0 <= t < tv.len() ==> is_missing_token(output@, files.deep_view(), #[trigger] tv[t]),
            forall|k: Seq<char>|
                is_missing_token(output@, files.deep_view(), k) ==> tv.contains(k),
            records.deep_view().len() == ti,
            forall|x: int|
                0 <= x < ti ==> record_matches_token(
                    output@,
                    tv[x],
                    #[trigger] records.deep_view()[x],
                ),
        decreases tokens@.len() - ti,
    {
        let ghost recs0 = records.deep_view();
        let token = &tokens[ti];
        proof {
            assert(token@ == tv[ti as int]);
        }
        match split_token(token.as_str()) {
            Option::None => {
                return Result::Err(CoreError::MalformedLibraryToken(token.clone()));
            },
            Option::Some(parts) => {
                let (path, name) = parts;
                match output.find(path.as_str(), name.as_str()) {
                    Option::None => {
                        proof {
                            let c = path@.len() as int;
                            assert(wf_split_at(token@, c));
                            assert forall|i: int|
                                0 <= i < output@.artifacts.len() implies !((
                            #[trigger] output@.artifacts[i]).path == token@.subrange(0, c)
                                && output@.artifacts[i].name == token@.subrange(
                                c + 1,
                                token@.len() as int,
                            )) by {
                                assert(token@.subrange(0, c) == path@);
                                assert(token@.subrange(c + 1, token@.len() as int) == name@);
                            }
                        }
                        return Result::Err(CoreError::UnknownLibraryArtifact(token.clone()));
                    },
                    Option::Some(artifact) => {
                        let record = MissingLibraryRecord {
                            contract_path: path,
                            contract_name: name,
                            missing_libraries: clone_strings(&artifact.missing_libraries),
                        };
                        let ghost rv = record.deep_view();
                        records.push(record);
                        proof {
                            assert(records.deep_view() =~= recs0.push(rv));
                            assert(record_matches_token(output@, tv[ti as int], rv));
                            assert forall|x: int| 0 <= x < ti + 1 implies record_matches_token(
                                output@,
                                tv[x],
                                #[trigger] records.deep_view()[x],
                            ) by {
                                if x < ti {
                                    assert(records.deep_view()[x] == recs0[x]);
                                }
                            }
                        }
                    },
                }
            },
        }
        ti += 1;
    }
    cache.merge(&records);
    proof {
        let recs = records.deep_view();
        assert(recs.len() == tv.len());
    }
    Result::Err(CoreError::MissingDependencies(tokens))
}

} // verus!
