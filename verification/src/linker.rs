//! Library-placeholder resolution.
//!
//! Linking replaces every placeholder whose `path:name` key has a
//! supplied address with that address's hex text; placeholders with no
//! supplied address are left untouched and reported as still missing,
//! so a single artifact may go through several deploy-then-relink
//! rounds. An address occupies exactly the placeholder's width, so
//! linking never changes the size of the bytecode text.

use vstd::prelude::*;

use crate::assoc::distinct_keys;
use crate::assoc::lemma_pairs_map_absent;
use crate::assoc::lemma_pairs_map_index;
use crate::assoc::pairs_map;
use crate::bytecode::all_hex_digits;
use crate::bytecode::seg_wf;
use crate::bytecode::seg_width;
use crate::bytecode::segs_width;
use crate::bytecode::fully_resolved;
use crate::bytecode::Segment;
use crate::bytecode::SegmentView;
use crate::bytecode::UnlinkedBytecode;
use crate::bytecode::PLACEHOLDER_WIDTH;
use crate::text::str_eq;
use crate::text::vec_contains_string;

verus! {

/// The supplied addresses: `path:name` key to the address's hex text.
#[derive(Debug, Clone, PartialEq, Eq)]
pub struct LibraryMap {
    pub entries: Vec<(String, String)>,
}

impl View for LibraryMap {
    type V = Seq<(Seq<char>, Seq<char>)>;

    open spec fn view(&self) -> Seq<(Seq<char>, Seq<char>)> {
        self.entries.deep_view()
    }
}

impl LibraryMap {
    /// Distinct keys; every address is placeholder-width hex text.
    pub open spec fn wf(&self) -> bool {
        &&& distinct_keys(self@)
        &&& forall|i: int|
            0 <= i < self@.len() ==> (#[trigger] self@[i]).1.len() == PLACEHOLDER_WIDTH
                && all_hex_digits(self@[i].1)
    }

    /// An empty map.
    pub fn new() -> (r: LibraryMap)
        ensures
            r.wf(),
            r@.len() == 0,
    {
        LibraryMap { entries: Vec::new() }
    }

    /// The address supplied for a key, if any.
    pub fn get(&self, key: &str) -> (r: Option<&String>)
        requires
            self.wf(),
        ensures
            match r {
                Option::Some(a) => pairs_map(self@).contains_key(key@) && a@ == pairs_map(self@)[
                    key@],
                Option::None => !pairs_map(self@).contains_key(key@),
            },
    {
        let mut i: usize = 0;
        while i < self.entries.len()
            invariant
                self.wf(),
                i <= self.entries@.len(),
                self@.len() == self.entries@.len(),
                forall|j: int| 0 <= j < i ==> (#[trigger] self@[j]).0 != key@,
            decreases self.entries@.len() - i,
        {
            let e = &self.entries[i];
            if str_eq(e.0.as_str(), key) {
                proof {
                    lemma_pairs_map_index(self@, i as int);
                }
                return Option::Some(&e.1);
            }
            i += 1;
        }
        proof {
            lemma_pairs_map_absent(self@, key@);
        }
        Option::None
    }
}

/// One segment after linking: a placeholder whose key has an address
/// becomes that address's hex text; everything else is unchanged.
pub open spec fn spec_link_seg(s: SegmentView, m: Seq<(Seq<char>, Seq<char>)>) -> SegmentView {
    match s {
        SegmentView::Hex(_) => s,
        SegmentView::Placeholder(k) => if pairs_map(m).contains_key(k) {
            SegmentView::Hex(pairs_map(m)[k])
        } else {
            s
        },
    }
}

/// All segments after linking.
pub open spec fn spec_link_segs(ss: Seq<SegmentView>, m: Seq<(Seq<char>, Seq<char>)>) -> Seq<
    SegmentView,
> {
    ss.map_values(|s: SegmentView| spec_link_seg(s, m))
}

/// The key of a placeholder segment that the map does not resolve.
pub open spec fn seg_unresolved(s: SegmentView, m: Seq<(Seq<char>, Seq<char>)>, k: Seq<
    char,
>) -> bool {
    s == SegmentView::Placeholder(k) && !pairs_map(m).contains_key(k)
}

/// Some segment carries the unresolved key `k`.
pub open spec fn unresolved_key(
    ss: Seq<SegmentView>,
    m: Seq<(Seq<char>, Seq<char>)>,
    k: Seq<char>,
) -> bool {
    exists|i: int| 0 <= i < ss.len() && seg_unresolved(#[trigger] ss[i], m, k)
}

/// Linking preserves the width of every segment, hence of the text: an
/// address is exactly as wide as the placeholder it replaces.
pub proof fn lemma_link_preserves_width(ss: Seq<SegmentView>, m: Seq<(Seq<char>, Seq<char>)>)
    requires
        forall|i: int|
            0 <= i < m.len() ==> (#[trigger] m[i]).1.len() == PLACEHOLDER_WIDTH && distinct_keys(m),
    ensures
        segs_width(spec_link_segs(ss, m)) == segs_width(ss),
    decreases ss.len(),
{
    if ss.len() > 0 {
        lemma_link_preserves_width(ss.drop_last(), m);
        assert(spec_link_segs(ss, m).drop_last() =~= spec_link_segs(ss.drop_last(), m));
        let last = ss.last();
        if last is Placeholder {
            let k = last->Placeholder_0;
            if pairs_map(m).contains_key(k) {
                crate::assoc::lemma_pairs_map_domain(m);
                let i = choose|i: int| 0 <= i < m.len() && (#[trigger] m[i]).0 == k;
                lemma_pairs_map_index(m, i);
                assert(seg_width(spec_link_seg(last, m)) == PLACEHOLDER_WIDTH);
            }
        }
        lemma_segs_width_last(ss);
        lemma_segs_width_last(spec_link_segs(ss, m));
    }
}

/// Splitting off the last segment splits the width.
pub proof fn lemma_segs_width_last(ss: Seq<SegmentView>)
    requires
        ss.len() > 0,
    ensures
        segs_width(ss) == segs_width(ss.drop_last()) + seg_width(ss.last()),
    decreases ss.len(),
{
    if ss.len() > 1 {
        lemma_segs_width_last(ss.drop_first());
        assert(ss.drop_first().drop_last() =~= ss.drop_last().drop_first());
        assert(ss.drop_last().first() == ss.first());
        assert(ss.drop_first().last() == ss.last());
    } else {
        assert(ss.drop_last() =~= Seq::<SegmentView>::empty());
        assert(ss.drop_first() =~= Seq::<SegmentView>::empty());
    }
}

/// Linking is idempotent on resolved bytecode: with no placeholder
/// present, linking returns the input byte-identically, whatever the
/// library map.
pub proof fn lemma_link_idempotent(ss: Seq<SegmentView>, m: Seq<(Seq<char>, Seq<char>)>)
    requires
        fully_resolved(ss),
    ensures
        spec_link_segs(ss, m) == ss,
{
    assert(spec_link_segs(ss, m) =~= ss);
}

/// When a link round reports nothing missing, its output is fully
/// resolved, and relinking that output with the same map yields it
/// byte-identically.
pub proof fn lemma_link_converges(ss: Seq<SegmentView>, m: Seq<(Seq<char>, Seq<char>)>)
    requires
        forall|k: Seq<char>| !unresolved_key(ss, m, k),
    ensures
        fully_resolved(spec_link_segs(ss, m)),
        spec_link_segs(spec_link_segs(ss, m), m) == spec_link_segs(ss, m),
{
    assert forall|i: int| 0 <= i < ss.len() implies (#[trigger] spec_link_segs(ss, m)[i])
        is Hex by {
        if ss[i] is Placeholder {
            let k = ss[i]->Placeholder_0;
            assert(!unresolved_key(ss, m, k));
            assert(!seg_unresolved(ss[i], m, k));
        }
    }
    lemma_link_idempotent(spec_link_segs(ss, m), m);
}

/// A bytecode object after one link round: resolved bytes are
/// unchanged; unlinked text has its placeholders substituted.
pub open spec fn spec_link_object(
    o: crate::bytecode::BytecodeObjectView,
    m: Seq<(Seq<char>, Seq<char>)>,
) -> crate::bytecode::BytecodeObjectView {
    match o {
        crate::bytecode::BytecodeObjectView::Bytecode(_) => o,
        crate::bytecode::BytecodeObjectView::Unlinked(u) => crate::bytecode::BytecodeObjectView::Unlinked(
            crate::bytecode::UnlinkedBytecodeView { prefixed: u.prefixed, segments: spec_link_segs(u.segments, m) },
        ),
    }
}

/// Links one bytecode object, dropping the missing-key report.
pub fn link_object(object: &crate::bytecode::BytecodeObject, libraries: &LibraryMap) -> (r:
    crate::bytecode::BytecodeObject)
    requires
        object.wf(),
        libraries.wf(),
    ensures
        r.wf(),
        r@ == spec_link_object(object@, libraries@),
{
    match object {
        crate::bytecode::BytecodeObject::Bytecode(_) => object.duplicate(),
        crate::bytecode::BytecodeObject::Unlinked(u) => {
            let (linked, _missing) = link(u, libraries);
            crate::bytecode::BytecodeObject::Unlinked(linked)
        },
    }
}

/// Resolves placeholders in `bytecode` with the supplied addresses.
/// Returns the linked bytecode and the deduplicated keys still missing;
/// placeholders with no supplied address are left untouched.
pub fn link(bytecode: &UnlinkedBytecode, libraries: &LibraryMap) -> (r: (
    UnlinkedBytecode,
    Vec<String>,
))
    requires
        bytecode.wf(),
        libraries.wf(),
    ensures
        r.0.wf(),
        r.0@.prefixed == bytecode@.prefixed,
        r.0@.segments == spec_link_segs(bytecode@.segments, libraries@),
        segs_width(r.0@.segments) == segs_width(bytecode@.segments),
        r.1.deep_view().no_duplicates(),
        forall|t: int|
            0 <= t < r.1.deep_view().len() ==> unresolved_key(
                bytecode@.segments,
                libraries@,
                #[trigger] r.1.deep_view()[t],
            ),
        forall|k: Seq<char>|
            unresolved_key(bytecode@.segments, libraries@, k) ==> r.1.deep_view().contains(k),
{
    let ghost ss = bytecode@.segments;
    let ghost m = libraries@;
    let mut out: Vec<Segment> = Vec::new();
    let mut missing: Vec<String> = Vec::new();
    let mut i: usize = 0;
    while i < bytecode.segments.len()
        invariant
            bytecode.wf(),
            libraries.wf(),
            ss == bytecode@.segments,
            m == libraries@,
            i <= bytecode.segments@.len(),
            ss.len() == bytecode.segments@.len(),
            out.deep_view().len() == i,
            forall|j: int| 0 <= j < i ==> #[trigger] out.deep_view()[j] == spec_link_seg(ss[j], m),
            missing.deep_view().no_duplicates(),
            forall|t: int|
                0 <= t < missing.deep_view().len() ==> unresolved_key(
                    ss,
                    m,
                    #[trigger] missing.deep_view()[t],
                ),
            forall|j: int, k: Seq<char>|
                0 <= j < i && #[trigger] seg_unresolved(ss[j], m, k)
                    ==> missing.deep_view().contains(k),
        decreases bytecode.segments@.len() - i,
    {
        let ghost missing0 = missing.deep_view();
        let ghost out0 = out.deep_view();
        let ghost outv0 = out@;
        match &bytecode.segments[i] {
            Segment::Hex(h) => {
                out.push(Segment::Hex(h.clone()));
                proof {
                    assert(ss[i as int] == SegmentView::Hex(h@));
                    assert(out.deep_view()[i as int] == spec_link_seg(ss[i as int], m));
                }
            },
            Segment::Placeholder(k) => {
                match libraries.get(k.as_str()) {
                    Option::Some(addr) => {
                        out.push(Segment::Hex(addr.clone()));
                        proof {
                            assert(ss[i as int] == SegmentView::Placeholder(k@));
                            assert(out.deep_view()[i as int] == spec_link_seg(ss[i as int], m));
                        }
                    },
                    Option::None => {
                        out.push(Segment::Placeholder(k.clone()));
                        proof {
                            assert(ss[i as int] == SegmentView::Placeholder(k@));
                            assert(out.deep_view()[i as int] == spec_link_seg(ss[i as int], m));
                            assert(seg_unresolved(ss[i as int], m, k@));
                        }
                        if !vec_contains_string(&missing, k.as_str()) {
                            missing.push(k.clone());
                            proof {
                                assert(missing.deep_view() =~= missing0.push(k@));
                                assert(missing.deep_view()[missing0.len() as int] == k@);
                                assert(missing.deep_view().contains(k@));
                            }
                        } else {
                            proof {
                                let t = choose|t: int|
                                    0 <= t < missing@.len() && missing@[t]@ == k@;
                                assert(missing.deep_view()[t] == missing@[t]@);
                                assert(missing.deep_view().contains(k@));
                            }
                        }
                    },
                }
            },
        }
        proof {
            assert forall|y: Seq<char>| missing0.contains(y) implies missing.deep_view().contains(
                y,
            ) by {
                let t = choose|t: int| 0 <= t < missing0.len() && missing0[t] == y;
                assert(missing.deep_view()[t] == y);
            }
            assert forall|j: int| 0 <= j < i implies #[trigger] out.deep_view()[j] == spec_link_seg(
                ss[j],
                m,
            ) by {
                assert(out@[j] == outv0[j]);
                assert(out.deep_view()[j] == outv0[j].deep_view());
                assert(out0[j] == outv0[j].deep_view());
            }
        }
        i += 1;
    }
    proof {
        assert(out.deep_view() =~= spec_link_segs(ss, m));
        lemma_link_preserves_width(ss, m);
        assert forall|i0: int|
            0 <= i0 < spec_link_segs(ss, m).len() implies seg_wf(
            #[trigger] spec_link_segs(ss, m)[i0],
        ) by {
            assert(seg_wf(ss[i0]));
            if ss[i0] is Placeholder {
                let k = ss[i0]->Placeholder_0;
                if pairs_map(m).contains_key(k) {
                    crate::assoc::lemma_pairs_map_domain(m);
                    let w = choose|w: int| 0 <= w < m.len() && (#[trigger] m[w]).0 == k;
                    lemma_pairs_map_index(m, w);
                }
            }
        }
    }
    let linked = UnlinkedBytecode { prefixed: bytecode.prefixed, segments: out };
    (linked, missing)
}

} // verus!
