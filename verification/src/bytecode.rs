//! Canonical bytecode representation.
//!
//! Fully resolved bytecode is a byte vector. Bytecode that still contains
//! library placeholders is kept in its textual hex form, split into
//! segments: literal hex runs and fixed-width placeholder markers, each
//! marker standing for an unresolved library's deployed address and keyed
//! by its fully-qualified `path:name`. A placeholder occupies exactly the
//! width of a real address in hex, so sizing the text never mis-counts a
//! placeholder.

use vstd::prelude::*;

verus! {

/// Width in hex characters of a placeholder marker, equal to the width of
/// a deployed address rendered in hex.
pub const PLACEHOLDER_WIDTH: usize = 40;

/// True iff `c` is a hex digit.
pub open spec fn is_hex_digit(c: char) -> bool {
    (48 <= c as u32 && c as u32 <= 57)  // '0'..='9'
    || (97 <= c as u32 && c as u32 <= 102)  // 'a'..='f'
    || (65 <= c as u32 && c as u32 <= 70)  // 'A'..='F'
}

/// All characters of `h` are hex digits.
pub open spec fn all_hex_digits(h: Seq<char>) -> bool {
    forall|i: int| 0 <= i < h.len() ==> is_hex_digit(#[trigger] h[i])
}

/// One run of a textual-hex bytecode: either literal hex characters or a
/// placeholder marker for the library named by its `path:name` key.
#[derive(Debug, Clone, PartialEq, Eq)]
pub enum Segment {
    Hex(String),
    Placeholder(String),
}

/// Ghost image of a [`Segment`].
pub ghost enum SegmentView {
    Hex(Seq<char>),
    Placeholder(Seq<char>),
}

impl View for Segment {
    type V = SegmentView;

    open spec fn view(&self) -> SegmentView {
        match self {
            Segment::Hex(h) => SegmentView::Hex(h@),
            Segment::Placeholder(k) => SegmentView::Placeholder(k@),
        }
    }
}

impl DeepView for Segment {
    type V = SegmentView;

    open spec fn deep_view(&self) -> SegmentView {
        self.view()
    }
}

/// Well-formed segment: an even-length run of hex digits, or a marker
/// with a non-empty key.
pub open spec fn seg_wf(s: SegmentView) -> bool {
    match s {
        SegmentView::Hex(h) => h.len() % 2 == 0 && all_hex_digits(h),
        SegmentView::Placeholder(k) => k.len() > 0,
    }
}

/// Width in hex characters that a segment contributes to the text.
pub open spec fn seg_width(s: SegmentView) -> nat {
    match s {
        SegmentView::Hex(h) => h.len(),
        SegmentView::Placeholder(_) => PLACEHOLDER_WIDTH as nat,
    }
}

/// Total width in hex characters of a run of segments.
pub open spec fn segs_width(ss: Seq<SegmentView>) -> nat
    decreases ss.len(),
{
    if ss.len() == 0 {
        0
    } else {
        seg_width(ss.first()) + segs_width(ss.drop_first())
    }
}

/// Bytecode still containing unresolved placeholders, in textual hex
/// form. `prefixed` records whether the text carries a leading `0x`.
#[derive(Debug, Clone, PartialEq, Eq)]
pub struct UnlinkedBytecode {
    pub prefixed: bool,
    pub segments: Vec<Segment>,
}

/// Ghost image of an [`UnlinkedBytecode`].
pub ghost struct UnlinkedBytecodeView {
    pub prefixed: bool,
    pub segments: Seq<SegmentView>,
}

impl View for UnlinkedBytecode {
    type V = UnlinkedBytecodeView;

    open spec fn view(&self) -> UnlinkedBytecodeView {
        UnlinkedBytecodeView { prefixed: self.prefixed, segments: self.segments.deep_view() }
    }
}

impl DeepView for UnlinkedBytecode {
    type V = UnlinkedBytecodeView;

    open spec fn deep_view(&self) -> UnlinkedBytecodeView {
        self.view()
    }
}

/// Every segment is well formed and the whole text fits a `usize`.
pub open spec fn unlinked_wf(u: UnlinkedBytecodeView) -> bool {
    &&& forall|i: int| 0 <= i < u.segments.len() ==> seg_wf(#[trigger] u.segments[i])
    &&& segs_width(u.segments) + 2 <= usize::MAX
}

/// Length in characters of the textual hex representation, the optional
/// `0x` prefix included.
pub open spec fn unlinked_hex_len(u: UnlinkedBytecodeView) -> nat {
    segs_width(u.segments) + if u.prefixed {
        2nat
    } else {
        0nat
    }
}

/// Deployed size in bytes of unlinked bytecode: the hex character count,
/// the `0x` prefix stripped, divided by two.
pub open spec fn unlinked_size(u: UnlinkedBytecodeView) -> nat {
    (unlinked_hex_len(u) - if u.prefixed {
        2nat
    } else {
        0nat
    }) as nat / 2
}

/// No placeholder remains.
pub open spec fn fully_resolved(ss: Seq<SegmentView>) -> bool {
    forall|i: int| 0 <= i < ss.len() ==> (#[trigger] ss[i]) is Hex
}

/// Splitting off the first segment splits the width.
pub proof fn lemma_segs_width_first(ss: Seq<SegmentView>)
    requires
        ss.len() > 0,
    ensures
        segs_width(ss) == seg_width(ss.first()) + segs_width(ss.drop_first()),
{
}

impl UnlinkedBytecode {
    /// Well-formedness of the representation.
    pub open spec fn wf(&self) -> bool {
        unlinked_wf(self@)
    }

    /// Width in hex characters of the segment text, the prefix excluded.
    pub fn width(&self) -> (r: usize)
        requires
            self.wf(),
        ensures
            r == segs_width(self@.segments),
    {
        let mut total: usize = 0;
        let mut i: usize = 0;
        proof {
            assert(self@.segments.skip(0) =~= self@.segments);
        }
        while i < self.segments.len()
            invariant
                self.wf(),
                i <= self.segments@.len(),
                total + segs_width(self@.segments.skip(i as int)) == segs_width(self@.segments),
            decreases self.segments@.len() - i,
        {
            proof {
                assert(self@.segments.skip(i as int).first() == self@.segments[i as int]);
                assert(self@.segments.skip(i as int).drop_first() =~= self@.segments.skip(
                    i as int + 1,
                ));
                lemma_segs_width_first(self@.segments.skip(i as int));
                lemma_segs_width_bound(self@.segments.skip(i as int + 1));
            }
            let w: usize = match &self.segments[i] {
                Segment::Hex(h) => h.unicode_len(),
                Segment::Placeholder(_) => PLACEHOLDER_WIDTH,
            };
            total = total + w;
            i += 1;
        }
        proof {
            assert(self@.segments.skip(self.segments@.len() as int) =~= Seq::<
                SegmentView,
            >::empty());
        }
        total
    }

    /// Length in characters of the textual hex representation.
    pub fn hex_len(&self) -> (r: usize)
        requires
            self.wf(),
        ensures
            r == unlinked_hex_len(self@),
    {
        let w = self.width();
        if self.prefixed {
            w + 2
        } else {
            w
        }
    }

    /// Deployed size in bytes, per [`unlinked_size`].
    pub fn size(&self) -> (r: usize)
        requires
            self.wf(),
        ensures
            r == unlinked_size(self@),
    {
        self.width() / 2
    }
}

/// Widths are non-negative and bounded by the whole.
pub proof fn lemma_segs_width_bound(ss: Seq<SegmentView>)
    ensures
        segs_width(ss) >= 0,
{
}

/// A compiled artifact's bytecode: creation code or deployed code, fully
/// resolved bytes or textual hex with placeholders.
#[derive(Debug, Clone, PartialEq, Eq)]
pub enum BytecodeObject {
    Bytecode(Vec<u8>),
    Unlinked(UnlinkedBytecode),
}

/// Ghost image of a [`BytecodeObject`].
pub ghost enum BytecodeObjectView {
    Bytecode(Seq<u8>),
    Unlinked(UnlinkedBytecodeView),
}

impl View for BytecodeObject {
    type V = BytecodeObjectView;

    open spec fn view(&self) -> BytecodeObjectView {
        match self {
            BytecodeObject::Bytecode(b) => BytecodeObjectView::Bytecode(b@),
            BytecodeObject::Unlinked(u) => BytecodeObjectView::Unlinked(u@),
        }
    }
}

impl DeepView for BytecodeObject {
    type V = BytecodeObjectView;

    open spec fn deep_view(&self) -> BytecodeObjectView {
        self.view()
    }
}

/// Well-formedness of a bytecode object.
pub open spec fn object_wf(o: BytecodeObjectView) -> bool {
    match o {
        BytecodeObjectView::Bytecode(_) => true,
        BytecodeObjectView::Unlinked(u) => unlinked_wf(u),
    }
}

/// Deployed size in bytes of a bytecode object: literal byte length for
/// resolved bytes, hex-character count over two for unlinked text.
pub open spec fn object_size(o: BytecodeObjectView) -> nat {
    match o {
        BytecodeObjectView::Bytecode(b) => b.len(),
        BytecodeObjectView::Unlinked(u) => unlinked_size(u),
    }
}

impl BytecodeObject {
    /// Well-formedness of the representation.
    pub open spec fn wf(&self) -> bool {
        object_wf(self@)
    }

    /// Deployed size in bytes, per [`object_size`].
    pub fn size(&self) -> (r: usize)
        requires
            self.wf(),
        ensures
            r == object_size(self@),
    {
        match self {
            BytecodeObject::Bytecode(b) => b.len(),
            BytecodeObject::Unlinked(u) => u.size(),
        }
    }
}

impl Segment {
    /// A copy whose view equals this segment's.
    pub fn duplicate(&self) -> (r: Segment)
        ensures
            r@ == self@,
    {
        match self {
            Segment::Hex(h) => Segment::Hex(h.clone()),
            Segment::Placeholder(k) => Segment::Placeholder(k.clone()),
        }
    }
}

impl UnlinkedBytecode {
    /// A copy whose view equals this bytecode's.
    pub fn duplicate(&self) -> (r: UnlinkedBytecode)
        ensures
            r@ == self@,
    {
        let mut segments: Vec<Segment> = Vec::new();
        let mut i: usize = 0;
        while i < self.segments.len()
            invariant
                i <= self.segments@.len(),
                self@.segments.len() == self.segments@.len(),
                segments.deep_view().len() == i,
                forall|j: int|
                    0 <= j < i ==> #[trigger] segments.deep_view()[j] == self@.segments[j],
            decreases self.segments@.len() - i,
        {
            let ghost sv0 = segments@;
            let ghost dv0 = segments.deep_view();
            segments.push(self.segments[i].duplicate());
            proof {
                assert(segments.deep_view()[i as int] == self@.segments[i as int]);
                assert forall|j: int| 0 <= j < i implies #[trigger] segments.deep_view()[j]
                    == self@.segments[j] by {
                    assert(segments@[j] == sv0[j]);
                    assert(segments.deep_view()[j] == sv0[j].deep_view());
                    assert(dv0[j] == sv0[j].deep_view());
                    assert(dv0[j] == self@.segments[j]);
                }
            }
            i += 1;
        }
        let r = UnlinkedBytecode { prefixed: self.prefixed, segments };
        proof {
            assert(r@.segments =~= self@.segments);
        }
        r
    }
}

impl BytecodeObject {
    /// A copy whose view equals this object's.
    pub fn duplicate(&self) -> (r: BytecodeObject)
        ensures
            r@ == self@,
    {
        match self {
            BytecodeObject::Bytecode(b) => {
                let mut out: Vec<u8> = Vec::new();
                let mut i: usize = 0;
                while i < b.len()
                    invariant
                        i <= b@.len(),
                        out@ == b@.subrange(0, i as int),
                    decreases b@.len() - i,
                {
                    out.push(b[i]);
                    proof {
                        assert(out@ =~= b@.subrange(0, i + 1 as int));
                    }
                    i += 1;
                }
                proof {
                    assert(b@.subrange(0, b@.len() as int) =~= b@);
                }
                BytecodeObject::Bytecode(out)
            },
            BytecodeObject::Unlinked(u) => BytecodeObject::Unlinked(u.duplicate()),
        }
    }
}

/// An artifact's creation and deployed bytecode, in canonical form.
#[derive(Debug, Clone, PartialEq, Eq)]
pub struct ContractBytecode {
    pub bytecode: BytecodeObject,
    pub deployed_bytecode: BytecodeObject,
}

/// Ghost image of a [`ContractBytecode`].
pub ghost struct ContractBytecodeView {
    pub bytecode: BytecodeObjectView,
    pub deployed_bytecode: BytecodeObjectView,
}

impl View for ContractBytecode {
    type V = ContractBytecodeView;

    open spec fn view(&self) -> ContractBytecodeView {
        ContractBytecodeView { bytecode: self.bytecode@, deployed_bytecode: self.deployed_bytecode@ }
    }
}

impl DeepView for ContractBytecode {
    type V = ContractBytecodeView;

    open spec fn deep_view(&self) -> ContractBytecodeView {
        self.view()
    }
}

/// Well-formedness of both objects.
pub open spec fn contract_bytecode_wf(c: ContractBytecodeView) -> bool {
    object_wf(c.bytecode) && object_wf(c.deployed_bytecode)
}

impl ContractBytecode {
    /// A copy whose view equals this pair's.
    pub fn duplicate(&self) -> (r: ContractBytecode)
        ensures
            r@ == self@,
    {
        ContractBytecode {
            bytecode: self.bytecode.duplicate(),
            deployed_bytecode: self.deployed_bytecode.duplicate(),
        }
    }
}

} // verus!
