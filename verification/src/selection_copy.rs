//! The text a document selection copies: which blocks it spans, the byte range it
//! covers in each, and the slices joined one line per block.
use vstd::prelude::*;
use crate::byte_text::{
    byte_len, byte_offset, fits, opt_chars, floor_index, floor_offset, is_boundary, lemma_floor_index,
    lemma_offset_is_boundary, lemma_offset_le_len, lemma_take_all,
};
use crate::id::ElementId;
use crate::interaction::{
    covered_parts, join_lines, lex_after, ordered_spec, paths_after, selected_text, slice_ok,
    InteractionState,
};
use crate::selection::{Selection, SelectionPoint};

verus! {

/// What the element tree knows of one block (an inline formatting context root) that a
/// selection may cover.
pub struct BlockFacts {
    pub id: ElementId,
    /// Its shaped text; `None` when it has none laid out.
    pub text: Option<String>,
    /// `user-select: none` holds on it or on an ancestor.
    pub excluded: bool,
    /// Its nearest selection-region root.
    pub region: Option<ElementId>,
    /// Its root path: the child indices from the document root down to it.
    pub path: Vec<usize>,
}

/// The block's shaped text, as chars.
pub open spec fn text_of(b: BlockFacts) -> Option<Seq<char>> {
    opt_chars(b.text)
}

/// The block's text length in bytes (0 without text).
pub open spec fn text_len(b: BlockFacts) -> nat {
    match text_of(b) {
        Some(t) => byte_len(t),
        None => 0,
    }
}

/// Two records of facts describe the same element alike.
pub open spec fn same_facts(a: BlockFacts, b: BlockFacts) -> bool {
    &&& a.id == b.id
    &&& text_of(a) == text_of(b)
    &&& a.excluded == b.excluded
    &&& a.region == b.region
    &&& a.path@ == b.path@
}

/// A block's facts agree with those of the selection's ends, and its text fits a
/// `usize`.
pub open spec fn consistent(b: BlockFacts, a: BlockFacts, f: BlockFacts) -> bool {
    &&& text_of(b) matches Some(t) ==> fits(t)
    &&& b.id == a.id ==> same_facts(b, a)
    &&& b.id == f.id ==> same_facts(b, f)
}

/// The facts a copy of `sel` reads are those of one tree: `a` and `f` describe the
/// anchor's and the focus's elements, every block agrees with them, and each end lies
/// on a `char` boundary of its element's text.
pub open spec fn facts_ok(sel: Selection, blocks: Seq<BlockFacts>, a: BlockFacts, f: BlockFacts) -> bool {
    &&& a.id == sel.anchor.element
    &&& f.id == sel.focus.element
    &&& consistent(a, a, f)
    &&& consistent(f, a, f)
    &&& forall|k: int| 0 <= k < blocks.len() ==> consistent(#[trigger] blocks[k], a, f)
    &&& text_of(a) matches Some(t) ==> is_boundary(t, sel.anchor.offset as int)
    &&& text_of(f) matches Some(t) ==> is_boundary(t, sel.focus.offset as int)
}

/// The facts of the selection's start and end element, in document order (the order
/// [`ordered_spec`] gives the ends).
pub open spec fn ordered_facts(sel: Selection, a: BlockFacts, f: BlockFacts) -> (BlockFacts, BlockFacts) {
    if sel.anchor.element != sel.focus.element && lex_after(a.path@, f.path@) {
        (f, a)
    } else {
        (a, f)
    }
}

/// The blocks of `blocks` in selection region `region`, in order.
pub open spec fn in_region(blocks: Seq<BlockFacts>, region: Option<ElementId>) -> Seq<BlockFacts>
    decreases blocks.len(),
{
    if blocks.len() == 0 {
        Seq::empty()
    } else if blocks.last().region == region {
        in_region(blocks.drop_last(), region).push(blocks.last())
    } else {
        in_region(blocks.drop_last(), region)
    }
}

/// `k` is the first position of `id` in `s`.
pub open spec fn is_first_at(s: Seq<BlockFacts>, id: ElementId, k: int) -> bool {
    &&& 0 <= k < s.len()
    &&& s[k].id == id
    &&& forall|j: int| 0 <= j < k ==> s[j].id != id
}

/// The first position of `id` in `s`, if it occurs.
pub open spec fn first_at(s: Seq<BlockFacts>, id: ElementId) -> Option<int> {
    if exists|k: int| is_first_at(s, id, k) {
        Some(choose|k: int| is_first_at(s, id, k))
    } else {
        None
    }
}

/// The blocks a selection spans, in document order: its one element when both ends lie
/// in it; otherwise the blocks of the anchor's selection region from one end to the
/// other, or just the two ends' elements when either is not among them.
pub open spec fn spanned_spec(blocks: Seq<BlockFacts>, sel: Selection, a: BlockFacts, f: BlockFacts) -> Seq<BlockFacts> {
    if sel.anchor.element == sel.focus.element {
        seq![a]
    } else {
        let roots = in_region(blocks, a.region);
        match (first_at(roots, sel.anchor.element), first_at(roots, sel.focus.element)) {
            (Some(i), Some(j)) => if i <= j {
                roots.subrange(i, j + 1)
            } else {
                roots.subrange(j, i + 1)
            },
            _ => seq![a, f],
        }
    }
}

/// The byte range of block `b` that a selection from `s` to `e` (in document order;
/// `sf`, `ef` the facts of their elements) covers. A block excluded from selection has
/// none. Within one element it is the range between the ends. Across elements a block
/// outside the start's selection region has none; the start block is covered from the
/// start to its end, the end block from its beginning to the end, and a block strictly
/// between them in document order wholly.
pub open spec fn range_spec(b: BlockFacts, s: SelectionPoint, e: SelectionPoint, sf: BlockFacts, ef: BlockFacts) -> Option<(usize, usize)> {
    if b.excluded {
        None
    } else if s.element == e.element {
        if b.id == s.element {
            Some((s.offset, e.offset))
        } else {
            None
        }
    } else if b.region != sf.region {
        None
    } else if b.id == s.element {
        Some((s.offset, text_len(b) as usize))
    } else if b.id == e.element {
        Some((0usize, e.offset))
    } else if lex_after(b.path@, sf.path@) && lex_after(ef.path@, b.path@) {
        Some((0usize, text_len(b) as usize))
    } else {
        None
    }
}

/// The byte range `sel` covers in block `b`.
pub open spec fn block_range(b: BlockFacts, sel: Selection, a: BlockFacts, f: BlockFacts) -> Option<(usize, usize)> {
    let (s, e) = ordered_spec(sel, a.path@, f.path@);
    let (sf, ef) = ordered_facts(sel, a, f);
    range_spec(b, s, e, sf, ef)
}

/// The non-empty slices `sel` covers in `spanned`, block by block.
pub open spec fn doc_parts(spanned: Seq<BlockFacts>, sel: Selection, a: BlockFacts, f: BlockFacts) -> Seq<Seq<char>>
    decreases spanned.len(),
{
    if spanned.len() == 0 {
        Seq::empty()
    } else {
        let rest = doc_parts(spanned.drop_last(), sel, a, f);
        let b = spanned.last();
        match (text_of(b), block_range(b, sel, a, f)) {
            (Some(t), Some(r)) => if r.0 != r.1 {
                rest.push(t.subrange(floor_index(t, r.0 as int) as int, floor_index(t, r.1 as int) as int))
            } else {
                rest
            },
            _ => rest,
        }
    }
}

/// The text a copy of the document selection takes: nothing without a selection;
/// otherwise the non-empty slices it covers in the blocks it spans, joined with one
/// line break per block boundary, and nothing when there are none (a caret copies
/// nothing).
pub open spec fn document_text_spec(
    selection: Option<Selection>,
    blocks: Seq<BlockFacts>,
    a: BlockFacts,
    f: BlockFacts,
) -> Option<Seq<char>> {
    match selection {
        None => None,
        Some(sel) => {
            let parts = doc_parts(spanned_spec(blocks, sel, a, f), sel, a, f);
            if parts.len() == 0 {
                None
            } else {
                Some(join_lines(parts))
            }
        },
    }
}

proof fn lemma_boundaries(t: Seq<char>)
    ensures
        is_boundary(t, 0),
        is_boundary(t, byte_len(t) as int),
        forall|o: int| #[trigger] is_boundary(t, o) ==> o <= byte_len(t),
{
    assert(t.take(0) =~= Seq::<char>::empty());
    assert(byte_offset(t, 0) == 0);
    lemma_offset_is_boundary(t, 0);
    lemma_take_all(t);
    lemma_offset_is_boundary(t, t.len() as int);
    assert forall|o: int| #[trigger] is_boundary(t, o) implies o <= byte_len(t) by {
        lemma_floor_index(t, o);
        lemma_offset_le_len(t, floor_index(t, o) as int);
    }
}

/// The first position of `id` among `s` (a sequence of references to blocks).
fn first_position(s: &Vec<&BlockFacts>, id: ElementId) -> (r: Option<usize>)
    ensures
        match r {
            Some(k) => k < s@.len() && first_at(s@.map_values(|b: &BlockFacts| *b), id) == Some(
                k as int,
            ),
            None => first_at(s@.map_values(|b: &BlockFacts| *b), id) is None,
        },
{
    let ghost v = s@.map_values(|b: &BlockFacts| *b);
    let mut k: usize = 0;
    while k < s.len()
        invariant
            k <= s@.len(),
            v == s@.map_values(|b: &BlockFacts| *b),
            forall|j: int| 0 <= j < k ==> v[j].id != id,
        decreases s@.len() - k,
    {
        if s[k].id == id {
            assert(is_first_at(v, id, k as int));
            assert forall|m: int| #[trigger] is_first_at(v, id, m) implies m == k by {
                if m < k {
                    assert(v[m].id != id);
                }
                if k < m {
                    assert(v[k as int].id == id);
                }
            }
            return Some(k);
        }
        k = k + 1;
    }
    assert forall|m: int| !#[trigger] is_first_at(v, id, m) by {
        if 0 <= m < v.len() {
            assert(v[m].id != id);
        }
    }
    None
}

/// The blocks `sel` spans (see [`spanned_spec`]); each agrees with the ends' facts.
fn spanned_blocks<'a>(
    blocks: &'a [BlockFacts],
    sel: Selection,
    anchor: &'a BlockFacts,
    focus: &'a BlockFacts,
) -> (r: Vec<&'a BlockFacts>)
    requires
        facts_ok(sel, blocks@, *anchor, *focus),
    ensures
        r@.map_values(|b: &BlockFacts| *b) == spanned_spec(blocks@, sel, *anchor, *focus),
        forall|i: int| 0 <= i < r@.len() ==> consistent(*#[trigger] r@[i], *anchor, *focus),
{
    let mut out: Vec<&BlockFacts> = Vec::new();
    if sel.anchor.element == sel.focus.element {
        out.push(anchor);
        assert(out@.map_values(|b: &BlockFacts| *b) =~= seq![*anchor]);
        return out;
    }
    let region = anchor.region;
    let mut roots: Vec<&BlockFacts> = Vec::new();
    let mut k: usize = 0;
    while k < blocks.len()
        invariant
            k <= blocks@.len(),
            facts_ok(sel, blocks@, *anchor, *focus),
            region == anchor.region,
            roots@.map_values(|b: &BlockFacts| *b) == in_region(blocks@.take(k as int), region),
            forall|i: int| 0 <= i < roots@.len() ==> consistent(*#[trigger] roots@[i], *anchor, *focus),
        decreases blocks@.len() - k,
    {
        let b = &blocks[k];
        assert(blocks@.take(k + 1).drop_last() =~= blocks@.take(k as int));
        assert(blocks@.take(k + 1).last() == *b);
        assert(consistent(blocks@[k as int], *anchor, *focus));
        if b.region == region {
            let ghost before = roots@.map_values(|b: &BlockFacts| *b);
            roots.push(b);
            assert(roots@.map_values(|b: &BlockFacts| *b) =~= before.push(*b));
        }
        k = k + 1;
    }
    assert(blocks@.take(blocks@.len() as int) =~= blocks@);
    let ghost rv = roots@.map_values(|b: &BlockFacts| *b);
    let ai = first_position(&roots, sel.anchor.element);
    let fi = first_position(&roots, sel.focus.element);
    match (ai, fi) {
        (Some(i), Some(j)) => {
            let lo = if i <= j {
                i
            } else {
                j
            };
            let hi = if i <= j {
                j
            } else {
                i
            };
            let n = roots.len();
            let mut p: usize = lo;
            while p <= hi
                invariant
                    lo <= p <= hi + 1,
                    hi < n,
                    n == roots@.len(),
                    rv == roots@.map_values(|b: &BlockFacts| *b),
                    out@.map_values(|b: &BlockFacts| *b) == rv.subrange(lo as int, p as int),
                    forall|i: int| 0 <= i < roots@.len() ==> consistent(*#[trigger] roots@[i], *anchor, *focus),
                    forall|i: int| 0 <= i < out@.len() ==> consistent(*#[trigger] out@[i], *anchor, *focus),
                decreases hi + 1 - p,
            {
                let ghost before = out@.map_values(|b: &BlockFacts| *b);
                out.push(roots[p]);
                assert(rv[p as int] == *roots@[p as int]);
                assert(out@.map_values(|b: &BlockFacts| *b) =~= before.push(rv[p as int]));
                assert(rv.subrange(lo as int, p + 1) =~= rv.subrange(lo as int, p as int).push(rv[p as int]));
                assert(consistent(*roots@[p as int], *anchor, *focus));
                p = p + 1;
            }
            out
        },
        _ => {
            out.push(anchor);
            out.push(focus);
            assert(out@.map_values(|b: &BlockFacts| *b) =~= seq![*anchor, *focus]);
            out
        },
    }
}

/// The byte length of the block's text (0 without text).
fn text_len_of(b: &BlockFacts) -> (n: usize)
    requires
        text_of(*b) matches Some(t) ==> fits(t),
    ensures
        n == text_len(*b),
{
    match &b.text {
        Some(t) => match crate::byte_text::checked_byte_len(t.as_str()) {
            Some(n) => n,
            None => 0,
        },
        None => 0,
    }
}

/// The byte range a selection from `s` to `e` covers in block `b` (see [`range_spec`]).
fn range_in_block(b: &BlockFacts, s: SelectionPoint, e: SelectionPoint, sf: &BlockFacts, ef: &BlockFacts) -> (r: Option<(usize, usize)>)
    requires
        text_of(*b) matches Some(t) ==> fits(t),
    ensures
        r == range_spec(*b, s, e, *sf, *ef),
{
    if b.excluded {
        return None;
    }
    if s.element == e.element {
        return if b.id == s.element {
            Some((s.offset, e.offset))
        } else {
            None
        };
    }
    if b.region != sf.region {
        return None;
    }
    if b.id == s.element {
        Some((s.offset, text_len_of(b)))
    } else if b.id == e.element {
        Some((0, e.offset))
    } else if paths_after(b.path.as_slice(), sf.path.as_slice()) && paths_after(
        ef.path.as_slice(),
        b.path.as_slice(),
    ) {
        Some((0, text_len_of(b)))
    } else {
        None
    }
}

/// Without a selection, or with a collapsed one (a caret), a copy takes nothing.
pub proof fn law_caret_copies_nothing(
    selection: Option<Selection>,
    blocks: Seq<BlockFacts>,
    a: BlockFacts,
    f: BlockFacts,
)
    requires
        selection matches Some(sel) ==> sel.anchor == sel.focus,
    ensures
        document_text_spec(selection, blocks, a, f) is None,
{
    if let Some(sel) = selection {
        let sp = spanned_spec(blocks, sel, a, f);
        assert(sp == seq![a]);
        assert(sp.drop_last() =~= Seq::<BlockFacts>::empty());
        assert(doc_parts(sp.drop_last(), sel, a, f) =~= Seq::<Seq<char>>::empty());
    }
}

/// A selection inside one block that is not excluded copies exactly the text between
/// its two ends.
pub proof fn law_single_block_copy(sel: Selection, blocks: Seq<BlockFacts>, a: BlockFacts, f: BlockFacts)
    requires
        sel.anchor.element == sel.focus.element,
        !a.excluded,
        a.id == sel.anchor.element,
        text_of(a) is Some,
        sel.anchor.offset != sel.focus.offset,
    ensures
        ({
            let t = text_of(a).unwrap();
            let lo = if sel.anchor.offset <= sel.focus.offset { sel.anchor.offset } else { sel.focus.offset };
            let hi = if sel.anchor.offset <= sel.focus.offset { sel.focus.offset } else { sel.anchor.offset };
            document_text_spec(Some(sel), blocks, a, f) == Some(
                t.subrange(floor_index(t, lo as int) as int, floor_index(t, hi as int) as int),
            )
        }),
{
    let sp = spanned_spec(blocks, sel, a, f);
    assert(sp == seq![a]);
    assert(sp.drop_last() =~= Seq::<BlockFacts>::empty());
    assert(doc_parts(sp.drop_last(), sel, a, f) =~= Seq::<Seq<char>>::empty());
    let parts = doc_parts(sp, sel, a, f);
    assert(parts.len() == 1);
    assert(join_lines(parts) == parts[0]);
}

impl InteractionState {
    /// The text under the document selection, as a copy takes it (see
    /// [`document_text_spec`]): `blocks` are the blocks of the document in document
    /// order, `anchor` and `focus` the facts of the selection's ends' elements.
    pub fn selected_document_text(&self, blocks: &[BlockFacts], anchor: &BlockFacts, focus: &BlockFacts) -> (r: Option<String>)
        requires
            self.selection matches Some(sel) ==> facts_ok(sel, blocks@, *anchor, *focus),
        ensures
            opt_chars(r) == document_text_spec(self.selection, blocks@, *anchor, *focus),
    {
        let sel = match self.selection {
            Some(sel) => sel,
            None => return None,
        };
        let (s, e) = match self.selection_ordered(anchor.path.as_slice(), focus.path.as_slice()) {
            Some(p) => p,
            None => return None,
        };
        let swap = sel.anchor.element != sel.focus.element && paths_after(
            anchor.path.as_slice(),
            focus.path.as_slice(),
        );
        let sf = if swap {
            focus
        } else {
            anchor
        };
        let ef = if swap {
            anchor
        } else {
            focus
        };
        assert((*sf, *ef) == ordered_facts(sel, *anchor, *focus));
        let spanned = spanned_blocks(blocks, sel, anchor, focus);
        let ghost sv = spanned@.map_values(|b: &BlockFacts| *b);
        let mut entries: Vec<(String, Option<(usize, usize)>)> = Vec::new();
        let mut k: usize = 0;
        while k < spanned.len()
            invariant
                k <= spanned@.len(),
                sv == spanned@.map_values(|b: &BlockFacts| *b),
                facts_ok(sel, blocks@, *anchor, *focus),
                (s, e) == ordered_spec(sel, anchor.path@, focus.path@),
                (*sf, *ef) == ordered_facts(sel, *anchor, *focus),
                forall|i: int| 0 <= i < spanned@.len() ==> consistent(*#[trigger] spanned@[i], *anchor, *focus),
                forall|j: int| 0 <= j < entries@.len() ==> slice_ok(#[trigger] entries@[j].0@, entries@[j].1),
                covered_parts(entries@) == doc_parts(sv.take(k as int), sel, *anchor, *focus),
            decreases spanned@.len() - k,
        {
            let b = spanned[k];
            assert(consistent(*spanned@[k as int], *anchor, *focus));
            assert(sv.take(k + 1).drop_last() =~= sv.take(k as int));
            assert(sv.take(k + 1).last() == *b);
            let ghost before = entries@;
            match &b.text {
                Some(t) => {
                    let range = range_in_block(b, s, e, sf, ef);
                    proof {
                        let tv = t@;
                        lemma_boundaries(tv);
                        if b.id == anchor.id {
                            assert(same_facts(*b, *anchor));
                        }
                        if b.id == focus.id {
                            assert(same_facts(*b, *focus));
                        }
                        if sel.anchor.element == sel.focus.element {
                            assert(same_facts(*anchor, *focus));
                        }
                        assert(slice_ok(tv, range));
                    }
                    entries.push((t.clone(), range));
                    assert(entries@.drop_last() =~= before);
                },
                None => {},
            }
            k = k + 1;
        }
        assert(sv.take(sv.len() as int) =~= sv);
        selected_text(entries.as_slice())
    }
}

} // verus!
