//! Turning consecutive *absolute* soft-keyboard/IME states into the minimal edits of the
//! core text model (committed text plus a caret-positioned preedit).
//!
//! Some platform IMEs report the whole buffer, an optional composing region and the
//! selection on every change. Two consecutive states are diffed here into the few
//! edits that bring the core's committed text, caret and preedit from the first state
//! to the second.
use vstd::prelude::*;

use crate::byte_text::{
    after, before, byte_len, byte_offset, char_offsets, fits, floor_in, floor_index, floor_offset,
    is_boundary, lemma_floor_index, lemma_byte_len_concat, lemma_split_at, string_from_chars,
    push_chars,
};
use crate::edit_state::{
    backspace_spec, finish_composition_spec, set_preedit_with_clauses_spec, set_selection_spec,
    set_spec, text_len, EditModel,
};

verus! {

/// A byte range `[start, end)` into the reported text.
#[derive(Debug, Clone, Copy, PartialEq, Eq, Structural)]
pub struct TextSpan {
    pub start: usize,
    pub end: usize,
}

/// The absolute text state of a soft keyboard / IME.
#[derive(Debug, Clone, PartialEq, Eq)]
pub struct TextInputState {
    pub text: String,
    /// The composing (preedit) region, `None` when nothing is being composed.
    pub compose_region: Option<TextSpan>,
    /// Caret / selection as byte offsets into `text`; `None` when not reported.
    pub selection: Option<TextSpan>,
}

/// The default state: no text, nothing composed, no selection reported.
impl Default for TextInputState {
    fn default() -> (r: Self)
        ensures
            r.text@ == Seq::<char>::empty(),
            r.compose_region is None,
            r.selection is None,
    {
        TextInputState { text: String::new(), compose_region: None, selection: None }
    }
}

/// One core edit for the focused text input.
#[derive(Debug, Clone, PartialEq, Eq)]
pub enum ImeAction {
    /// Replace the committed content (clears the preedit too).
    SetText(String),
    /// Set caret/selection in committed-text byte offsets.
    SetSelection { anchor: usize, focus: usize },
    /// Replace the active preedit; empty clears it.
    SetPreedit(String),
    /// Commit text at the caret, replacing any active preedit.
    CommitText(String),
    /// Delete the one char before the caret.
    DeleteBackward,
}

/// An [`ImeAction`] with its strings taken as `char` sequences.
pub enum ImeActionView {
    SetText(Seq<char>),
    SetSelection { anchor: usize, focus: usize },
    SetPreedit(Seq<char>),
    CommitText(Seq<char>),
    DeleteBackward,
}

impl View for ImeAction {
    type V = ImeActionView;

    open spec fn view(&self) -> ImeActionView {
        match self {
            ImeAction::SetText(t) => ImeActionView::SetText(t@),
            ImeAction::SetSelection { anchor, focus } => ImeActionView::SetSelection {
                anchor: *anchor,
                focus: *focus,
            },
            ImeAction::SetPreedit(t) => ImeActionView::SetPreedit(t@),
            ImeAction::CommitText(t) => ImeActionView::CommitText(t@),
            ImeAction::DeleteBackward => ImeActionView::DeleteBackward,
        }
    }
}

/// The compose region is usable: in order, inside the text, and on `char` boundaries.
pub open spec fn region_valid(s: Seq<char>, span: TextSpan) -> bool {
    &&& span.start <= span.end
    &&& span.end <= byte_len(s)
    &&& is_boundary(s, span.start as int)
    &&& is_boundary(s, span.end as int)
}

/// An absolute offset mapped into committed-text coordinates once the compose region
/// `[cs, ce)` is taken out: offsets inside the region collapse to its start.
pub open spec fn map_offset_excluding_spec(offset: int, cs: int, ce: int) -> int {
    if offset <= cs {
        offset
    } else if offset <= ce {
        cs
    } else {
        offset - (ce - cs)
    }
}

/// The compose region that `decompose` takes out of the text, if it is usable.
pub open spec fn valid_region(st: TextInputState) -> Option<TextSpan> {
    match st.compose_region {
        Some(span) => if region_valid(st.text@, span) {
            Some(span)
        } else {
            None
        },
        None => None,
    }
}

/// The reported selection in committed-text coordinates, `None` unless it is reported
/// and both ends are `char` boundaries of the text.
pub open spec fn mapped_selection(st: TextInputState) -> Option<(usize, usize)> {
    match st.selection {
        Some(span) => if span.start <= byte_len(st.text@) && span.end <= byte_len(st.text@)
            && is_boundary(st.text@, span.start as int) && is_boundary(st.text@, span.end as int) {
            match valid_region(st) {
                Some(r) => Some(
                    (
                        map_offset_excluding_spec(span.start as int, r.start as int, r.end as int)
                            as usize,
                        map_offset_excluding_spec(span.end as int, r.start as int, r.end as int)
                            as usize,
                    ),
                ),
                None => Some((span.start, span.end)),
            }
        } else {
            None
        },
        None => None,
    }
}

/// The committed text: everything outside the usable compose region.
pub open spec fn committed_of(st: TextInputState) -> Seq<char> {
    match valid_region(st) {
        Some(r) => before(st.text@, r.start as int) + after(st.text@, r.end as int),
        None => st.text@,
    }
}

/// The preedit: the text inside the usable compose region.
pub open spec fn preedit_of(st: TextInputState) -> Seq<char> {
    match valid_region(st) {
        Some(r) => st.text@.subrange(
            floor_index(st.text@, r.start as int) as int,
            floor_index(st.text@, r.end as int) as int,
        ),
        None => Seq::empty(),
    }
}

/// The minimal edits from `prev` to `next`: new committed text, then the caret
/// (whenever the text was reset or the caret moved), then the preedit (whenever it
/// changed, or the reset text cleared a preedit that is still composing).
pub open spec fn translate_spec(prev: TextInputState, next: TextInputState) -> Seq<ImeActionView> {
    let set_text = committed_of(next) != committed_of(prev);
    let a1: Seq<ImeActionView> = if set_text {
        seq![ImeActionView::SetText(committed_of(next))]
    } else {
        Seq::empty()
    };
    let a2: Seq<ImeActionView> = match mapped_selection(next) {
        Some((anchor, focus)) => if set_text || Some((anchor, focus)) != mapped_selection(prev) {
            seq![ImeActionView::SetSelection { anchor, focus }]
        } else {
            Seq::empty()
        },
        None => Seq::empty(),
    };
    let a3: Seq<ImeActionView> = if preedit_of(next) != preedit_of(prev) || (set_text
        && preedit_of(next).len() > 0) {
        seq![ImeActionView::SetPreedit(preedit_of(next))]
    } else {
        Seq::empty()
    };
    a1 + a2 + a3
}

/// Maps an absolute `text` offset into committed-text coordinates: the compose region
/// `[cs, ce)` is removed, offsets inside it collapse to `cs`, offsets past it shift left.
pub fn map_offset_excluding(offset: usize, cs: usize, ce: usize) -> (r: usize)
    requires
        cs <= ce,
    ensures
        r == map_offset_excluding_spec(offset as int, cs as int, ce as int),
{
    if offset <= cs {
        offset
    } else if offset <= ce {
        cs
    } else {
        offset - (ce - cs)
    }
}

/// Whether byte offset `o` is a `char` boundary, given the text's offset table.
fn boundary_in(offsets: &Vec<usize>, o: usize, Ghost(s): Ghost<Seq<char>>) -> (r: bool)
    requires
        offsets@.len() == s.len() + 1,
        forall|i: int| 0 <= i <= s.len() ==> #[trigger] offsets@[i] == byte_offset(s, i),
    ensures
        r == is_boundary(s, o as int),
{
    let p = floor_in(offsets, o, Ghost(s));
    offsets[p] == o
}

/// The reported selection mapped into committed coordinates (with the usable compose
/// region `region` removed), or `None` when it is missing or off a `char` boundary.
fn map_selection(state: &TextInputState, region: Option<TextSpan>) -> (r: Option<(usize, usize)>)
    requires
        fits(state.text@),
        region == valid_region(*state),
    ensures
        r == mapped_selection(*state),
{
    let span = match state.selection {
        Some(span) => span,
        None => return None,
    };
    let (_chars, offsets) = char_offsets(state.text.as_str());
    let len = offsets[offsets.len() - 1];
    let ghost s = state.text@;
    proof {
        crate::byte_text::lemma_take_all(s);
    }
    if span.start > len || span.end > len || !boundary_in(&offsets, span.start, Ghost(s))
        || !boundary_in(&offsets, span.end, Ghost(s)) {
        return None;
    }
    match region {
        Some(r) => Some(
            (
                map_offset_excluding(span.start, r.start, r.end),
                map_offset_excluding(span.end, r.start, r.end),
            ),
        ),
        None => Some((span.start, span.end)),
    }
}

/// Splits an absolute state into (committed text, preedit, selection in committed
/// coordinates). A missing or unusable compose region (out of order, out of range or
/// off a `char` boundary) counts as "not composing".
pub fn decompose(state: &TextInputState) -> (r: (String, String, Option<(usize, usize)>))
    requires
        fits(state.text@),
    ensures
        r.0@ == committed_of(*state),
        r.1@ == preedit_of(*state),
        r.2 == mapped_selection(*state),
{
    let ghost s = state.text@;
    let (chars, offsets) = char_offsets(state.text.as_str());
    let n = chars.len();
    let len = offsets[n];
    proof {
        crate::byte_text::lemma_take_all(s);
    }
    if let Some(span) = state.compose_region {
        if span.start <= span.end && span.end <= len && boundary_in(&offsets, span.start, Ghost(s))
            && boundary_in(&offsets, span.end, Ghost(s)) {
            let i = floor_in(&offsets, span.start, Ghost(s));
            let j = floor_in(&offsets, span.end, Ghost(s));
            proof {
                lemma_floor_index(s, span.start as int);
                lemma_floor_index(s, span.end as int);
            }
            assert(i <= j) by {
                if j < i {
                    crate::byte_text::lemma_offset_strict(s, j as int, i as int);
                }
            }
            let preedit = string_from_chars(&chars, i, j);
            let mut committed = string_from_chars(&chars, 0, i);
            push_chars(&mut committed, &chars, j, n);
            assert(committed@ =~= s.take(i as int) + s.skip(j as int));
            let sel = map_selection(state, Some(span));
            return (committed, preedit, sel);
        }
    }
    let sel = map_selection(state, None);
    (state.text.clone(), String::new(), sel)
}

/// Diffs two absolute IME states into the minimal core edits.
pub fn translate_text_input(prev: &TextInputState, next: &TextInputState) -> (r: Vec<ImeAction>)
    requires
        fits(prev.text@),
        fits(next.text@),
    ensures
        r@.map_values(|a: ImeAction| a@) == translate_spec(*prev, *next),
{
    let (prev_committed, prev_preedit, prev_sel) = decompose(prev);
    let (committed, preedit, sel) = decompose(next);
    let mut actions: Vec<ImeAction> = Vec::new();
    let set_text = !(committed == prev_committed);
    let ghost committed_view = committed@;
    if set_text {
        actions.push(ImeAction::SetText(committed));
    }
    let ghost a1 = actions@.map_values(|a: ImeAction| a@);
    if let Some((anchor, focus)) = sel {
        let moved = match prev_sel {
            Some((pa, pf)) => pa != anchor || pf != focus,
            None => true,
        };
        if set_text || moved {
            actions.push(ImeAction::SetSelection { anchor, focus });
        }
    }
    let ghost a2 = actions@.map_values(|a: ImeAction| a@);
    let preedit_changed = !(preedit == prev_preedit);
    let preedit_len = preedit.as_str().unicode_len();
    if preedit_changed || (set_text && preedit_len > 0) {
        actions.push(ImeAction::SetPreedit(preedit));
    }
    assert(actions@.map_values(|a: ImeAction| a@) =~= translate_spec(*prev, *next));
    actions
}

/// The effect of one IME action on the editing model of the focused text input:
/// `SetText` sets the content, `SetSelection` the selection, `SetPreedit` the preedit,
/// `CommitText` finishes the composition and `DeleteBackward` deletes backward.
pub open spec fn ime_effect(m: EditModel, a: ImeActionView) -> EditModel {
    match a {
        ImeActionView::SetText(t) => set_spec(m, t),
        ImeActionView::SetSelection { anchor, focus } => set_selection_spec(
            m,
            anchor as int,
            focus as int,
        ),
        ImeActionView::SetPreedit(t) => set_preedit_with_clauses_spec(m, t, Seq::empty()),
        ImeActionView::CommitText(t) => finish_composition_spec(m, t),
        ImeActionView::DeleteBackward => backspace_spec(m).0,
    }
}

/// The model after applying `actions` in order.
pub open spec fn apply_actions(m: EditModel, actions: Seq<ImeActionView>) -> EditModel
    decreases actions.len(),
{
    if actions.len() == 0 {
        m
    } else {
        apply_actions(ime_effect(m, actions[0]), actions.drop_first())
    }
}

/// The preedit text a model shows, empty when it has none.
pub open spec fn preedit_text(m: EditModel) -> Seq<char> {
    match m.preedit {
        Some(p) => p.text,
        None => Seq::empty(),
    }
}

/// `m` shows the IME state `st`: the same committed text and preedit, and, when the
/// state reports a usable selection, that selection.
pub open spec fn shows(m: EditModel, st: TextInputState) -> bool {
    &&& m.text == committed_of(st)
    &&& preedit_text(m) == preedit_of(st)
    &&& (m.preedit matches Some(p) ==> p.text.len() > 0)
    &&& (mapped_selection(st) matches Some((a, f)) ==> m.anchor == a && m.cursor == f)
}

proof fn lemma_apply_concat(m: EditModel, a: Seq<ImeActionView>, b: Seq<ImeActionView>)
    ensures
        apply_actions(m, a + b) == apply_actions(apply_actions(m, a), b),
    decreases a.len(),
{
    if a.len() == 0 {
        assert(a + b =~= b);
    } else {
        assert((a + b).drop_first() =~= a.drop_first() + b);
        assert((a + b)[0] == a[0]);
        lemma_apply_concat(ime_effect(m, a[0]), a.drop_first(), b);
    }
}

proof fn lemma_apply_one(m: EditModel, x: ImeActionView)
    ensures
        apply_actions(m, seq![x]) == ime_effect(m, x),
{
    assert(seq![x].drop_first() =~= Seq::<ImeActionView>::empty());
    assert(seq![x][0] == x);
    reveal_with_fuel(apply_actions, 2);
}

/// The mapped selection of a state lies inside its committed text.
proof fn lemma_selection_within_committed(st: TextInputState)
    ensures
        mapped_selection(st) matches Some((a, f)) ==> a <= byte_len(committed_of(st)) && f
            <= byte_len(committed_of(st)),
{
    if let Some(r) = valid_region(st) {
        let t = st.text@;
        lemma_split_at(t, r.start as int);
        lemma_split_at(t, r.end as int);
        lemma_byte_len_concat(before(t, r.start as int), after(t, r.end as int));
        assert(floor_offset(t, r.start as int) == r.start);
        assert(floor_offset(t, r.end as int) == r.end);
    }
}

/// Translating two consecutive IME states and applying the edits to a model that shows
/// the first state yields a model that shows the second: the committed text, the
/// preedit and the reported selection of `next` are reconstructed.
pub proof fn law_translation_reconstructs_next(
    prev: TextInputState,
    next: TextInputState,
    m: EditModel,
)
    requires
        shows(m, prev),
    ensures
        shows(apply_actions(m, translate_spec(prev, next)), next),
{
    let set_text = committed_of(next) != committed_of(prev);
    let a1: Seq<ImeActionView> = if set_text {
        seq![ImeActionView::SetText(committed_of(next))]
    } else {
        Seq::empty()
    };
    let a2: Seq<ImeActionView> = match mapped_selection(next) {
        Some((anchor, focus)) => if set_text || Some((anchor, focus)) != mapped_selection(prev) {
            seq![ImeActionView::SetSelection { anchor, focus }]
        } else {
            Seq::empty()
        },
        None => Seq::empty(),
    };
    let a3: Seq<ImeActionView> = if preedit_of(next) != preedit_of(prev) || (set_text
        && preedit_of(next).len() > 0) {
        seq![ImeActionView::SetPreedit(preedit_of(next))]
    } else {
        Seq::empty()
    };
    assert(translate_spec(prev, next) == a1 + a2 + a3);
    lemma_apply_concat(m, a1 + a2, a3);
    lemma_apply_concat(m, a1, a2);
    let m1 = apply_actions(m, a1);
    let m2 = apply_actions(m1, a2);
    let m3 = apply_actions(m2, a3);
    if set_text {
        lemma_apply_one(m, a1[0]);
    }
    assert(m1.text == committed_of(next));
    assert(set_text ==> m1.preedit is None);
    assert(!set_text ==> m1 == m);
    lemma_selection_within_committed(next);
    if a2.len() > 0 {
        lemma_apply_one(m1, a2[0]);
    }
    assert(m2.text == committed_of(next));
    assert(m2.preedit == m1.preedit);
    assert(mapped_selection(next) matches Some((a, f)) ==> m2.anchor == a && m2.cursor == f);
    if a3.len() > 0 {
        lemma_apply_one(m2, a3[0]);
    }
    assert(m3.text == committed_of(next));
    assert(m3.anchor == m2.anchor && m3.cursor == m2.cursor);
    assert(preedit_text(m3) == preedit_of(next));
}

/// An unchanged IME state translates to no edits at all.
pub proof fn law_unchanged_state_needs_no_edits(st: TextInputState)
    ensures
        translate_spec(st, st).len() == 0,
{
}

} // verus!
