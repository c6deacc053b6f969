//! The editing model of a text input: committed text, an optional caret-positioned
//! preedit (IME composition), and a selection whose collapsed form is the caret.
//!
//! All positions are UTF-8 byte offsets into the committed text. Every edit goes through
//! the single edit seam [`EditState::apply`] or one of the primitive edits it is built on.
use vstd::prelude::*;

use crate::byte_text::{
    after, before, byte_len, byte_offset, char_offsets, chars_of, fits, floor_in, floor_index,
    floor_offset, is_boundary, lemma_byte_len_concat, lemma_floor_index, lemma_offset_is_boundary,
    lemma_split_at, lemma_take_all, push_chars,
};
use crate::selection::{
    next_grapheme, next_grapheme_spec, next_word, next_word_spec, prev_grapheme,
    prev_grapheme_spec, prev_word, prev_word_spec,
};

verus! {

/// Underline weight of one composition clause.
#[derive(Clone, Copy, Debug, PartialEq, Eq, Structural)]
pub enum CompositionUnderline {
    /// Unconverted text or an inactive clause: a thin underline.
    Thin,
    /// The clause being converted: a thick underline.
    Thick,
}

/// One composition clause: a byte range of the preedit text and its underline weight.
#[derive(Clone, Copy, Debug, PartialEq, Eq, Structural)]
pub struct CompositionClause {
    pub start: usize,
    pub end: usize,
    pub underline: CompositionUnderline,
}

/// The clauses encoded by a flat `[start, end, weight, ...]` wire stream: weight 0 is thin,
/// any other weight thick; empty or inverted ranges and a trailing partial triple are dropped.
pub open spec fn from_wire_spec(formats: Seq<u32>) -> Seq<CompositionClause>
    decreases formats.len(),
{
    if formats.len() < 3 {
        Seq::empty()
    } else {
        let rest = from_wire_spec(formats.skip(3));
        if formats[0] < formats[1] {
            seq![
                CompositionClause {
                    start: formats[0] as usize,
                    end: formats[1] as usize,
                    underline: if formats[2] == 0 {
                        CompositionUnderline::Thin
                    } else {
                        CompositionUnderline::Thick
                    },
                },
            ] + rest
        } else {
            rest
        }
    }
}

impl CompositionClause {
    /// Decodes the `[start, end, weight, ...]` triple stream of a text-format update.
    pub fn from_wire(formats: &[u32]) -> (r: Vec<CompositionClause>)
        ensures
            r@ == from_wire_spec(formats@),
    {
        let mut out: Vec<CompositionClause> = Vec::new();
        let mut i: usize = 0;
        let n = formats.len();
        assert(formats@.skip(0) =~= formats@);
        assert(out@ + from_wire_spec(formats@) =~= from_wire_spec(formats@));
        while n - i >= 3
            invariant
                n == formats@.len(),
                i <= n,
                out@ + from_wire_spec(formats@.skip(i as int)) == from_wire_spec(formats@),
            decreases n - i,
        {
            let ghost rest = formats@.skip(i as int);
            assert(rest.skip(3) =~= formats@.skip(i + 3));
            let start = formats[i];
            let end = formats[i + 1];
            let weight = formats[i + 2];
            assert(rest[0] == start && rest[1] == end && rest[2] == weight);
            if start < end {
                let underline = if weight == 0 {
                    CompositionUnderline::Thin
                } else {
                    CompositionUnderline::Thick
                };
                let clause = CompositionClause { start: start as usize, end: end as usize, underline };
                out.push(clause);
                assert(out@ + from_wire_spec(formats@.skip(i + 3)) =~= from_wire_spec(formats@)) by {
                    assert(out@ =~= out@.drop_last().push(clause));
                    assert(seq![clause] + from_wire_spec(formats@.skip(i + 3)) == from_wire_spec(
                        rest,
                    ));
                    assert(out@.drop_last() + from_wire_spec(rest) == from_wire_spec(formats@));
                    assert(out@.drop_last() + (seq![clause] + from_wire_spec(formats@.skip(i + 3)))
                        =~= out@ + from_wire_spec(formats@.skip(i + 3)));
                }
            }
            i = i + 3;
        }
        assert(formats@.skip(i as int).len() < 3);
        assert(out@ + Seq::<CompositionClause>::empty() =~= out@);
        out
    }
}

/// An active IME composition: the preedit text and its clause formatting.
#[derive(Clone, Debug, PartialEq, Eq)]
pub struct Preedit {
    pub text: String,
    pub clauses: Vec<CompositionClause>,
}

/// The default preedit has no text and no clauses.
impl Default for Preedit {
    fn default() -> (r: Self)
        ensures
            r.text@ == Seq::<char>::empty(),
            r.clauses@ == Seq::<CompositionClause>::empty(),
    {
        Preedit { text: String::new(), clauses: Vec::new() }
    }
}

/// Direction of an edit motion.
#[derive(Clone, Copy, Debug, PartialEq, Eq, Structural)]
pub enum Direction {
    Backward,
    Forward,
    Up,
    Down,
}

pub open spec fn is_vertical_spec(d: Direction) -> bool {
    d == Direction::Up || d == Direction::Down
}

impl Direction {
    /// A vertical (line-to-line) motion rather than a horizontal step.
    pub fn is_vertical(self) -> (r: bool)
        ensures
            r == is_vertical_spec(self),
    {
        match self {
            Direction::Up | Direction::Down => true,
            _ => false,
        }
    }
}

/// Granularity of an edit motion.
#[derive(Clone, Copy, Debug, PartialEq, Eq, Structural)]
pub enum Granularity {
    Grapheme,
    Word,
    /// Bounds of the current display line (Home/End); the whole field in single-line text.
    LineBoundary,
    /// Bounds of the whole field (Ctrl+Home/End).
    DocBoundary,
}

pub open spec fn is_boundary_granularity(g: Granularity) -> bool {
    g == Granularity::LineBoundary || g == Granularity::DocBoundary
}

impl Granularity {
    /// Steps to an absolute field/line boundary rather than by one char or word.
    pub fn is_boundary(self) -> (r: bool)
        ensures
            r == is_boundary_granularity(self),
    {
        match self {
            Granularity::LineBoundary | Granularity::DocBoundary => true,
            _ => false,
        }
    }
}

/// The vocabulary of the single edit seam.
#[derive(Clone, Copy, Debug, PartialEq, Eq, Structural)]
pub enum EditIntent {
    Move { granularity: Granularity, direction: Direction },
    Extend { granularity: Granularity, direction: Direction },
    Delete { granularity: Granularity, direction: Direction },
    /// Replace the selection with a line break (multi-line fields).
    InsertLineBreak,
    /// Select the whole content.
    SelectAll,
    /// Clipboard members: resolved where the clipboard lives, not here.
    Copy,
    Cut,
    Paste,
}

/// The editing model of a text input.
///
/// `selection_anchor` and `cursor_byte_index` are the anchor and focus byte offsets of the
/// selection; when they are equal the selection is a caret.
#[derive(Clone, Debug)]
pub struct EditState {
    pub text_content: String,
    pub preedit: Option<Preedit>,
    /// The focus of the selection (the moving end; the caret).
    pub cursor_byte_index: usize,
    /// The anchor of the selection (the fixed end).
    pub selection_anchor: usize,
    /// The sticky goal column of vertical motion: the bit pattern (`f32::to_bits`) of the
    /// content-local x the caret aims for across display lines. `None` until a vertical
    /// motion sets it; horizontal motions and edits clear it.
    pub desired_x: Option<u32>,
}

/// A preedit as values: its text and clauses.
#[verifier::ext_equal]
pub struct PreeditModel {
    pub text: Seq<char>,
    pub clauses: Seq<CompositionClause>,
}

/// An [`EditState`] as values.
#[verifier::ext_equal]
pub struct EditModel {
    pub text: Seq<char>,
    pub preedit: Option<PreeditModel>,
    pub cursor: usize,
    pub anchor: usize,
    pub desired_x: Option<u32>,
}

impl View for EditState {
    type V = EditModel;

    open spec fn view(&self) -> EditModel {
        EditModel {
            text: self.text_content@,
            preedit: match self.preedit {
                Some(p) => Some(PreeditModel { text: p.text@, clauses: p.clauses@ }),
                None => None,
            },
            cursor: self.cursor_byte_index,
            anchor: self.selection_anchor,
            desired_x: self.desired_x,
        }
    }
}

/// Byte length of the committed text.
pub open spec fn text_len(m: EditModel) -> nat {
    byte_len(m.text)
}

/// `o` clamped to the committed text.
pub open spec fn clamp(m: EditModel, o: int) -> usize {
    if o <= text_len(m) {
        o as usize
    } else {
        text_len(m) as usize
    }
}

/// Where the preedit is shown: the caret, clamped to the text.
pub open spec fn preedit_at(m: EditModel) -> usize {
    clamp(m, m.cursor as int)
}

/// `ins` inserted into `t` at byte offset `at`.
pub open spec fn splice(t: Seq<char>, at: int, ins: Seq<char>) -> Seq<char> {
    before(t, at) + ins + after(t, at)
}

/// The displayed text: the committed text with the preedit inserted at the caret.
pub open spec fn display_text_spec(m: EditModel) -> Seq<char> {
    match m.preedit {
        Some(p) => splice(m.text, preedit_at(m) as int, p.text),
        None => m.text,
    }
}

/// The selected byte range in text order, `None` for a caret.
pub open spec fn selection_range_spec(m: EditModel) -> Option<(usize, usize)> {
    if m.anchor == m.cursor {
        None
    } else {
        Some(
            (
                if m.anchor <= m.cursor {
                    m.anchor
                } else {
                    m.cursor
                },
                if m.anchor <= m.cursor {
                    m.cursor
                } else {
                    m.anchor
                },
            ),
        )
    }
}

pub open spec fn set_selection_spec(m: EditModel, anchor: int, focus: int) -> EditModel {
    EditModel { anchor: clamp(m, anchor), cursor: clamp(m, focus), ..m }
}

pub open spec fn move_focus_spec(m: EditModel, offset: int) -> EditModel {
    EditModel { cursor: clamp(m, offset), ..m }
}

/// Collapses to a caret at `offset` (clamped) and drops the sticky goal column.
pub open spec fn collapse_to_spec(m: EditModel, offset: int) -> EditModel {
    EditModel { cursor: clamp(m, offset), anchor: clamp(m, offset), desired_x: None, ..m }
}

/// The committed text with the byte range `[start, end)` removed.
pub open spec fn remove_range(t: Seq<char>, start: int, end: int) -> Seq<char> {
    before(t, start) + after(t, end)
}

/// Removes a non-empty selection and collapses to its start; reports whether it did.
pub open spec fn delete_selection_spec(m: EditModel) -> (EditModel, bool) {
    match selection_range_spec(m) {
        Some((start, end)) => (
            collapse_to_spec(
                EditModel { text: remove_range(m.text, start as int, end as int), ..m },
                start as int,
            ),
            true,
        ),
        None => (m, false),
    }
}

/// Both ends of a non-empty selection are `char` boundaries of the text.
pub open spec fn range_on_boundaries(m: EditModel) -> bool {
    match selection_range_spec(m) {
        Some((start, end)) => is_boundary(m.text, start as int) && is_boundary(m.text, end as int),
        None => true,
    }
}

/// The caret, clamped to the text, is a `char` boundary.
pub open spec fn caret_on_boundary(m: EditModel) -> bool {
    is_boundary(m.text, preedit_at(m) as int)
}

/// Well-formedness that every edit keeps: the text length fits a `usize` and both
/// selection ends are `char` boundaries (so neither lies past the end).
pub open spec fn edit_wf(m: EditModel) -> bool {
    &&& fits(m.text)
    &&& is_boundary(m.text, m.cursor as int)
    &&& is_boundary(m.text, m.anchor as int)
}

/// The char index at which the display-line End lands: from char index `i`, step back
/// over line breaks (`\n`, `\r`) while still after the line start `start`.
pub open spec fn trim_line_end(t: Seq<char>, start: int, i: nat) -> nat
    decreases i,
{
    if i == 0 || i > t.len() || byte_offset(t, i as int) <= start || !(t[i - 1] == '\n' || t[i - 1]
        == '\r') {
        i
    } else {
        trim_line_end(t, start, (i - 1) as nat)
    }
}

/// Where display-line Home/End lands for the display line `[start, end)`: the start, or
/// the end with trailing line breaks left out (the last visible glyph of the line).
pub open spec fn line_boundary_target(t: Seq<char>, start: int, end: int, d: Direction) -> int {
    if d == Direction::Backward {
        start
    } else {
        byte_offset(t, trim_line_end(t, start, floor_index(t, end)) as int) as int
    }
}

/// Display-line Home/End: the goal column is dropped and the caret (or, extending, the
/// focus) moves to the line's start or end.
pub open spec fn display_line_boundary_spec(
    m: EditModel,
    start: int,
    end: int,
    d: Direction,
    extend: bool,
) -> EditModel {
    let target = line_boundary_target(m.text, start, end, d);
    let m0 = EditModel { desired_x: None, ..m };
    if extend {
        move_focus_spec(m0, target)
    } else {
        set_selection_spec(m0, target, target)
    }
}

/// Where a vertical motion lands relative to the display lines.
#[derive(Clone, Copy, Debug, PartialEq, Eq, Structural)]
pub enum VerticalTarget {
    /// Above the first line: the start of the field.
    FieldStart,
    /// Below the last line: the end of the field.
    FieldEnd,
    /// The display line with this index.
    Line(usize),
}

/// The target of an Up/Down motion from display line `current` of `line_count`
/// lines; `None` for a horizontal direction or when no line is laid out.
pub open spec fn vertical_target_spec(d: Direction, line_count: usize, current: usize) -> Option<
    VerticalTarget,
> {
    if line_count == 0 || !is_vertical_spec(d) {
        None
    } else if d == Direction::Up {
        if current == 0 {
            Some(VerticalTarget::FieldStart)
        } else if current - 1 >= line_count {
            Some(VerticalTarget::FieldEnd)
        } else {
            Some(VerticalTarget::Line((current - 1) as usize))
        }
    } else if current + 1 >= line_count {
        Some(VerticalTarget::FieldEnd)
    } else {
        Some(VerticalTarget::Line((current + 1) as usize))
    }
}

/// A vertical motion landing: on `landing` for a line target, at the field start or
/// end otherwise; the goal column `goal_x` is kept for the next motion.
pub open spec fn land_vertical_spec(
    m: EditModel,
    target: VerticalTarget,
    landing: int,
    goal_x: u32,
    extend: bool,
) -> EditModel {
    let offset = match target {
        VerticalTarget::FieldStart => 0,
        VerticalTarget::FieldEnd => text_len(m) as int,
        VerticalTarget::Line(_) => landing,
    };
    let moved = if extend {
        move_focus_spec(m, offset)
    } else {
        set_selection_spec(m, offset, offset)
    };
    EditModel { desired_x: Some(goal_x), ..moved }
}

pub open spec fn set_spec(m: EditModel, text: Seq<char>) -> EditModel {
    collapse_to_spec(EditModel { text, preedit: None, ..m }, byte_len(text) as int)
}

pub open spec fn append_spec(m: EditModel, text: Seq<char>) -> EditModel {
    if text.len() == 0 {
        m
    } else {
        collapse_to_spec(
            EditModel { text: m.text + text, ..m },
            byte_len(m.text + text) as int,
        )
    }
}

/// Inserting after the selection has been removed (replace-on-type).
pub open spec fn insert_after_delete(m: EditModel, text: Seq<char>) -> EditModel {
    let at = preedit_at(m);
    collapse_to_spec(
        EditModel { text: splice(m.text, at as int, text), ..m },
        at + byte_len(text),
    )
}

pub open spec fn insert_spec(m: EditModel, text: Seq<char>) -> EditModel {
    if text.len() == 0 {
        m
    } else {
        insert_after_delete(delete_selection_spec(m).0, text)
    }
}

/// What `insert` needs: the selection ends (or the caret) are boundaries and the result fits.
pub open spec fn insert_ok(m: EditModel, text: Seq<char>) -> bool {
    &&& fits(m.text)
    &&& range_on_boundaries(m)
    &&& caret_on_boundary(m)
    &&& byte_len(m.text) + byte_len(text) <= usize::MAX
}

pub open spec fn backspace_spec(m: EditModel) -> (EditModel, bool) {
    if selection_range_spec(m) is Some {
        delete_selection_spec(m)
    } else if m.text.len() == 0 {
        (m, false)
    } else {
        (
            collapse_to_spec(
                EditModel { text: m.text.drop_last(), ..m },
                byte_len(m.text.drop_last()) as int,
            ),
            true,
        )
    }
}

pub open spec fn set_preedit_with_clauses_spec(
    m: EditModel,
    text: Seq<char>,
    clauses: Seq<CompositionClause>,
) -> EditModel {
    EditModel {
        preedit: if text.len() == 0 {
            None
        } else {
            Some(PreeditModel { text, clauses })
        },
        ..m
    }
}

/// Commits the preedit at the caret: the committed text becomes the displayed text and
/// the caret lands after the committed preedit.
pub open spec fn commit_preedit_spec(m: EditModel) -> EditModel {
    match m.preedit {
        Some(p) => {
            let at = preedit_at(m);
            collapse_to_spec(
                EditModel { text: splice(m.text, at as int, p.text), preedit: None, ..m },
                at + byte_len(p.text),
            )
        },
        None => m,
    }
}

/// What `commit_preedit` needs: the caret is a boundary and the result fits.
pub open spec fn commit_ok(m: EditModel) -> bool {
    &&& fits(m.text)
    &&& (m.preedit matches Some(p) ==> caret_on_boundary(m) && byte_len(m.text) + byte_len(p.text)
        <= usize::MAX)
}

pub open spec fn finish_composition_spec(m: EditModel, committed: Seq<char>) -> EditModel {
    commit_preedit_spec(set_preedit_with_clauses_spec(m, committed, Seq::empty()))
}

/// The byte offset one `granularity` step from `offset` in `direction`, with single-line
/// semantics: up/down jump to the field start/end, line and document bounds are the field.
pub open spec fn step_spec(m: EditModel, g: Granularity, d: Direction, offset: int) -> nat {
    match d {
        Direction::Up => 0,
        Direction::Down => text_len(m),
        Direction::Backward => match g {
            Granularity::Grapheme => prev_grapheme_spec(m.text, offset),
            Granularity::Word => prev_word_spec(m.text, offset),
            _ => 0,
        },
        Direction::Forward => match g {
            Granularity::Grapheme => next_grapheme_spec(m.text, offset),
            Granularity::Word => next_word_spec(m.text, offset),
            _ => text_len(m),
        },
    }
}

/// The result of one intent through the edit seam, and whether it was consumed.
pub open spec fn apply_spec(m: EditModel, intent: EditIntent) -> (EditModel, bool) {
    match intent {
        EditIntent::Move { granularity, direction } => match selection_range_spec(m) {
            Some((start, end)) if !is_boundary_granularity(granularity) && !is_vertical_spec(
                direction,
            ) => (
                collapse_to_spec(
                    m,
                    if direction == Direction::Backward {
                        start as int
                    } else {
                        end as int
                    },
                ),
                true,
            ),
            _ => (
                collapse_to_spec(m, step_spec(m, granularity, direction, m.cursor as int) as int),
                true,
            ),
        },
        EditIntent::Extend { granularity, direction } => {
            let m1 = if !is_vertical_spec(direction) {
                EditModel { desired_x: None, ..m }
            } else {
                m
            };
            (move_focus_spec(m1, step_spec(m, granularity, direction, m.cursor as int) as int), true)
        },
        EditIntent::Delete { granularity, direction } => if selection_range_spec(m) is Some {
            delete_selection_spec(m)
        } else {
            let from = m.cursor as int;
            let to = step_spec(m, granularity, direction, from) as int;
            if from == to {
                (m, false)
            } else {
                let start = if from <= to {
                    from
                } else {
                    to
                };
                let end = if from <= to {
                    to
                } else {
                    from
                };
                (
                    collapse_to_spec(
                        EditModel { text: remove_range(m.text, start, end), ..m },
                        start,
                    ),
                    true,
                )
            }
        },
        EditIntent::InsertLineBreak => (insert_spec(m, seq!['\n']), true),
        EditIntent::SelectAll => (set_selection_spec(m, 0, text_len(m) as int), true),
        EditIntent::Copy | EditIntent::Cut | EditIntent::Paste => (m, false),
    }
}

/// What `apply` needs so that it cannot panic: deleting needs the affected ends on
/// `char` boundaries (and the caret inside the text), inserting a line break needs what
/// `insert` needs.
pub open spec fn apply_ok(m: EditModel, intent: EditIntent) -> bool {
    &&& fits(m.text)
    &&& match intent {
        EditIntent::Delete { .. } => range_on_boundaries(m) && (selection_range_spec(m) is None
            ==> is_boundary(m.text, m.cursor as int)),
        EditIntent::InsertLineBreak => insert_ok(m, seq!['\n']),
        _ => true,
    }
}

/// The underline ranges of the active composition in displayed-text byte offsets (shifted
/// to the caret where the preedit is shown) with their weights. Without clause formatting
/// a non-empty preedit is one thin range; without a composition there are none.
pub open spec fn composition_underlines_spec(m: EditModel) -> Seq<(usize, usize, CompositionUnderline)> {
    match m.preedit {
        Some(p) => {
            let base = preedit_at(m);
            if p.clauses.len() == 0 {
                if p.text.len() == 0 {
                    Seq::empty()
                } else {
                    seq![(base, (base + byte_len(p.text)) as usize, CompositionUnderline::Thin)]
                }
            } else {
                p.clauses.map_values(
                    |c: CompositionClause|
                        ((base + c.start) as usize, (base + c.end) as usize, c.underline),
                )
            }
        },
        None => Seq::empty(),
    }
}

/// What `composition_underlines` needs: the shifted offsets fit a `usize`.
pub open spec fn underlines_ok(m: EditModel) -> bool {
    &&& fits(m.text)
    &&& (m.preedit matches Some(p) ==> {
        &&& fits(p.text)
        &&& preedit_at(m) + byte_len(p.text) <= usize::MAX
        &&& forall|i: int|
            0 <= i < p.clauses.len() ==> preedit_at(m) + (#[trigger] p.clauses[i]).start
                <= usize::MAX && preedit_at(m) + p.clauses[i].end <= usize::MAX
    })
}

/// Splicing at a boundary adds the inserted text's length, keeps the prefix as it was,
/// and leaves the offset just after the inserted text on a boundary.
pub proof fn lemma_splice(t: Seq<char>, at: int, ins: Seq<char>)
    requires
        is_boundary(t, at),
    ensures
        byte_len(splice(t, at, ins)) == byte_len(t) + byte_len(ins),
        is_boundary(splice(t, at, ins), at),
        is_boundary(splice(t, at, ins), at + byte_len(ins)),
        before(splice(t, at, ins), at + byte_len(ins)) == before(t, at) + ins,
{
    lemma_split_at(t, at);
    let b = before(t, at);
    let a = after(t, at);
    let r = b + ins + a;
    lemma_byte_len_concat(b, ins);
    lemma_byte_len_concat(b + ins, a);
    assert(r.take(b.len() as int) =~= b);
    lemma_offset_is_boundary(r, b.len() as int);
    assert(r.take((b.len() + ins.len()) as int) =~= b + ins);
    lemma_offset_is_boundary(r, (b.len() + ins.len()) as int);
}

/// Removing a range between two boundaries shortens the text by the range's length and
/// leaves its start on a boundary.
pub proof fn lemma_remove_range(t: Seq<char>, start: int, end: int)
    requires
        start <= end,
        is_boundary(t, start),
        is_boundary(t, end),
    ensures
        byte_len(remove_range(t, start, end)) + (end - start) == byte_len(t),
        is_boundary(remove_range(t, start, end), start),
        before(remove_range(t, start, end), start) == before(t, start),
{
    lemma_split_at(t, start);
    lemma_split_at(t, end);
    let b = before(t, start);
    let a = after(t, end);
    lemma_byte_len_concat(b, a);
    let r = b + a;
    assert(r.take(b.len() as int) =~= b);
    lemma_offset_is_boundary(r, b.len() as int);
}

/// The target of an Up/Down motion from display line `current_line` of `line_count`
/// laid-out lines: the neighbouring line, or above the first line the field start and
/// below the last line the field end. `None` for a horizontal direction or when no
/// line is laid out (the caller falls back to single-line semantics).
pub fn vertical_target(direction: Direction, line_count: usize, current_line: usize) -> (r: Option<
    VerticalTarget,
>)
    ensures
        r == vertical_target_spec(direction, line_count, current_line),
{
    if line_count == 0 {
        return None;
    }
    match direction {
        Direction::Up => {
            if current_line == 0 {
                Some(VerticalTarget::FieldStart)
            } else if current_line - 1 >= line_count {
                Some(VerticalTarget::FieldEnd)
            } else {
                Some(VerticalTarget::Line(current_line - 1))
            }
        },
        Direction::Down => {
            if current_line >= line_count - 1 {
                Some(VerticalTarget::FieldEnd)
            } else {
                Some(VerticalTarget::Line(current_line + 1))
            }
        },
        _ => None,
    }
}

impl Default for EditState {
    fn default() -> (r: Self)
        ensures
            r@.text == Seq::<char>::empty(),
            r@.preedit is None,
            r@.cursor == 0,
            r@.anchor == 0,
            r@.desired_x is None,
    {
        EditState {
            text_content: String::new(),
            preedit: None,
            cursor_byte_index: 0,
            selection_anchor: 0,
            desired_x: None,
        }
    }
}

/// The text of `chars[0..i] + ins + chars[j..]`.
fn spliced(chars: &Vec<char>, i: usize, ins: &Vec<char>, j: usize) -> (r: String)
    requires
        i <= j <= chars@.len(),
    ensures
        r@ == chars@.take(i as int) + ins@ + chars@.skip(j as int),
{
    let mut out = String::new();
    push_chars(&mut out, chars, 0, i);
    push_chars(&mut out, ins, 0, ins.len());
    push_chars(&mut out, chars, j, chars.len());
    assert(out@ =~= chars@.take(i as int) + ins@ + chars@.skip(j as int));
    out
}

/// Byte length of `text`.
fn text_byte_len(text: &str) -> (r: usize)
    requires
        fits(text@),
    ensures
        r == byte_len(text@),
{
    let (chars, offsets) = char_offsets(text);
    proof {
        lemma_take_all(text@);
    }
    offsets[chars.len()]
}

impl EditState {
    /// The displayed text: the committed text with the preedit inserted at the caret.
    pub fn display_text(&self) -> (r: String)
        requires
            fits(self@.text),
            self@.preedit is Some ==> caret_on_boundary(self@),
        ensures
            r@ == display_text_spec(self@),
    {
        match &self.preedit {
            Some(p) => {
                let ghost t = self@.text;
                let (chars, offsets) = char_offsets(self.text_content.as_str());
                let n = chars.len();
                proof {
                    lemma_take_all(t);
                }
                let len = offsets[n];
                let at = if self.cursor_byte_index < len {
                    self.cursor_byte_index
                } else {
                    len
                };
                let i = floor_in(&offsets, at, Ghost(t));
                let pc = chars_of(p.text.as_str());
                let r = spliced(&chars, i, &pc, i);
                assert(r@ =~= display_text_spec(self@));
                r
            },
            None => self.text_content.clone(),
        }
    }

    /// The caret's byte offset in the displayed text: after the preedit while composing.
    pub fn display_cursor_byte_index(&self) -> (r: usize)
        requires
            fits(self@.text),
            self@.preedit matches Some(p) ==> fits(p.text) && preedit_at(self@) + byte_len(p.text)
                <= usize::MAX,
        ensures
            r == match self@.preedit {
                Some(p) => preedit_at(self@) + byte_len(p.text),
                None => preedit_at(self@) as int,
            },
    {
        let len = text_byte_len(self.text_content.as_str());
        let at = if self.cursor_byte_index < len {
            self.cursor_byte_index
        } else {
            len
        };
        match &self.preedit {
            Some(p) => at + text_byte_len(p.text.as_str()),
            None => at,
        }
    }


    /// The underline ranges of the active composition, in displayed-text byte offsets.
    pub fn composition_underlines(&self) -> (r: Vec<(usize, usize, CompositionUnderline)>)
        requires
            underlines_ok(self@),
        ensures
            r@ == composition_underlines_spec(self@),
    {
        let p = match &self.preedit {
            Some(p) => p,
            None => return Vec::new(),
        };
        let len = text_byte_len(self.text_content.as_str());
        let base = if self.cursor_byte_index < len {
            self.cursor_byte_index
        } else {
            len
        };
        if p.clauses.len() == 0 {
            if p.text.as_str().is_empty() {
                return Vec::new();
            }
            let w = text_byte_len(p.text.as_str());
            let r = vec![(base, base + w, CompositionUnderline::Thin)];
            assert(r@ =~= composition_underlines_spec(self@));
            return r;
        }
        let mut out: Vec<(usize, usize, CompositionUnderline)> = Vec::new();
        let mut i: usize = 0;
        while i < p.clauses.len()
            invariant
                self.preedit == Some(*p),
                underlines_ok(self@),
                base == preedit_at(self@),
                i <= p.clauses@.len(),
                out@ == p.clauses@.take(i as int).map_values(
                    |c: CompositionClause|
                        ((base + c.start) as usize, (base + c.end) as usize, c.underline),
                ),
            decreases p.clauses@.len() - i,
        {
            let c = p.clauses[i];
            assert(base + p.clauses@[i as int].start <= usize::MAX);
            out.push((base + c.start, base + c.end, c.underline));
            assert(p.clauses@.take(i + 1) =~= p.clauses@.take(i as int).push(c));
            assert(out@ =~= p.clauses@.take(i + 1).map_values(
                |c: CompositionClause|
                    ((base + c.start) as usize, (base + c.end) as usize, c.underline),
            ));
            i = i + 1;
        }
        assert(p.clauses@.take(i as int) =~= p.clauses@);
        out
    }

    /// The selection is collapsed to a caret.
    pub fn is_caret(&self) -> (r: bool)
        ensures
            r == (self@.anchor == self@.cursor),
    {
        self.selection_anchor == self.cursor_byte_index
    }

    /// The selected byte range in text order, `None` for a caret.
    pub fn selection_range(&self) -> (r: Option<(usize, usize)>)
        ensures
            r == selection_range_spec(self@),
    {
        if self.is_caret() {
            None
        } else {
            let a = self.selection_anchor;
            let f = self.cursor_byte_index;
            if a <= f {
                Some((a, f))
            } else {
                Some((f, a))
            }
        }
    }

    /// Sets a (possibly empty) selection, each end clamped to the text.
    pub fn set_selection(&mut self, anchor: usize, focus: usize)
        requires
            fits(old(self)@.text),
        ensures
            final(self)@ == set_selection_spec(old(self)@, anchor as int, focus as int),
    {
        let len = text_byte_len(self.text_content.as_str());
        self.selection_anchor = if anchor < len {
            anchor
        } else {
            len
        };
        self.cursor_byte_index = if focus < len {
            focus
        } else {
            len
        };
    }

    /// Moves the focus (caret) to `offset`, clamped, keeping the anchor: Shift+Arrow and
    /// drag extension.
    pub fn move_focus(&mut self, offset: usize)
        requires
            fits(old(self)@.text),
        ensures
            final(self)@ == move_focus_spec(old(self)@, offset as int),
    {
        let len = text_byte_len(self.text_content.as_str());
        self.cursor_byte_index = if offset < len {
            offset
        } else {
            len
        };
    }

    /// Display-line Home/End, given the display line `[start, end)` the caret is on
    /// (`None` when no line is laid out): moves the caret (or, with `extend`, the
    /// focus) to the line start (`Backward`) or to the line end without its trailing
    /// line breaks (`Forward`), and drops the goal column. Up/Down or no line: nothing
    /// happens and the result is `false`.
    pub fn display_line_boundary(
        &mut self,
        line: Option<(usize, usize)>,
        direction: Direction,
        extend: bool,
    ) -> (r: bool)
        requires
            fits(old(self)@.text),
            direction == Direction::Forward ==> (line matches Some((start, end)) ==> is_boundary(
                old(self)@.text,
                end as int,
            )),
        ensures
            r == (line is Some && !is_vertical_spec(direction)),
            r ==> (line matches Some((st, en)) && final(self)@ == display_line_boundary_spec(
                old(self)@,
                st as int,
                en as int,
                direction,
                extend,
            )),
            !r ==> final(self)@ == old(self)@,
    {
        let (start, end) = match line {
            Some(bounds) => bounds,
            None => {
                return false;
            },
        };
        let offset = match direction {
            Direction::Backward => start,
            Direction::Forward => {
                let ghost t = self@.text;
                let (chars, offsets) = char_offsets(self.text_content.as_str());
                let mut i = floor_in(&offsets, end, Ghost(t));
                proof {
                    lemma_floor_index(t, end as int);
                }
                let ghost i0 = i;
                while i > 0 && offsets[i] > start && (chars[i - 1] == '\n' || chars[i - 1] == '\r')
                    invariant
                        chars@ == t,
                        offsets@.len() == t.len() + 1,
                        forall|k: int| 0 <= k <= t.len() ==> #[trigger] offsets@[k] == byte_offset(t, k),
                        i <= t.len(),
                        trim_line_end(t, start as int, i as nat) == trim_line_end(t, start as int, i0 as nat),
                    decreases i,
                {
                    i = i - 1;
                }
                offsets[i]
            },
            Direction::Up | Direction::Down => {
                return false;
            },
        };
        self.desired_x = None;
        if extend {
            self.move_focus(offset);
        } else {
            self.set_selection(offset, offset);
        }
        true
    }

    /// The goal column a vertical motion aims for (as the bits of an x): the sticky one
    /// a previous vertical motion left, else `current_x`, the caret's own x now.
    pub fn goal_column(&self, current_x: u32) -> (r: u32)
        ensures
            r == match self@.desired_x {
                Some(g) => g,
                None => current_x,
            },
    {
        match self.desired_x {
            Some(g) => g,
            None => current_x,
        }
    }

    /// Lands a vertical motion on `target` (see [`vertical_target`]): on `landing`, the
    /// geometry's hit for the goal column on the target line, or at the field start or
    /// end; `extend` keeps the anchor. The goal column `goal_x` (the bits of the x the
    /// caret aims for) stays for the next motion, so that passing a short line returns
    /// to the column it started from.
    pub fn land_vertical_motion(
        &mut self,
        target: VerticalTarget,
        landing: usize,
        goal_x: u32,
        extend: bool,
    )
        requires
            fits(old(self)@.text),
        ensures
            final(self)@ == land_vertical_spec(old(self)@, target, landing as int, goal_x, extend),
    {
        let offset = match target {
            VerticalTarget::FieldStart => 0,
            VerticalTarget::FieldEnd => text_byte_len(self.text_content.as_str()),
            VerticalTarget::Line(_) => landing,
        };
        if extend {
            self.move_focus(offset);
        } else {
            self.set_selection(offset, offset);
        }
        self.desired_x = Some(goal_x);
    }

    /// Drops the selected range, collapsing to a caret at the current focus.
    pub fn collapse(&mut self)
        ensures
            final(self)@ == (EditModel { anchor: old(self)@.cursor, ..old(self)@ }),
    {
        self.selection_anchor = self.cursor_byte_index;
    }

    /// Collapses to a caret at `offset` (clamped) and drops the sticky goal column.
    fn collapse_to(&mut self, offset: usize)
        requires
            fits(old(self)@.text),
        ensures
            final(self)@ == collapse_to_spec(old(self)@, offset as int),
    {
        let len = text_byte_len(self.text_content.as_str());
        let o = if offset < len {
            offset
        } else {
            len
        };
        self.cursor_byte_index = o;
        self.selection_anchor = o;
        self.desired_x = None;
    }

    /// Removes a non-empty selection and collapses to its start (replace-on-type).
    /// Reports whether anything was removed.
    fn delete_selection(&mut self) -> (r: bool)
        requires
            fits(old(self)@.text),
            range_on_boundaries(old(self)@),
        ensures
            (final(self)@, r) == delete_selection_spec(old(self)@),
            fits(final(self)@.text),
    {
        match self.selection_range() {
            Some((start, end)) => {
                let ghost t = self@.text;
                let (chars, offsets) = char_offsets(self.text_content.as_str());
                let i = floor_in(&offsets, start, Ghost(t));
                let j = floor_in(&offsets, end, Ghost(t));
                proof {
                    lemma_remove_range(t, start as int, end as int);
                    lemma_split_at(t, start as int);
                    lemma_split_at(t, end as int);
                    if j < i {
                        crate::byte_text::lemma_offset_strict(t, j as int, i as int);
                    }
                }
                let empty: Vec<char> = Vec::new();
                self.text_content = spliced(&chars, i, &empty, j);
                assert(self@.text =~= remove_range(t, start as int, end as int));
                self.collapse_to(start);
                true
            },
            None => false,
        }
    }

    /// Replaces the whole content with `text`, drops any preedit, caret at the end.
    pub fn set(&mut self, text: &str)
        requires
            fits(text@),
        ensures
            final(self)@ == set_spec(old(self)@, text@),
    {
        let chars = chars_of(text);
        self.text_content = crate::byte_text::string_from_chars(&chars, 0, chars.len());
        assert(self.text_content@ =~= text@);
        self.preedit = None;
        let len = text_byte_len(text);
        self.collapse_to(len);
    }

    /// Appends `text` and collapses the caret to the end.
    pub fn append(&mut self, text: &str)
        requires
            byte_len(old(self)@.text) + byte_len(text@) <= usize::MAX,
        ensures
            final(self)@ == append_spec(old(self)@, text@),
    {
        if text.is_empty() {
            return;
        }
        let ghost t = self@.text;
        proof {
            lemma_byte_len_concat(t, text@);
        }
        let ins = chars_of(text);
        let mut s = self.text_content.clone();
        push_chars(&mut s, &ins, 0, ins.len());
        assert(s@ =~= t + text@);
        self.text_content = s;
        let len = text_byte_len(self.text_content.as_str());
        self.collapse_to(len);
    }

    /// Inserts `text` at the caret, replacing a non-empty selection (replace-on-type);
    /// the caret lands after the inserted text.
    pub fn insert(&mut self, text: &str)
        requires
            insert_ok(old(self)@, text@),
        ensures
            final(self)@ == insert_spec(old(self)@, text@),
    {
        if text.is_empty() {
            return;
        }
        let ghost m0 = self@;
        proof {
            match selection_range_spec(m0) {
                Some((start, end)) => {
                    lemma_remove_range(m0.text, start as int, end as int);
                },
                None => {},
            }
        }
        self.delete_selection();
        let ghost m1 = self@;
        assert(caret_on_boundary(m1)) by {
            match selection_range_spec(m0) {
                Some((start, end)) => {
                    let r = remove_range(m0.text, start as int, end as int);
                    assert(byte_len(r) >= start);
                },
                None => {},
            }
        }
        let ghost t = self@.text;
        let (chars, offsets) = char_offsets(self.text_content.as_str());
        proof {
            lemma_take_all(t);
        }
        let len = offsets[chars.len()];
        let at = if self.cursor_byte_index < len {
            self.cursor_byte_index
        } else {
            len
        };
        let i = floor_in(&offsets, at, Ghost(t));
        let ins = chars_of(text);
        proof {
            lemma_splice(t, at as int, text@);
            crate::byte_text::lemma_offset_le_len(t, i as int);
        }
        let w = text_byte_len(text);
        self.text_content = spliced(&chars, i, &ins, i);
        assert(self@.text =~= splice(t, at as int, text@));
        self.collapse_to(at + w);
    }

    /// Backspace: removes a non-empty selection, otherwise the last char of the text.
    /// Reports whether anything was removed.
    pub fn backspace(&mut self) -> (r: bool)
        requires
            fits(old(self)@.text),
            range_on_boundaries(old(self)@),
        ensures
            (final(self)@, r) == backspace_spec(old(self)@),
    {
        if self.delete_selection() {
            return true;
        }
        let ghost t = self@.text;
        let chars = chars_of(self.text_content.as_str());
        if chars.len() == 0 {
            return false;
        }
        self.text_content = crate::byte_text::string_from_chars(&chars, 0, chars.len() - 1);
        assert(self@.text =~= t.drop_last());
        proof {
            crate::byte_text::lemma_char_width_bounds(t.last());
        }
        let len = text_byte_len(self.text_content.as_str());
        self.collapse_to(len);
        true
    }

    /// Sets the preedit without clause formatting; empty clears the composition.
    pub fn set_preedit(&mut self, preedit: &str)
        ensures
            final(self)@ == set_preedit_with_clauses_spec(old(self)@, preedit@, Seq::empty()),
    {
        self.set_preedit_with_clauses(preedit, Vec::new());
    }

    /// Sets the preedit with its composition clauses; empty text clears the composition
    /// and its clauses.
    pub fn set_preedit_with_clauses(&mut self, preedit: &str, clauses: Vec<CompositionClause>)
        ensures
            final(self)@ == set_preedit_with_clauses_spec(old(self)@, preedit@, clauses@),
    {
        if preedit.is_empty() {
            self.preedit = None;
        } else {
            let chars = chars_of(preedit);
            let text = crate::byte_text::string_from_chars(&chars, 0, chars.len());
            assert(text@ =~= preedit@);
            self.preedit = Some(Preedit { text, clauses });
        }
    }

    /// Commits the preedit at the caret (where it was shown); the caret lands after it.
    pub fn commit_preedit(&mut self)
        requires
            commit_ok(old(self)@),
        ensures
            final(self)@ == commit_preedit_spec(old(self)@),
    {
        let ptext = match &self.preedit {
            Some(p) => p.text.clone(),
            None => {
                return;
            },
        };
        let ghost t = self@.text;
        let (chars, offsets) = char_offsets(self.text_content.as_str());
        proof {
            lemma_take_all(t);
        }
        let len = offsets[chars.len()];
        let at = if self.cursor_byte_index < len {
            self.cursor_byte_index
        } else {
            len
        };
        let i = floor_in(&offsets, at, Ghost(t));
        let ins = chars_of(ptext.as_str());
        proof {
            lemma_splice(t, at as int, ptext@);
        }
        let w = text_byte_len(ptext.as_str());
        self.preedit = None;
        self.text_content = spliced(&chars, i, &ins, i);
        assert(self@.text =~= splice(t, at as int, ptext@));
        self.collapse_to(at + w);
    }

    /// Finishes an IME composition: commits `committed` through the preedit path.
    pub fn finish_composition(&mut self, committed: &str)
        requires
            fits(old(self)@.text),
            committed@.len() > 0 ==> caret_on_boundary(old(self)@) && byte_len(old(self)@.text)
                + byte_len(committed@) <= usize::MAX,
        ensures
            final(self)@ == finish_composition_spec(old(self)@, committed@),
    {
        self.set_preedit(committed);
        self.commit_preedit();
    }

    /// The selected text, or `None` when the selection is a caret.
    pub fn selected_text(&self) -> (r: Option<String>)
        requires
            fits(self@.text),
            range_on_boundaries(self@),
        ensures
            match selection_range_spec(self@) {
                Some((start, end)) => r matches Some(s) && s@ == self@.text.subrange(
                    floor_index(self@.text, start as int) as int,
                    floor_index(self@.text, end as int) as int,
                ),
                None => r is None,
            },
    {
        let (start, end) = match self.selection_range() {
            Some(range) => range,
            None => return None,
        };
        let ghost t = self@.text;
        let (chars, offsets) = char_offsets(self.text_content.as_str());
        let i = floor_in(&offsets, start, Ghost(t));
        let j = floor_in(&offsets, end, Ghost(t));
        proof {
            lemma_floor_index(t, start as int);
            lemma_floor_index(t, end as int);
            if j < i {
                crate::byte_text::lemma_offset_strict(t, j as int, i as int);
            }
        }
        Some(crate::byte_text::string_from_chars(&chars, i, j))
    }

    /// Cut: returns the selected text and removes it (caret at its start), or `None`
    /// when the selection is a caret.
    pub fn cut(&mut self) -> (r: Option<String>)
        requires
            fits(old(self)@.text),
            range_on_boundaries(old(self)@),
        ensures
            final(self)@ == delete_selection_spec(old(self)@).0,
            match selection_range_spec(old(self)@) {
                Some((start, end)) => r matches Some(s) && s@ == old(self)@.text.subrange(
                    floor_index(old(self)@.text, start as int) as int,
                    floor_index(old(self)@.text, end as int) as int,
                ),
                None => r is None,
            },
    {
        let (start, end) = match self.selection_range() {
            Some(range) => range,
            None => return None,
        };
        let ghost t = self@.text;
        let (chars, offsets) = char_offsets(self.text_content.as_str());
        let i = floor_in(&offsets, start, Ghost(t));
        let j = floor_in(&offsets, end, Ghost(t));
        proof {
            lemma_floor_index(t, start as int);
            lemma_floor_index(t, end as int);
            if j < i {
                crate::byte_text::lemma_offset_strict(t, j as int, i as int);
            }
        }
        let removed = crate::byte_text::string_from_chars(&chars, i, j);
        self.delete_selection();
        Some(removed)
    }

    /// Replaces the whole committed content with `value`, committing any active preedit
    /// first. Reports whether the displayed text changed.
    pub fn set_value(&mut self, value: &str) -> (r: bool)
        requires
            commit_ok(old(self)@),
            fits(value@),
        ensures
            r == (display_text_spec(old(self)@) != value@),
            final(self)@ == set_spec(commit_preedit_spec(old(self)@), value@),
    {
        let shown = self.display_text();
        let changed = !crate::byte_text::str_eq(shown.as_str(), value);
        self.commit_preedit();
        self.set(value);
        changed
    }

    /// Pastes `text` at the caret (replacing a non-empty selection) after committing any
    /// active preedit. Reports whether anything was pasted.
    pub fn paste(&mut self, text: &str) -> (r: bool)
        requires
            text@.len() > 0 ==> commit_ok(old(self)@) && insert_ok(
                commit_preedit_spec(old(self)@),
                text@,
            ),
        ensures
            r == (text@.len() > 0),
            final(self)@ == if text@.len() > 0 {
                insert_spec(commit_preedit_spec(old(self)@), text@)
            } else {
                old(self)@
            },
    {
        if text.is_empty() {
            return false;
        }
        self.commit_preedit();
        self.insert(text);
        true
    }

    /// The byte offset one `granularity` step from `offset` in `direction`
    /// (single-line semantics for vertical motion and line/document bounds).
    fn step(&self, granularity: Granularity, direction: Direction, offset: usize) -> (r: usize)
        requires
            fits(self@.text),
        ensures
            r == step_spec(self@, granularity, direction, offset as int),
    {
        let text = self.text_content.as_str();
        match direction {
            Direction::Up => return 0,
            Direction::Down => return text_byte_len(text),
            _ => {},
        }
        match (granularity, direction) {
            (Granularity::Grapheme, Direction::Backward) => prev_grapheme(text, offset),
            (Granularity::Grapheme, Direction::Forward) => next_grapheme(text, offset),
            (Granularity::Word, Direction::Backward) => prev_word(text, offset),
            (Granularity::Word, Direction::Forward) => next_word(text, offset),
            (_, Direction::Backward) => 0,
            (_, _) => text_byte_len(text),
        }
    }

    /// The single edit seam: applies one intent and reports whether it was consumed.
    /// Clipboard intents are not consumed here; the clipboard lives outside this model.
    pub fn apply(&mut self, intent: EditIntent) -> (r: bool)
        requires
            apply_ok(old(self)@, intent),
        ensures
            (final(self)@, r) == apply_spec(old(self)@, intent),
    {
        match intent {
            EditIntent::Move { granularity, direction } => {
                match self.selection_range() {
                    Some((start, end)) => {
                        if !granularity.is_boundary() && !direction.is_vertical() {
                            let edge = match direction {
                                Direction::Backward => start,
                                _ => end,
                            };
                            self.collapse_to(edge);
                            assert((self@, true) == apply_spec(old(self)@, intent));
                            return true;
                        }
                    },
                    None => {},
                }
                let next = self.step(granularity, direction, self.cursor_byte_index);
                self.collapse_to(next);
                assert((self@, true) == apply_spec(old(self)@, intent));
                true
            },
            EditIntent::Extend { granularity, direction } => {
                let next = self.step(granularity, direction, self.cursor_byte_index);
                if !direction.is_vertical() {
                    self.desired_x = None;
                }
                self.move_focus(next);
                true
            },
            EditIntent::Delete { granularity, direction } => {
                if self.delete_selection() {
                    return true;
                }
                let from = self.cursor_byte_index;
                let to = self.step(granularity, direction, from);
                if from == to {
                    return false;
                }
                let (start, end) = if from <= to {
                    (from, to)
                } else {
                    (to, from)
                };
                let ghost t = self@.text;
                proof {
                    crate::selection::law_steps_land_on_boundaries(t, from as int);
                    lemma_offset_is_boundary(t, 0);
                    lemma_offset_is_boundary(t, t.len() as int);
                    lemma_take_all(t);
                    lemma_split_at(t, from as int);
                    lemma_remove_range(t, start as int, end as int);
                    lemma_split_at(t, start as int);
                    lemma_split_at(t, end as int);
                }
                let (chars, offsets) = char_offsets(self.text_content.as_str());
                let i = floor_in(&offsets, start, Ghost(t));
                let j = floor_in(&offsets, end, Ghost(t));
                proof {
                    if j < i {
                        crate::byte_text::lemma_offset_strict(t, j as int, i as int);
                    }
                }
                let empty: Vec<char> = Vec::new();
                self.text_content = spliced(&chars, i, &empty, j);
                assert(self@.text =~= remove_range(t, start as int, end as int));
                self.collapse_to(start);
                true
            },
            EditIntent::InsertLineBreak => {
                proof {
                    reveal_strlit("\n");
                }
                assert("\n"@ =~= seq!['\n']);
                self.insert("\n");
                true
            },
            EditIntent::SelectAll => {
                let len = text_byte_len(self.text_content.as_str());
                self.set_selection(0, len);
                true
            },
            EditIntent::Copy | EditIntent::Cut | EditIntent::Paste => false,
        }
    }
}

proof fn lemma_end_is_boundary(t: Seq<char>)
    ensures
        is_boundary(t, byte_len(t) as int),
{
    lemma_take_all(t);
    lemma_offset_is_boundary(t, t.len() as int);
}

pub proof fn lemma_delete_selection_wf(m: EditModel)
    requires
        edit_wf(m),
    ensures
        edit_wf(delete_selection_spec(m).0),
        byte_len(delete_selection_spec(m).0.text) <= byte_len(m.text),
{
    if let Some((start, end)) = selection_range_spec(m) {
        lemma_remove_range(m.text, start as int, end as int);
    }
}

/// Every edit keeps the model well formed: the text fits a `usize` and both ends of
/// the selection stay on `char` boundaries. (A selection set by byte offsets keeps it
/// when the offsets are boundaries or lie past the end, which clamps them.)
pub proof fn law_edits_keep_the_model_well_formed(m: EditModel, t: Seq<char>, a: int, f: int)
    requires
        edit_wf(m),
    ensures
        fits(t) ==> edit_wf(set_spec(m, t)),
        byte_len(m.text) + byte_len(t) <= usize::MAX ==> edit_wf(append_spec(m, t)),
        byte_len(m.text) + byte_len(t) <= usize::MAX ==> edit_wf(insert_spec(m, t)),
        edit_wf(backspace_spec(m).0),
        edit_wf(delete_selection_spec(m).0),
        edit_wf(set_preedit_with_clauses_spec(m, t, Seq::empty())),
        (m.preedit matches Some(p) ==> byte_len(m.text) + byte_len(p.text) <= usize::MAX)
            ==> edit_wf(commit_preedit_spec(m)),
        byte_len(m.text) + byte_len(t) <= usize::MAX ==> edit_wf(finish_composition_spec(m, t)),
        (a >= text_len(m) || is_boundary(m.text, a)) && (f >= text_len(m) || is_boundary(
            m.text,
            f,
        )) ==> edit_wf(set_selection_spec(m, a, f)),
{
    lemma_end_is_boundary(t);
    lemma_end_is_boundary(m.text);
    lemma_end_is_boundary(m.text + t);
    lemma_byte_len_concat(m.text, t);
    lemma_delete_selection_wf(m);
    let d = delete_selection_spec(m).0;
    if t.len() > 0 && byte_len(m.text) + byte_len(t) <= usize::MAX {
        let at = preedit_at(d);
        lemma_splice(d.text, at as int, t);
    }
    if m.text.len() > 0 {
        lemma_end_is_boundary(m.text.drop_last());
        lemma_byte_len_concat(m.text.drop_last(), seq![m.text.last()]);
        assert(m.text.drop_last() + seq![m.text.last()] =~= m.text);
    }
    if let Some(p) = m.preedit {
        if byte_len(m.text) + byte_len(p.text) <= usize::MAX {
            lemma_splice(m.text, preedit_at(m) as int, p.text);
        }
    }
    if t.len() > 0 && byte_len(m.text) + byte_len(t) <= usize::MAX {
        lemma_splice(m.text, preedit_at(m) as int, t);
    }
}

proof fn lemma_boundary_within(t: Seq<char>, o: int)
    requires
        is_boundary(t, o),
    ensures
        o <= byte_len(t),
{
    lemma_floor_index(t, o);
    crate::byte_text::lemma_offset_le_len(t, floor_index(t, o) as int);
}

proof fn lemma_step_on_boundary(m: EditModel, g: Granularity, d: Direction, o: int)
    requires
        0 <= o,
    ensures
        is_boundary(m.text, step_spec(m, g, d, o) as int),
{
    crate::selection::law_steps_land_on_boundaries(m.text, o);
    lemma_end_is_boundary(m.text);
    lemma_floor_index(m.text, 0);
}

/// Inserting adds at most the inserted text's length (a replaced selection goes).
pub proof fn lemma_insert_len(m: EditModel, t: Seq<char>)
    requires
        edit_wf(m),
        byte_len(m.text) + byte_len(t) <= usize::MAX,
    ensures
        byte_len(insert_spec(m, t).text) <= byte_len(m.text) + byte_len(t),
        insert_spec(m, t).preedit == m.preedit,
{
    lemma_delete_selection_wf(m);
    let d = delete_selection_spec(m).0;
    if t.len() > 0 {
        lemma_boundary_within(d.text, d.cursor as int);
        lemma_splice(d.text, preedit_at(d) as int, t);
    }
}

/// Every intent of the edit seam keeps the model well formed, wherever a line break
/// still fits: the text fits a `usize` and both selection ends stay on `char`
/// boundaries; the preedit is never touched. Extending keeps the anchor; moving,
/// deleting and inserting a line break leave a caret.
pub proof fn law_apply_keeps_the_model_well_formed(m: EditModel, intent: EditIntent)
    requires
        edit_wf(m),
        intent == EditIntent::InsertLineBreak ==> byte_len(m.text) + byte_len(seq!['\n'])
            <= usize::MAX,
    ensures
        edit_wf(apply_spec(m, intent).0),
        apply_spec(m, intent).0.preedit == m.preedit,
        intent is Extend ==> apply_spec(m, intent).0.anchor == m.anchor,
        (intent is Move || intent is Delete || intent is InsertLineBreak) ==> apply_spec(
            m,
            intent,
        ).0.anchor == apply_spec(m, intent).0.cursor,
{
    let t = m.text;
    lemma_boundary_within(t, m.cursor as int);
    lemma_boundary_within(t, m.anchor as int);
    lemma_end_is_boundary(t);
    lemma_floor_index(t, 0);
    law_edits_keep_the_model_well_formed(m, seq!['\n'], 0, text_len(m) as int);
    match intent {
        EditIntent::Move { granularity, direction } => {
            lemma_step_on_boundary(m, granularity, direction, m.cursor as int);
            let st = step_spec(m, granularity, direction, m.cursor as int);
            lemma_boundary_within(t, st as int);
        },
        EditIntent::Extend { granularity, direction } => {
            lemma_step_on_boundary(m, granularity, direction, m.cursor as int);
            let st = step_spec(m, granularity, direction, m.cursor as int);
            lemma_boundary_within(t, st as int);
        },
        EditIntent::Delete { granularity, direction } => {
            if selection_range_spec(m) is None {
                let from = m.cursor as int;
                lemma_step_on_boundary(m, granularity, direction, from);
                let to = step_spec(m, granularity, direction, from) as int;
                lemma_boundary_within(t, to);
                if from != to {
                    let start = if from <= to { from } else { to };
                    let end = if from <= to { to } else { from };
                    lemma_remove_range(t, start, end);
                    lemma_boundary_within(remove_range(t, start, end), start);
                }
            }
        },
        _ => {},
    }
}

/// Committing the preedit keeps what was displayed: the committed text afterwards is
/// the displayed text before, with the caret right after the committed preedit.
pub proof fn law_commit_keeps_the_displayed_text(m: EditModel)
    requires
        edit_wf(m),
    ensures
        commit_preedit_spec(m).text == display_text_spec(m),
        commit_preedit_spec(m).preedit is None,
        m.preedit matches Some(p) ==> commit_preedit_spec(m).cursor == clamp(
            EditModel { text: display_text_spec(m), ..m },
            preedit_at(m) + byte_len(p.text),
        ),
{
}

/// Setting the content replaces it, drops the preedit and puts a caret at its end.
pub proof fn law_set_reads_back(m: EditModel, t: Seq<char>)
    requires
        fits(t),
    ensures
        set_spec(m, t).text == t,
        set_spec(m, t).preedit is None,
        set_spec(m, t).cursor == byte_len(t),
        set_spec(m, t).anchor == byte_len(t),
        selection_range_spec(set_spec(m, t)) is None,
{
}

} // verus!
