//! The unified text selection model and the text steppers shared by
//! read-only selection and text-input editing.
//!
//! Both ends of a selection are `(ElementId, byte offset)` pairs. A selection whose
//! anchor equals its focus is a caret.
use vstd::prelude::*;

use crate::byte_text::{
    byte_offset, char_offsets, fits, floor_in, floor_index, floor_offset, is_boundary,
    lemma_floor_index, lemma_offset_is_boundary, lemma_offset_strict, str_eq,
};
use crate::id::ElementId;

verus! {

/// Modifier bit for Shift on the pointer/key wire.
pub const MOD_SHIFT: u32 = 1;

/// Modifier bit for Ctrl on the pointer/key wire.
pub const MOD_CTRL: u32 = 2;

/// Modifier bit for Alt on the pointer/key wire.
pub const MOD_ALT: u32 = 4;

/// Modifier bit for Meta (Cmd) on the pointer/key wire.
pub const MOD_META: u32 = 8;

/// The primary command modifier: Ctrl on Windows/Linux, Cmd (Meta) on macOS.
pub const MOD_PRIMARY: u32 = MOD_CTRL | MOD_META;

/// One end of a selection: a byte offset into one element's text.
#[derive(Clone, Copy, Debug, PartialEq, Eq, Structural)]
pub struct SelectionPoint {
    pub element: ElementId,
    pub offset: usize,
}

impl SelectionPoint {
    pub fn new(element: ElementId, offset: usize) -> (r: Self)
        ensures
            r.element == element,
            r.offset == offset,
    {
        SelectionPoint { element, offset }
    }
}

/// A contiguous selection between `anchor` (where a drag started) and `focus`
/// (where the pointer is). The field order says nothing about document order.
#[derive(Clone, Copy, Debug, PartialEq, Eq, Structural)]
pub struct Selection {
    pub anchor: SelectionPoint,
    pub focus: SelectionPoint,
}

/// The byte range of `sel` inside `element`, in text order, when both ends lie in it.
pub open spec fn range_within_spec(sel: Selection, element: ElementId) -> Option<(usize, usize)> {
    if sel.anchor.element == element && sel.focus.element == element {
        let a = sel.anchor.offset;
        let b = sel.focus.offset;
        Some((if a <= b { a } else { b }, if a <= b { b } else { a }))
    } else {
        None
    }
}

impl Selection {
    /// A selection collapsed to a single point: a caret.
    pub fn caret(point: SelectionPoint) -> (r: Self)
        ensures
            r.anchor == point,
            r.focus == point,
    {
        Selection { anchor: point, focus: point }
    }

    /// The selection is collapsed (anchor == focus).
    pub fn is_caret(&self) -> (r: bool)
        ensures
            r == (self.anchor == self.focus),
    {
        self.anchor == self.focus
    }

    /// The selected byte range inside `element` normalized to `start <= end`,
    /// or `None` unless both ends are inside `element`.
    pub fn range_within(&self, element: ElementId) -> (r: Option<(usize, usize)>)
        ensures
            r == range_within_spec(*self, element),
    {
        if self.anchor.element != element || self.focus.element != element {
            return None;
        }
        let a = self.anchor.offset;
        let b = self.focus.offset;
        if a <= b {
            Some((a, b))
        } else {
            Some((b, a))
        }
    }
}

/// Character classes for word segmentation: a word is a maximal run of one class.
#[derive(Clone, Copy, Debug, PartialEq, Eq, Structural)]
pub enum CharClass {
    Word,
    Space,
    Other,
}

/// The Unicode `White_Space` property.
pub open spec fn unicode_white_space(c: char) -> bool {
    let v = c as u32;
    ||| 0x09 <= v <= 0x0D
    ||| v == 0x20
    ||| v == 0x85
    ||| v == 0xA0
    ||| v == 0x1680
    ||| 0x2000 <= v <= 0x200A
    ||| v == 0x2028
    ||| v == 0x2029
    ||| v == 0x202F
    ||| v == 0x205F
    ||| v == 0x3000
}

/// What `char::is_alphanumeric` returns for `c`.
pub uninterp spec fn char_alphanumeric(c: char) -> bool;

/// Whether `c` has the Unicode `White_Space` property.
fn char_is_whitespace(c: char) -> (r: bool)
    ensures
        r == unicode_white_space(c),
{
    let v = c as u32;
    (0x09 <= v && v <= 0x0D) || v == 0x20 || v == 0x85 || v == 0xA0 || v == 0x1680 || (0x2000
        <= v && v <= 0x200A) || v == 0x2028 || v == 0x2029 || v == 0x202F || v == 0x205F || v
        == 0x3000
}

/// Calls `char::is_alphanumeric` (Unicode `Alphabetic` or `Numeric`); the contract
/// only names its result, a function of `c` alone.
#[verifier::external_body]
fn char_is_alphanumeric(c: char) -> (r: bool)
    ensures
        r == char_alphanumeric(c),
{
    c.is_alphanumeric()
}

/// The word-segmentation class of `c`.
pub open spec fn char_class(c: char) -> CharClass {
    if unicode_white_space(c) {
        CharClass::Space
    } else if char_alphanumeric(c) || c == '_' {
        CharClass::Word
    } else {
        CharClass::Other
    }
}

pub fn classify(c: char) -> (r: CharClass)
    ensures
        r == char_class(c),
{
    if char_is_whitespace(c) {
        CharClass::Space
    } else if char_is_alphanumeric(c) || c == '_' {
        CharClass::Word
    } else {
        CharClass::Other
    }
}

/// The word-segmentation class of each char of `s`.
pub open spec fn classes_of(s: Seq<char>) -> Seq<CharClass> {
    s.map_values(|c: char| char_class(c))
}

/// End of the run of class `cls` starting at index `i` of a class sequence.
pub open spec fn class_run_end(cs: Seq<CharClass>, cls: CharClass, i: int) -> int
    decreases cs.len() - i,
{
    if i < 0 || i >= cs.len() || cs[i] != cls {
        i
    } else {
        class_run_end(cs, cls, i + 1)
    }
}

/// Start of the run of class `cls` ending just before index `i` of a class sequence.
pub open spec fn class_run_start(cs: Seq<CharClass>, cls: CharClass, i: int) -> int
    decreases i,
{
    if i <= 0 || i > cs.len() || cs[i - 1] != cls {
        i
    } else {
        class_run_start(cs, cls, i - 1)
    }
}

/// First index at or after `i` of a word class (or the end).
pub open spec fn class_skip_forward(cs: Seq<CharClass>, i: int) -> int
    decreases cs.len() - i,
{
    if i < 0 || i >= cs.len() || cs[i] == CharClass::Word {
        i
    } else {
        class_skip_forward(cs, i + 1)
    }
}

/// Last index at or before `i` that follows a word class (or the start).
pub open spec fn class_skip_backward(cs: Seq<CharClass>, i: int) -> int
    decreases i,
{
    if i <= 0 || i > cs.len() || cs[i - 1] == CharClass::Word {
        i
    } else {
        class_skip_backward(cs, i - 1)
    }
}

/// End of the run of `cls` chars starting at index `i`.
pub open spec fn run_end(s: Seq<char>, cls: CharClass, i: int) -> int {
    class_run_end(classes_of(s), cls, i)
}

/// Start of the run of `cls` chars ending just before index `i`.
pub open spec fn run_start(s: Seq<char>, cls: CharClass, i: int) -> int {
    class_run_start(classes_of(s), cls, i)
}

/// First index at or after `i` that holds a word char (or the end).
pub open spec fn skip_non_word_forward(s: Seq<char>, i: int) -> int {
    class_skip_forward(classes_of(s), i)
}

/// Last index at or before `i` that follows a word char (or the start).
pub open spec fn skip_non_word_backward(s: Seq<char>, i: int) -> int {
    class_skip_backward(classes_of(s), i)
}

/// Index just after the last `'\n'` before index `i` (0 when there is none).
pub open spec fn line_start(s: Seq<char>, i: int) -> int
    decreases i,
{
    if i <= 0 || i > s.len() || s[i - 1] == '\n' {
        if i <= 0 {
            0
        } else {
            i
        }
    } else {
        line_start(s, i - 1)
    }
}

/// Index of the first `'\n'` at or after index `i` (the end when there is none).
pub open spec fn line_end(s: Seq<char>, i: int) -> int
    decreases s.len() - i,
{
    if i < 0 || i >= s.len() || s[i] == '\n' {
        i
    } else {
        line_end(s, i + 1)
    }
}

/// Byte range of the word under byte offset `o`: the maximal run of chars sharing the
/// class of the char at `o` (of the last char when `o` is at the end of the text).
pub open spec fn word_bounds_spec(s: Seq<char>, o: int) -> (nat, nat) {
    if s.len() == 0 {
        (0, 0)
    } else {
        let p = floor_index(s, o) as int;
        let pivot = if p < s.len() {
            p
        } else {
            s.len() - 1
        };
        let cls = char_class(s[pivot]);
        (byte_offset(s, run_start(s, cls, pivot)), byte_offset(s, run_end(s, cls, pivot)))
    }
}

/// Byte range of the hard line (paragraph) holding byte offset `o`, newlines excluded.
pub open spec fn line_bounds_spec(s: Seq<char>, o: int) -> (nat, nat) {
    let p = floor_index(s, o) as int;
    (byte_offset(s, line_start(s, p)), byte_offset(s, line_end(s, p)))
}

/// Byte offset one `char` after byte offset `o` (clamped to the end).
pub open spec fn next_grapheme_spec(s: Seq<char>, o: int) -> nat {
    let p = floor_index(s, o) as int;
    if p < s.len() {
        byte_offset(s, p + 1)
    } else {
        byte_offset(s, p)
    }
}

/// Byte offset one `char` before byte offset `o` (clamped to 0).
pub open spec fn prev_grapheme_spec(s: Seq<char>, o: int) -> nat {
    let p = floor_index(s, o) as int;
    if p > 0 {
        byte_offset(s, p - 1)
    } else {
        0
    }
}

/// Byte offset of the end of the next word after byte offset `o`.
pub open spec fn next_word_spec(s: Seq<char>, o: int) -> nat {
    let p = floor_index(s, o) as int;
    byte_offset(s, run_end(s, CharClass::Word, skip_non_word_forward(s, p)))
}

/// Byte offset of the start of the previous word before byte offset `o`.
pub open spec fn prev_word_spec(s: Seq<char>, o: int) -> nat {
    let p = floor_index(s, o) as int;
    byte_offset(s, run_start(s, CharClass::Word, skip_non_word_backward(s, p)))
}

/// Horizontal caret motion for an arrow key: one char, or one word with `by_word`.
pub open spec fn arrow_step_spec(s: Seq<char>, key: Seq<char>, o: int, by_word: bool) -> Option<nat> {
    if key == "ArrowRight"@ {
        Some(
            if by_word {
                next_word_spec(s, o)
            } else {
                next_grapheme_spec(s, o)
            },
        )
    } else if key == "ArrowLeft"@ {
        Some(
            if by_word {
                prev_word_spec(s, o)
            } else {
                prev_grapheme_spec(s, o)
            },
        )
    } else {
        None
    }
}

proof fn lemma_run_end_bounds(s: Seq<char>, cls: CharClass, i: int)
    requires
        0 <= i <= s.len(),
    ensures
        i <= run_end(s, cls, i) <= s.len(),
        forall|k: int| i <= k < run_end(s, cls, i) ==> char_class(#[trigger] s[k]) == cls,
        run_end(s, cls, i) == s.len() || char_class(s[run_end(s, cls, i)]) != cls,
    decreases s.len() - i,
{
    if i < s.len() && char_class(s[i]) == cls {
        lemma_run_end_bounds(s, cls, i + 1);
    }
}

proof fn lemma_run_start_bounds(s: Seq<char>, cls: CharClass, i: int)
    requires
        0 <= i <= s.len(),
    ensures
        0 <= run_start(s, cls, i) <= i,
        forall|k: int| run_start(s, cls, i) <= k < i ==> char_class(#[trigger] s[k]) == cls,
        run_start(s, cls, i) == 0 || char_class(s[run_start(s, cls, i) - 1]) != cls,
    decreases i,
{
    if i > 0 && char_class(s[i - 1]) == cls {
        lemma_run_start_bounds(s, cls, i - 1);
    }
}

proof fn lemma_skip_forward_bounds(s: Seq<char>, i: int)
    requires
        0 <= i <= s.len(),
    ensures
        i <= skip_non_word_forward(s, i) <= s.len(),
    decreases s.len() - i,
{
    if i < s.len() && char_class(s[i]) != CharClass::Word {
        lemma_skip_forward_bounds(s, i + 1);
    }
}

proof fn lemma_skip_backward_bounds(s: Seq<char>, i: int)
    requires
        0 <= i <= s.len(),
    ensures
        0 <= skip_non_word_backward(s, i) <= i,
    decreases i,
{
    if i > 0 && char_class(s[i - 1]) != CharClass::Word {
        lemma_skip_backward_bounds(s, i - 1);
    }
}

proof fn lemma_line_start_bounds(s: Seq<char>, i: int)
    requires
        0 <= i <= s.len(),
    ensures
        0 <= line_start(s, i) <= i,
        forall|k: int| line_start(s, i) <= k < i ==> #[trigger] s[k] != '\n',
        line_start(s, i) == 0 || s[line_start(s, i) - 1] == '\n',
    decreases i,
{
    if i > 0 && s[i - 1] != '\n' {
        lemma_line_start_bounds(s, i - 1);
    }
}

proof fn lemma_line_end_bounds(s: Seq<char>, i: int)
    requires
        0 <= i <= s.len(),
    ensures
        i <= line_end(s, i) <= s.len(),
        forall|k: int| i <= k < line_end(s, i) ==> #[trigger] s[k] != '\n',
        line_end(s, i) == s.len() || s[line_end(s, i)] == '\n',
    decreases s.len() - i,
{
    if i < s.len() && s[i] != '\n' {
        lemma_line_end_bounds(s, i + 1);
    }
}

/// Stepping one char forward and then one char back returns to the boundary at or
/// before `o`; stepping back and then forward does too.
pub proof fn law_grapheme_steps_undo_each_other(s: Seq<char>, o: int)
    requires
        0 <= o,
    ensures
        floor_index(s, o) < s.len() ==> prev_grapheme_spec(s, next_grapheme_spec(s, o) as int)
            == floor_offset(s, o),
        floor_index(s, o) > 0 ==> next_grapheme_spec(s, prev_grapheme_spec(s, o) as int)
            == floor_offset(s, o),
{
    lemma_floor_index(s, o);
    let p = floor_index(s, o) as int;
    if p < s.len() {
        lemma_offset_is_boundary(s, p + 1);
    }
    if p > 0 {
        lemma_offset_is_boundary(s, p - 1);
    }
}

/// Every stepper lands on a `char` boundary; forward steppers never move left of the
/// boundary at `o`, backward steppers never move right of it, and a char step moves
/// whenever there is a char to step over.
pub proof fn law_steps_land_on_boundaries(s: Seq<char>, o: int)
    requires
        0 <= o,
    ensures
        is_boundary(s, next_grapheme_spec(s, o) as int),
        is_boundary(s, prev_grapheme_spec(s, o) as int),
        is_boundary(s, next_word_spec(s, o) as int),
        is_boundary(s, prev_word_spec(s, o) as int),
        floor_offset(s, o) <= next_grapheme_spec(s, o),
        prev_grapheme_spec(s, o) <= floor_offset(s, o),
        floor_offset(s, o) <= next_word_spec(s, o),
        prev_word_spec(s, o) <= floor_offset(s, o),
        floor_index(s, o) < s.len() ==> floor_offset(s, o) < next_grapheme_spec(s, o),
        floor_index(s, o) > 0 ==> prev_grapheme_spec(s, o) < floor_offset(s, o),
{
    lemma_floor_index(s, o);
    let p = floor_index(s, o) as int;
    if p < s.len() {
        lemma_offset_is_boundary(s, p + 1);
        lemma_offset_strict(s, p, p + 1);
    } else {
        lemma_offset_is_boundary(s, p);
    }
    if p > 0 {
        lemma_offset_is_boundary(s, p - 1);
        lemma_offset_strict(s, p - 1, p);
    } else {
        lemma_offset_is_boundary(s, 0);
    }
    lemma_skip_forward_bounds(s, p);
    let f = skip_non_word_forward(s, p);
    lemma_run_end_bounds(s, CharClass::Word, f);
    lemma_offset_is_boundary(s, run_end(s, CharClass::Word, f));
    lemma_offset_strict(s, p, run_end(s, CharClass::Word, f));
    lemma_skip_backward_bounds(s, p);
    let b = skip_non_word_backward(s, p);
    lemma_run_start_bounds(s, CharClass::Word, b);
    lemma_offset_is_boundary(s, run_start(s, CharClass::Word, b));
    lemma_offset_strict(s, run_start(s, CharClass::Word, b), p);
}

/// On non-empty text the word bounds are two boundaries around the boundary at `o` that
/// enclose a non-empty run of chars of one class, and the run cannot be extended:
/// the chars just outside it (if any) are of another class.
pub proof fn law_word_bounds_are_a_maximal_class_run(s: Seq<char>, o: int)
    requires
        0 <= o,
        s.len() > 0,
    ensures
        ({
            let (a, b) = word_bounds_spec(s, o);
            let i = floor_index(s, a as int) as int;
            let j = floor_index(s, b as int) as int;
            let cls = char_class(s[i]);
            &&& is_boundary(s, a as int)
            &&& is_boundary(s, b as int)
            &&& a < b
            &&& a <= floor_offset(s, o)
            &&& (floor_index(s, o) < s.len() ==> floor_offset(s, o) < b)
            &&& forall|k: int| i <= k < j ==> char_class(#[trigger] s[k]) == cls
            &&& (i == 0 || char_class(s[i - 1]) != cls)
            &&& (j == s.len() || char_class(s[j]) != cls)
        }),
{
    lemma_floor_index(s, o);
    let p = floor_index(s, o) as int;
    let pivot = if p < s.len() {
        p
    } else {
        s.len() - 1
    };
    let cls = char_class(s[pivot]);
    lemma_run_end_bounds(s, cls, pivot);
    lemma_run_start_bounds(s, cls, pivot);
    let i = run_start(s, cls, pivot);
    let j = run_end(s, cls, pivot);
    assert(pivot < j);
    lemma_offset_is_boundary(s, i);
    lemma_offset_is_boundary(s, j);
    lemma_offset_strict(s, i, j);
    lemma_offset_strict(s, i, p);
    if p < s.len() {
        lemma_offset_strict(s, p, j);
    }
    assert(char_class(s[i]) == cls) by {
        assert(i <= pivot < j);
    }
}

/// The line bounds enclose the boundary at `o`, hold no `'\n'`, and are bounded by a
/// `'\n'` or the ends of the text on both sides.
pub proof fn law_line_bounds_span_one_paragraph(s: Seq<char>, o: int)
    requires
        0 <= o,
    ensures
        ({
            let (a, b) = line_bounds_spec(s, o);
            let i = floor_index(s, a as int) as int;
            let j = floor_index(s, b as int) as int;
            &&& is_boundary(s, a as int)
            &&& is_boundary(s, b as int)
            &&& a <= floor_offset(s, o) <= b
            &&& forall|k: int| i <= k < j ==> #[trigger] s[k] != '\n'
            &&& (i == 0 || s[i - 1] == '\n')
            &&& (j == s.len() || s[j] == '\n')
        }),
{
    lemma_floor_index(s, o);
    let p = floor_index(s, o) as int;
    lemma_line_start_bounds(s, p);
    lemma_line_end_bounds(s, p);
    let i = line_start(s, p);
    let j = line_end(s, p);
    lemma_offset_is_boundary(s, i);
    lemma_offset_is_boundary(s, j);
    lemma_offset_strict(s, i, p);
    lemma_offset_strict(s, p, j);
}

/// `offset` rounded down to the nearest `char` boundary, clamped to the text length.
pub fn floor_boundary(text: &str, offset: usize) -> (r: usize)
    requires
        fits(text@),
    ensures
        r == floor_offset(text@, offset as int),
{
    let (_chars, offsets) = char_offsets(text);
    let p = floor_in(&offsets, offset, Ghost(text@));
    offsets[p]
}

/// Byte range of the "word" under `offset`: the maximal run of chars sharing the class
/// (word / space / other) of the char at `offset`; at the end of the text, of the last char.
pub fn word_bounds(text: &str, offset: usize) -> (r: (usize, usize))
    requires
        fits(text@),
    ensures
        r.0 == word_bounds_spec(text@, offset as int).0,
        r.1 == word_bounds_spec(text@, offset as int).1,
{
    let ghost s = text@;
    let (chars, offsets) = char_offsets(text);
    let n = chars.len();
    if n == 0 {
        return (0, 0);
    }
    let p = floor_in(&offsets, offset, Ghost(s));
    let pivot = if p < n {
        p
    } else {
        n - 1
    };
    let class = classify(chars[pivot]);
    let mut end = pivot;
    while end < n && classify(chars[end]) == class
        invariant
            chars@ == s,
            n == s.len(),
            pivot <= end <= n,
            run_end(s, class, pivot as int) == run_end(s, class, end as int),
        decreases n - end,
    {
        end = end + 1;
    }
    let mut start = pivot;
    while start > 0 && classify(chars[start - 1]) == class
        invariant
            chars@ == s,
            n == s.len(),
            start <= pivot < n,
            run_start(s, class, pivot as int) == run_start(s, class, start as int),
        decreases start,
    {
        start = start - 1;
    }
    (offsets[start], offsets[end])
}

/// Byte range of the paragraph (hard line) holding `offset`, without the bounding `'\n'`s.
pub fn line_bounds(text: &str, offset: usize) -> (r: (usize, usize))
    requires
        fits(text@),
    ensures
        r.0 == line_bounds_spec(text@, offset as int).0,
        r.1 == line_bounds_spec(text@, offset as int).1,
{
    let ghost s = text@;
    let (chars, offsets) = char_offsets(text);
    let n = chars.len();
    let p = floor_in(&offsets, offset, Ghost(s));
    let mut start = p;
    while start > 0 && chars[start - 1] != '\n'
        invariant
            chars@ == s,
            start <= p <= n,
            n == s.len(),
            line_start(s, p as int) == line_start(s, start as int),
        decreases start,
    {
        start = start - 1;
    }
    let mut end = p;
    while end < n && chars[end] != '\n'
        invariant
            chars@ == s,
            p <= end <= n,
            n == s.len(),
            line_end(s, p as int) == line_end(s, end as int),
        decreases n - end,
    {
        end = end + 1;
    }
    (offsets[start], offsets[end])
}

/// Byte offset of the `char` after `offset` (clamped to the end): Shift+Arrow moves
/// the focus one char at a time.
pub fn next_grapheme(text: &str, offset: usize) -> (r: usize)
    requires
        fits(text@),
    ensures
        r == next_grapheme_spec(text@, offset as int),
{
    let (chars, offsets) = char_offsets(text);
    let p = floor_in(&offsets, offset, Ghost(text@));
    if p < chars.len() {
        offsets[p + 1]
    } else {
        offsets[p]
    }
}

/// Byte offset of the `char` before `offset` (clamped to 0).
pub fn prev_grapheme(text: &str, offset: usize) -> (r: usize)
    requires
        fits(text@),
    ensures
        r == prev_grapheme_spec(text@, offset as int),
{
    let (_chars, offsets) = char_offsets(text);
    let p = floor_in(&offsets, offset, Ghost(text@));
    if p > 0 {
        offsets[p - 1]
    } else {
        0
    }
}

/// Horizontal caret motion for the left/right arrow keys: one char, or one word when
/// `by_word`. Any other key gives `None` so the caller can fall through.
pub fn arrow_step(text: &str, key: &str, offset: usize, by_word: bool) -> (r: Option<usize>)
    requires
        fits(text@),
    ensures
        r matches Some(v) ==> arrow_step_spec(text@, key@, offset as int, by_word) == Some(
            v as nat,
        ),
        r is None ==> arrow_step_spec(text@, key@, offset as int, by_word) is None,
{
    if str_eq(key, "ArrowRight") {
        if by_word {
            Some(next_word(text, offset))
        } else {
            Some(next_grapheme(text, offset))
        }
    } else if str_eq(key, "ArrowLeft") {
        if by_word {
            Some(prev_word(text, offset))
        } else {
            Some(prev_grapheme(text, offset))
        }
    } else {
        None
    }
}

/// The class of `c` given whether it is alphanumeric: whitespace first, then word
/// chars (alphanumerics and `_`), then everything else.
pub open spec fn class_given(c: char, alphanumeric: bool) -> CharClass {
    if unicode_white_space(c) {
        CharClass::Space
    } else if alphanumeric || c == '_' {
        CharClass::Word
    } else {
        CharClass::Other
    }
}

/// The word-segmentation class of `c`, with `alphanumeric` the answer of
/// `char::is_alphanumeric` for it: see [`class_given`].
pub fn classify_given(c: char, alphanumeric: bool) -> (r: CharClass)
    ensures
        r == class_given(c, alphanumeric),
        alphanumeric == char_alphanumeric(c) ==> r == char_class(c),
{
    if char_is_whitespace(c) {
        CharClass::Space
    } else if alphanumeric || c == '_' {
        CharClass::Word
    } else {
        CharClass::Other
    }
}

/// The classes of the chars of a text.
fn classes_in(chars: &Vec<char>) -> (r: Vec<CharClass>)
    ensures
        r@ == classes_of(chars@),
{
    let mut out: Vec<CharClass> = Vec::new();
    let mut i: usize = 0;
    while i < chars.len()
        invariant
            i <= chars@.len(),
            out@ == classes_of(chars@).take(i as int),
        decreases chars@.len() - i,
    {
        out.push(classify(chars[i]));
        i = i + 1;
        assert(out@ =~= classes_of(chars@).take(i as int));
    }
    assert(out@ =~= classes_of(chars@));
    out
}

/// The char index where the next word ends, from char index `from` of a text whose
/// chars have the classes `classes`: past any non-word chars, then past the word run.
pub fn next_word_end(classes: &[CharClass], from: usize) -> (r: usize)
    requires
        from <= classes@.len(),
    ensures
        r == class_run_end(classes@, CharClass::Word, class_skip_forward(classes@, from as int)),
        from <= r <= classes@.len(),
{
    let n = classes.len();
    let mut o = from;
    while o < n && classes[o] != CharClass::Word
        invariant
            from <= o <= n,
            n == classes@.len(),
            class_skip_forward(classes@, from as int) == class_skip_forward(classes@, o as int),
        decreases n - o,
    {
        o = o + 1;
    }
    let ghost mid = o as int;
    while o < n && classes[o] == CharClass::Word
        invariant
            mid <= o <= n,
            n == classes@.len(),
            class_skip_forward(classes@, from as int) == mid,
            class_run_end(classes@, CharClass::Word, mid) == class_run_end(
                classes@,
                CharClass::Word,
                o as int,
            ),
        decreases n - o,
    {
        o = o + 1;
    }
    o
}

/// The char index where the previous word starts, from char index `from` of a text
/// whose chars have the classes `classes`: back past any non-word chars, then back past
/// the word run.
pub fn prev_word_start(classes: &[CharClass], from: usize) -> (r: usize)
    requires
        from <= classes@.len(),
    ensures
        r == class_run_start(classes@, CharClass::Word, class_skip_backward(classes@, from as int)),
        r <= from,
{
    let n = classes.len();
    let mut o = from;
    while o > 0 && classes[o - 1] != CharClass::Word
        invariant
            o <= from <= n,
            n == classes@.len(),
            class_skip_backward(classes@, from as int) == class_skip_backward(classes@, o as int),
        decreases o,
    {
        o = o - 1;
    }
    let ghost mid = o as int;
    while o > 0 && classes[o - 1] == CharClass::Word
        invariant
            o <= mid <= n,
            n == classes@.len(),
            class_skip_backward(classes@, from as int) == mid,
            class_run_start(classes@, CharClass::Word, mid) == class_run_start(
                classes@,
                CharClass::Word,
                o as int,
            ),
        decreases o,
    {
        o = o - 1;
    }
    o
}

/// Byte offset of the end of the next word: skips non-word chars, then the word run.
pub fn next_word(text: &str, offset: usize) -> (r: usize)
    requires
        fits(text@),
    ensures
        r == next_word_spec(text@, offset as int),
{
    let ghost s = text@;
    let (chars, offsets) = char_offsets(text);
    let p = floor_in(&offsets, offset, Ghost(s));
    let classes = classes_in(&chars);
    assert(classes@ == classes_of(s));
    let o = next_word_end(classes.as_slice(), p);
    offsets[o]
}

/// Byte offset of the start of the previous word: skips non-word chars leftwards,
/// then the word run.
pub fn prev_word(text: &str, offset: usize) -> (r: usize)
    requires
        fits(text@),
    ensures
        r == prev_word_spec(text@, offset as int),
{
    let ghost s = text@;
    let (chars, offsets) = char_offsets(text);
    let p = floor_in(&offsets, offset, Ghost(s));
    let classes = classes_in(&chars);
    assert(classes@ == classes_of(s));
    let o = prev_word_start(classes.as_slice(), p);
    offsets[o]
}

} // verus!
