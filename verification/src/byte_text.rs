//! Byte offsets into UTF-8 text, modelled over the text's `char` sequence.
//!
//! Every text position in the library is a UTF-8 byte offset. The model here
//! ties a byte offset to a `char` index: `byte_offset(s, i)` is the number of
//! UTF-8 bytes taken by the first `i` chars of `s`, and a byte offset is a
//! boundary exactly when some `char` index lands on it.
use vstd::prelude::*;

verus! {

/// Number of bytes in the UTF-8 encoding of `c`.
pub open spec fn char_width(c: char) -> nat {
    if (c as u32) <= 0x7F {
        1
    } else if (c as u32) <= 0x7FF {
        2
    } else if (c as u32) <= 0xFFFF {
        3
    } else {
        4
    }
}

/// Number of bytes in the UTF-8 encoding of `s`.
pub open spec fn byte_len(s: Seq<char>) -> nat
    decreases s.len(),
{
    if s.len() == 0 {
        0
    } else {
        byte_len(s.drop_last()) + char_width(s.last())
    }
}

/// Byte offset at which the `char` with index `i` starts (`byte_len(s)` for `i == s.len()`).
pub open spec fn byte_offset(s: Seq<char>, i: int) -> nat {
    byte_len(s.take(i))
}

/// The text's UTF-8 length is a machine-sized number.
pub open spec fn fits(s: Seq<char>) -> bool {
    byte_len(s) <= usize::MAX
}

/// Index of the last `char` boundary at or before byte offset `o`
/// (`s.len()` once `o` reaches the end of the text).
pub open spec fn floor_index(s: Seq<char>, o: int) -> nat
    decreases s.len(),
{
    if s.len() == 0 {
        0
    } else if byte_len(s) <= o {
        s.len()
    } else {
        floor_index(s.drop_last(), o)
    }
}

/// The byte offset `o` rounded down to a `char` boundary and clamped to the text.
pub open spec fn floor_offset(s: Seq<char>, o: int) -> nat {
    byte_offset(s, floor_index(s, o) as int)
}

/// `o` is a `char` boundary of `s` (the end of the text included).
pub open spec fn is_boundary(s: Seq<char>, o: int) -> bool {
    0 <= o && floor_offset(s, o) == o
}

/// An optional string as chars.
pub open spec fn opt_chars(r: Option<String>) -> Option<Seq<char>> {
    match r {
        Some(t) => Some(t@),
        None => None,
    }
}

/// The chars before byte offset `o` (rounded down to a boundary).
pub open spec fn before(s: Seq<char>, o: int) -> Seq<char> {
    s.take(floor_index(s, o) as int)
}

/// The chars from byte offset `o` (rounded down to a boundary) to the end.
pub open spec fn after(s: Seq<char>, o: int) -> Seq<char> {
    s.skip(floor_index(s, o) as int)
}

pub proof fn lemma_char_width_bounds(c: char)
    ensures
        1 <= char_width(c) <= 4,
{
}

pub proof fn lemma_take_all(s: Seq<char>)
    ensures
        s.take(s.len() as int) == s,
        byte_offset(s, s.len() as int) == byte_len(s),
{
    assert(s.take(s.len() as int) =~= s);
}

/// Stepping over one `char` advances the byte offset by that char's width.
pub proof fn lemma_offset_step(s: Seq<char>, i: int)
    requires
        0 <= i < s.len(),
    ensures
        byte_offset(s, i + 1) == byte_offset(s, i) + char_width(s[i]),
{
    assert(s.take(i + 1).drop_last() =~= s.take(i));
    assert(s.take(i + 1).last() == s[i]);
}

/// Byte offsets grow strictly with the `char` index.
pub proof fn lemma_offset_strict(s: Seq<char>, i: int, j: int)
    requires
        0 <= i <= j <= s.len(),
    ensures
        byte_offset(s, i) <= byte_offset(s, j),
        i < j ==> byte_offset(s, i) + 1 <= byte_offset(s, j),
        i < j ==> byte_offset(s, i) + char_width(s[i]) <= byte_offset(s, j),
    decreases j - i,
{
    if i < j {
        lemma_offset_step(s, j - 1);
        lemma_char_width_bounds(s[j - 1]);
        if i < j - 1 {
            lemma_offset_strict(s, i, j - 1);
        }
        lemma_offset_step(s, i);
    }
}

/// Every prefix offset is bounded by the whole text.
pub proof fn lemma_offset_le_len(s: Seq<char>, i: int)
    requires
        0 <= i <= s.len(),
    ensures
        byte_offset(s, i) <= byte_len(s),
{
    lemma_take_all(s);
    lemma_offset_strict(s, i, s.len() as int);
}

/// A text and the same text without its last `char` agree on every offset before it.
pub proof fn lemma_offset_drop_last(s: Seq<char>, i: int)
    requires
        0 <= i < s.len(),
    ensures
        byte_offset(s.drop_last(), i) == byte_offset(s, i),
{
    assert(s.drop_last().take(i) =~= s.take(i));
}

/// What `floor_index` computes: the largest `char` index whose offset is at most `o`.
pub proof fn lemma_floor_index(s: Seq<char>, o: int)
    requires
        0 <= o,
    ensures
        floor_index(s, o) <= s.len(),
        byte_offset(s, floor_index(s, o) as int) <= o,
        floor_index(s, o) < s.len() ==> o < byte_offset(s, floor_index(s, o) + 1int),
    decreases s.len(),
{
    if s.len() == 0 {
        assert(s.take(0) =~= Seq::<char>::empty());
    } else if byte_len(s) <= o {
        lemma_take_all(s);
    } else {
        let t = s.drop_last();
        lemma_floor_index(t, o);
        let p = floor_index(t, o);
        if p < t.len() {
            lemma_offset_drop_last(s, p as int);
            lemma_offset_drop_last(s, p + 1int);
        } else {
            lemma_take_all(t);
            lemma_offset_drop_last(s, p as int);
            lemma_take_all(s);
        }
    }
}

/// The largest index whose offset is at most `o` is `floor_index(s, o)`.
pub proof fn lemma_floor_unique(s: Seq<char>, o: int, i: int)
    requires
        0 <= o,
        0 <= i <= s.len(),
        byte_offset(s, i) <= o,
        i == s.len() || o < byte_offset(s, i + 1),
    ensures
        floor_index(s, o) == i,
{
    lemma_floor_index(s, o);
    let p = floor_index(s, o) as int;
    if p < i {
        lemma_offset_strict(s, p + 1, i);
    } else if i < p {
        lemma_offset_strict(s, i + 1, p);
    }
}

/// The offset of every `char` index is a boundary, and rounds to that index.
pub proof fn lemma_offset_is_boundary(s: Seq<char>, i: int)
    requires
        0 <= i <= s.len(),
    ensures
        floor_index(s, byte_offset(s, i) as int) == i,
        is_boundary(s, byte_offset(s, i) as int),
{
    if i < s.len() {
        lemma_offset_strict(s, i, i + 1);
    }
    lemma_floor_unique(s, byte_offset(s, i) as int, i);
}

/// The encoding of two texts laid end to end is the two encodings laid end to end.
pub proof fn lemma_byte_len_concat(a: Seq<char>, b: Seq<char>)
    ensures
        byte_len(a + b) == byte_len(a) + byte_len(b),
    decreases b.len(),
{
    if b.len() == 0 {
        assert(a + b =~= a);
    } else {
        assert((a + b).drop_last() =~= a + b.drop_last());
        assert((a + b).last() == b.last());
        lemma_byte_len_concat(a, b.drop_last());
    }
}

/// Splitting a text at a byte offset: the part before has the offset's length and the
/// two parts put back together are the text.
pub proof fn lemma_split_at(s: Seq<char>, o: int)
    requires
        0 <= o,
    ensures
        before(s, o) + after(s, o) == s,
        byte_len(before(s, o)) == floor_offset(s, o),
        byte_len(before(s, o)) + byte_len(after(s, o)) == byte_len(s),
        floor_index(s, o) <= s.len(),
{
    lemma_floor_index(s, o);
    assert(before(s, o) + after(s, o) =~= s);
    lemma_byte_len_concat(before(s, o), after(s, o));
}

/// Number of bytes in the UTF-8 encoding of `c`.
pub fn utf8_width(c: char) -> (w: usize)
    ensures
        w == char_width(c),
{
    let v = c as u32;
    if v <= 0x7F {
        1
    } else if v <= 0x7FF {
        2
    } else if v <= 0xFFFF {
        3
    } else {
        4
    }
}

/// The chars of `text`, with the byte offset of every `char` boundary
/// (`offsets[i]` is where the `char` with index `i` starts; the last entry is the byte length).
pub fn char_offsets(text: &str) -> (r: (Vec<char>, Vec<usize>))
    requires
        fits(text@),
    ensures
        r.0@ == text@,
        r.1@.len() == text@.len() + 1,
        forall|i: int| 0 <= i <= text@.len() ==> #[trigger] r.1@[i] == byte_offset(text@, i),
{
    let ghost s = text@;
    let mut chars: Vec<char> = Vec::new();
    let mut offsets: Vec<usize> = Vec::new();
    offsets.push(0);
    assert(s.take(0) =~= Seq::<char>::empty());
    let mut pos: usize = 0;
    for c in it: text.chars()
        invariant
            it.seq() == s,
            fits(s),
            chars@ == s.take(it.index() as int),
            offsets@.len() == it.index() + 1,
            pos == byte_offset(s, it.index() as int),
            forall|i: int| 0 <= i <= it.index() ==> #[trigger] offsets@[i] == byte_offset(s, i),
    {
        let ghost k = it.index() as int;
        proof {
            lemma_offset_step(s, k);
            lemma_offset_le_len(s, k + 1);
        }
        let w = utf8_width(c);
        pos = pos + w;
        chars.push(c);
        offsets.push(pos);
        assert(chars@ =~= s.take(k + 1));
    }
    proof {
        lemma_take_all(s);
    }
    (chars, offsets)
}

/// The UTF-8 byte length of `text`, or `None` when it would not fit a `usize`.
pub fn checked_byte_len(text: &str) -> (r: Option<usize>)
    ensures
        match r {
            Some(n) => n == byte_len(text@) && fits(text@),
            None => !fits(text@),
        },
{
    let ghost s = text@;
    let mut pos: usize = 0;
    assert(s.take(0) =~= Seq::<char>::empty());
    for c in it: text.chars()
        invariant
            it.seq() == s,
            s == text@,
            pos == byte_offset(s, it.index() as int),
    {
        let ghost k = it.index() as int;
        proof {
            lemma_offset_step(s, k);
            lemma_offset_le_len(s, k + 1);
        }
        let w = utf8_width(c);
        assert(c == s[k]);
        if pos > usize::MAX - w {
            proof {
                lemma_offset_le_len(s, k + 1);
                assert(byte_len(text@) > usize::MAX);
            }
            return None;
        }
        pos = pos + w;
    }
    proof {
        lemma_take_all(s);
    }
    Some(pos)
}

/// The index of the last boundary at or before `o` in an offsets table.
pub fn floor_in(offsets: &Vec<usize>, o: usize, Ghost(s): Ghost<Seq<char>>) -> (p: usize)
    requires
        offsets@.len() == s.len() + 1,
        forall|i: int| 0 <= i <= s.len() ==> #[trigger] offsets@[i] == byte_offset(s, i),
    ensures
        p == floor_index(s, o as int),
        p <= s.len(),
{
    let n = offsets.len() - 1;
    let mut p: usize = 0;
    assert(s.take(0) =~= Seq::<char>::empty());
    while p < n && offsets[p + 1] <= o
        invariant
            n == s.len(),
            offsets@.len() == s.len() + 1,
            forall|i: int| 0 <= i <= s.len() ==> #[trigger] offsets@[i] == byte_offset(s, i),
            p <= n,
            byte_offset(s, p as int) <= o,
        decreases n - p,
    {
        p = p + 1;
    }
    proof {
        lemma_floor_unique(s, o as int, p as int);
    }
    p
}

/// The chars of `text`.
pub fn chars_of(text: &str) -> (r: Vec<char>)
    ensures
        r@ == text@,
{
    let mut out: Vec<char> = Vec::new();
    for c in it: text.chars()
        invariant
            it.seq() == text@,
            out@ == text@.take(it.index() as int),
    {
        out.push(c);
        assert(out@ =~= text@.take(it.index() + 1));
    }
    assert(out@ =~= text@);
    out
}

/// Appends `c` to `s`.
///
/// Calls `String::push`; the contract claims that the string's chars gain `c` at the end.
#[verifier::external_body]
pub(crate) fn push_char(s: &mut String, c: char)
    ensures
        final(s)@ == old(s)@.push(c),
{
    s.push(c);
}

/// A new string holding `chars[lo..hi]`.
pub fn string_from_chars(chars: &Vec<char>, lo: usize, hi: usize) -> (r: String)
    requires
        lo <= hi <= chars@.len(),
    ensures
        r@ == chars@.subrange(lo as int, hi as int),
{
    let mut out = String::new();
    let mut i = lo;
    while i < hi
        invariant
            lo <= i <= hi <= chars@.len(),
            out@ == chars@.subrange(lo as int, i as int),
        decreases hi - i,
    {
        push_char(&mut out, chars[i]);
        assert(out@ =~= chars@.subrange(lo as int, i + 1));
        i = i + 1;
    }
    out
}

/// Appends `chars[lo..hi]` to `out`.
pub fn push_chars(out: &mut String, chars: &Vec<char>, lo: usize, hi: usize)
    requires
        lo <= hi <= chars@.len(),
    ensures
        final(out)@ == old(out)@ + chars@.subrange(lo as int, hi as int),
{
    let mut i = lo;
    while i < hi
        invariant
            lo <= i <= hi <= chars@.len(),
            out@ == old(out)@ + chars@.subrange(lo as int, i as int),
        decreases hi - i,
    {
        push_char(out, chars[i]);
        assert(out@ =~= old(out)@ + chars@.subrange(lo as int, i + 1));
        i = i + 1;
    }
}

/// The chars of `text` equal those of `other`.
pub fn str_eq(text: &str, other: &str) -> (r: bool)
    ensures
        r == (text@ == other@),
{
    let a = chars_of(text);
    let b = chars_of(other);
    if a.len() != b.len() {
        assert(text@.len() != other@.len());
        return false;
    }
    let mut i: usize = 0;
    while i < a.len()
        invariant
            a@ == text@,
            b@ == other@,
            a@.len() == b@.len(),
            i <= a@.len(),
            forall|k: int| 0 <= k < i ==> a@[k] == b@[k],
        decreases a@.len() - i,
    {
        if a[i] != b[i] {
            assert(text@[i as int] != other@[i as int]);
            return false;
        }
        i = i + 1;
    }
    assert(a@ =~= b@);
    true
}

} // verus!
