//! The coverage table from code points to fallback font families.
//!
//! Which family is expected to cover a code point is platform-neutral knowledge
//! owned by the core; where a family's font comes from is each adapter's concern.
//! The table is sorted by range start and its ranges do not overlap, so a code
//! point lies in at most one range, found by binary search.
//!
//! The table is only asked about glyphs that the bundled default font could not
//! draw, which is why the emoji ranges may cover whole symbol blocks.
use vstd::prelude::*;
use crate::byte_text::chars_of;
use crate::byte_text::str_eq;

verus! {

/// One inclusive Unicode range and the fallback family expected to cover it.
#[derive(Clone, Copy, Debug)]
pub struct Coverage {
    pub start: u32,
    pub end: u32,
    pub family: &'static str,
}

/// The monochrome emoji fallback family, the family of every emoji row of the table.
pub const EMOJI_FALLBACK_FAMILY: &'static str = "Noto Emoji";

/// The contents of a coverage row.
pub open spec fn row_of(c: Coverage) -> (u32, u32, Seq<char>) {
    (c.start, c.end, c.family@)
}

/// The coverage table, sorted by range start.
pub open spec fn coverage_table() -> Seq<(u32, u32, Seq<char>)> {
    seq![
        (0x0590u32, 0x05FFu32, "Noto Sans Hebrew"@),
        (0x0600u32, 0x06FFu32, "Noto Sans Arabic"@),
        (0x0750u32, 0x077Fu32, "Noto Sans Arabic"@),
        (0x08A0u32, 0x08FFu32, "Noto Sans Arabic"@),
        (0x0900u32, 0x097Fu32, "Noto Sans Devanagari"@),
        (0x0E00u32, 0x0E7Fu32, "Noto Sans Thai"@),
        (0x1100u32, 0x11FFu32, "Noto Sans KR"@),
        (0x2600u32, 0x27BFu32, EMOJI_FALLBACK_FAMILY@),
        (0x2B00u32, 0x2BFFu32, EMOJI_FALLBACK_FAMILY@),
        (0x2E80u32, 0x2EFFu32, "Noto Sans JP"@),
        (0x2F00u32, 0x2FDFu32, "Noto Sans JP"@),
        (0x3000u32, 0x303Fu32, "Noto Sans JP"@),
        (0x3040u32, 0x309Fu32, "Noto Sans JP"@),
        (0x30A0u32, 0x30FFu32, "Noto Sans JP"@),
        (0x3130u32, 0x318Fu32, "Noto Sans KR"@),
        (0x31F0u32, 0x31FFu32, "Noto Sans JP"@),
        (0x3400u32, 0x4DBFu32, "Noto Sans JP"@),
        (0x4E00u32, 0x9FFFu32, "Noto Sans JP"@),
        (0xA8E0u32, 0xA8FFu32, "Noto Sans Devanagari"@),
        (0xA960u32, 0xA97Fu32, "Noto Sans KR"@),
        (0xAC00u32, 0xD7AFu32, "Noto Sans KR"@),
        (0xD7B0u32, 0xD7FFu32, "Noto Sans KR"@),
        (0xF900u32, 0xFAFFu32, "Noto Sans JP"@),
        (0xFB1Du32, 0xFB4Fu32, "Noto Sans Hebrew"@),
        (0xFB50u32, 0xFDFFu32, "Noto Sans Arabic"@),
        (0xFE70u32, 0xFEFFu32, "Noto Sans Arabic"@),
        (0x1F000u32, 0x1FAFFu32, EMOJI_FALLBACK_FAMILY@),
        (0x20000u32, 0x2A6DFu32, "Noto Sans JP"@),
        (0x2A700u32, 0x2B73Fu32, "Noto Sans JP"@),
        (0x2B740u32, 0x2B81Fu32, "Noto Sans JP"@),
        (0x2B820u32, 0x2CEAFu32, "Noto Sans JP"@),
        (0x2CEB0u32, 0x2EBEFu32, "Noto Sans JP"@),
    ]
}

/// Row `i` covers `cp`.
pub open spec fn row_covers(t: Seq<(u32, u32, Seq<char>)>, i: int, cp: u32) -> bool {
    0 <= i < t.len() && t[i].0 <= cp && cp <= t[i].1
}

/// The table is sorted by start and its ranges are non-empty and disjoint.
pub open spec fn sorted_disjoint(t: Seq<(u32, u32, Seq<char>)>) -> bool {
    &&& forall|i: int| 0 <= i < t.len() ==> (#[trigger] t[i]).0 <= t[i].1
    &&& forall|i: int, j: int| 0 <= i < j < t.len() ==> (#[trigger] t[i]).1 < (#[trigger] t[j]).0
}

/// Adjacent rows from `i` on are in order and each row is non-empty.
pub open spec fn adjacent_in_order(t: Seq<(u32, u32, Seq<char>)>, i: nat) -> bool
    decreases t.len() - i,
{
    if i >= t.len() {
        true
    } else {
        t[i as int].0 <= t[i as int].1 && (i + 1 >= t.len() || t[i as int].1 < t[i + 1int].0)
            && adjacent_in_order(t, i + 1)
    }
}

/// The family of the range that covers `cp`, or `None` when no range covers it.
pub open spec fn family_spec(cp: u32) -> Option<Seq<char>> {
    let t = coverage_table();
    if exists|i: int| row_covers(t, i, cp) {
        Some(t[choose|i: int| row_covers(t, i, cp)].2)
    } else {
        None
    }
}

proof fn lemma_adjacent_implies_sorted(t: Seq<(u32, u32, Seq<char>)>)
    requires
        adjacent_in_order(t, 0),
    ensures
        sorted_disjoint(t),
{
    assert forall|k: nat| k <= t.len() implies #[trigger] adjacent_in_order(t, k) by {
        lemma_adjacent_suffix(t, k);
    }
    assert forall|i: int| 0 <= i < t.len() implies (#[trigger] t[i]).0 <= t[i].1 by {
        assert(adjacent_in_order(t, i as nat));
    }
    assert forall|i: int, j: int| 0 <= i < j < t.len() implies (#[trigger] t[i]).1 < (
    #[trigger] t[j]).0 by {
        lemma_adjacent_chain(t, i, j);
    }
}

proof fn lemma_adjacent_suffix(t: Seq<(u32, u32, Seq<char>)>, k: nat)
    requires
        adjacent_in_order(t, 0),
        k <= t.len(),
    ensures
        adjacent_in_order(t, k),
    decreases k,
{
    if k > 0 {
        lemma_adjacent_suffix(t, (k - 1) as nat);
    }
}

proof fn lemma_adjacent_chain(t: Seq<(u32, u32, Seq<char>)>, i: int, j: int)
    requires
        forall|k: nat| k <= t.len() ==> #[trigger] adjacent_in_order(t, k),
        0 <= i < j < t.len(),
    ensures
        t[i].1 < t[j].0,
    decreases j - i,
{
    assert(adjacent_in_order(t, i as nat));
    if j > i + 1 {
        lemma_adjacent_chain(t, i + 1, j);
        assert(adjacent_in_order(t, (i + 1) as nat));
    }
}

/// The coverage table is sorted by range start, and its ranges are non-empty and
/// do not overlap: a code point lies in at most one range.
pub proof fn law_table_is_sorted_and_non_overlapping()
    ensures
        sorted_disjoint(coverage_table()),
        forall|i: int, j: int, cp: u32|
            row_covers(coverage_table(), i, cp) && row_covers(coverage_table(), j, cp) ==> i == j,
{
    assert(adjacent_in_order(coverage_table(), 0)) by {
        reveal_with_fuel(adjacent_in_order, 33);
    }
    lemma_adjacent_implies_sorted(coverage_table());
    let t = coverage_table();
    assert forall|i: int, j: int, cp: u32|
        row_covers(t, i, cp) && row_covers(t, j, cp) implies i == j by {
        if i < j {
            assert(t[i].1 < t[j].0);
        } else if j < i {
            assert(t[j].1 < t[i].0);
        }
    }
}

proof fn lemma_row_family(i: int, cp: u32)
    requires
        row_covers(coverage_table(), i, cp),
    ensures
        family_spec(cp) == Some(coverage_table()[i].2),
{
    law_table_is_sorted_and_non_overlapping();
    let t = coverage_table();
    let w = choose|k: int| row_covers(t, k, cp);
    assert(row_covers(t, w, cp));
    assert(w == i);
}

/// Japanese text falls back to the Japanese family: every code point of the CJK
/// radical, Kangxi, CJK symbol and punctuation, Hiragana, Katakana, Katakana phonetic
/// extension, CJK compatibility and unified ideograph blocks (those beyond the basic
/// plane included) resolves to "Noto Sans JP".
pub proof fn law_japanese_blocks_use_the_japanese_family(cp: u32)
    requires
        (0x2E80 <= cp <= 0x2EFF) || (0x2F00 <= cp <= 0x2FDF) || (0x3000 <= cp <= 0x303F) || (0x3040
            <= cp <= 0x309F) || (0x30A0 <= cp <= 0x30FF) || (0x31F0 <= cp <= 0x31FF) || (0x3400 <= cp
            <= 0x4DBF) || (0x4E00 <= cp <= 0x9FFF) || (0xF900 <= cp <= 0xFAFF) || (0x20000 <= cp
            <= 0x2A6DF) || (0x2A700 <= cp <= 0x2EBEF),
    ensures
        family_spec(cp) == Some("Noto Sans JP"@),
{
    let t = coverage_table();
    let i: int = if cp <= 0x2EFF {
        9
    } else if cp <= 0x2FDF {
        10
    } else if cp <= 0x303F {
        11
    } else if cp <= 0x309F {
        12
    } else if cp <= 0x30FF {
        13
    } else if cp <= 0x31FF {
        15
    } else if cp <= 0x4DBF {
        16
    } else if cp <= 0x9FFF {
        17
    } else if cp <= 0xFAFF {
        22
    } else if cp <= 0x2A6DF {
        27
    } else if cp <= 0x2B73F {
        28
    } else if cp <= 0x2B81F {
        29
    } else if cp <= 0x2CEAF {
        30
    } else {
        31
    };
    assert(row_covers(t, i, cp));
    lemma_row_family(i, cp);
}

/// Korean text falls back to the Korean family: every code point of the Hangul Jamo,
/// compatibility Jamo, Jamo extension and syllable blocks resolves to "Noto Sans KR".
pub proof fn law_hangul_blocks_use_the_korean_family(cp: u32)
    requires
        (0x1100 <= cp <= 0x11FF) || (0x3130 <= cp <= 0x318F) || (0xA960 <= cp <= 0xA97F) || (0xAC00
            <= cp <= 0xD7FF),
    ensures
        family_spec(cp) == Some("Noto Sans KR"@),
{
    let t = coverage_table();
    let i: int = if cp <= 0x11FF {
        6
    } else if cp <= 0x318F {
        14
    } else if cp <= 0xA97F {
        19
    } else if cp <= 0xD7AF {
        20
    } else {
        21
    };
    assert(row_covers(t, i, cp));
    lemma_row_family(i, cp);
}

/// Right-to-left and Indic scripts and emoji fall back to their own families: Hebrew
/// (and its presentation forms) to "Noto Sans Hebrew", Arabic (its supplements and
/// presentation forms) to "Noto Sans Arabic", Devanagari (and its extension) to
/// "Noto Sans Devanagari", Thai to "Noto Sans Thai", and the symbol and pictograph
/// blocks to the emoji fallback family.
pub proof fn law_other_scripts_use_their_families(cp: u32)
    ensures
        ((0x0590 <= cp <= 0x05FF) || (0xFB1D <= cp <= 0xFB4F)) ==> family_spec(cp) == Some(
            "Noto Sans Hebrew"@,
        ),
        ((0x0600 <= cp <= 0x06FF) || (0x0750 <= cp <= 0x077F) || (0x08A0 <= cp <= 0x08FF) || (0xFB50
            <= cp <= 0xFDFF) || (0xFE70 <= cp <= 0xFEFF)) ==> family_spec(cp) == Some(
            "Noto Sans Arabic"@,
        ),
        ((0x0900 <= cp <= 0x097F) || (0xA8E0 <= cp <= 0xA8FF)) ==> family_spec(cp) == Some(
            "Noto Sans Devanagari"@,
        ),
        (0x0E00 <= cp <= 0x0E7F) ==> family_spec(cp) == Some("Noto Sans Thai"@),
        ((0x2600 <= cp <= 0x27BF) || (0x2B00 <= cp <= 0x2BFF) || (0x1F000 <= cp <= 0x1FAFF))
            ==> family_spec(cp) == Some(EMOJI_FALLBACK_FAMILY@),
{
    let t = coverage_table();
    let i: int = if cp <= 0x05FF {
        0
    } else if cp <= 0x06FF {
        1
    } else if cp <= 0x077F {
        2
    } else if cp <= 0x08FF {
        3
    } else if cp <= 0x097F {
        4
    } else if cp <= 0x0E7F {
        5
    } else if cp <= 0x27BF {
        7
    } else if cp <= 0x2BFF {
        8
    } else if cp <= 0xA8FF {
        18
    } else if cp <= 0xFB4F {
        23
    } else if cp <= 0xFDFF {
        24
    } else if cp <= 0xFEFF {
        25
    } else {
        26
    };
    if row_covers(t, i, cp) {
        lemma_row_family(i, cp);
    }
}

/// Code points below the first fallback range (Latin, Greek, Cyrillic and the rest of
/// the scripts the bundled font covers) need no fallback family.
pub proof fn law_basic_scripts_need_no_fallback(cp: u32)
    requires
        cp < 0x0590,
    ensures
        family_spec(cp) is None,
{
    let t = coverage_table();
    law_table_is_sorted_and_non_overlapping();
    assert forall|i: int| !row_covers(t, i, cp) by {
        if 0 <= i < t.len() {
            assert(t[0].0 <= t[i].0);
        }
    }
}

/// The coverage table, one row per range, sorted by range start.
pub fn font_coverage() -> (r: Vec<Coverage>)
    ensures
        r@.len() == coverage_table().len(),
        forall|i: int| 0 <= i < r@.len() ==> row_of(#[trigger] r@[i]) == coverage_table()[i],
{
    let mut t: Vec<Coverage> = Vec::new();
    t.push(Coverage { start: 0x0590, end: 0x05FF, family: "Noto Sans Hebrew" });
    t.push(Coverage { start: 0x0600, end: 0x06FF, family: "Noto Sans Arabic" });
    t.push(Coverage { start: 0x0750, end: 0x077F, family: "Noto Sans Arabic" });
    t.push(Coverage { start: 0x08A0, end: 0x08FF, family: "Noto Sans Arabic" });
    t.push(Coverage { start: 0x0900, end: 0x097F, family: "Noto Sans Devanagari" });
    t.push(Coverage { start: 0x0E00, end: 0x0E7F, family: "Noto Sans Thai" });
    t.push(Coverage { start: 0x1100, end: 0x11FF, family: "Noto Sans KR" });
    t.push(Coverage { start: 0x2600, end: 0x27BF, family: EMOJI_FALLBACK_FAMILY });
    t.push(Coverage { start: 0x2B00, end: 0x2BFF, family: EMOJI_FALLBACK_FAMILY });
    t.push(Coverage { start: 0x2E80, end: 0x2EFF, family: "Noto Sans JP" });
    t.push(Coverage { start: 0x2F00, end: 0x2FDF, family: "Noto Sans JP" });
    t.push(Coverage { start: 0x3000, end: 0x303F, family: "Noto Sans JP" });
    t.push(Coverage { start: 0x3040, end: 0x309F, family: "Noto Sans JP" });
    t.push(Coverage { start: 0x30A0, end: 0x30FF, family: "Noto Sans JP" });
    t.push(Coverage { start: 0x3130, end: 0x318F, family: "Noto Sans KR" });
    t.push(Coverage { start: 0x31F0, end: 0x31FF, family: "Noto Sans JP" });
    t.push(Coverage { start: 0x3400, end: 0x4DBF, family: "Noto Sans JP" });
    t.push(Coverage { start: 0x4E00, end: 0x9FFF, family: "Noto Sans JP" });
    t.push(Coverage { start: 0xA8E0, end: 0xA8FF, family: "Noto Sans Devanagari" });
    t.push(Coverage { start: 0xA960, end: 0xA97F, family: "Noto Sans KR" });
    t.push(Coverage { start: 0xAC00, end: 0xD7AF, family: "Noto Sans KR" });
    t.push(Coverage { start: 0xD7B0, end: 0xD7FF, family: "Noto Sans KR" });
    t.push(Coverage { start: 0xF900, end: 0xFAFF, family: "Noto Sans JP" });
    t.push(Coverage { start: 0xFB1D, end: 0xFB4F, family: "Noto Sans Hebrew" });
    t.push(Coverage { start: 0xFB50, end: 0xFDFF, family: "Noto Sans Arabic" });
    t.push(Coverage { start: 0xFE70, end: 0xFEFF, family: "Noto Sans Arabic" });
    t.push(Coverage { start: 0x1F000, end: 0x1FAFF, family: EMOJI_FALLBACK_FAMILY });
    t.push(Coverage { start: 0x20000, end: 0x2A6DF, family: "Noto Sans JP" });
    t.push(Coverage { start: 0x2A700, end: 0x2B73F, family: "Noto Sans JP" });
    t.push(Coverage { start: 0x2B740, end: 0x2B81F, family: "Noto Sans JP" });
    t.push(Coverage { start: 0x2B820, end: 0x2CEAF, family: "Noto Sans JP" });
    t.push(Coverage { start: 0x2CEB0, end: 0x2EBEF, family: "Noto Sans JP" });
    assert(t@.map_values(|c: Coverage| row_of(c)) =~= coverage_table());
    assert forall|i: int| 0 <= i < t@.len() implies row_of(#[trigger] t@[i])
        == coverage_table()[i] by {
        assert(t@.map_values(|c: Coverage| row_of(c))[i] == row_of(t@[i]));
    }
    t
}

/// The fallback family expected to cover `cp`, or `None` when the bundled default
/// font is expected to cover it.
pub fn family_for_codepoint(cp: u32) -> (r: Option<&'static str>)
    ensures
        match r {
            Some(f) => family_spec(cp) == Some(f@),
            None => family_spec(cp) is None,
        },
{
    let table = font_coverage();
    let ghost t = coverage_table();
    proof {
        law_table_is_sorted_and_non_overlapping();
    }
    // The number of rows whose start is at or below `cp`.
    let mut lo: usize = 0;
    let mut hi: usize = table.len();
    while lo < hi
        invariant
            table@.len() == t.len(),
            forall|i: int| 0 <= i < table@.len() ==> row_of(#[trigger] table@[i]) == t[i],
            sorted_disjoint(t),
            lo <= hi <= t.len(),
            forall|k: int| 0 <= k < lo ==> (#[trigger] t[k]).0 <= cp,
            forall|k: int| hi <= k < t.len() ==> (#[trigger] t[k]).0 > cp,
        decreases hi - lo,
    {
        let mid = lo + (hi - lo) / 2;
        assert(row_of(table@[mid as int]) == t[mid as int]);
        if table[mid].start <= cp {
            assert forall|k: int| 0 <= k < mid + 1 implies (#[trigger] t[k]).0 <= cp by {
                if k < mid {
                    assert(t[k].1 < t[mid as int].0);
                }
            }
            lo = mid + 1;
        } else {
            assert forall|k: int| mid <= k < t.len() implies (#[trigger] t[k]).0 > cp by {
                if k > mid {
                    assert(t[mid as int].1 < t[k].0);
                }
            }
            hi = mid;
        }
    }
    if lo == 0 {
        assert forall|i: int| !row_covers(t, i, cp) by {
            if 0 <= i < t.len() {
                assert(t[i].0 > cp);
            }
        }
        return None;
    }
    let c = table[lo - 1];
    assert(row_of(table@[lo - 1]) == t[lo - 1]);
    if cp <= c.end {
        assert(row_covers(t, lo - 1, cp));
        let ghost w = choose|i: int| row_covers(t, i, cp);
        assert(w == lo - 1);
        Some(c.family)
    } else {
        assert forall|i: int| !row_covers(t, i, cp) by {
            if 0 <= i < t.len() {
                if i < lo - 1 {
                    assert(t[i].1 < t[lo - 1].0);
                } else if i >= lo {
                    assert(t[i].0 > cp);
                }
            }
        }
        None
    }
}

/// `a` comes before `b` in the order of their chars (for UTF-8 text, the same
/// order as that of their bytes).
pub open spec fn lex_lt(a: Seq<char>, b: Seq<char>) -> bool
    decreases a.len(),
{
    if a.len() == 0 {
        b.len() > 0
    } else if b.len() == 0 {
        false
    } else if a[0] != b[0] {
        (a[0] as u32) < (b[0] as u32)
    } else {
        lex_lt(a.drop_first(), b.drop_first())
    }
}

proof fn lemma_lex_irreflexive(a: Seq<char>)
    ensures
        !lex_lt(a, a),
    decreases a.len(),
{
    if a.len() > 0 {
        lemma_lex_irreflexive(a.drop_first());
    }
}

proof fn lemma_lex_transitive(a: Seq<char>, b: Seq<char>, c: Seq<char>)
    requires
        lex_lt(a, b),
        lex_lt(b, c),
    ensures
        lex_lt(a, c),
    decreases a.len(),
{
    if a.len() > 0 && b.len() > 0 && c.len() > 0 && a[0] == b[0] && b[0] == c[0] {
        lemma_lex_transitive(a.drop_first(), b.drop_first(), c.drop_first());
    }
}

proof fn lemma_lex_total(a: Seq<char>, b: Seq<char>)
    requires
        a != b,
    ensures
        lex_lt(a, b) || lex_lt(b, a),
    decreases a.len(),
{
    if a.len() == 0 || b.len() == 0 {
        if a.len() == 0 && b.len() == 0 {
            assert(a =~= b);
        }
    } else if a[0] != b[0] {
        vstd::utf8::char_u32_cast(a[0], a[0] as u32);
        vstd::utf8::char_u32_cast(b[0], b[0] as u32);
        assert((a[0] as u32) != (b[0] as u32));
    } else if a.drop_first() =~= b.drop_first() {
        assert forall|i: int| 0 <= i < a.len() implies a[i] == b[i] by {
            if i > 0 {
                assert(a[i] == a.drop_first()[i - 1]);
                assert(b[i] == b.drop_first()[i - 1]);
            }
        }
        assert(a =~= b);
    } else {
        lemma_lex_total(a.drop_first(), b.drop_first());
    }
}

/// Whether `a` comes before `b` in the order of their chars.
fn str_lt(a: &str, b: &str) -> (r: bool)
    ensures
        r == lex_lt(a@, b@),
{
    let x = chars_of(a);
    let y = chars_of(b);
    let mut i: usize = 0;
    assert(a@.skip(0) =~= a@);
    assert(b@.skip(0) =~= b@);
    while i < x.len() && i < y.len()
        invariant
            x@ == a@,
            y@ == b@,
            i <= x@.len(),
            i <= y@.len(),
            lex_lt(a@, b@) == lex_lt(a@.skip(i as int), b@.skip(i as int)),
        decreases x@.len() - i,
    {
        let ghost sa = a@.skip(i as int);
        let ghost sb = b@.skip(i as int);
        assert(sa[0] == x@[i as int]);
        assert(sb[0] == y@[i as int]);
        if x[i] != y[i] {
            return (x[i] as u32) < (y[i] as u32);
        }
        assert(sa.drop_first() =~= a@.skip(i + 1));
        assert(sb.drop_first() =~= b@.skip(i + 1));
        i = i + 1;
    }
    assert(a@.skip(i as int).len() == 0 || b@.skip(i as int).len() == 0);
    i < y.len()
}

/// Some item of `names` reads `f`.
pub open spec fn lists(names: Seq<&'static str>, f: Seq<char>) -> bool {
    exists|i: int| 0 <= i < names.len() && (#[trigger] names[i])@ == f
}

/// One of the first `k` rows of `t` names family `f`.
pub open spec fn prefix_has(t: Seq<(u32, u32, Seq<char>)>, k: int, f: Seq<char>) -> bool {
    exists|i: int| 0 <= i < k && #[trigger] t[i].2 == f
}

/// The family names of the table.
pub open spec fn table_families() -> Set<Seq<char>> {
    Set::new(|f: Seq<char>| exists|i: int| 0 <= i < coverage_table().len() && #[trigger] coverage_table()[i].2 == f)
}

/// Every distinct fallback family the table can resolve to, sorted and without
/// duplicates (so that adapters can check that each one can be fetched).
pub fn coverage_families() -> (r: Vec<&'static str>)
    ensures
        forall|i: int, j: int| 0 <= i < j < r@.len() ==> lex_lt((#[trigger] r@[i])@, (#[trigger] r@[j])@),
        forall|f: Seq<char>| #[trigger] table_families().contains(f) <==> lists(r@, f),
{
    let table = font_coverage();
    let ghost t = coverage_table();
    let mut out: Vec<&'static str> = Vec::new();
    let mut k: usize = 0;
    while k < table.len()
        invariant
            table@.len() == t.len(),
            forall|i: int| 0 <= i < table@.len() ==> row_of(#[trigger] table@[i]) == t[i],
            k <= table@.len(),
            forall|i: int, j: int| 0 <= i < j < out@.len() ==> lex_lt((#[trigger] out@[i])@, (#[trigger] out@[j])@),
            forall|f: Seq<char>| #[trigger] prefix_has(t, k as int, f) <==> lists(out@, f),
        decreases table@.len() - k,
    {
        let fam = table[k].family;
        assert(row_of(table@[k as int]) == t[k as int]);
        // Find the first listed family not before `fam`.
        let mut p: usize = 0;
        let mut dup = false;
        while p < out.len()
            invariant_except_break
                !dup,
            invariant
                p <= out@.len(),
                forall|q: int| 0 <= q < p ==> lex_lt((#[trigger] out@[q])@, fam@),
            ensures
                p <= out@.len(),
                forall|q: int| 0 <= q < p ==> lex_lt((#[trigger] out@[q])@, fam@),
                dup ==> p < out@.len() && out@[p as int]@ == fam@,
                !dup ==> p == out@.len() || (!lex_lt(out@[p as int]@, fam@) && out@[p as int]@
                    != fam@),
            decreases out@.len() - p,
        {
            if str_eq(out[p], fam) {
                dup = true;
                break;
            }
            if !str_lt(out[p], fam) {
                break;
            }
            p = p + 1;
        }
        let ghost prev = out@;
        if dup {
            assert(prev[p as int]@ == fam@);
        } else {
            proof {
                if p < prev.len() {
                    lemma_lex_total(prev[p as int]@, fam@);
                }
            }
            out.insert(p, fam);
            proof {
                assert forall|i: int, j: int| 0 <= i < j < out@.len() implies lex_lt(
                    (#[trigger] out@[i])@,
                    (#[trigger] out@[j])@,
                ) by {
                    if j < p {
                        assert(out@[i] == prev[i] && out@[j] == prev[j]);
                    } else if j == p {
                        assert(out@[i] == prev[i]);
                    } else if i == p {
                        assert(out@[j] == prev[j - 1]);
                        if j - 1 > p {
                            assert(lex_lt(prev[p as int]@, prev[j - 1]@));
                            lemma_lex_transitive(fam@, prev[p as int]@, prev[j - 1]@);
                        }
                    } else if i < p {
                        assert(out@[i] == prev[i] && out@[j] == prev[j - 1]);
                        if p < prev.len() {
                            assert(lex_lt(prev[i]@, fam@));
                            if j - 1 > p {
                                assert(lex_lt(prev[p as int]@, prev[j - 1]@));
                                lemma_lex_transitive(fam@, prev[p as int]@, prev[j - 1]@);
                            }
                            lemma_lex_transitive(prev[i]@, fam@, prev[j - 1]@);
                        }
                    } else {
                        assert(out@[i] == prev[i - 1] && out@[j] == prev[j - 1]);
                    }
                }
            }
        }
        assert(t[k as int].2 == fam@);
        assert forall|f: Seq<char>| #[trigger] prefix_has(t, k + 1, f) <==> lists(out@, f) by {
            if prefix_has(t, k + 1, f) {
                let w = choose|i: int| 0 <= i < k + 1 && #[trigger] t[i].2 == f;
                if w < k {
                    assert(prefix_has(t, k as int, f));
                    assert(lists(prev, f));
                    let v = choose|i: int| 0 <= i < prev.len() && (#[trigger] prev[i])@ == f;
                    if dup {
                        assert(out@[v]@ == f);
                    } else if v < p {
                        assert(out@[v] == prev[v]);
                    } else {
                        assert(out@[v + 1] == prev[v]);
                    }
                } else {
                    assert(out@[p as int]@ == f);
                }
            }
            if lists(out@, f) {
                let v = choose|i: int| 0 <= i < out@.len() && (#[trigger] out@[i])@ == f;
                if !dup && v == p {
                    assert(t[k as int].2 == f);
                } else {
                    if dup {
                        assert(prev[v]@ == f);
                    } else if v < p {
                        assert(prev[v] == out@[v]);
                    } else {
                        assert(prev[v - 1] == out@[v]);
                    }
                    assert(lists(prev, f));
                    assert(prefix_has(t, k as int, f));
                    let w = choose|i: int| 0 <= i < k && #[trigger] t[i].2 == f;
                    assert(t[w].2 == f);
                }
            }
        }
        k = k + 1;
    }
    assert forall|f: Seq<char>| #[trigger] table_families().contains(f) <==> lists(out@, f) by {
        if table_families().contains(f) {
            let w = choose|i: int| 0 <= i < coverage_table().len() && #[trigger] coverage_table()[i].2 == f;
            assert(0 <= w < k && t[w].2 == f);
            assert(prefix_has(t, k as int, f));
        }
        if lists(out@, f) {
            assert(prefix_has(t, k as int, f));
            let w = choose|i: int| 0 <= i < k && #[trigger] t[i].2 == f;
            assert(coverage_table()[w].2 == f);
        }
    }
    out
}

/// Whether `family` is the emoji fallback family.
pub fn is_emoji_fallback_family(family: &str) -> (r: bool)
    ensures
        r == (family@ == EMOJI_FALLBACK_FAMILY@),
{
    str_eq(family, EMOJI_FALLBACK_FAMILY)
}

/// Whether a renderer that can paint color glyphs may upgrade the requested family to
/// a color emoji build: only the emoji fallback family, and only for such a renderer.
pub fn upgrades_to_color_emoji(requested_family: &str, paints_color_glyphs: bool) -> (r: bool)
    ensures
        r == (paints_color_glyphs && requested_family@ == EMOJI_FALLBACK_FAMILY@),
{
    paints_color_glyphs && is_emoji_fallback_family(requested_family)
}

/// Every family that a code point resolves to is one of the listed families.
pub proof fn law_resolved_families_are_listed(cp: u32)
    ensures
        match family_spec(cp) {
            Some(f) => table_families().contains(f),
            None => true,
        },
{
    let t = coverage_table();
    if exists|i: int| row_covers(t, i, cp) {
        let w = choose|i: int| row_covers(t, i, cp);
        assert(0 <= w < t.len() && t[w].2 == family_spec(cp)->0);
    }
}

} // verus!
