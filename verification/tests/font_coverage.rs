use hayate_core::font_coverage::{
    coverage_families, family_for_codepoint, font_coverage, is_emoji_fallback_family,
    upgrades_to_color_emoji, EMOJI_FALLBACK_FAMILY,
};

#[test]
fn table_is_sorted_and_non_overlapping() {
    let table = font_coverage();
    for pair in table.windows(2) {
        let (a, b) = (pair[0], pair[1]);
        assert!(a.start <= a.end, "range {a:?} is inverted");
        assert!(a.end < b.start, "ranges out of order or overlapping: {a:?} then {b:?}");
    }
}

#[test]
fn existing_scripts_resolve_to_their_families() {
    assert_eq!(family_for_codepoint(0x3042), Some("Noto Sans JP"));
    assert_eq!(family_for_codepoint(0x4E00), Some("Noto Sans JP"));
    assert_eq!(family_for_codepoint(0x20000), Some("Noto Sans JP"));
    assert_eq!(family_for_codepoint(0xAC00), Some("Noto Sans KR"));
    assert_eq!(family_for_codepoint(0x0627), Some("Noto Sans Arabic"));
    assert_eq!(family_for_codepoint(0x0E01), Some("Noto Sans Thai"));
    assert_eq!(family_for_codepoint(0x0915), Some("Noto Sans Devanagari"));
    assert_eq!(family_for_codepoint(0x05D0), Some("Noto Sans Hebrew"));
}

#[test]
fn emoji_across_the_repertoire_resolve_to_monochrome_noto_emoji() {
    for cp in [
        0x2600u32, 0x2728, 0x2B50, 0x1F004, 0x1F0CF, 0x1F1EF, 0x1F319, 0x1F600, 0x1F680, 0x1F9E0,
        0x1FAE0,
    ] {
        assert_eq!(
            family_for_codepoint(cp),
            Some("Noto Emoji"),
            "U+{cp:04X} should route to monochrome Noto Emoji"
        );
    }
}

#[test]
fn latin_and_gaps_resolve_to_none() {
    assert_eq!(family_for_codepoint(0x0041), None);
    assert_eq!(family_for_codepoint(0x00E9), None);
    assert_eq!(family_for_codepoint(0x25FF), None);
    assert_eq!(family_for_codepoint(0x0000), None);
}

#[test]
fn range_ends_are_inclusive_and_the_table_ends_at_ext_f() {
    assert_eq!(family_for_codepoint(0x05FF), Some("Noto Sans Hebrew"));
    assert_eq!(family_for_codepoint(0x0700), None);
    assert_eq!(family_for_codepoint(0x2EBEF), Some("Noto Sans JP"));
    assert_eq!(family_for_codepoint(0x2EBF0), None);
    assert_eq!(family_for_codepoint(u32::MAX), None);
}

#[test]
fn coverage_families_are_unique_and_sorted() {
    let families = coverage_families();
    let mut expected = families.clone();
    expected.sort_unstable();
    expected.dedup();
    assert_eq!(families, expected);
    assert!(families.contains(&"Noto Emoji"));
    assert!(families.contains(&"Noto Sans JP"));
    assert_eq!(
        families,
        vec![
            "Noto Emoji",
            "Noto Sans Arabic",
            "Noto Sans Devanagari",
            "Noto Sans Hebrew",
            "Noto Sans JP",
            "Noto Sans KR",
            "Noto Sans Thai",
        ]
    );
}

#[test]
fn only_the_emoji_family_upgrades_and_only_for_color_painters() {
    assert_eq!(EMOJI_FALLBACK_FAMILY, "Noto Emoji");
    assert!(is_emoji_fallback_family("Noto Emoji"));
    assert!(!is_emoji_fallback_family("Noto Sans JP"));
    assert!(upgrades_to_color_emoji("Noto Emoji", true));
    assert!(!upgrades_to_color_emoji("Noto Emoji", false));
    assert!(!upgrades_to_color_emoji("Noto Sans JP", true));
}
