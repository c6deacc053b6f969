use hayate_core::pointer_gesture::{TapCounter, TapPhase};

#[test]
fn near_presses_cycle_caret_word_paragraph() {
    let mut taps = TapCounter::new();
    assert_eq!(taps.classify_tap(false), TapPhase::Caret);
    assert_eq!(taps.classify_tap(true), TapPhase::Word);
    assert_eq!(taps.classify_tap(true), TapPhase::Paragraph);
    assert_eq!(taps.classify_tap(true), TapPhase::Caret);
    assert_eq!(taps.classify_tap(true), TapPhase::Word);
    assert_eq!(taps.count, 5);
}

#[test]
fn a_far_press_starts_a_new_run() {
    let mut taps = TapCounter::new();
    taps.classify_tap(false);
    taps.classify_tap(true);
    assert_eq!(taps.classify_tap(false), TapPhase::Caret);
    assert_eq!(taps.count, 1);
}

#[test]
fn single_tap_and_reset_restart_the_cycle() {
    let mut taps = TapCounter::new();
    taps.classify_tap(false);
    taps.classify_tap(true);
    taps.note_single_tap();
    assert_eq!(taps.count, 1);
    assert_eq!(taps.classify_tap(true), TapPhase::Word);
    taps.reset_taps();
    assert_eq!(taps.count, 0);
    assert_eq!(taps.classify_tap(true), TapPhase::Caret);
}
