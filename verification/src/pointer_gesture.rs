//! Multi-press classification: consecutive presses near the same spot cycle caret →
//! word → paragraph.
//!
//! Whether a press lands near the previous one is decided from pointer coordinates by
//! the caller; the counting and the cycle are here.
use vstd::prelude::*;

verus! {

/// The phase a press selects: the first press drops a caret, the second selects a word,
/// the third a paragraph (line), and then the cycle repeats.
#[derive(Clone, Copy, Debug, PartialEq, Eq, Structural)]
pub enum TapPhase {
    Caret,
    Word,
    Paragraph,
}

/// The phase of the `count`-th consecutive press (`count >= 1`).
pub open spec fn phase_of(count: nat) -> TapPhase {
    let k = (count - 1) % 3;
    if k == 0 {
        TapPhase::Caret
    } else if k == 1 {
        TapPhase::Word
    } else {
        TapPhase::Paragraph
    }
}

/// The count of consecutive presses near the same spot.
#[derive(Clone, Copy, Debug, PartialEq, Eq, Structural)]
pub struct TapCounter {
    pub count: u32,
}

impl TapCounter {
    /// No press recorded.
    pub fn new() -> (r: Self)
        ensures
            r.count == 0,
    {
        TapCounter { count: 0 }
    }

    /// Records a press and returns its phase: a press `near` the previous one
    /// continues the run, any other press starts a new run at the caret.
    pub fn classify_tap(&mut self, near: bool) -> (r: TapPhase)
        requires
            near ==> old(self).count < u32::MAX,
        ensures
            final(self).count == if near {
                old(self).count + 1
            } else {
                1
            },
            r == phase_of(final(self).count as nat),
    {
        self.count = if near {
            self.count + 1
        } else {
            1
        };
        let k = (self.count - 1) % 3;
        if k == 0 {
            TapPhase::Caret
        } else if k == 1 {
            TapPhase::Word
        } else {
            TapPhase::Paragraph
        }
    }

    /// Records a single press that does not advance the cycle (a Shift+press extends
    /// a range instead): the next near press counts from one.
    pub fn note_single_tap(&mut self)
        ensures
            final(self).count == 1,
    {
        self.count = 1;
    }

    /// Restarts the cycle (a new gesture, such as after a long press).
    pub fn reset_taps(&mut self)
        ensures
            final(self).count == 0,
    {
        self.count = 0;
    }
}

/// Three near presses after a fresh start select caret, word and paragraph in turn,
/// and a press that is not near always drops a caret.
pub proof fn law_presses_cycle_caret_word_paragraph(count: nat)
    ensures
        phase_of(1) == TapPhase::Caret,
        phase_of(2) == TapPhase::Word,
        phase_of(3) == TapPhase::Paragraph,
        count >= 1 ==> phase_of(count + 3) == phase_of(count),
{
    if count >= 1 {
        assert((count + 3 - 1) % 3 == (count - 1) % 3) by (nonlinear_arith)
            requires
                count >= 1,
        ;
    }
}

} // verus!
