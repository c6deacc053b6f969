//! The *incremental command* IME input model folded into core edits.
//!
//! A platform text-input protocol pushes incremental callbacks (insert text, delete
//! backward, set marked text, unmark). They are folded into a small local buffer that
//! holds only the active marked text (preedit) and turned into the minimal core edits.
//! Commits and preedits land at the core's caret, never pinned to the end of the text.
use vstd::prelude::*;

use crate::byte_text::{chars_of, string_from_chars};
use crate::edit_state::EditModel;
use crate::ime_reconcile::{apply_actions, ime_effect, preedit_text, ImeAction, ImeActionView};

verus! {

/// One incremental command pushed by the platform text-input protocol.
#[derive(Debug, Clone, PartialEq, Eq)]
pub enum ImeCommand {
    /// Insert text: replaces and commits the marked text if there is one, otherwise
    /// inserts at the caret.
    Insert(String),
    /// Delete backward: trims the marked text's last char if there is marked text,
    /// otherwise deletes the committed char before the caret.
    DeleteBackward,
    /// Replace the marked text (preedit).
    SetMarked(String),
    /// Commit the marked text.
    Unmark,
}

/// An [`ImeCommand`] with its strings taken as `char` sequences.
pub enum ImeCommandView {
    Insert(Seq<char>),
    DeleteBackward,
    SetMarked(Seq<char>),
    Unmark,
}

impl View for ImeCommand {
    type V = ImeCommandView;

    open spec fn view(&self) -> ImeCommandView {
        match self {
            ImeCommand::Insert(t) => ImeCommandView::Insert(t@),
            ImeCommand::DeleteBackward => ImeCommandView::DeleteBackward,
            ImeCommand::SetMarked(t) => ImeCommandView::SetMarked(t@),
            ImeCommand::Unmark => ImeCommandView::Unmark,
        }
    }
}

/// The local buffer of the incremental model: only the active marked text.
#[derive(Debug, Clone, PartialEq, Eq)]
pub struct ImeBuffer {
    pub preedit: String,
}

impl ImeBuffer {
    /// A buffer with no marked text.
    pub fn new() -> (r: Self)
        ensures
            r.preedit@ == Seq::<char>::empty(),
    {
        ImeBuffer { preedit: String::new() }
    }
}

/// The default buffer has no marked text.
impl Default for ImeBuffer {
    fn default() -> (r: Self)
        ensures
            r.preedit@ == Seq::<char>::empty(),
    {
        ImeBuffer::new()
    }
}

/// The marked text after one command, and the core edits it emits.
pub open spec fn apply_command_spec(preedit: Seq<char>, command: ImeCommandView) -> (
    Seq<char>,
    Seq<ImeActionView>,
) {
    match command {
        ImeCommandView::Insert(text) => if text.len() == 0 {
            (
                Seq::empty(),
                if preedit.len() > 0 {
                    seq![ImeActionView::SetPreedit(Seq::empty())]
                } else {
                    Seq::empty()
                },
            )
        } else {
            (Seq::empty(), seq![ImeActionView::CommitText(text)])
        },
        ImeCommandView::DeleteBackward => if preedit.len() == 0 {
            (preedit, seq![ImeActionView::DeleteBackward])
        } else {
            (preedit.drop_last(), seq![ImeActionView::SetPreedit(preedit.drop_last())])
        },
        ImeCommandView::SetMarked(text) => if text == preedit {
            (preedit, Seq::empty())
        } else {
            (text, seq![ImeActionView::SetPreedit(text)])
        },
        ImeCommandView::Unmark => if preedit.len() == 0 {
            (preedit, Seq::empty())
        } else {
            (Seq::empty(), seq![ImeActionView::CommitText(preedit)])
        },
    }
}

/// Removes the last `char` of `s` (a whole multi-byte char), if any.
pub fn pop_last_char(s: &mut String)
    ensures
        old(s)@.len() > 0 ==> final(s)@ == old(s)@.drop_last(),
        old(s)@.len() == 0 ==> final(s)@ == old(s)@,
{
    let chars = chars_of(s.as_str());
    if chars.len() > 0 {
        *s = string_from_chars(&chars, 0, chars.len() - 1);
        assert(s@ =~= old(s)@.drop_last());
    }
}

/// Applies one incremental command to the local buffer and returns the minimal core
/// edits: commits land at the caret as `CommitText`, marked-text changes as `SetPreedit`.
pub fn apply_command(buf: &mut ImeBuffer, command: ImeCommand) -> (r: Vec<ImeAction>)
    ensures
        final(buf).preedit@ == apply_command_spec(old(buf).preedit@, command@).0,
        r@.map_values(|a: ImeAction| a@) == apply_command_spec(old(buf).preedit@, command@).1,
{
    match command {
        ImeCommand::Insert(text) => {
            let had_preedit = !buf.preedit.as_str().is_empty();
            buf.preedit = String::new();
            if text.as_str().is_empty() {
                if had_preedit {
                    let r = vec![ImeAction::SetPreedit(String::new())];
                    assert(r@.map_values(|a: ImeAction| a@) =~= seq![ImeActionView::SetPreedit(Seq::empty())]);
                    return r;
                } else {
                    let r: Vec<ImeAction> = Vec::new();
                    assert(r@.map_values(|a: ImeAction| a@) =~= Seq::<ImeActionView>::empty());
                    return r;
                }
            }
            let ghost t = text@;
            let r = vec![ImeAction::CommitText(text)];
            assert(r@.map_values(|a: ImeAction| a@) =~= seq![ImeActionView::CommitText(t)]);
            r
        },
        ImeCommand::DeleteBackward => {
            if buf.preedit.as_str().is_empty() {
                let r = vec![ImeAction::DeleteBackward];
                assert(r@.map_values(|a: ImeAction| a@) =~= seq![ImeActionView::DeleteBackward]);
                r
            } else {
                pop_last_char(&mut buf.preedit);
                let r = vec![ImeAction::SetPreedit(buf.preedit.clone())];
                assert(r@.map_values(|a: ImeAction| a@) =~= seq![
                    ImeActionView::SetPreedit(buf.preedit@),
                ]);
                r
            }
        },
        ImeCommand::SetMarked(text) => {
            if text == buf.preedit {
                let r: Vec<ImeAction> = Vec::new();
                assert(r@.map_values(|a: ImeAction| a@) =~= Seq::<ImeActionView>::empty());
                return r;
            }
            buf.preedit = text.clone();
            let ghost t = text@;
            let r = vec![ImeAction::SetPreedit(text)];
            assert(r@.map_values(|a: ImeAction| a@) =~= seq![ImeActionView::SetPreedit(t)]);
            r
        },
        ImeCommand::Unmark => {
            if buf.preedit.as_str().is_empty() {
                let r: Vec<ImeAction> = Vec::new();
                assert(r@.map_values(|a: ImeAction| a@) =~= Seq::<ImeActionView>::empty());
                return r;
            }
            let committed = buf.preedit.clone();
            buf.preedit = String::new();
            let ghost t = committed@;
            let r = vec![ImeAction::CommitText(committed)];
            assert(r@.map_values(|a: ImeAction| a@) =~= seq![ImeActionView::CommitText(t)]);
            r
        },
    }
}

/// The local buffer keeps mirroring the core's preedit: when the focused input shows
/// the buffer's marked text as its preedit, applying the edits a command emits leaves
/// it showing the buffer's new marked text (and never an empty preedit).
pub proof fn law_buffer_mirrors_the_core_preedit(
    preedit: Seq<char>,
    command: ImeCommandView,
    m: EditModel,
)
    requires
        preedit_text(m) == preedit,
        m.preedit matches Some(p) ==> p.text.len() > 0,
    ensures
        preedit_text(apply_actions(m, apply_command_spec(preedit, command).1))
            == apply_command_spec(preedit, command).0,
        apply_actions(m, apply_command_spec(preedit, command).1).preedit matches Some(p)
            ==> p.text.len() > 0,
{
    let actions = apply_command_spec(preedit, command).1;
    reveal_with_fuel(apply_actions, 2);
    if actions.len() == 1 {
        assert(actions.drop_first() =~= Seq::<ImeActionView>::empty());
        assert(apply_actions(m, actions) == ime_effect(m, actions[0]));
    }
}

} // verus!
