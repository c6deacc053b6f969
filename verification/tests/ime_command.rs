use hayate_core::edit_state::EditState;
use hayate_core::ime_command::{apply_command, ImeBuffer, ImeCommand};
use hayate_core::ime_reconcile::ImeAction;

#[test]
fn inserting_a_committed_character_commits_at_the_caret() {
    let mut buf = ImeBuffer::new();
    assert_eq!(
        apply_command(&mut buf, ImeCommand::Insert("a".into())),
        vec![ImeAction::CommitText("a".into())]
    );
}

#[test]
fn starting_marked_text_only_sets_preedit() {
    let mut buf = ImeBuffer::new();
    assert_eq!(
        apply_command(&mut buf, ImeCommand::SetMarked("か".into())),
        vec![ImeAction::SetPreedit("か".into())]
    );
}

#[test]
fn updating_marked_text_replaces_preedit() {
    let mut buf = ImeBuffer::new();
    apply_command(&mut buf, ImeCommand::SetMarked("か".into()));
    assert_eq!(
        apply_command(&mut buf, ImeCommand::SetMarked("かん".into())),
        vec![ImeAction::SetPreedit("かん".into())]
    );
}

#[test]
fn committing_marked_text_via_insert_commits_text_and_clears_preedit() {
    let mut buf = ImeBuffer::new();
    apply_command(&mut buf, ImeCommand::SetMarked("かん".into()));
    let actions = apply_command(&mut buf, ImeCommand::Insert("感".into()));
    assert_eq!(actions, vec![ImeAction::CommitText("感".into())]);
    assert!(buf.preedit.is_empty());
}

#[test]
fn unmark_commits_marked_text() {
    let mut buf = ImeBuffer::new();
    apply_command(&mut buf, ImeCommand::SetMarked("かん".into()));
    let actions = apply_command(&mut buf, ImeCommand::Unmark);
    assert_eq!(actions, vec![ImeAction::CommitText("かん".into())]);
    assert!(buf.preedit.is_empty());
}

#[test]
fn marking_after_a_commit_only_emits_preedit() {
    let mut buf = ImeBuffer::new();
    apply_command(&mut buf, ImeCommand::Insert("abc".into()));
    assert_eq!(
        apply_command(&mut buf, ImeCommand::SetMarked("か".into())),
        vec![ImeAction::SetPreedit("か".into())]
    );
    assert_eq!(buf.preedit, "か");
}

#[test]
fn delete_backward_pops_marked_text_first() {
    let mut buf = ImeBuffer::new();
    apply_command(&mut buf, ImeCommand::SetMarked("かん".into()));
    assert_eq!(
        apply_command(&mut buf, ImeCommand::DeleteBackward),
        vec![ImeAction::SetPreedit("か".into())]
    );
}

#[test]
fn delete_backward_emits_committed_delete_when_unmarked() {
    let mut buf = ImeBuffer::new();
    apply_command(&mut buf, ImeCommand::Insert("あい".into()));
    assert_eq!(
        apply_command(&mut buf, ImeCommand::DeleteBackward),
        vec![ImeAction::DeleteBackward]
    );
}

#[test]
fn no_op_command_emits_nothing() {
    let mut buf = ImeBuffer::new();
    assert!(apply_command(&mut buf, ImeCommand::Unmark).is_empty());
    assert!(apply_command(&mut buf, ImeCommand::Insert(String::new())).is_empty());
}

#[test]
fn empty_insert_over_marked_text_clears_the_preedit() {
    let mut buf = ImeBuffer::new();
    apply_command(&mut buf, ImeCommand::SetMarked("か".into()));
    assert_eq!(
        apply_command(&mut buf, ImeCommand::Insert(String::new())),
        vec![ImeAction::SetPreedit(String::new())]
    );
    assert!(buf.preedit.is_empty());
}

#[test]
fn setting_the_same_marked_text_emits_nothing() {
    let mut buf = ImeBuffer::new();
    apply_command(&mut buf, ImeCommand::SetMarked("か".into()));
    assert!(apply_command(&mut buf, ImeCommand::SetMarked("か".into())).is_empty());
}

#[test]
fn the_buffer_mirrors_the_core_preedit_through_a_session() {
    let mut buf = ImeBuffer::new();
    let mut edit = EditState::default();
    edit.set("ab");
    edit.set_selection(1, 1);
    let commands = [
        ImeCommand::SetMarked("か".into()),
        ImeCommand::SetMarked("かん".into()),
        ImeCommand::DeleteBackward,
        ImeCommand::Insert("漢".into()),
        ImeCommand::SetMarked("x".into()),
        ImeCommand::Unmark,
        ImeCommand::DeleteBackward,
    ];
    for command in commands {
        for action in apply_command(&mut buf, command) {
            match action {
                ImeAction::SetText(t) => edit.set(&t),
                ImeAction::SetSelection { anchor, focus } => edit.set_selection(anchor, focus),
                ImeAction::SetPreedit(p) => edit.set_preedit(&p),
                ImeAction::CommitText(t) => edit.finish_composition(&t),
                ImeAction::DeleteBackward => {
                    edit.backspace();
                }
            }
        }
        let shown = edit.preedit.as_ref().map(|p| p.text.clone()).unwrap_or_default();
        assert_eq!(shown, buf.preedit);
    }
    assert_eq!(edit.text_content, "a漢x");
    assert_eq!(edit.cursor_byte_index, 5);
}
