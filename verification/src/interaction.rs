//! Interaction: the value types through which input adapters drive it, and the state
//! machine they drive — focus and blur, the single edit seam of text inputs, IME
//! composition, and the one document-wide selection. Hit-testing and caret geometry
//! stay with the adapter, which hands the steps here the points and offsets they
//! resolve to.
use vstd::prelude::*;
use crate::byte_text::{byte_len, fits, floor_index, is_boundary};
use crate::accessibility::{is_mapping_of, map_action_request, AccessibilityAction, ActionRequest};
use crate::capability::Clipboard;
use crate::edit_state::{
    apply_ok, apply_spec, caret_on_boundary, commit_ok, commit_preedit_spec,
    delete_selection_spec, display_text_spec, edit_wf, finish_composition_spec,
    insert_spec, move_focus_spec, range_on_boundaries, selection_range_spec,
    set_preedit_with_clauses_spec, set_selection_spec, EditIntent, EditModel, EditState,
};
use crate::id::ElementId;
use crate::ime_reconcile::{ImeAction, ImeActionView};
use crate::kind::ElementKind;
use crate::selection_chrome::ToolbarAction;
use crate::pointer::PointerKind;
use crate::pointer_gesture::{phase_of, TapCounter, TapPhase};
use crate::selection::{Selection, SelectionPoint};
use crate::selection::{line_bounds, line_bounds_spec, word_bounds, word_bounds_spec};
use crate::style::CursorValue;

verus! {

/// The outcome of a pointer move. `moved` is false when the move was merged by the
/// one-pixel dedup or skipped before layout; `resolved_cursor` is the cursor of the
/// element under the pointer, for the adapter to drive the platform cursor with.
#[derive(Clone, Copy, Debug, PartialEq, Eq, Structural)]
pub struct PointerMoveResult {
    pub moved: bool,
    pub resolved_cursor: CursorValue,
}

/// How pointer coordinates resolve to a target.
#[derive(Clone, Copy, Debug, PartialEq, Eq, Structural)]
pub enum PointerRouting {
    /// Hit-test the laid-out element tree.
    CanvasHitTest,
    /// The target the HTML event named; `None` for a target outside the document.
    HtmlExplicitTarget(Option<ElementId>),
    /// Resolve no target; only the coordinates reach the document event stream.
    CoordinatesOnly,
}

/// The closed result of applying an interaction intent.
#[derive(Clone, Copy, Debug, PartialEq, Eq, Structural)]
pub enum InteractionResult {
    Consumed,
    Ignored,
    PointerMove(PointerMoveResult),
}

/// The modality of the latest input event, which drives `:focus-visible`: keyboard
/// input rings the next focus, pointer input suppresses rings on widgets that do not
/// need one.
#[derive(Clone, Copy, Debug, PartialEq, Eq, Structural)]
pub enum InputModality {
    Pointer,
    Keyboard,
}

/// The edit state after a press at byte `offset` of a text input: Shift extends the
/// focus from the kept anchor; otherwise the second press of a run selects the word
/// and the third the line (paragraph) — with Mouse or Pen only — and every other
/// press (and every Touch press) drops a caret.
pub open spec fn edit_press_spec(
    m: EditModel,
    offset: int,
    shift: bool,
    phase: TapPhase,
    touch: bool,
) -> EditModel {
    if shift {
        move_focus_spec(m, offset)
    } else if phase == TapPhase::Word && !touch {
        set_selection_spec(
            m,
            word_bounds_spec(m.text, offset).0 as int,
            word_bounds_spec(m.text, offset).1 as int,
        )
    } else if phase == TapPhase::Paragraph && !touch {
        set_selection_spec(
            m,
            line_bounds_spec(m.text, offset).0 as int,
            line_bounds_spec(m.text, offset).1 as int,
        )
    } else {
        set_selection_spec(m, offset, offset)
    }
}

/// A press may be dragged on to extend it: a Shift+press or a caret, not a word or
/// line selection.
pub open spec fn press_arms_drag(shift: bool, phase: TapPhase, touch: bool) -> bool {
    shift || !((phase == TapPhase::Word || phase == TapPhase::Paragraph) && !touch)
}

/// Applies a press at byte `offset` (from the caret geometry) inside a text input, in
/// tap `phase`: see [`edit_press_spec`]. Returns whether a drag is armed to extend the
/// new selection (a Shift+press or a caret; word and line selections do not drag).
pub fn begin_edit_selection(
    edit: &mut EditState,
    offset: usize,
    shift: bool,
    phase: TapPhase,
    touch: bool,
) -> (r: bool)
    requires
        fits(old(edit)@.text),
    ensures
        final(edit)@ == edit_press_spec(old(edit)@, offset as int, shift, phase, touch),
        r == press_arms_drag(shift, phase, touch),
{
    if shift {
        edit.move_focus(offset);
        return true;
    }
    let word = match phase {
        TapPhase::Word => !touch,
        _ => false,
    };
    let line = match phase {
        TapPhase::Paragraph => !touch,
        _ => false,
    };
    if word {
        let (start, end) = word_bounds(edit.text_content.as_str(), offset);
        edit.set_selection(start, end);
        false
    } else if line {
        let (start, end) = line_bounds(edit.text_content.as_str(), offset);
        edit.set_selection(start, end);
        false
    } else {
        edit.set_selection(offset, offset);
        true
    }
}

/// An element of the interaction state: its id, kind, whether a text input is
/// multi-line (`<textarea>`), its editing model where it has one, and whether its
/// caret is shown (it shows while the element holds the focus).
#[derive(Clone, Debug)]
pub struct TextField {
    pub id: ElementId,
    pub kind: ElementKind,
    pub multiline: bool,
    pub edit: Option<EditState>,
    pub cursor_visible: bool,
}

/// A [`TextField`] as values.
#[verifier::ext_equal]
pub struct FieldModel {
    pub id: ElementId,
    pub kind: ElementKind,
    pub multiline: bool,
    pub edit: Option<EditModel>,
    pub cursor_visible: bool,
}

impl View for TextField {
    type V = FieldModel;

    open spec fn view(&self) -> FieldModel {
        FieldModel {
            id: self.id,
            kind: self.kind,
            multiline: self.multiline,
            edit: match self.edit {
                Some(e) => Some(e@),
                None => None,
            },
            cursor_visible: self.cursor_visible,
        }
    }
}

/// The events that interaction emits to the host, in emission order.
#[derive(Clone, Debug, PartialEq, Eq)]
pub enum InteractionEvent {
    Focus { target_id: ElementId },
    Blur { target_id: ElementId },
    /// The whole current value of the input (its displayed text), as DOM `input`.
    TextInput { target_id: ElementId, text: String },
    KeyDown { target_id: ElementId, key: String, modifiers: u32 },
    CompositionStart { target_id: ElementId, text: String },
    CompositionUpdate { target_id: ElementId, text: String },
    CompositionEnd { target_id: ElementId, text: String },
    /// The document selection changed; the host polls the new one.
    SelectionChange,
    HoverEnter { target_id: ElementId },
    HoverLeave { target_id: ElementId },
    /// The press on the element ended (released or cancelled).
    ActiveEnd { target_id: ElementId },
    /// A press landed on the element; `x`, `y` are the bits of its canvas coordinates.
    PointerDown { target_id: ElementId, x: u32, y: u32, pointer_kind: PointerKind },
    /// A release over (or captured by) the element.
    PointerUp { target_id: ElementId, x: u32, y: u32, pointer_kind: PointerKind },
    /// A click, confirmed on release; it carries where the press was.
    Click { target_id: ElementId, x: u32, y: u32 },
    /// A press on the element began (`:active`).
    ActiveStart { target_id: ElementId },
}

/// An [`InteractionEvent`] as values.
pub enum EventModel {
    Focus { target_id: ElementId },
    Blur { target_id: ElementId },
    TextInput { target_id: ElementId, text: Seq<char> },
    KeyDown { target_id: ElementId, key: Seq<char>, modifiers: u32 },
    CompositionStart { target_id: ElementId, text: Seq<char> },
    CompositionUpdate { target_id: ElementId, text: Seq<char> },
    CompositionEnd { target_id: ElementId, text: Seq<char> },
    SelectionChange,
    HoverEnter { target_id: ElementId },
    HoverLeave { target_id: ElementId },
    ActiveEnd { target_id: ElementId },
    PointerDown { target_id: ElementId, x: u32, y: u32, pointer_kind: PointerKind },
    PointerUp { target_id: ElementId, x: u32, y: u32, pointer_kind: PointerKind },
    Click { target_id: ElementId, x: u32, y: u32 },
    ActiveStart { target_id: ElementId },
}

impl View for InteractionEvent {
    type V = EventModel;

    open spec fn view(&self) -> EventModel {
        match self {
            InteractionEvent::Focus { target_id } => EventModel::Focus { target_id: *target_id },
            InteractionEvent::Blur { target_id } => EventModel::Blur { target_id: *target_id },
            InteractionEvent::TextInput { target_id, text } => EventModel::TextInput {
                target_id: *target_id,
                text: text@,
            },
            InteractionEvent::KeyDown { target_id, key, modifiers } => EventModel::KeyDown {
                target_id: *target_id,
                key: key@,
                modifiers: *modifiers,
            },
            InteractionEvent::CompositionStart { target_id, text } => EventModel::CompositionStart {
                target_id: *target_id,
                text: text@,
            },
            InteractionEvent::CompositionUpdate { target_id, text } => EventModel::CompositionUpdate {
                target_id: *target_id,
                text: text@,
            },
            InteractionEvent::CompositionEnd { target_id, text } => EventModel::CompositionEnd {
                target_id: *target_id,
                text: text@,
            },
            InteractionEvent::SelectionChange => EventModel::SelectionChange,
            InteractionEvent::HoverEnter { target_id } => EventModel::HoverEnter {
                target_id: *target_id,
            },
            InteractionEvent::HoverLeave { target_id } => EventModel::HoverLeave {
                target_id: *target_id,
            },
            InteractionEvent::ActiveEnd { target_id } => EventModel::ActiveEnd {
                target_id: *target_id,
            },
            InteractionEvent::PointerDown { target_id, x, y, pointer_kind } => EventModel::PointerDown {
                target_id: *target_id,
                x: *x,
                y: *y,
                pointer_kind: *pointer_kind,
            },
            InteractionEvent::PointerUp { target_id, x, y, pointer_kind } => EventModel::PointerUp {
                target_id: *target_id,
                x: *x,
                y: *y,
                pointer_kind: *pointer_kind,
            },
            InteractionEvent::Click { target_id, x, y } => EventModel::Click {
                target_id: *target_id,
                x: *x,
                y: *y,
            },
            InteractionEvent::ActiveStart { target_id } => EventModel::ActiveStart {
                target_id: *target_id,
            },
        }
    }
}

/// The cross-cutting interaction state: the focus, the latest input modality and pointer
/// device, the one document-wide read-only selection, the elements that interaction
/// edits, and the events emitted so far and not yet drained by the host.
pub struct InteractionState {
    pub fields: Vec<TextField>,
    pub focused_element: Option<ElementId>,
    pub last_input_modality: InputModality,
    pub last_pointer_kind: PointerKind,
    pub selection: Option<Selection>,
    /// The elements that match `:hover` (under the pointer, or ancestors of it), each once.
    pub hovered: Vec<ElementId>,
    /// The element pressed now (`:active`); a click lands on release.
    pub active_element: Option<ElementId>,
    /// Where the current press began (the bits of its canvas coordinates).
    pub active_press_pos: Option<(u32, u32)>,
    pub events: Vec<InteractionEvent>,
}

/// An [`InteractionState`] as values.
#[verifier::ext_equal]
pub struct InteractionModel {
    pub fields: Seq<FieldModel>,
    pub focused: Option<ElementId>,
    pub modality: InputModality,
    pub pointer_kind: PointerKind,
    pub selection: Option<Selection>,
    pub hovered: Seq<ElementId>,
    pub active: Option<ElementId>,
    pub press_pos: Option<(u32, u32)>,
    pub events: Seq<EventModel>,
}

impl View for InteractionState {
    type V = InteractionModel;

    open spec fn view(&self) -> InteractionModel {
        InteractionModel {
            fields: self.fields@.map_values(|f: TextField| f@),
            focused: self.focused_element,
            modality: self.last_input_modality,
            pointer_kind: self.last_pointer_kind,
            selection: self.selection,
            hovered: self.hovered@,
            active: self.active_element,
            press_pos: self.active_press_pos,
            events: self.events@.map_values(|e: InteractionEvent| e@),
        }
    }
}

/// `i` is the first entry of `s` for `id`.
pub open spec fn is_first_field(s: Seq<FieldModel>, id: ElementId, i: int) -> bool {
    &&& 0 <= i < s.len()
    &&& s[i].id == id
    &&& forall|j: int| 0 <= j < i ==> s[j].id != id
}

/// The entry that stands for `id`: the first one with that id.
pub open spec fn field_index(s: Seq<FieldModel>, id: ElementId) -> Option<int> {
    if exists|i: int| is_first_field(s, id, i) {
        Some(choose|i: int| is_first_field(s, id, i))
    } else {
        None
    }
}

/// An edit intent is eligible on `target` exactly when it is a text input with an
/// editing model and no IME composition in progress, and the intent is not a line
/// break into a single-line input.
pub open spec fn can_apply_spec(m: InteractionModel, target: ElementId, intent: EditIntent) -> bool {
    match field_index(m.fields, target) {
        Some(i) => {
            let f = m.fields[i];
            &&& f.kind == ElementKind::TextInput
            &&& f.edit matches Some(e) && e.preedit is None
            &&& !(intent == EditIntent::InsertLineBreak && !f.multiline)
        },
        None => false,
    }
}

proof fn lemma_first_field_unique(s: Seq<FieldModel>, id: ElementId, i: int)
    requires
        is_first_field(s, id, i),
    ensures
        field_index(s, id) == Some(i),
{
    let k = choose|k: int| is_first_field(s, id, k);
    assert(is_first_field(s, id, k));
    if k < i {
        assert(s[k].id != id);
    }
    if i < k {
        assert(s[i].id != id);
    }
}

impl InteractionState {
    /// The position of the entry for `id`, as [`field_index`] names it.
    fn find_field(&self, id: ElementId) -> (r: Option<usize>)
        ensures
            match r {
                Some(i) => field_index(self@.fields, id) == Some(i as int) && i < self.fields.len(),
                None => field_index(self@.fields, id) is None,
            },
    {
        let ghost s = self@.fields;
        let mut i: usize = 0;
        while i < self.fields.len()
            invariant
                i <= self.fields.len(),
                s == self@.fields,
                s.len() == self.fields.len(),
                forall|j: int| 0 <= j < i ==> s[j].id != id,
            decreases self.fields.len() - i,
        {
            if self.fields[i].id == id {
                proof {
                    assert(s[i as int] == self.fields@[i as int]@);
                    lemma_first_field_unique(s, id, i as int);
                }
                return Some(i);
            }
            assert(s[i as int] == self.fields@[i as int]@);
            i = i + 1;
        }
        proof {
            if exists|k: int| is_first_field(s, id, k) {
                let k = choose|k: int| is_first_field(s, id, k);
                assert(s[k].id != id);
            }
        }
        None
    }

    /// Whether an edit intent would be consumed by `target`: the same eligibility the
    /// synchronous seam checks, asked before an adapter starts asynchronous work (a web
    /// paste).
    pub fn can_apply_edit_intent(&self, target: ElementId, intent: EditIntent) -> (r: bool)
        ensures
            r == can_apply_spec(self@, target, intent),
    {
        let i = match self.find_field(target) {
            Some(i) => i,
            None => return false,
        };
        let f = &self.fields[i];
        assert(self@.fields[i as int] == f@);
        if f.kind != ElementKind::TextInput {
            return false;
        }
        let edit = match &f.edit {
            Some(e) => e,
            None => return false,
        };
        if edit.preedit.is_some() {
            return false;
        }
        let line_break = match intent {
            EditIntent::InsertLineBreak => true,
            _ => false,
        };
        if line_break && !f.multiline {
            return false;
        }
        true
    }
}

/// What every editing model of the state keeps: it is well formed, and committing its
/// preedit would still fit a `usize`.
pub open spec fn edit_ready(e: EditModel) -> bool {
    &&& edit_wf(e)
    &&& e.preedit matches Some(p) ==> byte_len(e.text) + byte_len(p.text) <= usize::MAX
}

/// Every editing model of the state is ready for the edits interaction applies.
pub open spec fn fields_wf(m: InteractionModel) -> bool {
    forall|i: int|
        0 <= i < m.fields.len() ==> ((#[trigger] m.fields[i]).edit matches Some(e) ==> edit_ready(
            e,
        ))
}

/// The editing model of `id`, if it has one.
pub open spec fn edit_at(m: InteractionModel, id: ElementId) -> Option<EditModel> {
    match field_index(m.fields, id) {
        Some(i) => m.fields[i].edit,
        None => None,
    }
}

/// The state with entry `i` holding the editing model `e`.
pub open spec fn with_edit(m: InteractionModel, i: int, e: EditModel) -> InteractionModel {
    InteractionModel {
        fields: m.fields.update(i, FieldModel { edit: Some(e), ..m.fields[i] }),
        ..m
    }
}

/// The state after emitting `ev`.
pub open spec fn emit_spec(m: InteractionModel, ev: EventModel) -> InteractionModel {
    InteractionModel { events: m.events.push(ev), ..m }
}

/// Clearing the document selection: a no-op without one; otherwise it is dropped and
/// the host is told once.
pub open spec fn clear_selection_spec(m: InteractionModel) -> InteractionModel {
    if m.selection is None {
        m
    } else {
        emit_spec(InteractionModel { selection: None, ..m }, EventModel::SelectionChange)
    }
}

/// An eligible intent other than a clipboard one: the edit seam applies it to the
/// target's model; a line break also reports the input's new value; and since an edit
/// selection changed, the read-only document selection is cleared (one active
/// selection in the document).
pub open spec fn edit_step_spec(m: InteractionModel, target: ElementId, intent: EditIntent) -> InteractionModel {
    match field_index(m.fields, target) {
        Some(i) => match m.fields[i].edit {
            Some(e) => {
                let e2 = apply_spec(e, intent).0;
                let m1 = with_edit(m, i, e2);
                clear_selection_spec(
                    if intent == EditIntent::InsertLineBreak {
                        emit_spec(m1, EventModel::TextInput { target_id: target, text: e2.text })
                    } else {
                        m1
                    },
                )
            },
            None => m,
        },
        None => m,
    }
}

proof fn lemma_wf_boundaries(e: EditModel)
    requires
        edit_wf(e),
    ensures
        e.cursor <= byte_len(e.text),
        e.anchor <= byte_len(e.text),
        range_on_boundaries(e),
        caret_on_boundary(e),
{
    crate::byte_text::lemma_floor_index(e.text, e.cursor as int);
    crate::byte_text::lemma_floor_index(e.text, e.anchor as int);
    crate::byte_text::lemma_offset_le_len(e.text, floor_index(e.text, e.cursor as int) as int);
    crate::byte_text::lemma_offset_le_len(e.text, floor_index(e.text, e.anchor as int) as int);
}

proof fn lemma_wf_apply_ok(e: EditModel, intent: EditIntent)
    requires
        edit_ready(e),
        intent == EditIntent::InsertLineBreak ==> byte_len(e.text) + byte_len(seq!['\n'])
            <= usize::MAX,
    ensures
        apply_ok(e, intent),
{
    lemma_wf_boundaries(e);
}

/// What pasting into a ready model needs, and the length it pastes into.
proof fn lemma_ready_paste(e: EditModel)
    requires
        edit_ready(e),
    ensures
        commit_ok(e),
        edit_wf(commit_preedit_spec(e)),
        range_on_boundaries(commit_preedit_spec(e)),
        caret_on_boundary(commit_preedit_spec(e)),
        byte_len(commit_preedit_spec(e).text) == byte_len(e.text) + match e.preedit {
            Some(p) => byte_len(p.text),
            None => 0,
        },
{
    lemma_wf_boundaries(e);
    crate::edit_state::law_edits_keep_the_model_well_formed(e, Seq::empty(), 0, 0);
    lemma_wf_boundaries(commit_preedit_spec(e));
    if let Some(p) = e.preedit {
        crate::edit_state::lemma_splice(e.text, crate::edit_state::preedit_at(e) as int, p.text);
    }
}

proof fn lemma_with_edit_wf(m: InteractionModel, i: int, e: EditModel)
    requires
        fields_wf(m),
        0 <= i < m.fields.len(),
        edit_ready(e),
    ensures
        fields_wf(with_edit(m, i, e)),
{
    let f = with_edit(m, i, e).fields;
    assert forall|k: int| 0 <= k < f.len() implies ((#[trigger] f[k]).edit matches Some(x) ==> edit_ready(x)) by {
        if k != i {
            assert(f[k] == m.fields[k]);
        }
    }
}

/// The edit seam keeps a ready model without a preedit ready.
proof fn lemma_apply_ready(e: EditModel, intent: EditIntent)
    requires
        edit_ready(e),
        e.preedit is None,
        intent == EditIntent::InsertLineBreak ==> byte_len(e.text) + byte_len(seq!['\n'])
            <= usize::MAX,
    ensures
        edit_ready(apply_spec(e, intent).0),
{
    crate::edit_state::law_apply_keeps_the_model_well_formed(e, intent);
}

impl TextField {
    fn apply_edit(&mut self, intent: EditIntent) -> (r: bool)
        requires
            old(self)@.edit matches Some(e) && apply_ok(e, intent),
        ensures
            final(self)@ == (FieldModel {
                edit: Some(apply_spec(old(self)@.edit->0, intent).0),
                ..old(self)@
            }),
            r == apply_spec(old(self)@.edit->0, intent).1,
    {
        match &mut self.edit {
            Some(e) => e.apply(intent),
            None => false,
        }
    }
}

impl InteractionState {
    /// Appends `ev` to the emitted events.
    fn emit(&mut self, ev: InteractionEvent)
        ensures
            final(self)@ == emit_spec(old(self)@, ev@),
    {
        self.events.push(ev);
        assert(self@.events =~= old(self)@.events.push(ev@));
        assert(self@ =~= emit_spec(old(self)@, ev@));
    }

    /// Clears the document-wide selection; a no-op when nothing is selected, otherwise
    /// the host is notified once with `SelectionChange`.
    pub fn clear_selection(&mut self)
        ensures
            final(self)@ == clear_selection_spec(old(self)@),
            final(self)@.fields == old(self)@.fields,
    {
        if self.selection.is_none() {
            return;
        }
        self.selection = None;
        self.emit(InteractionEvent::SelectionChange);
    }

    fn apply_at(&mut self, i: usize, intent: EditIntent)
        requires
            i < old(self).fields.len(),
            old(self)@.fields[i as int].edit matches Some(e) && apply_ok(e, intent),
        ensures
            final(self)@ == with_edit(
                old(self)@,
                i as int,
                apply_spec(old(self)@.fields[i as int].edit->0, intent).0,
            ),
            final(self).fields.len() == old(self).fields.len(),
    {
        assert(old(self)@.fields[i as int] == old(self).fields@[i as int]@);
        let f = &mut self.fields[i];
        f.apply_edit(intent);
        proof {
            let e2 = apply_spec(old(self)@.fields[i as int].edit->0, intent).0;
            assert(self@.fields =~= old(self)@.fields.update(
                i as int,
                FieldModel { edit: Some(e2), ..old(self)@.fields[i as int] },
            ));
        }
    }
}

/// What applying an edit intent to `target` leaves, from `m0` to `m1`: an ineligible
/// intent changes nothing; an eligible one goes through the edit seam (see
/// [`edit_step_spec`]), or for a clipboard member copies (no change), cuts (see
/// [`cut_spec`]) or pastes whatever the clipboard held (see [`paste_spec`]); and every
/// consumed intent clears the document selection.
pub open spec fn edit_intent_post(
    m0: InteractionModel,
    m1: InteractionModel,
    target: ElementId,
    intent: EditIntent,
) -> bool {
    let r = can_apply_spec(m0, target, intent);
    &&& !r ==> m1 == m0
    &&& r && !is_clipboard(intent) ==> m1 == edit_step_spec(m0, target, intent)
    &&& r && intent == EditIntent::Copy ==> m1 == clear_selection_spec(m0)
    &&& r && intent == EditIntent::Cut ==> m1 == clear_selection_spec(cut_spec(m0))
    &&& r && intent == EditIntent::Paste ==> m1 == clear_selection_spec(m0) || exists|t: Seq<char>|
        m1 == clear_selection_spec(#[trigger] paste_spec(m0, target, t))
}

/// The clipboard members of the edit vocabulary.
pub open spec fn is_clipboard(intent: EditIntent) -> bool {
    intent == EditIntent::Copy || intent == EditIntent::Cut || intent == EditIntent::Paste
}

/// A line break still fits the target's text.
pub open spec fn line_break_fits(m: InteractionModel, target: ElementId) -> bool {
    edit_at(m, target) matches Some(e) ==> byte_len(e.text) + byte_len(seq!['\n']) <= usize::MAX
}

/// The entry whose edit selection is the document's active one: the focused element,
/// when its editing model holds a non-empty selection.
pub open spec fn selection_owner(m: InteractionModel) -> Option<int> {
    match m.focused {
        Some(id) => match field_index(m.fields, id) {
            Some(i) => if m.fields[i].edit matches Some(e) && selection_range_spec(e) is Some {
                Some(i)
            } else {
                None
            },
            None => None,
        },
        None => None,
    }
}

/// Cutting removes the active edit selection (its text goes to the clipboard); without
/// one nothing changes.
pub open spec fn cut_spec(m: InteractionModel) -> InteractionModel {
    match selection_owner(m) {
        Some(i) => with_edit(m, i, delete_selection_spec(m.fields[i].edit->0).0),
        None => m,
    }
}

/// Pasting `text` into `target` happens when it has an editing model, the text is not
/// empty and the result fits a `usize`.
pub open spec fn paste_applies(m: InteractionModel, target: ElementId, text: Seq<char>) -> bool {
    match edit_at(m, target) {
        Some(e) => text.len() > 0 && byte_len(commit_preedit_spec(e).text) + byte_len(text)
            <= usize::MAX,
        None => false,
    }
}

/// Pasting `text` into `target`: the preedit is committed, the text replaces the
/// selection (or goes in at the caret), and the input's new value is reported.
pub open spec fn paste_spec(m: InteractionModel, target: ElementId, text: Seq<char>) -> InteractionModel {
    if paste_applies(m, target, text) {
        let i = field_index(m.fields, target)->0;
        let e2 = insert_spec(commit_preedit_spec(m.fields[i].edit->0), text);
        emit_spec(with_edit(m, i, e2), EventModel::TextInput { target_id: target, text: e2.text })
    } else {
        m
    }
}

impl InteractionState {
    /// Pastes `text` into `target`'s editing model: see [`paste_spec`]. Reports whether
    /// it pasted.
    pub fn paste_text(&mut self, target: ElementId, text: &str) -> (r: bool)
        requires
            fields_wf(old(self)@),
        ensures
            r == paste_applies(old(self)@, target, text@),
            final(self)@ == paste_spec(old(self)@, target, text@),
            fields_wf(final(self)@),
    {
        let i = match self.find_field(target) {
            Some(i) => i,
            None => return false,
        };
        let n = match crate::byte_text::checked_byte_len(text) {
            Some(n) => n,
            None => {
                proof {
                    if let Some(e) = edit_at(self@, target) {
                        lemma_ready_paste(e);
                    }
                }
                return false;
            },
        };
        if n == 0 {
            assert(text@.len() == 0) by {
                if text@.len() > 0 {
                    crate::byte_text::lemma_byte_len_concat(text@.drop_last(), seq![text@.last()]);
                    assert(text@.drop_last() + seq![text@.last()] =~= text@);
                    crate::byte_text::lemma_char_width_bounds(text@.last());
                    crate::byte_text::lemma_byte_len_concat(Seq::<char>::empty(), seq![text@.last()]);
                }
            }
            return false;
        }
        assert(self@.fields[i as int] == self.fields@[i as int]@);
        let ghost m0 = self@;
        let pasted = match &self.fields[i].edit {
            Some(e) => {
                proof {
                    assert(fields_wf(m0) ==> (m0.fields[i as int].edit matches Some(x) ==> edit_ready(x)));
                    lemma_ready_paste(e@);
                    lemma_wf_boundaries(e@);
                }
                let base = committed_len(e);
                n <= usize::MAX - base
            },
            None => false,
        };
        if !pasted {
            return false;
        }
        let f = &mut self.fields[i];
        match &mut f.edit {
            Some(e) => {
                e.paste(text);
            },
            None => {},
        }
        let ghost e2 = insert_spec(commit_preedit_spec(m0.fields[i as int].edit->0), text@);
        proof {
            assert(self@.fields =~= m0.fields.update(
                i as int,
                FieldModel { edit: Some(e2), ..m0.fields[i as int] },
            ));
            let c = commit_preedit_spec(m0.fields[i as int].edit->0);
            lemma_ready_paste(m0.fields[i as int].edit->0);
            crate::edit_state::law_edits_keep_the_model_well_formed(c, text@, 0, 0);
            crate::edit_state::lemma_insert_len(c, text@);
            lemma_with_edit_wf(m0, i as int, e2);
        }
        let value = match &self.fields[i].edit {
            Some(e) => e.text_content.clone(),
            None => String::new(),
        };
        assert(self@.fields[i as int] == self.fields@[i as int]@);
        self.emit(InteractionEvent::TextInput { target_id: target, text: value });
        true
    }
}

/// The byte length of the text that committing `e`'s preedit would leave.
fn committed_len(e: &EditState) -> (r: usize)
    requires
        edit_ready(e@),
    ensures
        r == byte_len(commit_preedit_spec(e@).text),
{
    proof {
        lemma_ready_paste(e@);
    }
    let base = match crate::byte_text::checked_byte_len(e.text_content.as_str()) {
        Some(n) => n,
        None => 0,
    };
    match &e.preedit {
        Some(p) => {
            let extra = match crate::byte_text::checked_byte_len(p.text.as_str()) {
                Some(n) => n,
                None => 0,
            };
            base + extra
        },
        None => base,
    }
}

impl InteractionState {
    /// Applies an edit intent to `target` through the edit seam and reports whether it
    /// was consumed: only an eligible one is (see [`can_apply_spec`]), and an ineligible
    /// one changes nothing. The clipboard members go through `clipboard`: Copy writes the
    /// active selection's text (see [`InteractionState::active_selection_text`], with
    /// `document_text` the text under the read-only document selection as the element
    /// tree joins it), Cut writes and removes the edit selection, Paste reads the
    /// clipboard and pastes into `target`. Any consumed intent clears the read-only
    /// document selection.
    ///
    /// This state holds no line geometry: a multi-line field's vertical and display-line
    /// motions take the single-line path here, as for a field not laid out yet; an
    /// adapter with a layout resolves them with `EditState::land_vertical_motion` and
    /// `EditState::display_line_boundary`.
    pub fn apply_edit_intent<C: Clipboard>(
        &mut self,
        target: ElementId,
        intent: EditIntent,
        clipboard: Option<&C>,
        document_text: Option<&str>,
    ) -> (r: bool)
        requires
            fields_wf(old(self)@),
            intent == EditIntent::InsertLineBreak ==> line_break_fits(old(self)@, target),
        ensures
            r == can_apply_spec(old(self)@, target, intent),
            edit_intent_post(old(self)@, final(self)@, target, intent),
            fields_wf(final(self)@),
    {
        if !self.can_apply_edit_intent(target, intent) {
            return false;
        }
        let i = match self.find_field(target) {
            Some(i) => i,
            None => return false,
        };
        let ghost m0 = self@;
        assert(m0.fields[i as int] == self.fields@[i as int]@);
        match intent {
            EditIntent::Copy => {
                self.copy_active_selection(clipboard, document_text);
            },
            EditIntent::Cut => {
                self.cut_active_selection(clipboard);
            },
            EditIntent::Paste => {
                let read = match clipboard {
                    Some(c) => c.read_text(),
                    None => None,
                };
                match read {
                    Some(t) => {
                        self.paste_text(target, t.as_str());
                    },
                    None => {},
                }
            },
            _ => {
                proof {
                    assert(fields_wf(m0) ==> (m0.fields[i as int].edit matches Some(x) ==> edit_ready(x)));
                    lemma_wf_apply_ok(m0.fields[i as int].edit->0, intent);
                    lemma_apply_ready(m0.fields[i as int].edit->0, intent);
                    lemma_with_edit_wf(
                        m0,
                        i as int,
                        apply_spec(m0.fields[i as int].edit->0, intent).0,
                    );
                }
                self.apply_at(i, intent);
                let line_break = match intent {
                    EditIntent::InsertLineBreak => true,
                    _ => false,
                };
                if line_break {
                    let value = match &self.fields[i].edit {
                        Some(e) => e.text_content.clone(),
                        None => String::new(),
                    };
                    assert(self@.fields[i as int] == self.fields@[i as int]@);
                    self.emit(InteractionEvent::TextInput { target_id: target, text: value });
                }
            },
        }
        self.clear_selection();
        true
    }

    /// The text of the active edit selection (see [`selection_owner`]): the chars of
    /// the owner's text between the selection's ends; `None` without one.
    pub fn edit_selection_text(&self) -> (r: Option<String>)
        requires
            fields_wf(self@),
        ensures
            match selection_owner(self@) {
                Some(i) => {
                    let e = self@.fields[i].edit->0;
                    let (start, end) = selection_range_spec(e)->0;
                    r matches Some(t) && t@ == e.text.subrange(
                        floor_index(e.text, start as int) as int,
                        floor_index(e.text, end as int) as int,
                    )
                },
                None => r is None,
            },
    {
        let i = match self.edit_selection_owner() {
            Some(i) => i,
            None => return None,
        };
        assert(self@.fields[i as int] == self.fields@[i as int]@);
        proof {
            assert(fields_wf(self@) ==> (self@.fields[i as int].edit matches Some(x) ==> edit_ready(x)));
            if let Some(x) = self@.fields[i as int].edit {
                lemma_wf_boundaries(x);
            }
        }
        match &self.fields[i].edit {
            Some(e) => e.selected_text(),
            None => None,
        }
    }

    /// The text of the active selection, what a copy writes: with a read-only document
    /// selection, the text under it (`document_text`, as the element tree joins the
    /// spanned blocks, see [`selected_text`]) when there is any; otherwise the text of
    /// the active edit selection (see [`InteractionState::edit_selection_text`]).
    pub fn active_selection_text(&self, document_text: Option<&str>) -> (r: Option<String>)
        requires
            fields_wf(self@),
        ensures
            (self.selection is Some && document_text is Some) ==> (r matches Some(t) && t@
                == document_text->0@),
            !(self.selection is Some && document_text is Some) ==> match selection_owner(self@) {
                Some(i) => {
                    let e = self@.fields[i].edit->0;
                    let (start, end) = selection_range_spec(e)->0;
                    r matches Some(t) && t@ == e.text.subrange(
                        floor_index(e.text, start as int) as int,
                        floor_index(e.text, end as int) as int,
                    )
                },
                None => r is None,
            },
    {
        if self.selection.is_some() {
            match document_text {
                Some(t) => return Some(t.to_string()),
                None => {},
            }
        }
        self.edit_selection_text()
    }

    /// Writes the text of the active selection (see
    /// [`InteractionState::active_selection_text`]) to the clipboard; nothing changes in
    /// the state.
    fn copy_active_selection<C: Clipboard>(&self, clipboard: Option<&C>, document_text: Option<&str>)
        requires
            fields_wf(self@),
    {
        match (self.active_selection_text(document_text), clipboard) {
            (Some(t), Some(c)) => c.write_text(t.as_str()),
            _ => {},
        }
    }

    /// Cuts the active edit selection: see [`cut_spec`]; the removed text goes to the
    /// clipboard.
    fn cut_active_selection<C: Clipboard>(&mut self, clipboard: Option<&C>)
        requires
            fields_wf(old(self)@),
        ensures
            final(self)@ == cut_spec(old(self)@),
            fields_wf(final(self)@),
    {
        let i = match self.edit_selection_owner() {
            Some(i) => i,
            None => return,
        };
        let ghost m0 = self@;
        assert(m0.fields[i as int] == self.fields@[i as int]@);
        proof {
            assert(fields_wf(m0) ==> (m0.fields[i as int].edit matches Some(x) ==> edit_ready(x)));
            lemma_wf_boundaries(m0.fields[i as int].edit->0);
        }
        let f = &mut self.fields[i];
        let removed = match &mut f.edit {
            Some(e) => e.cut(),
            None => None,
        };
        proof {
            let e2 = delete_selection_spec(m0.fields[i as int].edit->0).0;
            assert(self@.fields =~= m0.fields.update(
                i as int,
                FieldModel { edit: Some(e2), ..m0.fields[i as int] },
            ));
            crate::edit_state::lemma_delete_selection_wf(m0.fields[i as int].edit->0);
            lemma_with_edit_wf(m0, i as int, e2);
        }
        match (removed, clipboard) {
            (Some(t), Some(c)) => c.write_text(t.as_str()),
            _ => {},
        }
    }

    /// The entry of [`selection_owner`].
    fn edit_selection_owner(&self) -> (r: Option<usize>)
        ensures
            match r {
                Some(i) => selection_owner(self@) == Some(i as int) && i < self.fields.len(),
                None => selection_owner(self@) is None,
            },
    {
        let id = match self.focused_element {
            Some(id) => id,
            None => return None,
        };
        let i = match self.find_field(id) {
            Some(i) => i,
            None => return None,
        };
        assert(self@.fields[i as int] == self.fields@[i as int]@);
        match &self.fields[i].edit {
            Some(e) => if e.selection_range().is_some() {
                Some(i)
            } else {
                None
            },
            None => None,
        }
    }
}

/// Blurring a text input commits an active preedit and reports the new value.
pub open spec fn commit_on_blur_spec(m: InteractionModel, id: ElementId) -> InteractionModel {
    match field_index(m.fields, id) {
        Some(i) => {
            let f = m.fields[i];
            if f.kind == ElementKind::TextInput && (f.edit matches Some(e) && e.preedit is Some) {
                let e2 = commit_preedit_spec(f.edit->0);
                emit_spec(with_edit(m, i, e2), EventModel::TextInput { target_id: id, text: e2.text })
            } else {
                m
            }
        },
        None => m,
    }
}

/// After a touch interaction a blurred input's edit selection collapses to its caret.
pub open spec fn collapse_on_blur_spec(m: InteractionModel, id: ElementId) -> InteractionModel {
    if m.pointer_kind == PointerKind::Touch {
        match field_index(m.fields, id) {
            Some(i) => match m.fields[i].edit {
                Some(e) => if e.anchor != e.cursor {
                    with_edit(m, i, EditModel { anchor: e.cursor, ..e })
                } else {
                    m
                },
                None => m,
            },
            None => m,
        }
    } else {
        m
    }
}

/// The state with the caret of `id` shown or hidden (`id` without an entry: unchanged).
pub open spec fn with_cursor(m: InteractionModel, id: ElementId, visible: bool) -> InteractionModel {
    match field_index(m.fields, id) {
        Some(i) => InteractionModel {
            fields: m.fields.update(i, FieldModel { cursor_visible: visible, ..m.fields[i] }),
            ..m
        },
        None => m,
    }
}

/// Blurring `id` with its events: a no-op unless `id` has the focus; otherwise the focus
/// is dropped and its caret hidden, a preedit is committed (with its `TextInput`), a
/// touch edit selection collapses, and `Blur` is emitted.
pub open spec fn blur_spec(m: InteractionModel, id: ElementId) -> InteractionModel {
    if m.focused != Some(id) {
        m
    } else {
        emit_spec(
            collapse_on_blur_spec(
                commit_on_blur_spec(with_cursor(InteractionModel { focused: None, ..m }, id, false), id),
                id,
            ),
            EventModel::Blur { target_id: id },
        )
    }
}

/// Moving the focus to `id`: a no-op when it already has it; otherwise the previous
/// focus is blurred with its events, then `id` gains the focus with its caret shown and
/// `Focus` is emitted.
pub open spec fn focus_spec(m: InteractionModel, id: ElementId) -> InteractionModel {
    if m.focused == Some(id) {
        m
    } else {
        let m1 = match m.focused {
            Some(previous) => blur_spec(m, previous),
            None => m,
        };
        emit_spec(
            with_cursor(InteractionModel { focused: Some(id), ..m1 }, id, true),
            EventModel::Focus { target_id: id },
        )
    }
}

impl InteractionState {
    /// Programmatic focus (mutation batches, accessibility): see [`focus_spec`].
    pub fn on_focus(&mut self, id: ElementId)
        requires
            fields_wf(old(self)@),
        ensures
            final(self)@ == focus_spec(old(self)@, id),
            fields_wf(final(self)@),
    {
        if self.focused_element == Some(id) {
            return;
        }
        match self.focused_element {
            Some(previous) => self.on_blur(previous),
            None => {},
        }
        self.focused_element = Some(id);
        self.set_cursor_visible(id, true);
        self.emit(InteractionEvent::Focus { target_id: id });
    }

    /// Shows or hides the caret of `id`: see [`with_cursor`].
    fn set_cursor_visible(&mut self, id: ElementId, visible: bool)
        requires
            fields_wf(old(self)@),
        ensures
            final(self)@ == with_cursor(old(self)@, id, visible),
            fields_wf(final(self)@),
    {
        let i = match self.find_field(id) {
            Some(i) => i,
            None => return,
        };
        let ghost m0 = self@;
        assert(m0.fields[i as int] == self.fields@[i as int]@);
        self.fields[i].cursor_visible = visible;
        proof {
            assert(self@.fields =~= m0.fields.update(
                i as int,
                FieldModel { cursor_visible: visible, ..m0.fields[i as int] },
            ));
            let f = self@.fields;
            assert forall|k: int| 0 <= k < f.len() implies ((#[trigger] f[k]).edit matches Some(x) ==> edit_ready(x)) by {
                assert(m0.fields[k].edit matches Some(x) ==> edit_ready(x));
            }
        }
    }

    /// Programmatic blur (mutation batches): see [`blur_spec`].
    pub fn on_blur(&mut self, id: ElementId)
        requires
            fields_wf(old(self)@),
        ensures
            final(self)@ == blur_spec(old(self)@, id),
            fields_wf(final(self)@),
    {
        if self.focused_element != Some(id) {
            return;
        }
        self.focused_element = None;
        self.set_cursor_visible(id, false);
        self.commit_preedit_on_blur(id);
        let touch = match self.last_pointer_kind {
            PointerKind::Touch => true,
            _ => false,
        };
        if touch {
            self.collapse_edit_selection_of(id);
        }
        self.emit(InteractionEvent::Blur { target_id: id });
    }

    fn commit_preedit_on_blur(&mut self, id: ElementId)
        requires
            fields_wf(old(self)@),
        ensures
            final(self)@ == commit_on_blur_spec(old(self)@, id),
            fields_wf(final(self)@),
            final(self).fields.len() == old(self).fields.len(),
            final(self).last_pointer_kind == old(self).last_pointer_kind,
            forall|k: int| 0 <= k < final(self)@.fields.len() ==> #[trigger] final(self)@.fields[k].id
                == old(self)@.fields[k].id,
    {
        let i = match self.find_field(id) {
            Some(i) => i,
            None => return,
        };
        let ghost m0 = self@;
        assert(m0.fields[i as int] == self.fields@[i as int]@);
        let composing = match &self.fields[i].edit {
            Some(e) => e.preedit.is_some(),
            None => false,
        };
        if self.fields[i].kind != ElementKind::TextInput || !composing {
            return;
        }
        proof {
            assert(fields_wf(m0) ==> (m0.fields[i as int].edit matches Some(x) ==> edit_ready(x)));
            lemma_ready_paste(m0.fields[i as int].edit->0);
        }
        let f = &mut self.fields[i];
        match &mut f.edit {
            Some(e) => e.commit_preedit(),
            None => {},
        }
        let ghost e2 = commit_preedit_spec(m0.fields[i as int].edit->0);
        proof {
            assert(self@.fields =~= m0.fields.update(
                i as int,
                FieldModel { edit: Some(e2), ..m0.fields[i as int] },
            ));
            lemma_with_edit_wf(m0, i as int, e2);
        }
        let value = match &self.fields[i].edit {
            Some(e) => e.text_content.clone(),
            None => String::new(),
        };
        assert(self@.fields[i as int] == self.fields@[i as int]@);
        self.emit(InteractionEvent::TextInput { target_id: id, text: value });
    }

    fn collapse_edit_selection_of(&mut self, id: ElementId)
        requires
            old(self).last_pointer_kind == PointerKind::Touch,
            fields_wf(old(self)@),
        ensures
            final(self)@ == collapse_on_blur_spec(old(self)@, id),
            fields_wf(final(self)@),
    {
        let i = match self.find_field(id) {
            Some(i) => i,
            None => return,
        };
        let ghost m0 = self@;
        assert(m0.fields[i as int] == self.fields@[i as int]@);
        let caret = match &self.fields[i].edit {
            Some(e) => e.is_caret(),
            None => true,
        };
        if caret {
            return;
        }
        let f = &mut self.fields[i];
        match &mut f.edit {
            Some(e) => e.collapse(),
            None => {},
        }
        proof {
            let e = m0.fields[i as int].edit->0;
            assert(self@.fields =~= m0.fields.update(
                i as int,
                FieldModel { edit: Some(EditModel { anchor: e.cursor, ..e }), ..m0.fields[i as int] },
            ));
            assert(fields_wf(m0) ==> (m0.fields[i as int].edit matches Some(x) ==> edit_ready(x)));
            lemma_with_edit_wf(m0, i as int, EditModel { anchor: e.cursor, ..e });
        }
    }
}

/// `key` names the letter `lower` in either case.
pub open spec fn is_letter_key(key: Seq<char>, lower: char, upper: char) -> bool {
    key == seq![lower] || key == seq![upper]
}

/// The keyboard gestures on the read-only document selection, given the text of the
/// block holding its focus; `None` when the key is not one of them (it then goes to
/// the focused element). The primary modifier with A selects the whole block, with C
/// copies (the state stays); Shift with an arrow moves the focus one char (one word
/// with Alt or Ctrl) and keeps the anchor.
pub open spec fn selection_key_spec(
    m: InteractionModel,
    key: Seq<char>,
    modifiers: u32,
    text: Option<Seq<char>>,
) -> Option<InteractionModel> {
    match m.selection {
        None => None,
        Some(sel) => {
            let primary = modifiers & crate::selection::MOD_PRIMARY != 0;
            let el = sel.focus.element;
            if primary && is_letter_key(key, 'a', 'A') {
                match text {
                    Some(t) if fits(t) => Some(
                        set_document_selection_spec(
                            m,
                            Some(
                                Selection {
                                    anchor: SelectionPoint { element: el, offset: 0 },
                                    focus: SelectionPoint { element: el, offset: byte_len(t) as usize },
                                },
                            ),
                        ),
                    ),
                    _ => None,
                }
            } else if primary && is_letter_key(key, 'c', 'C') {
                Some(m)
            } else if modifiers & crate::selection::MOD_SHIFT == 0 {
                None
            } else {
                match text {
                    Some(t) if fits(t) => {
                        let by_word = modifiers & (crate::selection::MOD_ALT
                            | crate::selection::MOD_CTRL) != 0;
                        match crate::selection::arrow_step_spec(t, key, sel.focus.offset as int, by_word) {
                            Some(n) => Some(
                                set_document_selection_spec(
                                    m,
                                    Some(
                                        Selection {
                                            anchor: sel.anchor,
                                            focus: SelectionPoint { element: el, offset: n as usize },
                                        },
                                    ),
                                ),
                            ),
                            None => None,
                        }
                    },
                    _ => None,
                }
            }
        },
    }
}

/// A key press: the modality turns to keyboard; a document-selection gesture takes the
/// key first (see [`selection_key_spec`]); otherwise the focused element (if any)
/// receives `KeyDown`.
pub open spec fn key_down_spec(
    m: InteractionModel,
    key: Seq<char>,
    modifiers: u32,
    text: Option<Seq<char>>,
) -> InteractionModel {
    let m1 = InteractionModel { modality: InputModality::Keyboard, ..m };
    match selection_key_spec(m1, key, modifiers, text) {
        Some(m2) => m2,
        None => match m.focused {
            Some(id) => emit_spec(m1, EventModel::KeyDown { target_id: id, key, modifiers }),
            None => m1,
        },
    }
}

/// Shift with an arrow extends the document selection from its kept anchor, in the
/// text of the block holding its focus: with Ctrl or Alt held the focus moves to the
/// word boundary after it (ArrowRight) or before it (ArrowLeft), as the word stepper
/// finds it; with neither it moves one char.
pub proof fn law_shift_arrow_extends_the_selection(
    m: InteractionModel,
    sel: Selection,
    modifiers: u32,
    t: Seq<char>,
)
    requires
        m.selection == Some(sel),
        modifiers & crate::selection::MOD_SHIFT != 0,
        fits(t),
    ensures
        ({
            let o = sel.focus.offset as int;
            let el = sel.focus.element;
            let right = key_down_spec(m, "ArrowRight"@, modifiers, Some(t)).selection;
            let left = key_down_spec(m, "ArrowLeft"@, modifiers, Some(t)).selection;
            let word = modifiers & crate::selection::MOD_CTRL != 0 || modifiers
                & crate::selection::MOD_ALT != 0;
            &&& word ==> right == Some(
                Selection {
                    anchor: sel.anchor,
                    focus: SelectionPoint { element: el, offset: crate::selection::next_word_spec(t, o) as usize },
                },
            )
            &&& word ==> left == Some(
                Selection {
                    anchor: sel.anchor,
                    focus: SelectionPoint { element: el, offset: crate::selection::prev_word_spec(t, o) as usize },
                },
            )
            &&& !word ==> right == Some(
                Selection {
                    anchor: sel.anchor,
                    focus: SelectionPoint {
                        element: el,
                        offset: crate::selection::next_grapheme_spec(t, o) as usize,
                    },
                },
            )
            &&& !word ==> left == Some(
                Selection {
                    anchor: sel.anchor,
                    focus: SelectionPoint {
                        element: el,
                        offset: crate::selection::prev_grapheme_spec(t, o) as usize,
                    },
                },
            )
        }),
{
    reveal_strlit("ArrowRight");
    reveal_strlit("ArrowLeft");
    assert(("ArrowRight"@).len() == 10);
    assert(("ArrowLeft"@).len() == 9);
    assert("ArrowLeft"@ != "ArrowRight"@);
    assert(((modifiers & (4u32 | 2u32)) != 0) == ((modifiers & 2u32) != 0 || (modifiers & 4u32) != 0))
        by (bit_vector);
}

/// Ctrl (or Meta) with A selects the whole block that holds the selection's focus,
/// from its start to the end of its text, whatever else was selected.
pub proof fn law_select_all_takes_the_whole_block(
    m: InteractionModel,
    sel: Selection,
    modifiers: u32,
    t: Seq<char>,
)
    requires
        m.selection == Some(sel),
        modifiers & crate::selection::MOD_CTRL != 0 || modifiers & crate::selection::MOD_META != 0,
        fits(t),
    ensures
        key_down_spec(m, seq!['a'], modifiers, Some(t)).selection == Some(
            Selection {
                anchor: SelectionPoint { element: sel.focus.element, offset: 0 },
                focus: SelectionPoint { element: sel.focus.element, offset: byte_len(t) as usize },
            },
        ),
        key_down_spec(m, seq!['A'], modifiers, Some(t)).selection == Some(
            Selection {
                anchor: SelectionPoint { element: sel.focus.element, offset: 0 },
                focus: SelectionPoint { element: sel.focus.element, offset: byte_len(t) as usize },
            },
        ),
{
    assert(((modifiers & (2u32 | 8u32)) != 0) == ((modifiers & 2u32) != 0 || (modifiers & 8u32) != 0))
        by (bit_vector);
}

/// Typed text: inserted at the caret of `target`'s editing model (replacing a selection)
/// when the result, with the preedit, still fits a `usize`; then `TextInput` reports
/// the input's whole displayed value. An element without an editing model reads as
/// empty here.
pub open spec fn text_input_spec(m: InteractionModel, target: ElementId, text: Seq<char>) -> InteractionModel {
    match field_index(m.fields, target) {
        Some(i) => match m.fields[i].edit {
            Some(e) => {
                let e2 = if byte_len(commit_preedit_spec(e).text) + byte_len(text) <= usize::MAX {
                    insert_spec(e, text)
                } else {
                    e
                };
                emit_spec(
                    with_edit(m, i, e2),
                    EventModel::TextInput { target_id: target, text: display_text_spec(e2) },
                )
            },
            None => emit_spec(m, EventModel::TextInput { target_id: target, text: Seq::empty() }),
        },
        None => emit_spec(m, EventModel::TextInput { target_id: target, text: Seq::empty() }),
    }
}

/// The state with `target`'s preedit set to `text` (no clauses), where it has an editing
/// model and committing would still fit a `usize`.
pub open spec fn preedit_step_spec(m: InteractionModel, target: ElementId, text: Seq<char>) -> InteractionModel {
    match field_index(m.fields, target) {
        Some(i) => match m.fields[i].edit {
            Some(e) => if byte_len(e.text) + byte_len(text) <= usize::MAX {
                with_edit(m, i, set_preedit_with_clauses_spec(e, text, Seq::empty()))
            } else {
                m
            },
            None => m,
        },
        None => m,
    }
}

/// Ending a composition commits `text` in place of the preedit (when the result fits a
/// `usize`), emits `CompositionEnd`, and then, as DOM does after `compositionend`,
/// `TextInput` with the whole committed value.
pub open spec fn composition_end_spec(m: InteractionModel, target: ElementId, text: Seq<char>) -> InteractionModel {
    let end = EventModel::CompositionEnd { target_id: target, text };
    match field_index(m.fields, target) {
        Some(i) => match m.fields[i].edit {
            Some(e) => if byte_len(e.text) + byte_len(text) <= usize::MAX {
                let e2 = finish_composition_spec(e, text);
                emit_spec(
                    emit_spec(with_edit(m, i, e2), end),
                    EventModel::TextInput { target_id: target, text: e2.text },
                )
            } else {
                emit_spec(m, end)
            },
            None => emit_spec(m, end),
        },
        None => emit_spec(m, end),
    }
}

impl InteractionState {
    /// A key press: see [`key_down_spec`]. `focus_block_text` is the text of the block
    /// that holds the focus of the document selection; a Copy gesture writes the
    /// active selection's text (see [`InteractionState::active_selection_text`]) to
    /// `clipboard`.
    pub fn on_key_down<C: Clipboard>(
        &mut self,
        key: &str,
        modifiers: u32,
        focus_block_text: Option<&str>,
        clipboard: Option<&C>,
        document_text: Option<&str>,
    )
        requires
            fields_wf(old(self)@),
        ensures
            final(self)@ == key_down_spec(
                old(self)@,
                key@,
                modifiers,
                match focus_block_text {
                    Some(t) => Some(t@),
                    None => None,
                },
            ),
            final(self)@.fields == old(self)@.fields,
    {
        self.last_input_modality = InputModality::Keyboard;
        if self.handle_selection_key(key, modifiers, focus_block_text, clipboard, document_text) {
            return;
        }
        match self.focused_element {
            Some(id) => {
                let k = key.to_string();
                self.emit(InteractionEvent::KeyDown { target_id: id, key: k, modifiers });
            },
            None => {},
        }
    }

    fn handle_selection_key<C: Clipboard>(
        &mut self,
        key: &str,
        modifiers: u32,
        text: Option<&str>,
        clipboard: Option<&C>,
        document_text: Option<&str>,
    ) -> (r: bool)
        requires
            fields_wf(old(self)@),
        ensures
            ({
                let t = match text {
                    Some(t) => Some(t@),
                    None => None,
                };
                match selection_key_spec(old(self)@, key@, modifiers, t) {
                    Some(m2) => r && final(self)@ == m2,
                    None => !r && final(self)@ == old(self)@,
                }
            }),
    {
        let sel = match self.selection {
            Some(sel) => sel,
            None => return false,
        };
        let primary = modifiers & crate::selection::MOD_PRIMARY != 0;
        let el = sel.focus.element;
        let is_a = crate::byte_text::str_eq(key, "a") || crate::byte_text::str_eq(key, "A");
        let is_c = crate::byte_text::str_eq(key, "c") || crate::byte_text::str_eq(key, "C");
        proof {
            reveal_strlit("a");
            reveal_strlit("A");
            reveal_strlit("c");
            reveal_strlit("C");
            assert("a"@ =~= seq!['a']);
            assert("A"@ =~= seq!['A']);
            assert("c"@ =~= seq!['c']);
            assert("C"@ =~= seq!['C']);
        }
        assert(is_a == is_letter_key(key@, 'a', 'A'));
        assert(is_c == is_letter_key(key@, 'c', 'C'));
        let len = match text {
            Some(t) => crate::byte_text::checked_byte_len(t),
            None => None,
        };
        if primary && is_a {
            return match len {
                Some(n) => {
                    self.set_document_selection(Selection {
                        anchor: SelectionPoint::new(el, 0),
                        focus: SelectionPoint::new(el, n),
                    });
                    true
                },
                None => false,
            };
        }
        if primary && is_c {
            self.copy_active_selection(clipboard, document_text);
            return true;
        }
        if modifiers & crate::selection::MOD_SHIFT == 0 {
            return false;
        }
        let t = match (text, len) {
            (Some(t), Some(_)) => t,
            _ => return false,
        };
        let by_word = modifiers & (crate::selection::MOD_ALT | crate::selection::MOD_CTRL) != 0;
        match crate::selection::arrow_step(t, key, sel.focus.offset, by_word) {
            Some(next) => {
                self.set_document_selection(Selection {
                    anchor: sel.anchor,
                    focus: SelectionPoint::new(el, next),
                });
                true
            },
            None => false,
        }
    }

    /// Typed text: see [`text_input_spec`].
    pub fn on_text_input(&mut self, target: ElementId, text: &str)
        requires
            fields_wf(old(self)@),
        ensures
            final(self)@ == text_input_spec(old(self)@, target, text@),
            fields_wf(final(self)@),
    {
        let i = match self.find_field(target) {
            Some(i) => i,
            None => {
                self.emit(InteractionEvent::TextInput { target_id: target, text: String::new() });
                return;
            },
        };
        let ghost m0 = self@;
        assert(m0.fields[i as int] == self.fields@[i as int]@);
        proof {
            assert(fields_wf(m0) ==> (m0.fields[i as int].edit matches Some(x) ==> edit_ready(x)));
            if let Some(e) = m0.fields[i as int].edit {
                lemma_wf_boundaries(e);
            }
        }
        let room = match &self.fields[i].edit {
            Some(e) => match crate::byte_text::checked_byte_len(text) {
                Some(n) => n <= usize::MAX - committed_len(e),
                None => false,
            },
            None => {
                self.emit(InteractionEvent::TextInput { target_id: target, text: String::new() });
                return;
            },
        };
        proof {
            if let Some(e) = m0.fields[i as int].edit {
                lemma_ready_paste(e);
            }
        }
        let f = &mut self.fields[i];
        match &mut f.edit {
            Some(e) => if room {
                e.insert(text);
            },
            None => {},
        }
        let ghost e = m0.fields[i as int].edit->0;
        let ghost e2 = if room {
            insert_spec(e, text@)
        } else {
            e
        };
        proof {
            assert(self@.fields =~= m0.fields.update(
                i as int,
                FieldModel { edit: Some(e2), ..m0.fields[i as int] },
            ));
            if room {
                crate::edit_state::law_edits_keep_the_model_well_formed(e, text@, 0, 0);
                crate::edit_state::lemma_insert_len(e, text@);
                lemma_wf_boundaries(e2);
            }
            lemma_with_edit_wf(m0, i as int, e2);
        }
        let value = match &self.fields[i].edit {
            Some(e) => e.display_text(),
            None => String::new(),
        };
        assert(self@.fields[i as int] == self.fields@[i as int]@);
        self.emit(InteractionEvent::TextInput { target_id: target, text: value });
    }

    /// A composition starts with preedit `text`: see [`preedit_step_spec`]; emits
    /// `CompositionStart`.
    pub fn on_composition_start(&mut self, target: ElementId, text: &str)
        requires
            fields_wf(old(self)@),
        ensures
            fields_wf(final(self)@),
            final(self)@ == emit_spec(
                preedit_step_spec(old(self)@, target, text@),
                EventModel::CompositionStart { target_id: target, text: text@ },
            ),
    {
        self.set_preedit_of(target, text);
        let t = text.to_string();
        self.emit(InteractionEvent::CompositionStart { target_id: target, text: t });
    }

    /// The preedit changes to `text`: see [`preedit_step_spec`]; emits
    /// `CompositionUpdate`.
    pub fn on_composition_update(&mut self, target: ElementId, text: &str)
        requires
            fields_wf(old(self)@),
        ensures
            fields_wf(final(self)@),
            final(self)@ == emit_spec(
                preedit_step_spec(old(self)@, target, text@),
                EventModel::CompositionUpdate { target_id: target, text: text@ },
            ),
    {
        self.set_preedit_of(target, text);
        let t = text.to_string();
        self.emit(InteractionEvent::CompositionUpdate { target_id: target, text: t });
    }

    fn set_preedit_of(&mut self, target: ElementId, text: &str)
        requires
            fields_wf(old(self)@),
        ensures
            final(self)@ == preedit_step_spec(old(self)@, target, text@),
            fields_wf(final(self)@),
    {
        let i = match self.find_field(target) {
            Some(i) => i,
            None => return,
        };
        let ghost m0 = self@;
        assert(m0.fields[i as int] == self.fields@[i as int]@);
        proof {
            assert(fields_wf(m0) ==> (m0.fields[i as int].edit matches Some(x) ==> edit_ready(x)));
        }
        let room = match &self.fields[i].edit {
            Some(e) => match crate::byte_text::checked_byte_len(text) {
                Some(n) => n <= usize::MAX - committed_text_len(e),
                None => false,
            },
            None => false,
        };
        if !room {
            return;
        }
        let f = &mut self.fields[i];
        match &mut f.edit {
            Some(e) => e.set_preedit(text),
            None => {},
        }
        proof {
            let e = m0.fields[i as int].edit->0;
            let e2 = set_preedit_with_clauses_spec(e, text@, Seq::empty());
            assert(self@.fields =~= m0.fields.update(
                i as int,
                FieldModel { edit: Some(e2), ..m0.fields[i as int] },
            ));
            crate::edit_state::law_edits_keep_the_model_well_formed(e, text@, 0, 0);
            lemma_with_edit_wf(m0, i as int, e2);
        }
    }

    /// A composition ends committing `text`: see [`composition_end_spec`].
    pub fn on_composition_end(&mut self, target: ElementId, text: &str)
        requires
            fields_wf(old(self)@),
        ensures
            final(self)@ == composition_end_spec(old(self)@, target, text@),
            fields_wf(final(self)@),
    {
        let t = text.to_string();
        let end = InteractionEvent::CompositionEnd { target_id: target, text: t };
        let i = match self.find_field(target) {
            Some(i) => i,
            None => {
                self.emit(end);
                return;
            },
        };
        let ghost m0 = self@;
        assert(m0.fields[i as int] == self.fields@[i as int]@);
        proof {
            assert(fields_wf(m0) ==> (m0.fields[i as int].edit matches Some(x) ==> edit_ready(x)));
            if let Some(e) = m0.fields[i as int].edit {
                lemma_wf_boundaries(e);
            }
        }
        let room = match &self.fields[i].edit {
            Some(e) => match crate::byte_text::checked_byte_len(text) {
                Some(n) => n <= usize::MAX - committed_text_len(e),
                None => false,
            },
            None => false,
        };
        if !room {
            self.emit(end);
            return;
        }
        let f = &mut self.fields[i];
        match &mut f.edit {
            Some(e) => e.finish_composition(text),
            None => {},
        }
        proof {
            let e = m0.fields[i as int].edit->0;
            assert(self@.fields =~= m0.fields.update(
                i as int,
                FieldModel { edit: Some(finish_composition_spec(e, text@)), ..m0.fields[i as int] },
            ));
            crate::edit_state::law_edits_keep_the_model_well_formed(e, text@, 0, 0);
            lemma_with_edit_wf(m0, i as int, finish_composition_spec(e, text@));
        }
        self.emit(end);
        let value = match &self.fields[i].edit {
            Some(e) => e.text_content.clone(),
            None => String::new(),
        };
        assert(self@.fields[i as int] == self.fields@[i as int]@);
        self.emit(InteractionEvent::TextInput { target_id: target, text: value });
    }
}

/// The byte length of `e`'s committed text.
fn committed_text_len(e: &EditState) -> (r: usize)
    requires
        fits(e@.text),
    ensures
        r == byte_len(e@.text),
{
    match crate::byte_text::checked_byte_len(e.text_content.as_str()) {
        Some(n) => n,
        None => 0,
    }
}

proof fn lemma_with_edit_keeps_index(m: InteractionModel, i: int, e: EditModel, id: ElementId)
    requires
        0 <= i < m.fields.len(),
    ensures
        field_index(with_edit(m, i, e).fields, id) == field_index(m.fields, id),
{
    lemma_update_keeps_index(m.fields, i, FieldModel { edit: Some(e), ..m.fields[i] }, id);
}

proof fn lemma_update_keeps_index(s0: Seq<FieldModel>, i: int, f: FieldModel, id: ElementId)
    requires
        0 <= i < s0.len(),
        f.id == s0[i].id,
    ensures
        field_index(s0.update(i, f), id) == field_index(s0, id),
{
    let s1 = s0.update(i, f);
    assert forall|k: int| #![auto] 0 <= k < s1.len() implies s1[k].id == s0[k].id by {}
    if exists|k: int| is_first_field(s0, id, k) {
        let k = choose|k: int| is_first_field(s0, id, k);
        assert(is_first_field(s1, id, k));
        lemma_first_field_unique(s0, id, k);
        lemma_first_field_unique(s1, id, k);
    } else if exists|k: int| is_first_field(s1, id, k) {
        let k = choose|k: int| is_first_field(s1, id, k);
        assert(is_first_field(s0, id, k));
    }
}

/// Focusing is idempotent: afterwards `id` holds the focus, and focusing it again
/// changes nothing and emits nothing.
pub proof fn law_focus_is_idempotent(m: InteractionModel, id: ElementId)
    ensures
        focus_spec(m, id).focused == Some(id),
        focus_spec(focus_spec(m, id), id) == focus_spec(m, id),
{
}

/// Blurring an element that does not hold the focus changes nothing and emits nothing.
pub proof fn law_blur_without_focus_is_a_no_op(m: InteractionModel, id: ElementId)
    requires
        m.focused != Some(id),
    ensures
        blur_spec(m, id) == m,
{
}

/// One active selection in the document: every consumed edit intent, whatever the
/// clipboard gave back, leaves no read-only document selection.
pub proof fn law_consumed_edits_clear_the_document_selection(
    m: InteractionModel,
    target: ElementId,
    intent: EditIntent,
    pasted: Seq<char>,
)
    requires
        can_apply_spec(m, target, intent),
    ensures
        !is_clipboard(intent) ==> edit_step_spec(m, target, intent).selection is None,
        clear_selection_spec(m).selection is None,
        clear_selection_spec(cut_spec(m)).selection is None,
        clear_selection_spec(paste_spec(m, target, pasted)).selection is None,
{
}

/// The caret follows the focus: focusing `id` shows its caret, and blurring the focused
/// `id` hides it.
pub proof fn law_focus_shows_and_blur_hides_the_caret(m: InteractionModel, id: ElementId)
    requires
        field_index(m.fields, id) is Some,
    ensures
        m.focused != Some(id) ==> (focus_spec(m, id).fields[field_index(m.fields, id)->0].cursor_visible),
        m.focused == Some(id) ==> !blur_spec(m, id).fields[field_index(m.fields, id)->0].cursor_visible,
{
    let i = field_index(m.fields, id)->0;
    if m.focused == Some(id) {
        let mh = InteractionModel { focused: None, ..m };
        let m0 = with_cursor(mh, id, false);
        lemma_update_keeps_index(mh.fields, i, FieldModel { cursor_visible: false, ..mh.fields[i] }, id);
        let m1 = commit_on_blur_spec(m0, id);
        if m1 != m0 {
            let f = m0.fields[i];
            lemma_with_edit_keeps_index(m0, i, commit_preedit_spec(f.edit->0), id);
        }
        assert(field_index(m1.fields, id) == Some(i));
        assert(!m1.fields[i].cursor_visible);
        let m2 = collapse_on_blur_spec(m1, id);
        if m2 != m1 {
            let e = m1.fields[i].edit->0;
            lemma_with_edit_keeps_index(m1, i, EditModel { anchor: e.cursor, ..e }, id);
        }
        assert(!m2.fields[i].cursor_visible);
    } else {
        let m1 = match m.focused {
            Some(previous) => blur_spec(m, previous),
            None => m,
        };
        if let Some(previous) = m.focused {
            lemma_blur_keeps_ids(m, previous);
        }
        lemma_same_ids_same_index(m.fields, m1.fields, id);
        let mf = InteractionModel { focused: Some(id), ..m1 };
        lemma_update_keeps_index(mf.fields, i, FieldModel { cursor_visible: true, ..mf.fields[i] }, id);
    }
}

proof fn lemma_same_ids_same_index(s0: Seq<FieldModel>, s1: Seq<FieldModel>, id: ElementId)
    requires
        s0.len() == s1.len(),
        forall|k: int| 0 <= k < s0.len() ==> (#[trigger] s0[k]).id == s1[k].id,
    ensures
        field_index(s1, id) == field_index(s0, id),
{
    if exists|k: int| is_first_field(s0, id, k) {
        let k = choose|k: int| is_first_field(s0, id, k);
        assert forall|j: int| 0 <= j < k implies s1[j].id != id by {
            assert(s0[j].id != id);
        }
        assert(is_first_field(s1, id, k));
        lemma_first_field_unique(s0, id, k);
        lemma_first_field_unique(s1, id, k);
    } else if exists|k: int| is_first_field(s1, id, k) {
        let k = choose|k: int| is_first_field(s1, id, k);
        assert forall|j: int| 0 <= j < k implies s0[j].id != id by {
            assert(s1[j].id != id);
        }
        assert(s0[k].id == id);
        assert(is_first_field(s0, id, k));
    }
}

proof fn lemma_update_ids(s0: Seq<FieldModel>, i: int, f: FieldModel)
    requires
        0 <= i < s0.len(),
        f.id == s0[i].id,
    ensures
        s0.update(i, f).len() == s0.len(),
        forall|k: int| 0 <= k < s0.len() ==> (#[trigger] s0[k]).id == s0.update(i, f)[k].id,
{
}

/// Blurring changes no entry's id.
proof fn lemma_blur_keeps_ids(m: InteractionModel, id: ElementId)
    ensures
        blur_spec(m, id).fields.len() == m.fields.len(),
        forall|k: int| 0 <= k < m.fields.len() ==> (#[trigger] m.fields[k]).id == blur_spec(m, id).fields[k].id,
{
    if m.focused == Some(id) {
        let mh = InteractionModel { focused: None, ..m };
        let m0 = with_cursor(mh, id, false);
        if let Some(i) = field_index(mh.fields, id) {
            lemma_update_ids(mh.fields, i, FieldModel { cursor_visible: false, ..mh.fields[i] });
        }
        let m1 = commit_on_blur_spec(m0, id);
        if let Some(i) = field_index(m0.fields, id) {
            let f = m0.fields[i];
            lemma_update_ids(m0.fields, i, FieldModel { edit: Some(commit_preedit_spec(f.edit->0)), ..f });
        }
        let m2 = collapse_on_blur_spec(m1, id);
        if let Some(i) = field_index(m1.fields, id) {
            let f = m1.fields[i];
            let e = f.edit->0;
            lemma_update_ids(m1.fields, i, FieldModel { edit: Some(EditModel { anchor: e.cursor, ..e }), ..f });
        }
        assert(m2.fields.len() == m.fields.len());
        assert forall|k: int| 0 <= k < m.fields.len() implies (#[trigger] m.fields[k]).id == m2.fields[k].id by {
            assert(m.fields[k].id == m0.fields[k].id);
            assert(m0.fields[k].id == m1.fields[k].id);
            assert(m1.fields[k].id == m2.fields[k].id);
        }
    }
}

/// Blurring a composing text input commits its preedit: the input keeps the text it
/// displayed, with no preedit left, and the host hears `TextInput` with that value and
/// then `Blur`.
pub proof fn law_blur_commits_the_preedit(m: InteractionModel, id: ElementId)
    requires
        fields_wf(m),
        m.focused == Some(id),
        field_index(m.fields, id) matches Some(i) && m.fields[i].kind == ElementKind::TextInput,
        edit_at(m, id) matches Some(e) && e.preedit is Some,
    ensures
        edit_at(blur_spec(m, id), id) matches Some(e2) && e2.preedit is None && e2.text
            == display_text_spec(edit_at(m, id)->0),
        blur_spec(m, id).events == m.events + seq![
            EventModel::TextInput { target_id: id, text: display_text_spec(edit_at(m, id)->0) },
            EventModel::Blur { target_id: id },
        ],
        blur_spec(m, id).focused is None,
{
    let i = field_index(m.fields, id)->0;
    let e = m.fields[i].edit->0;
    assert(m.fields[i].edit matches Some(x) ==> edit_ready(x));
    crate::edit_state::law_commit_keeps_the_displayed_text(e);
    let mh = InteractionModel { focused: None, ..m };
    let m0 = with_cursor(mh, id, false);
    lemma_update_keeps_index(mh.fields, i, FieldModel { cursor_visible: false, ..mh.fields[i] }, id);
    assert(field_index(m0.fields, id) == Some(i));
    assert(m0.fields[i].edit == Some(e));
    let e2 = commit_preedit_spec(e);
    let m1 = commit_on_blur_spec(m0, id);
    assert(m1 == emit_spec(with_edit(m0, i, e2), EventModel::TextInput { target_id: id, text: e2.text }));
    lemma_with_edit_keeps_index(m0, i, e2, id);
    assert(field_index(m1.fields, id) == Some(i));
    assert(m1.fields[i].edit == Some(e2));
    let m2 = collapse_on_blur_spec(m1, id);
    lemma_with_edit_keeps_index(m1, i, EditModel { anchor: e2.cursor, ..e2 }, id);
    assert(field_index(m2.fields, id) == Some(i));
    assert(blur_spec(m, id).events =~= m.events + seq![
        EventModel::TextInput { target_id: id, text: display_text_spec(e) },
        EventModel::Blur { target_id: id },
    ]);
}

impl InteractionState {
    /// The interaction state over `fields` before any input: nothing focused, pointer
    /// modality with a mouse (until the first real pointer event reports its device),
    /// no selection and no events.
    pub fn new(fields: Vec<TextField>) -> (r: Self)
        ensures
            r@ == (InteractionModel {
                fields: fields@.map_values(|f: TextField| f@),
                focused: None,
                modality: InputModality::Pointer,
                pointer_kind: PointerKind::Mouse,
                selection: None,
                hovered: Seq::empty(),
                active: None,
                press_pos: None,
                events: Seq::empty(),
            }),
    {
        let r = InteractionState {
            fields,
            focused_element: None,
            last_input_modality: InputModality::Pointer,
            last_pointer_kind: PointerKind::Mouse,
            selection: None,
            hovered: Vec::new(),
            active_element: None,
            active_press_pos: None,
            events: Vec::new(),
        };
        assert(r@.events =~= Seq::<EventModel>::empty());
        r
    }

    /// Hands the emitted events to the host, oldest first, and forgets them.
    pub fn drain_events(&mut self) -> (r: Vec<InteractionEvent>)
        ensures
            r@.map_values(|e: InteractionEvent| e@) == old(self)@.events,
            final(self)@ == (InteractionModel { events: Seq::empty(), ..old(self)@ }),
    {
        let mut r: Vec<InteractionEvent> = Vec::new();
        std::mem::swap(&mut r, &mut self.events);
        assert(self@.events =~= Seq::<EventModel>::empty());
        assert(self@ =~= InteractionModel { events: Seq::empty(), ..old(self)@ });
        r
    }
}

/// The intents that adapters hand the interaction state: focus, a synthesized click,
/// an edit of a text input, a semantic value replacement (accessibility `SetValue`),
/// and the pointer press, release and cancel. Canvas coordinates travel as the bits of
/// their values; a press or release carries the element it resolved to (the adapter
/// hit-tests the layout geometry, or the host names the target).
pub enum InteractionIntent {
    Focus(ElementId),
    Click { target: ElementId, x: u32, y: u32 },
    Edit { target: ElementId, intent: EditIntent },
    SetValue { target: ElementId, value: String },
    PointerDown { target: Option<ElementId>, x: u32, y: u32, pointer_kind: PointerKind },
    PointerUp { target: Option<ElementId>, x: u32, y: u32, pointer_kind: PointerKind },
    /// The pointer was cancelled (touch interrupted, capture lost).
    PointerCancel,
}

/// Replacing the value of a text input: an active preedit is committed as part of the
/// replacement, the content becomes `value` with the caret at its end, and when the
/// displayed value changed `TextInput` reports it. Any other target (and a value too
/// long for a `usize`) is left alone.
pub open spec fn set_value_spec(m: InteractionModel, target: ElementId, value: Seq<char>) -> InteractionModel {
    match field_index(m.fields, target) {
        Some(i) => {
            let f = m.fields[i];
            if f.kind == ElementKind::TextInput && f.edit is Some && fits(value) {
                let e2 = crate::edit_state::set_spec(commit_preedit_spec(f.edit->0), value);
                if display_text_spec(f.edit->0) != value {
                    emit_spec(with_edit(m, i, e2), EventModel::TextInput { target_id: target, text: value })
                } else {
                    with_edit(m, i, e2)
                }
            } else {
                m
            }
        },
        None => m,
    }
}

impl InteractionState {
    /// Replaces the value of `target`: see [`set_value_spec`]. Reports whether it
    /// reported a changed value.
    pub fn set_value(&mut self, target: ElementId, value: &str) -> (r: bool)
        requires
            fields_wf(old(self)@),
        ensures
            final(self)@ == set_value_spec(old(self)@, target, value@),
            r == (final(self)@.events.len() > old(self)@.events.len()),
            fields_wf(final(self)@),
    {
        let i = match self.find_field(target) {
            Some(i) => i,
            None => return false,
        };
        let ghost m0 = self@;
        assert(m0.fields[i as int] == self.fields@[i as int]@);
        let eligible = self.fields[i].kind == ElementKind::TextInput && self.fields[i].edit.is_some();
        let fits_value = match crate::byte_text::checked_byte_len(value) {
            Some(_) => true,
            None => false,
        };
        if !eligible || !fits_value {
            return false;
        }
        proof {
            assert(fields_wf(m0) ==> (m0.fields[i as int].edit matches Some(x) ==> edit_ready(x)));
            lemma_ready_paste(m0.fields[i as int].edit->0);
        }
        let f = &mut self.fields[i];
        let changed = match &mut f.edit {
            Some(e) => e.set_value(value),
            None => false,
        };
        let ghost e2 = crate::edit_state::set_spec(
            commit_preedit_spec(m0.fields[i as int].edit->0),
            value@,
        );
        proof {
            assert(self@.fields =~= m0.fields.update(
                i as int,
                FieldModel { edit: Some(e2), ..m0.fields[i as int] },
            ));
            crate::edit_state::law_edits_keep_the_model_well_formed(
                commit_preedit_spec(m0.fields[i as int].edit->0),
                value@,
                0,
                0,
            );
            lemma_with_edit_wf(m0, i as int, e2);
        }
        if !changed {
            return false;
        }
        let v = value.to_string();
        self.emit(InteractionEvent::TextInput { target_id: target, text: v });
        assert(self@.events.len() == m0.events.len() + 1);
        true
    }

    /// Applies one intent: a focus move, a click, a value replacement (which acts on text
    /// inputs only) and the pointer intents are always consumed; an edit is consumed
    /// when eligible (see [`InteractionState::apply_edit_intent`]). A press or release
    /// records its pointer device first.
    pub fn apply_intent<C: Clipboard>(
        &mut self,
        intent: InteractionIntent,
        clipboard: Option<&C>,
        document_text: Option<&str>,
    ) -> (r: InteractionResult)
        requires
            fields_wf(old(self)@),
            intent matches InteractionIntent::Edit { target, intent: e } ==> (e
                == EditIntent::InsertLineBreak ==> line_break_fits(old(self)@, target)),
        ensures
            fields_wf(final(self)@),
            match intent {
                InteractionIntent::Focus(id) => r == InteractionResult::Consumed && final(self)@
                    == focus_spec(old(self)@, id),
                InteractionIntent::Edit { target, intent: e } => r == (if can_apply_spec(
                    old(self)@,
                    target,
                    e,
                ) {
                    InteractionResult::Consumed
                } else {
                    InteractionResult::Ignored
                }) && edit_intent_post(old(self)@, final(self)@, target, e),
                InteractionIntent::SetValue { target, value } => r == InteractionResult::Consumed
                    && final(self)@ == set_value_spec(old(self)@, target, value@),
                InteractionIntent::Click { target, x, y } => r == InteractionResult::Consumed
                    && final(self)@ == emit_spec(
                    old(self)@,
                    EventModel::Click { target_id: target, x, y },
                ),
                InteractionIntent::PointerDown { target, x, y, pointer_kind } => r
                    == InteractionResult::Consumed && final(self)@ == pointer_down_spec(
                    InteractionModel { pointer_kind, ..old(self)@ },
                    target,
                    x,
                    y,
                ),
                InteractionIntent::PointerUp { target, x, y, pointer_kind } => r
                    == InteractionResult::Consumed && final(self)@ == pointer_up_spec(
                    InteractionModel { pointer_kind, ..old(self)@ },
                    target,
                    x,
                    y,
                ),
                InteractionIntent::PointerCancel => r == InteractionResult::Consumed && final(self)@
                    == pointer_cancel_spec(old(self)@),
            },
    {
        match intent {
            InteractionIntent::Focus(id) => {
                self.on_focus(id);
                InteractionResult::Consumed
            },
            InteractionIntent::Edit { target, intent } => {
                if self.apply_edit_intent(target, intent, clipboard, document_text) {
                    InteractionResult::Consumed
                } else {
                    InteractionResult::Ignored
                }
            },
            InteractionIntent::SetValue { target, value } => {
                self.set_value(target, value.as_str());
                InteractionResult::Consumed
            },
            InteractionIntent::Click { target, x, y } => {
                self.emit(InteractionEvent::Click { target_id: target, x, y });
                InteractionResult::Consumed
            },
            InteractionIntent::PointerDown { target, x, y, pointer_kind } => {
                self.last_pointer_kind = pointer_kind;
                self.pointer_down_on_target(target, x, y);
                InteractionResult::Consumed
            },
            InteractionIntent::PointerUp { target, x, y, pointer_kind } => {
                self.last_pointer_kind = pointer_kind;
                self.pointer_up(target, x, y);
                InteractionResult::Consumed
            },
            InteractionIntent::PointerCancel => {
                self.on_pointer_cancel();
                InteractionResult::Consumed
            },
        }
    }
}

/// What an inbound accessibility action does to the state: focus moves through the
/// focus state machine, `SetValue` replaces a text input's value; a click and a scroll
/// into view act on the layout geometry and leave this state as it is, as does an
/// unsupported action.
pub open spec fn accessibility_step_spec(m: InteractionModel, a: AccessibilityAction) -> InteractionModel {
    match a {
        AccessibilityAction::Focus { target } => focus_spec(m, target),
        AccessibilityAction::SetValue { target, value } => set_value_spec(m, target, value@),
        _ => m,
    }
}

impl InteractionState {
    /// Applies an inbound accessibility request (see [`accessibility_step_spec`]) and
    /// returns the action it maps to, for the adapter to perform the geometric ones (a
    /// click at the target's layout centre, a scroll into view).
    pub fn on_accessibility_action(&mut self, req: &ActionRequest) -> (r: AccessibilityAction)
        requires
            fields_wf(old(self)@),
        ensures
            is_mapping_of(*req, r),
            final(self)@ == accessibility_step_spec(old(self)@, r),
            fields_wf(final(self)@),
    {
        let action = map_action_request(req);
        match &action {
            AccessibilityAction::Focus { target } => self.on_focus(*target),
            AccessibilityAction::SetValue { target, value } => {
                self.set_value(*target, value.as_str());
            },
            _ => {},
        }
        action
    }
}

/// `a` comes after `b` in lexicographic order (as `Vec`'s `Ord` compares them).
pub open spec fn lex_after(a: Seq<usize>, b: Seq<usize>) -> bool
    decreases a.len(),
{
    if a.len() == 0 {
        false
    } else if b.len() == 0 {
        true
    } else if a[0] != b[0] {
        a[0] > b[0]
    } else {
        lex_after(a.drop_first(), b.drop_first())
    }
}

/// The ends of `sel` in document order. Within one element the byte offsets order them;
/// across elements the root paths do (the child indices from the root, compared
/// lexicographically: an ancestor precedes its descendants, an earlier sibling a later
/// one).
pub open spec fn ordered_spec(sel: Selection, anchor_path: Seq<usize>, focus_path: Seq<usize>) -> (SelectionPoint, SelectionPoint) {
    if sel.anchor.element == sel.focus.element {
        let lo = if sel.anchor.offset <= sel.focus.offset {
            sel.anchor.offset
        } else {
            sel.focus.offset
        };
        let hi = if sel.anchor.offset <= sel.focus.offset {
            sel.focus.offset
        } else {
            sel.anchor.offset
        };
        (
            SelectionPoint { element: sel.anchor.element, offset: lo },
            SelectionPoint { element: sel.anchor.element, offset: hi },
        )
    } else if lex_after(anchor_path, focus_path) {
        (sel.focus, sel.anchor)
    } else {
        (sel.anchor, sel.focus)
    }
}

/// Whether `a` comes after `b` in lexicographic order.
pub(crate) fn paths_after(a: &[usize], b: &[usize]) -> (r: bool)
    ensures
        r == lex_after(a@, b@),
{
    let mut i: usize = 0;
    assert(a@.skip(0) =~= a@);
    assert(b@.skip(0) =~= b@);
    while i < a.len() && i < b.len() && a[i] == b[i]
        invariant
            i <= a@.len(),
            i <= b@.len(),
            lex_after(a@, b@) == lex_after(a@.skip(i as int), b@.skip(i as int)),
        decreases a@.len() - i,
    {
        assert(a@.skip(i as int).drop_first() =~= a@.skip(i + 1));
        assert(b@.skip(i as int).drop_first() =~= b@.skip(i + 1));
        i = i + 1;
    }
    if i == a.len() {
        false
    } else if i == b.len() {
        true
    } else {
        a[i] > b[i]
    }
}

/// What the element tree knows of one end of a requested selection: whether
/// `user-select: none` excludes it, and its nearest selection-region root.
#[derive(Clone, Copy, Debug, PartialEq, Eq, Structural)]
pub struct SelectionFacts {
    pub excluded: bool,
    pub region: Option<ElementId>,
}

/// Setting the document selection: a no-op when it already is `next`; otherwise it
/// changes and the host is told once.
pub open spec fn set_document_selection_spec(m: InteractionModel, next: Option<Selection>) -> InteractionModel {
    if m.selection == next {
        m
    } else {
        emit_spec(InteractionModel { selection: next, ..m }, EventModel::SelectionChange)
    }
}

/// A programmatic range is applied when neither end is excluded from selection and both
/// share one selection region (ends outside every region share the unbounded document
/// region), so that it never crosses a region boundary.
pub open spec fn range_allowed(a: SelectionFacts, f: SelectionFacts) -> bool {
    !a.excluded && !f.excluded && a.region == f.region
}

impl InteractionState {
    /// The ends of the document selection in document order (see [`ordered_spec`]),
    /// given the root paths of the anchor's and the focus's elements; `None` without a
    /// selection.
    pub fn selection_ordered(&self, anchor_path: &[usize], focus_path: &[usize]) -> (r: Option<
        (SelectionPoint, SelectionPoint),
    >)
        ensures
            match self.selection {
                Some(sel) => r == Some(ordered_spec(sel, anchor_path@, focus_path@)),
                None => r is None,
            },
    {
        let sel = match self.selection {
            Some(sel) => sel,
            None => return None,
        };
        if sel.anchor.element == sel.focus.element {
            let a = sel.anchor.offset;
            let f = sel.focus.offset;
            let lo = if a <= f {
                a
            } else {
                f
            };
            let hi = if a <= f {
                f
            } else {
                a
            };
            let el = sel.anchor.element;
            return Some((SelectionPoint::new(el, lo), SelectionPoint::new(el, hi)));
        }
        if paths_after(anchor_path, focus_path) {
            Some((sel.focus, sel.anchor))
        } else {
            Some((sel.anchor, sel.focus))
        }
    }

    /// Sets the document selection to `anchor`..`focus` when the range is allowed (see
    /// [`range_allowed`]), through the shared selection path (one `SelectionChange`
    /// when it changes). Reports whether it applied the range.
    pub fn set_selection_range(
        &mut self,
        anchor: SelectionPoint,
        focus: SelectionPoint,
        anchor_facts: SelectionFacts,
        focus_facts: SelectionFacts,
    ) -> (r: bool)
        ensures
            r == range_allowed(anchor_facts, focus_facts),
            r ==> final(self)@ == set_document_selection_spec(
                old(self)@,
                Some(Selection { anchor, focus }),
            ),
            !r ==> final(self)@ == old(self)@,
    {
        if anchor_facts.excluded || focus_facts.excluded {
            return false;
        }
        if anchor_facts.region != focus_facts.region {
            return false;
        }
        let next = Selection { anchor, focus };
        if self.selection == Some(next) {
            return true;
        }
        self.selection = Some(next);
        self.emit(InteractionEvent::SelectionChange);
        true
    }
}

/// A field with its edit selection collapsed to its caret.
pub open spec fn collapse_field(f: FieldModel) -> FieldModel {
    FieldModel {
        edit: match f.edit {
            Some(e) => Some(EditModel { anchor: e.cursor, ..e }),
            None => None,
        },
        ..f
    }
}

/// Every edit selection collapsed to its caret.
pub open spec fn collapse_all_spec(m: InteractionModel) -> InteractionModel {
    InteractionModel { fields: m.fields.map_values(|f: FieldModel| collapse_field(f)), ..m }
}

/// The selection a word or line press makes around `point`, from the text of the
/// point's block (a caret at the point when the block has no text here).
pub open spec fn bounds_selection(point: SelectionPoint, text: Option<Seq<char>>, line: bool) -> Selection {
    match text {
        Some(t) if fits(t) => {
            let b = if line {
                line_bounds_spec(t, point.offset as int)
            } else {
                word_bounds_spec(t, point.offset as int)
            };
            Selection {
                anchor: SelectionPoint { element: point.element, offset: b.0 as usize },
                focus: SelectionPoint { element: point.element, offset: b.1 as usize },
            }
        },
        _ => Selection { anchor: point, focus: point },
    }
}

/// A press on selectable text (`point`, from the geometry) with the tap `phase` it
/// makes: edit selections collapse (one active selection in the document); then a
/// Shift+press whose point lies in the anchor's block moves the focus there, and
/// otherwise the phase drops a caret or selects the word or the line at the point.
pub open spec fn press_selection_spec(
    m: InteractionModel,
    point: SelectionPoint,
    extends: bool,
    phase: TapPhase,
    text: Option<Seq<char>>,
) -> InteractionModel {
    let m1 = collapse_all_spec(m);
    if extends {
        set_document_selection_spec(
            m1,
            Some(Selection { anchor: m1.selection->0.anchor, focus: point }),
        )
    } else {
        match phase {
            TapPhase::Caret => set_document_selection_spec(
                m1,
                Some(Selection { anchor: point, focus: point }),
            ),
            TapPhase::Word => set_document_selection_spec(
                m1,
                Some(bounds_selection(point, text, false)),
            ),
            TapPhase::Paragraph => set_document_selection_spec(
                m1,
                Some(bounds_selection(point, text, true)),
            ),
        }
    }
}

/// A Shift+press extends the current selection when its anchor lies in the pressed
/// block.
pub open spec fn press_extends(m: InteractionModel, point: SelectionPoint, shift: bool) -> bool {
    shift && (m.selection matches Some(sel) && sel.anchor.element == point.element)
}

impl InteractionState {
    /// Collapses every edit selection to its caret, as a read-only selection starts
    /// (one active selection in the document).
    pub fn collapse_edit_selections(&mut self)
        requires
            fields_wf(old(self)@),
        ensures
            final(self)@ == collapse_all_spec(old(self)@),
            fields_wf(final(self)@),
    {
        let ghost m0 = self@;
        let mut i: usize = 0;
        while i < self.fields.len()
            invariant
                i <= self.fields.len(),
                self.fields.len() == m0.fields.len(),
                fields_wf(m0),
                forall|k: int| 0 <= k < i ==> #[trigger] self@.fields[k] == collapse_field(m0.fields[k]),
                forall|k: int| i <= k < self.fields.len() ==> #[trigger] self@.fields[k] == m0.fields[k],
                self@.focused == m0.focused,
                self@.modality == m0.modality,
                self@.pointer_kind == m0.pointer_kind,
                self@.selection == m0.selection,
                self@.hovered == m0.hovered,
                self@.active == m0.active,
                self@.press_pos == m0.press_pos,
                self@.events == m0.events,
            decreases self.fields.len() - i,
        {
            let ghost before = self@;
            assert(before.fields[i as int] == self.fields@[i as int]@);
            let f = &mut self.fields[i];
            match &mut f.edit {
                Some(e) => e.collapse(),
                None => {},
            }
            proof {
                assert(self@.fields =~= before.fields.update(i as int, collapse_field(m0.fields[i as int])));
            }
            i = i + 1;
        }
        assert(self@.fields =~= m0.fields.map_values(|f: FieldModel| collapse_field(f)));
        assert(self@ =~= collapse_all_spec(m0));
        proof {
            let c = collapse_all_spec(m0);
            assert forall|k: int| 0 <= k < c.fields.len() implies ((#[trigger] c.fields[k]).edit matches Some(x) ==> edit_ready(x)) by {
                assert(m0.fields[k].edit matches Some(x) ==> edit_ready(x));
            }
        }
    }

    /// Sets the document selection: see [`set_document_selection_spec`].
    fn set_document_selection(&mut self, next: Selection)
        ensures
            final(self)@ == set_document_selection_spec(old(self)@, Some(next)),
    {
        if self.selection == Some(next) {
            return;
        }
        self.selection = Some(next);
        self.emit(InteractionEvent::SelectionChange);
    }

    /// A press on selectable text. `point` is the selection point under the pointer
    /// (`None` off any selectable text), `near` whether the press lands near the
    /// previous one, and `block_text` the text of the point's block. Off text, the
    /// multi-press run restarts and the selection clears; on text see
    /// [`press_selection_spec`] (the run advances unless a Shift+press extends).
    /// Returns whether a drag is armed to extend the selection: after a caret or an
    /// extension, not after a word or line selection.
    pub fn begin_selection_at(
        &mut self,
        taps: &mut TapCounter,
        point: Option<SelectionPoint>,
        shift: bool,
        near: bool,
        block_text: Option<&str>,
    ) -> (r: bool)
        requires
            fields_wf(old(self)@),
            near ==> old(taps).count < u32::MAX,
        ensures
            fields_wf(final(self)@),
            match point {
                None => final(taps).count == 0 && final(self)@ == clear_selection_spec(old(self)@)
                    && !r,
                Some(p) => {
                    let extends = press_extends(old(self)@, p, shift);
                    let text = match block_text {
                        Some(t) => Some(t@),
                        None => None,
                    };
                    &&& final(taps).count == if extends {
                        1
                    } else if near {
                        old(taps).count + 1
                    } else {
                        1
                    }
                    &&& final(self)@ == press_selection_spec(
                        old(self)@,
                        p,
                        extends,
                        phase_of(final(taps).count as nat),
                        text,
                    )
                    &&& r == (extends || phase_of(final(taps).count as nat) == TapPhase::Caret)
                },
            },
    {
        let p = match point {
            Some(p) => p,
            None => {
                taps.reset_taps();
                self.clear_selection();
                return false;
            },
        };
        self.collapse_edit_selections();
        let extends = shift && match self.selection {
            Some(sel) => sel.anchor.element == p.element,
            None => false,
        };
        if extends {
            let anchor = match self.selection {
                Some(sel) => sel.anchor,
                None => p,
            };
            self.set_document_selection(Selection { anchor, focus: p });
            taps.note_single_tap();
            return true;
        }
        let phase = taps.classify_tap(near);
        match phase {
            TapPhase::Caret => {
                self.set_document_selection(Selection::caret(p));
                true
            },
            TapPhase::Word => {
                let sel = self.bounds_at(p, block_text, false);
                self.set_document_selection(sel);
                false
            },
            TapPhase::Paragraph => {
                let sel = self.bounds_at(p, block_text, true);
                self.set_document_selection(sel);
                false
            },
        }
    }

    fn bounds_at(&self, point: SelectionPoint, text: Option<&str>, line: bool) -> (r: Selection)
        ensures
            r == bounds_selection(
                point,
                match text {
                    Some(t) => Some(t@),
                    None => None,
                },
                line,
            ),
    {
        let t = match text {
            Some(t) => t,
            None => return Selection::caret(point),
        };
        match crate::byte_text::checked_byte_len(t) {
            Some(_) => {},
            None => return Selection::caret(point),
        }
        let (start, end) = if line {
            line_bounds(t, point.offset)
        } else {
            word_bounds(t, point.offset)
        };
        Selection {
            anchor: SelectionPoint::new(point.element, start),
            focus: SelectionPoint::new(point.element, end),
        }
    }
}

/// One active selection in the document: once a read-only selection starts, no text
/// input holds an edit selection.
pub proof fn law_read_only_selection_collapses_edit_selections(m: InteractionModel)
    ensures
        selection_owner(collapse_all_spec(m)) is None,
        collapse_all_spec(m).focused == m.focused,
{
    let c = collapse_all_spec(m);
    assert(c.fields.len() == m.fields.len());
    assert forall|j: int| #![auto] 0 <= j < m.fields.len() implies c.fields[j].id == m.fields[j].id
        && c.fields[j].edit == (match m.fields[j].edit {
        Some(e) => Some(EditModel { anchor: e.cursor, ..e }),
        None => None,
    }) by {}
    if let Some(id) = m.focused {
        if exists|i: int| is_first_field(c.fields, id, i) {
            let i = choose|i: int| is_first_field(c.fields, id, i);
            lemma_first_field_unique(c.fields, id, i);
            assert(c.fields[i].edit matches Some(e) ==> e.anchor == e.cursor);
        }
    }
}

/// The range a block's entry names can be sliced out of its text: its ends are `char`
/// boundaries in order (slicing anything else panics).
pub open spec fn slice_ok(t: Seq<char>, range: Option<(usize, usize)>) -> bool {
    &&& fits(t)
    &&& range matches Some(r) ==> r.0 <= r.1 && is_boundary(t, r.0 as int) && is_boundary(
        t,
        r.1 as int,
    )
}

/// The non-empty slices the selection covers, block by block in document order.
pub open spec fn covered_parts(blocks: Seq<(String, Option<(usize, usize)>)>) -> Seq<Seq<char>>
    decreases blocks.len(),
{
    if blocks.len() == 0 {
        Seq::empty()
    } else {
        let rest = covered_parts(blocks.drop_last());
        let t = blocks.last().0@;
        match blocks.last().1 {
            Some(r) if r.0 != r.1 => rest.push(
                t.subrange(floor_index(t, r.0 as int) as int, floor_index(t, r.1 as int) as int),
            ),
            _ => rest,
        }
    }
}

/// `parts` joined with one line break between neighbours.
pub open spec fn join_lines(parts: Seq<Seq<char>>) -> Seq<char>
    decreases parts.len(),
{
    if parts.len() == 0 {
        Seq::empty()
    } else if parts.len() == 1 {
        parts[0]
    } else {
        join_lines(parts.drop_last()) + seq!['\n'] + parts.last()
    }
}

/// The text under a read-only selection, as a copy takes it: `blocks` are the blocks
/// the selection spans, in document order, each with the byte range the selection
/// covers in it (`None` where it covers nothing, such as a `user-select: none` block).
/// The non-empty slices are joined with one line break per block boundary, the shape a
/// browser copy has; `None` when they are all empty.
pub fn selected_text(blocks: &[(String, Option<(usize, usize)>)]) -> (r: Option<String>)
    requires
        forall|k: int| 0 <= k < blocks@.len() ==> slice_ok(#[trigger] blocks@[k].0@, blocks@[k].1),
    ensures
        covered_parts(blocks@).len() == 0 ==> r is None,
        covered_parts(blocks@).len() > 0 ==> (r matches Some(t) && t@ == join_lines(
            covered_parts(blocks@),
        )),
{
    let mut out = String::new();
    let mut any = false;
    let mut k: usize = 0;
    while k < blocks.len()
        invariant
            k <= blocks@.len(),
            forall|j: int| 0 <= j < blocks@.len() ==> slice_ok(#[trigger] blocks@[j].0@, blocks@[j].1),
            any == (covered_parts(blocks@.take(k as int)).len() > 0),
            out@ == join_lines(covered_parts(blocks@.take(k as int))),
        decreases blocks@.len() - k,
    {
        let ghost before = blocks@.take(k as int);
        assert(blocks@.take(k + 1).drop_last() =~= before);
        assert(blocks@.take(k + 1).last() == blocks@[k as int]);
        let text = &blocks[k].0;
        let range = blocks[k].1;
        assert(slice_ok(blocks@[k as int].0@, blocks@[k as int].1));
        match range {
            Some((a, b)) => {
                if a != b {
                    let ghost t = text@;
                    let (chars, offsets) = crate::byte_text::char_offsets(text.as_str());
                    let i = crate::byte_text::floor_in(&offsets, a, Ghost(t));
                    let j = crate::byte_text::floor_in(&offsets, b, Ghost(t));
                    proof {
                        crate::byte_text::lemma_floor_index(t, a as int);
                        crate::byte_text::lemma_floor_index(t, b as int);
                        if j < i {
                            crate::byte_text::lemma_offset_strict(t, j as int, i as int);
                        }
                    }
                    let ghost prev = out@;
                    let ghost parts = covered_parts(before);
                    let ghost piece = t.subrange(i as int, j as int);
                    if any {
                        crate::byte_text::push_char(&mut out, '\n');
                    }
                    crate::byte_text::push_chars(&mut out, &chars, i, j);
                    proof {
                        assert(covered_parts(blocks@.take(k + 1)) == parts.push(piece));
                        assert(parts.push(piece).drop_last() =~= parts);
                        if any {
                            assert(out@ =~= prev + seq!['\n'] + piece);
                        } else {
                            assert(out@ =~= piece);
                        }
                    }
                    any = true;
                }
            },
            None => {},
        }
        k = k + 1;
    }
    assert(blocks@.take(blocks@.len() as int) =~= blocks@);
    if any {
        Some(out)
    } else {
        None
    }
}

/// One reconciled IME action applied to the editing model of `target` (an element
/// without one is left alone): the content is replaced (dropping the preedit), the
/// selection is set (clamped to the text), the preedit is replaced, text is committed
/// in place of the preedit, or the char before the caret is deleted. A text that would
/// not fit a `usize` leaves the model alone.
pub open spec fn ime_action_spec(m: InteractionModel, target: ElementId, a: ImeActionView) -> InteractionModel {
    match field_index(m.fields, target) {
        Some(i) => match m.fields[i].edit {
            Some(e) => match a {
                ImeActionView::SetText(t) => if fits(t) {
                    with_edit(m, i, crate::edit_state::set_spec(e, t))
                } else {
                    m
                },
                ImeActionView::SetSelection { anchor, focus } => with_edit(
                    m,
                    i,
                    set_selection_spec(e, anchor as int, focus as int),
                ),
                ImeActionView::SetPreedit(t) => if byte_len(e.text) + byte_len(t) <= usize::MAX {
                    with_edit(m, i, set_preedit_with_clauses_spec(e, t, Seq::empty()))
                } else {
                    m
                },
                ImeActionView::CommitText(t) => if byte_len(e.text) + byte_len(t) <= usize::MAX {
                    with_edit(m, i, finish_composition_spec(e, t))
                } else {
                    m
                },
                ImeActionView::DeleteBackward => with_edit(
                    m,
                    i,
                    crate::edit_state::backspace_spec(e).0,
                ),
            },
            None => m,
        },
        None => m,
    }
}

/// The selection an IME action sets lands on `char` boundaries of the target's text
/// (or past its end, where it clamps), so that the model stays well formed.
pub open spec fn ime_selection_on_boundaries(m: InteractionModel, target: ElementId, a: ImeActionView) -> bool {
    match a {
        ImeActionView::SetSelection { anchor, focus } => match edit_at(m, target) {
            Some(e) => (anchor >= byte_len(e.text) || is_boundary(e.text, anchor as int)) && (
            focus >= byte_len(e.text) || is_boundary(e.text, focus as int)),
            None => true,
        },
        _ => true,
    }
}

impl InteractionState {
    /// Applies one reconciled IME action to the focused text input `target`: see
    /// [`ime_action_spec`].
    pub fn apply_ime_action(&mut self, target: ElementId, action: &ImeAction)
        requires
            fields_wf(old(self)@),
        ensures
            final(self)@ == ime_action_spec(old(self)@, target, action@),
            ime_selection_on_boundaries(old(self)@, target, action@) ==> fields_wf(final(self)@),
    {
        let i = match self.find_field(target) {
            Some(i) => i,
            None => return,
        };
        let ghost m0 = self@;
        assert(m0.fields[i as int] == self.fields@[i as int]@);
        proof {
            assert(fields_wf(m0) ==> (m0.fields[i as int].edit matches Some(x) ==> edit_ready(x)));
            if let Some(x) = m0.fields[i as int].edit {
                lemma_wf_boundaries(x);
            }
        }
        let room = match (&self.fields[i].edit, action) {
            (Some(e), ImeAction::SetText(t)) => match crate::byte_text::checked_byte_len(t.as_str()) {
                Some(_) => true,
                None => false,
            },
            (Some(e), ImeAction::SetPreedit(t)) => match crate::byte_text::checked_byte_len(t.as_str()) {
                Some(n) => n <= usize::MAX - committed_text_len(e),
                None => false,
            },
            (Some(e), ImeAction::CommitText(t)) => match crate::byte_text::checked_byte_len(t.as_str()) {
                Some(n) => n <= usize::MAX - committed_text_len(e),
                None => false,
            },
            (Some(_), _) => true,
            (None, _) => false,
        };
        if !room {
            return;
        }
        let f = &mut self.fields[i];
        match &mut f.edit {
            Some(e) => match action {
                ImeAction::SetText(t) => e.set(t.as_str()),
                ImeAction::SetSelection { anchor, focus } => e.set_selection(*anchor, *focus),
                ImeAction::SetPreedit(t) => e.set_preedit(t.as_str()),
                ImeAction::CommitText(t) => e.finish_composition(t.as_str()),
                ImeAction::DeleteBackward => {
                    e.backspace();
                },
            },
            None => {},
        }
        proof {
            let e = m0.fields[i as int].edit->0;
            let e2 = match action@ {
                ImeActionView::SetText(t) => crate::edit_state::set_spec(e, t),
                ImeActionView::SetSelection { anchor, focus } => set_selection_spec(
                    e,
                    anchor as int,
                    focus as int,
                ),
                ImeActionView::SetPreedit(t) => set_preedit_with_clauses_spec(e, t, Seq::empty()),
                ImeActionView::CommitText(t) => finish_composition_spec(e, t),
                ImeActionView::DeleteBackward => crate::edit_state::backspace_spec(e).0,
            };
            assert(self@.fields =~= m0.fields.update(
                i as int,
                FieldModel { edit: Some(e2), ..m0.fields[i as int] },
            ));
            let (t, a, fo) = match action@ {
                ImeActionView::SetText(t) => (t, 0int, 0int),
                ImeActionView::SetPreedit(t) => (t, 0int, 0int),
                ImeActionView::CommitText(t) => (t, 0int, 0int),
                ImeActionView::SetSelection { anchor, focus } => (Seq::<char>::empty(), anchor as int, focus as int),
                ImeActionView::DeleteBackward => (Seq::<char>::empty(), 0int, 0int),
            };
            crate::edit_state::law_edits_keep_the_model_well_formed(e, t, a, fo);
            crate::edit_state::lemma_delete_selection_wf(e);
            if ime_selection_on_boundaries(m0, target, action@) {
                lemma_with_edit_wf(m0, i as int, e2);
            }
        }
    }
}

/// `HoverLeave` for each of `h`, in order.
pub open spec fn leave_events(h: Seq<ElementId>) -> Seq<EventModel> {
    h.map_values(|id: ElementId| EventModel::HoverLeave { target_id: id })
}

/// `s` without the occurrences of `t`.
pub open spec fn without(s: Seq<ElementId>, t: ElementId) -> Seq<ElementId>
    decreases s.len(),
{
    if s.len() == 0 {
        s
    } else if s.last() == t {
        without(s.drop_last(), t)
    } else {
        without(s.drop_last(), t).push(s.last())
    }
}

/// The pointer left every element: each hovered element hears `HoverLeave`, and none
/// is hovered any more.
pub open spec fn clear_hover_spec(m: InteractionModel) -> InteractionModel {
    InteractionModel { hovered: Seq::empty(), events: m.events + leave_events(m.hovered), ..m }
}

/// A pointer cancel (touch interrupted, capture lost): the hover clears as on a leave,
/// and a live press ends with `ActiveEnd`, so that no later release clicks.
pub open spec fn pointer_cancel_spec(m: InteractionModel) -> InteractionModel {
    let m1 = clear_hover_spec(m);
    match m1.active {
        Some(t) => emit_spec(
            InteractionModel { active: None, press_pos: None, ..m1 },
            EventModel::ActiveEnd { target_id: t },
        ),
        None => m1,
    }
}

/// A press resolved to `target` (by hit-testing, or the host's explicit target) at the
/// canvas point with coordinate bits `x`, `y`: the modality becomes pointer. On an
/// element it emits `PointerDown` and `ActiveStart`, makes the element the active one
/// and remembers the press point (the click lands on release), then moves the focus to
/// it. A press on nothing blurs the focused element.
pub open spec fn pointer_down_spec(m: InteractionModel, target: Option<ElementId>, x: u32, y: u32) -> InteractionModel {
    let m1 = InteractionModel { modality: InputModality::Pointer, ..m };
    match target {
        Some(t) => {
            let m2 = emit_spec(
                emit_spec(
                    m1,
                    EventModel::PointerDown { target_id: t, x, y, pointer_kind: m1.pointer_kind },
                ),
                EventModel::ActiveStart { target_id: t },
            );
            focus_spec(InteractionModel { active: Some(t), press_pos: Some((x, y)), ..m2 }, t)
        },
        None => match m1.focused {
            Some(prev) => blur_spec(m1, prev),
            None => m1,
        },
    }
}

/// A release at the canvas point with coordinate bits `x`, `y`, over `target` (what the
/// release hit; used only when no press is live): the pressed element (else `target`)
/// hears `PointerUp`; a live press is confirmed as a `Click` at the press point; that
/// element hears `ActiveEnd`; and no press is live any more.
pub open spec fn pointer_up_spec(m: InteractionModel, target: Option<ElementId>, x: u32, y: u32) -> InteractionModel {
    let up_target = match m.active {
        Some(a) => Some(a),
        None => target,
    };
    let m1 = match up_target {
        Some(t) => emit_spec(m, EventModel::PointerUp { target_id: t, x, y, pointer_kind: m.pointer_kind }),
        None => m,
    };
    let m2 = match m.active {
        Some(a) => {
            let p = match m.press_pos {
                Some(p) => p,
                None => (0u32, 0u32),
            };
            emit_spec(m1, EventModel::Click { target_id: a, x: p.0, y: p.1 })
        },
        None => m1,
    };
    let m3 = match up_target {
        Some(t) => emit_spec(m2, EventModel::ActiveEnd { target_id: t }),
        None => m2,
    };
    match m.active {
        Some(_) => InteractionModel { active: None, press_pos: None, ..m3 },
        None => m3,
    }
}

/// A click lands on release, where the press was: after a press on `t` at (`x`, `y`),
/// a release anywhere (`target`, `ux`, `uy`) sends `t` its `PointerUp`, then a `Click`
/// at the press point, then `ActiveEnd`, and leaves no press live.
pub proof fn law_release_clicks_at_the_press(
    m: InteractionModel,
    t: ElementId,
    x: u32,
    y: u32,
    target: Option<ElementId>,
    ux: u32,
    uy: u32,
)
    ensures
        ({
            let pressed = pointer_down_spec(m, Some(t), x, y);
            let released = pointer_up_spec(pressed, target, ux, uy);
            &&& pressed.active == Some(t)
            &&& released.active is None
            &&& released.press_pos is None
            &&& released.events == pressed.events + seq![
                EventModel::PointerUp { target_id: t, x: ux, y: uy, pointer_kind: m.pointer_kind },
                EventModel::Click { target_id: t, x, y },
                EventModel::ActiveEnd { target_id: t },
            ]
        }),
{
    let m1 = InteractionModel { modality: InputModality::Pointer, ..m };
    let m2 = emit_spec(
        emit_spec(m1, EventModel::PointerDown { target_id: t, x, y, pointer_kind: m1.pointer_kind }),
        EventModel::ActiveStart { target_id: t },
    );
    let m3 = InteractionModel { active: Some(t), press_pos: Some((x, y)), ..m2 };
    let pressed = focus_spec(m3, t);
    if m3.focused != Some(t) {
        if let Some(prev) = m3.focused {
            let b = blur_spec(m3, prev);
            assert(b.active == m3.active && b.press_pos == m3.press_pos && b.pointer_kind
                == m3.pointer_kind);
        }
    }
    assert(pressed.active == Some(t) && pressed.press_pos == Some((x, y)) && pressed.pointer_kind
        == m.pointer_kind);
    let released = pointer_up_spec(pressed, target, ux, uy);
    assert(released.events =~= pressed.events + seq![
        EventModel::PointerUp { target_id: t, x: ux, y: uy, pointer_kind: m.pointer_kind },
        EventModel::Click { target_id: t, x, y },
        EventModel::ActiveEnd { target_id: t },
    ]);
}

impl InteractionState {
    /// A press resolved to `target`: see [`pointer_down_spec`].
    pub fn pointer_down_on_target(&mut self, target: Option<ElementId>, x: u32, y: u32)
        requires
            fields_wf(old(self)@),
        ensures
            final(self)@ == pointer_down_spec(old(self)@, target, x, y),
            fields_wf(final(self)@),
    {
        self.last_input_modality = InputModality::Pointer;
        match target {
            Some(t) => {
                let kind = self.last_pointer_kind;
                self.emit(InteractionEvent::PointerDown { target_id: t, x, y, pointer_kind: kind });
                self.emit(InteractionEvent::ActiveStart { target_id: t });
                self.active_element = Some(t);
                self.active_press_pos = Some((x, y));
                self.on_focus(t);
            },
            None => match self.focused_element {
                Some(prev) => self.on_blur(prev),
                None => {},
            },
        }
    }

    /// A release over `target`: see [`pointer_up_spec`].
    pub fn pointer_up(&mut self, target: Option<ElementId>, x: u32, y: u32)
        ensures
            final(self)@ == pointer_up_spec(old(self)@, target, x, y),
            final(self)@.fields == old(self)@.fields,
    {
        let active = self.active_element;
        let up_target = match active {
            Some(a) => Some(a),
            None => target,
        };
        let kind = self.last_pointer_kind;
        match up_target {
            Some(t) => self.emit(InteractionEvent::PointerUp { target_id: t, x, y, pointer_kind: kind }),
            None => {},
        }
        match active {
            Some(a) => {
                let p = match self.active_press_pos {
                    Some(p) => p,
                    None => (0u32, 0u32),
                };
                self.emit(InteractionEvent::Click { target_id: a, x: p.0, y: p.1 });
            },
            None => {},
        }
        match up_target {
            Some(t) => self.emit(InteractionEvent::ActiveEnd { target_id: t }),
            None => {},
        }
        match active {
            Some(_) => {
                self.active_element = None;
                self.active_press_pos = None;
            },
            None => {},
        }
    }
}

/// The pointer entered `t`: a newly hovered element joins the hover set and hears
/// `HoverEnter`; one already hovered changes nothing.
pub open spec fn hover_enter_spec(m: InteractionModel, t: ElementId) -> InteractionModel {
    if m.hovered.contains(t) {
        m
    } else {
        emit_spec(InteractionModel { hovered: m.hovered.push(t), ..m }, EventModel::HoverEnter { target_id: t })
    }
}

/// The pointer left `t`: a hovered element leaves the hover set and hears
/// `HoverLeave`; one not hovered changes nothing.
pub open spec fn hover_leave_spec(m: InteractionModel, t: ElementId) -> InteractionModel {
    if m.hovered.contains(t) {
        emit_spec(InteractionModel { hovered: without(m.hovered, t), ..m }, EventModel::HoverLeave { target_id: t })
    } else {
        m
    }
}

impl InteractionState {
    fn clear_hover(&mut self)
        ensures
            final(self)@ == clear_hover_spec(old(self)@),
    {
        let ghost m0 = self@;
        let mut i: usize = 0;
        while i < self.hovered.len()
            invariant
                i <= self.hovered.len(),
                self.hovered@ == m0.hovered,
                self@ == (InteractionModel { events: m0.events + leave_events(m0.hovered.take(i as int)), ..m0 }),
            decreases self.hovered.len() - i,
        {
            let t = self.hovered[i];
            self.emit(InteractionEvent::HoverLeave { target_id: t });
            proof {
                assert(leave_events(m0.hovered.take(i + 1)) =~= leave_events(m0.hovered.take(i as int)).push(
                    EventModel::HoverLeave { target_id: t },
                ));
            }
            i = i + 1;
            assert(self@ =~= InteractionModel { events: m0.events + leave_events(m0.hovered.take(i as int)), ..m0 });
        }
        assert(m0.hovered.take(m0.hovered.len() as int) =~= m0.hovered);
        self.hovered = Vec::new();
        assert(self@ =~= clear_hover_spec(m0));
    }

    /// The pointer left the surface: see [`clear_hover_spec`].
    pub fn on_pointer_leave(&mut self)
        ensures
            final(self)@ == clear_hover_spec(old(self)@),
            final(self)@.fields == old(self)@.fields,
    {
        self.clear_hover();
    }

    /// A pointer cancel: see [`pointer_cancel_spec`].
    pub fn on_pointer_cancel(&mut self)
        ensures
            final(self)@ == pointer_cancel_spec(old(self)@),
            final(self)@.fields == old(self)@.fields,
    {
        self.clear_hover();
        match self.active_element {
            Some(t) => {
                self.active_element = None;
                self.active_press_pos = None;
                self.emit(InteractionEvent::ActiveEnd { target_id: t });
            },
            None => {},
        }
    }

    /// A touch contact whose pointer-down waits until a scroll gesture is ruled out:
    /// only the device is recorded; hover, press and focus stay as they are.
    pub fn prepare_deferred_pointer_down(&mut self, kind: PointerKind)
        ensures
            final(self)@ == (InteractionModel { pointer_kind: kind, ..old(self)@ }),
    {
        self.last_pointer_kind = kind;
    }

    /// The pointer entered `target`: see [`hover_enter_spec`].
    pub fn on_hover_enter(&mut self, target: ElementId)
        ensures
            final(self)@ == hover_enter_spec(old(self)@, target),
    {
        if crate::pseudo_state::contains_element(self.hovered.as_slice(), target) {
            return;
        }
        self.hovered.push(target);
        self.emit(InteractionEvent::HoverEnter { target_id: target });
    }

    /// The pointer left `target`: see [`hover_leave_spec`].
    pub fn on_hover_leave(&mut self, target: ElementId)
        ensures
            final(self)@ == hover_leave_spec(old(self)@, target),
    {
        if !crate::pseudo_state::contains_element(self.hovered.as_slice(), target) {
            return;
        }
        let ghost h = self.hovered@;
        let mut kept: Vec<ElementId> = Vec::new();
        let mut i: usize = 0;
        while i < self.hovered.len()
            invariant
                i <= h.len(),
                self.hovered@ == h,
                kept@ == without(h.take(i as int), target),
            decreases h.len() - i,
        {
            let x = self.hovered[i];
            assert(h.take(i + 1).drop_last() =~= h.take(i as int));
            if x != target {
                kept.push(x);
            }
            i = i + 1;
        }
        assert(h.take(h.len() as int) =~= h);
        self.hovered = kept;
        self.emit(InteractionEvent::HoverLeave { target_id: target });
    }
}

/// The actions of the floating selection toolbar, drawn for a touch interaction only: a
/// non-collapsed read-only selection offers Copy and Select All; otherwise the active
/// edit selection offers Cut, Copy, Paste and Select All; without either there is no
/// toolbar. (Where it floats is the adapter's geometry.)
pub open spec fn toolbar_actions_spec(m: InteractionModel) -> Option<Seq<ToolbarAction>> {
    if m.pointer_kind != PointerKind::Touch {
        None
    } else if m.selection matches Some(sel) && sel.anchor != sel.focus {
        Some(seq![ToolbarAction::Copy, ToolbarAction::SelectAll])
    } else if selection_owner(m) is Some {
        Some(seq![ToolbarAction::Cut, ToolbarAction::Copy, ToolbarAction::Paste, ToolbarAction::SelectAll])
    } else {
        None
    }
}

impl InteractionState {
    /// The toolbar actions: see [`toolbar_actions_spec`].
    pub fn toolbar_actions(&self) -> (r: Option<Vec<ToolbarAction>>)
        ensures
            match toolbar_actions_spec(self@) {
                Some(a) => r matches Some(v) && v@ == a,
                None => r is None,
            },
    {
        let touch = match self.last_pointer_kind {
            PointerKind::Touch => true,
            _ => false,
        };
        if !touch {
            return None;
        }
        let read_only = match self.selection {
            Some(sel) => !sel.is_caret(),
            None => false,
        };
        if read_only {
            let v = vec![ToolbarAction::Copy, ToolbarAction::SelectAll];
            assert(v@ =~= seq![ToolbarAction::Copy, ToolbarAction::SelectAll]);
            return Some(v);
        }
        match self.edit_selection_owner() {
            Some(_) => {
                let v = vec![ToolbarAction::Cut, ToolbarAction::Copy, ToolbarAction::Paste, ToolbarAction::SelectAll];
                assert(v@ =~= seq![ToolbarAction::Cut, ToolbarAction::Copy, ToolbarAction::Paste, ToolbarAction::SelectAll]);
                Some(v)
            },
            None => None,
        }
    }

    /// Whether drag handles flank the selection: for a touch interaction with a
    /// non-collapsed read-only selection. (Where they stand is the adapter's geometry.)
    pub fn shows_selection_handles(&self) -> (r: bool)
        ensures
            r == (self@.pointer_kind == PointerKind::Touch && (self@.selection matches Some(sel)
                && sel.anchor != sel.focus)),
    {
        let touch = match self.last_pointer_kind {
            PointerKind::Touch => true,
            _ => false,
        };
        touch && match self.selection {
            Some(sel) => !sel.is_caret(),
            None => false,
        }
    }
}

} // verus!
