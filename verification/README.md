# hayate_core

The platform-neutral core of an element-tree UI runtime, written in Verus. The
logic in `src/` is verified against `requires`/`ensures` contracts; the few calls it
makes into std functions that Verus has no specification for (appending a `char` to
a `String`, Unicode alphanumeric classification) and into the `slotmap` crate (the
listener registry) stand behind small trusted wrappers whose contracts are stated,
not proved.

- `src/` — the verified library: UTF-8 byte-offset text model (`byte_text`),
  selection stepping (`selection`), the text-input editing model (`edit_state`),
  IME reconciliation and incremental IME commands (`ime_reconcile`, `ime_command`),
  compositing layers (`compositing`), fallback-font coverage and fetch bookkeeping
  (`font_coverage`, `font_fetch`), paint order (`paint_order`), inline formatting
  contexts (`inline_text`), inbound accessibility actions and roles
  (`accessibility`), pseudo-state flags (`pseudo_state`), dirty tracking (`engine`),
  multi-press classification (`pointer_gesture`), the focus / edit / composition
  state machine that input adapters drive, pointer press and release included
  (`interaction`), the text a document selection copies (`selection_copy`), text
  style inheritance (`effective_visual`, `ambient_defaults`), the event listener
  registry with target-first dispatch and its delivery queue (`document_runtime`),
  and the value types
  shared with platform adapters. Public `law_*` proof functions
  state the properties that hold across calls.
- `app/` — ordinary Rust around the library: adapters for the accessibility protocol
  and the layout engine, the floating-point caret geometry and selection chrome,
  the audio output and IME seams, and error display.
- `tests/` — tests of the library run with the outside crates linked.
