//! The platform-neutral core of an element-tree UI runtime: text editing and IME
//! reconciliation, selection stepping, compositing layers, fallback-font coverage and
//! fetch bookkeeping, paint order, inline formatting contexts, inbound accessibility
//! actions, and the value types that platform adapters exchange with the core.
pub mod byte_text;
pub mod id;

pub use id::ElementId;

pub mod accessibility;
pub mod ambient_defaults;
pub mod audio_output;
pub mod capability;
pub mod compositing;
pub mod document_runtime;
pub mod edit_state;
pub mod effective_visual;
pub mod engine;
pub mod font_coverage;
pub mod font_fetch;
pub mod ime_command;
pub mod ime_reconcile;
pub mod inline_text;
pub mod interaction;
pub mod kind;
pub mod paint_order;
pub mod pointer;
pub mod pointer_gesture;
pub mod pseudo_state;
pub mod scene_build;
pub mod selection;
pub mod selection_chrome;
pub mod selection_copy;
pub mod style;
pub mod taffy_bridge;
