//! Engine of a searchable single-selection widget.
//!
//! A user types free text; the engine filters a candidate list by
//! token-substring matching, tracks the highlighted candidate while the user
//! navigates with keyboard or pointer, and commits a single selection.

pub mod buffer;
pub mod filtered;
pub mod proxy;
pub mod search;
pub mod settings;
pub mod text;
pub mod widget;
