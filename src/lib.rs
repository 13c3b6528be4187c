//! Terminal cell-grid toolkit: styled text, a constraint layout solver with a
//! memoising cache, a cell buffer with diffing, and a scrollbar widget.

pub mod buffer;
pub mod buffer_lemmas;
pub mod cache;
pub mod constraint;
pub mod frame;
pub mod geometry;
pub mod layout;
pub mod layout_lemmas;
pub mod line;
pub mod scrollbar;
pub mod scrollbar_state;
pub mod span;
pub mod style;
pub mod text;
pub mod unicode;
