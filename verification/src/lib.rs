//! A two-list picker: every candidate entry sits in exactly one of two lists,
//! "kept" and "removed", and keyboard input moves a cursor through the focused
//! list, hands the highlighted entry over to the other list, or switches focus.
//!
//! The crate holds the whole decision logic of such a picker and proves it:
//! the order on entry names, the key map, the transitions of the selection,
//! the help overlay's dismissal, and the description of what a front end has
//! to draw. Reading input and drawing are left to the front end.

pub mod entry;
pub mod input;
pub mod laws;
pub mod packages;
pub mod screen;
pub mod selection;
pub mod session;
