//! The core of a terminal pager: the lines read so far, their wrapping to the
//! terminal's width, the window that scrolls over the wrapped rows, and the
//! mode of the status row.
//!
//! The pager reads nothing and writes nothing itself. Where it needs the
//! next line of the text it says so (`Step::Read`, `Reaction::Read`), and
//! the caller hands the text in (`Context::feed`,
//! `CommandDispatcher::handle_line`); where the screen is to be drawn anew
//! it says so too, and `Context::render` gives the text to write.

pub mod buffer;
pub mod command;
pub mod context;
pub mod search;
pub mod terminal;
