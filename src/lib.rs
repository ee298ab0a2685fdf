//! An auto-reply engine: a multi-pattern matcher over a table of replies,
//! an update pipeline that merges learned entries, and a voting gate for
//! entries proposed by untrusted submitters.

pub mod text;
pub mod matcher;
pub mod reply;
pub mod pipeline;
pub mod command;
pub mod vote;
pub mod join;
pub mod select;
pub mod args;
