//! Achievement résumé for a game character: reads the completion times out of
//! a character's achievement page, joins them with a catalog of tracked
//! achievements, and renders how many days each one took after its release.

pub mod catalog;
pub mod compose;
pub mod laws;
pub mod page;
pub mod text;
