//! Bulk renaming of the members of a chat server: which members a command
//! targets, what their new names are, and how the progress of a run is
//! reported.
//!
//! - [`command`] reads the words of a command into a policy and a selector.
//! - [`selector`] resolves tokens against the [`roster`] of a server and
//!   picks the members that a selector targets.
//! - [`transform`] holds the rename policies; [`replace`], [`pattern`],
//!   [`jitter`] and [`jumble`] hold what they compute, [`fraction`] the
//!   intensities, and [`chance`] the random draws.
//! - [`executor`] decides, step by step, what a run does next, and
//!   [`progress`] renders its status line.
//! - [`prefix`] keeps the command prefix of each server.
//! - [`text`] converts between strings and sequences of characters.

pub mod chance;
pub mod command;
pub mod executor;
pub mod fraction;
pub mod jitter;
pub mod jumble;
pub mod pattern;
pub mod prefix;
pub mod progress;
pub mod replace;
pub mod roster;
pub mod selector;
pub mod text;
pub mod transform;
