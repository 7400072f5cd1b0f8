//! What the operations are for, stated of what goes in and what comes out.
//!
//! Each law relates an operation's results to its inputs, or two results to
//! one another, by the members, bytes, characters and items that they hold.

pub mod attachment;
pub mod following;
pub mod frames;
pub mod lines;
pub mod listings;
pub mod patches;
pub mod values;
pub mod views;
