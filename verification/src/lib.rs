//! Decisions behind the commands of a widget layer for bevy's UI: what a
//! command changes, given what it finds on the entity that it is applied to.
//!
//! Nothing here reads or writes a `World`. Each command is a function from
//! the values that were read off the entity to the values to write back or
//! to log, and its contract says which. What is taken from bevy is named
//! where it is taken: the text that stands for an entity, the comparison of
//! cursor icons, and the queueing of a name.

pub mod entity;
pub mod ui_commands;
