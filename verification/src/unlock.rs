//! Deciding whether the script groups of a transaction are already
//! unlocked, and unlocking those that are not.

pub mod rules;
pub mod unlocker;
