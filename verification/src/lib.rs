//! A roster of the players seen during a squad session, each with a free-text
//! comment, together with the rules that decide which entries are kept when a
//! player leaves.

pub mod text;
pub mod player;
pub mod name_index;
pub mod roster;
pub mod keys;
pub mod session;
pub mod config;
pub mod window;
pub mod laws;
