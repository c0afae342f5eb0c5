use vstd::prelude::*;

pub mod config;
pub mod display;
pub mod icon;
pub mod player;
pub mod recovery;
pub mod search;
pub mod session;
pub mod text;
pub mod theme;

verus! {
} // verus!
