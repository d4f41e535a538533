//! A retro terminal front end for a local language model: the verified
//! application state machine, tool handling and screen layout.

use vstd::prelude::*;

pub mod text;
pub mod bridge;
pub mod audio;
pub mod tools;
pub mod app;
pub mod theme;
pub mod ui;
pub mod control;
pub mod picker;
pub mod laws;

verus! {
} // verus!
