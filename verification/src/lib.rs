//! UptimeBar's core: the normalized monitor model, the per-provider adapters'
//! decision logic, and the application state that turns successive polls into
//! Up/Down transitions.

pub mod browser;
pub mod commands;
pub mod config;
pub mod laws;
pub mod notify;
pub mod providers;
pub mod state;
pub mod text;
pub mod tray;

use vstd::prelude::*;

verus! {

} // verus!
