//! Verified core of gtkshutdown: the decisions it makes while closing every
//! open Wayland client before a shutdown.
use vstd::prelude::*;

pub mod app;
pub mod backends;
pub mod cli;
pub mod client;
pub mod client_killer;
pub mod order;
pub mod signal;
pub mod text;
pub mod timing;
pub mod ui;

verus! {

/// The application ID of this program's own window.
pub const APP_ID: &'static str = "io.github.dastarruer.gtkshutdown";

} // verus!
