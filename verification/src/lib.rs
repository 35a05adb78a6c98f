//! TunnelX: the decision logic of a localhost tunnel, its relay and its client.
use vstd::prelude::*;

pub mod client;
mod clock;
pub mod commands;
pub mod config;
pub mod crypto;
pub mod frame;
pub mod http;
pub mod pending;
pub mod rate_limit;
pub mod registry;
pub mod relay;
pub mod routing;
pub mod session;
pub mod text;
pub mod ui;
pub mod ws;

verus! {

} // verus!
