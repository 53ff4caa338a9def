//! Verified core of the Peregrine HTTP gateway: configuration model and
//! validation, routing, header computation, rate limiting and basic auth.

pub mod cli;
pub mod clock;
pub mod config;
pub mod filter;
pub mod handler;
pub mod header_map;
pub mod net;
pub mod proxy;
pub mod text;
pub mod util;
