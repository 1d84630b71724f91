//! Request routing policy, relay shortlisting and metrics exposition for an
//! HTTP/TCP proxy gateway that forwards traffic through iroh tunnels.

pub mod accounting;
pub mod config;
pub mod endpoint;
pub mod error_page;
pub mod keys;
pub mod metrics;
pub mod relays;
pub mod resolver;
pub mod runs;
pub mod text;
