//! Zo Tunnel: the verified core of a self-hosted HTTP tunnel.
//!
//! The crate holds the wire protocol (frame header, message kinds and
//! payload rules), the server's bookkeeping (client registry, rate limiter,
//! dashboard sessions, metrics), configuration rules for server and client,
//! Traefik route generation and the release/upgrade helpers. Input and
//! output (sockets, files, processes, environment) are left to the caller.

pub mod text;
pub mod protocol;
pub mod release;
pub mod traefik;
pub mod random;
pub mod config;
pub mod maps;
pub mod registry;
pub mod metrics;
pub mod dashboard;
pub mod client;
