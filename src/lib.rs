//! Core of a TLS reverse tunnel: the mapping registry that routes public
//! connections to tunnel sessions, the session lifecycle with reconnect
//! backoff and keepalive, the splice of each relay pair, the control
//! message codec, and decoding of configuration and credential files.

pub mod backoff;
pub mod config;
pub mod credentials;
pub mod frame;
pub mod json_check;
pub mod registry;
pub mod relay;
pub mod session;
