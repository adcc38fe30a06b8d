//! Client side of UDS diagnostics tunnelled over DoIP.
//!
//! The crate holds the protocol's rules: how a request is framed, how the
//! byte stream of an ECU is cut into logical responses, how a seed becomes a
//! key, and how a session moves between its states. It performs no I/O. The
//! caller owns the socket and reports what happened on it; every function
//! here says in its contract what it returns for each such report.

pub mod text;
pub mod types;
pub mod doip_client;
pub mod utils;
pub mod security_algorithm;
pub mod uds_service;
pub mod uds_client_manager;
