//! The decision core of a TLS-terminating reverse proxy that routes by the
//! server name a client presents.
//!
//! The crate holds no sockets and spawns no tasks. It owns the routing table,
//! and it states, as functions from a state and an event to the next state and
//! the next action, what the listener, a connection handler and the byte relay
//! do. A driver performs the actions and reports what came of them.

pub mod configuration_api;
pub mod reverse_proxy;
pub mod state;
