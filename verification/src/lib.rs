//! A store-and-forward relay node for a decentralized messaging overlay.
//!
//! Each node has a stable identity and is reachable through zero or more
//! pluggable transports. A message names a destination identity; a node that
//! cannot deliver locally either relays directly to the destination (if it
//! shares a transport with it) or forwards through trusted peer nodes.

pub mod adaptor;
pub mod db;
pub mod error;
pub mod model;
pub mod node;
pub mod query;
