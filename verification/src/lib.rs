//! Distributed generation of a threshold-ECDSA key.
//!
//! A group of nodes that know each other by their network identities jointly
//! compute one public key and, each for itself, a share of the private key.
//! This crate is one node's part of that ceremony:
//!
//! - [`bytes`]: the order of byte strings;
//! - [`peer`] and [`registry`]: who takes part, and in what order;
//! - [`peer_map`] and [`state`]: what a node has accumulated;
//! - [`message`]: what the nodes tell each other;
//! - [`buffered`]: the queue of what is still to be sent;
//! - [`rules`]: what handling a message and running a step may do;
//! - [`signer`]: the protocol driver, and [`work`], its supervisor;
//! - [`laws`]: what holds of a ceremony whatever happens;
//! - [`party`]: the steps of the threshold scheme, taken on trust;
//! - [`thresh`]: keys and signatures of the threshold signature scheme.

pub mod buffered;
pub mod bytes;
pub mod laws;
pub mod message;
pub mod party;
pub mod peer;
pub mod peer_map;
pub mod registry;
pub mod rules;
pub mod signer;
pub mod state;
pub mod thresh;
pub mod work;
