//! Routing broker and RPC dispatch core for a mesh of cooperating services.
//!
//! A caller builds a typed request, the client facade attaches a route key and
//! a fresh correlation id and sends the envelope; the broker selects a replica
//! of whichever service registered the message type, forwards the envelope,
//! and routes the reply back to the waiting caller by its correlation id.
//! Every request produces exactly one terminal outcome: a reply, a structured
//! error, or a timeout.
//!
//! The crate models the decision logic of that pipeline — envelopes, route-key
//! hashing, replica selection, the dispatch table, the broker's pending-request
//! bookkeeping and the facade's call lifecycle — as verified state machines.
//! Transport (sockets, clocks, worker threads) stays outside: a host drives
//! these types with the events it observes and performs the actions they
//! return.

pub mod broker;
pub mod connection;
pub mod dispatch;
pub mod envelope;
pub mod error;
pub mod facade;
pub mod routing;
