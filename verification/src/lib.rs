//! Passcode-paired, single-file transfer between two peers.
//!
//! The crate holds the protocol rules of a transfer: how a passcode is drawn
//! and checked, how a sender and a receiver find each other, how the header
//! and the payload are framed on the wire, and how progress and truncation
//! are accounted for. Sockets and files are driven by the caller, which
//! feeds what happened into the state machines here and performs the action
//! they answer with. A transport session held in memory lets a whole
//! transfer run inside one process.

pub mod config;
pub mod display;
pub mod error;
pub mod passcode;
pub mod rendezvous;
pub mod session;
pub mod signaling;
pub mod stream;
pub mod transfer;
pub mod wire;
