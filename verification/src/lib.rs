//! A layer-2 client for PROFINET-DCP style discovery and configuration.
//!
//! The crate holds the protocol's codec and its response handling: block
//! requests and blocks, the twelve-byte packet header, the Ethernet envelope,
//! the walk over a response's block chain and the bookkeeping of one
//! exchange. Each function is stated over byte sequences and proved against
//! that statement. Five calls are believed and not proved, and marked so
//! where they stand: two into `pnet` for the Ethernet envelope, one into
//! `regex` for the naming pattern, one into `rand` for the transaction id
//! and one into std for UTF-8. Sending and receiving frames is left to the
//! caller.

pub mod constants;
pub mod error;
pub mod wire;
pub mod dcpblockrequest;
pub mod dcpblock;
pub mod dcppaket;
pub mod ethernet;
pub mod utils;
pub mod device;
pub mod pattern;
pub mod dcp;
