//! Session layer for a line-delimited JSON-RPC messaging client.
//!
//! The crate models the three layers of the client: the wire encoding of
//! outbound requests, the classification of inbound frames, and the session
//! coordinator that correlates replies with outstanding calls and drives the
//! reconnection policy.  Transport I/O (process spawning, sockets, threads)
//! lives outside this crate; everything here is a function from plain values
//! to plain values with a proved contract.

pub mod attach;
pub mod backoff;
pub mod coordinator;
pub mod frame;
pub mod jsonval;
pub mod ids;
pub mod present;
pub mod records;
pub mod strmap;
pub mod textops;
pub mod wire;
