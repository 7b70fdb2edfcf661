//! SRP-6a over a fixed 4096-bit group: a client proves to a server that it
//! knows a password, without sending it, and both derive one shared key.
//!
//! - [`bigint`] and [`group`]: 4096-bit numbers and arithmetic modulo the
//!   group prime.
//! - [`hash`] and [`utils`]: the password hasher, the digest and the hash
//!   points of the protocol.
//! - [`client`] and [`server`]: the two sides of one handshake.
//! - [`codec`] and [`messages`]: the wire format.
//! - [`session_store`]: the server's handshakes in progress.
//! - [`login`]: the client's steps on the bytes of the messages.
//! - [`laws`]: what holds of the two sides together.

use vstd::prelude::*;

pub mod bigint;
pub mod client;
pub mod codec;
pub mod group;
pub mod hash;
pub mod laws;
pub mod login;
pub mod messages;
pub mod server;
pub mod session_store;
pub mod utils;

verus! {

/// Why an SRP handshake was rejected.
#[derive(Clone, Copy, Debug, PartialEq, Eq, Structural)]
pub enum SrpAuthError {
    /// The peer's public ephemeral is zero modulo the group prime.
    IllegalParameter,
    /// A proof did not match the expected digest.
    BadRecordMac,
}

/// What a finished handshake holds on either side: the shared key, the
/// client's proof `M1` and the server's proof `M2`.
pub struct Session {
    pub key: nat,
    pub m1: Seq<u8>,
    pub m2: Seq<u8>,
}

} // verus!
