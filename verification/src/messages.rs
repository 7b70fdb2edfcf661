//! The five messages of the protocol.

use crate::codec::Data;
use vstd::prelude::*;

verus! {

/// The first message of a login: the client's public ephemeral, least
/// significant byte first, and the username.
pub struct PreAuthReq<'a> {
    pub a_pub: [u8; 512],
    pub username: &'a str,
}

impl<'a> Data<'a> for PreAuthReq<'a> {
    const SIZE: usize = 640;

    open spec fn wire(&self) -> Seq<u8> {
        (self.a_pub, self.username).wire()
    }

    open spec fn fits(&self) -> bool {
        (self.a_pub, self.username).fits()
    }

    open spec fn same(&self, other: &Self) -> bool {
        self.a_pub == other.a_pub
            && self.username@ == other.username@
    }

    open spec fn frame(data: Seq<u8>) -> Option<nat> {
        <([u8; 512], &'a str)>::frame(data)
    }

    proof fn lemma_frame_bound(data: Seq<u8>) {
        <([u8; 512], &'a str)>::lemma_frame_bound(data);
    }

    proof fn lemma_frame_of_wire(&self, tail: Seq<u8>) {
        (self.a_pub, self.username).lemma_frame_of_wire(tail);
    }

    proof fn lemma_same_wire(&self, other: &Self) {
        (self.a_pub, self.username).lemma_same_wire(&(other.a_pub, other.username));
    }

    fn wire_len(&self) -> (r: Option<usize>) {
        (self.a_pub, self.username).wire_len()
    }

    fn write(&self, buf: &mut [u8], at: usize) -> (r: Option<usize>) {
        (self.a_pub, self.username).write(buf, at)
    }

    fn decode(data: &'a [u8]) -> (r: Option<(Self, &'a [u8])>) {
        let ((a_pub, username), rest) = <([u8; 512], &'a str)>::decode(data)?;
        Some((PreAuthReq { a_pub, username }, rest))
    }
}

/// The server's answer to [`PreAuthReq`]: the user's salt, the server's public
/// ephemeral, least significant byte first, and the key of the handshake.
pub struct PreAuthResp {
    pub salt: [u8; 32],
    pub b_pub: [u8; 512],
    pub key: [u8; 8],
}

impl<'a> Data<'a> for PreAuthResp {
    const SIZE: usize = 552;

    open spec fn wire(&self) -> Seq<u8> {
        (self.salt, (self.b_pub, self.key)).wire()
    }

    open spec fn fits(&self) -> bool {
        (self.salt, (self.b_pub, self.key)).fits()
    }

    open spec fn same(&self, other: &Self) -> bool {
        self.salt == other.salt
            && self.b_pub == other.b_pub
            && self.key == other.key
    }

    open spec fn frame(data: Seq<u8>) -> Option<nat> {
        <([u8; 32], ([u8; 512], [u8; 8]))>::frame(data)
    }

    proof fn lemma_frame_bound(data: Seq<u8>) {
        <([u8; 32], ([u8; 512], [u8; 8]))>::lemma_frame_bound(data);
    }

    proof fn lemma_frame_of_wire(&self, tail: Seq<u8>) {
        (self.salt, (self.b_pub, self.key)).lemma_frame_of_wire(tail);
    }

    proof fn lemma_same_wire(&self, other: &Self) {
        (self.salt, (self.b_pub, self.key)).lemma_same_wire(&(other.salt, (other.b_pub, other.key)));
    }

    fn wire_len(&self) -> (r: Option<usize>) {
        (self.salt, (self.b_pub, self.key)).wire_len()
    }

    fn write(&self, buf: &mut [u8], at: usize) -> (r: Option<usize>) {
        (self.salt, (self.b_pub, self.key)).write(buf, at)
    }

    fn decode(data: &'a [u8]) -> (r: Option<(Self, &'a [u8])>) {
        let ((salt, (b_pub, key)), rest) = <([u8; 32], ([u8; 512], [u8; 8]))>::decode(data)?;
        Some((PreAuthResp { salt, b_pub, key }, rest))
    }
}

/// The second message of a login: the client's proof and the key of the
/// handshake.
pub struct AuthReq {
    pub proof: [u8; 64],
    pub key: [u8; 8],
}

impl<'a> Data<'a> for AuthReq {
    const SIZE: usize = 72;

    open spec fn wire(&self) -> Seq<u8> {
        (self.proof, self.key).wire()
    }

    open spec fn fits(&self) -> bool {
        (self.proof, self.key).fits()
    }

    open spec fn same(&self, other: &Self) -> bool {
        self.proof == other.proof
            && self.key == other.key
    }

    open spec fn frame(data: Seq<u8>) -> Option<nat> {
        <([u8; 64], [u8; 8])>::frame(data)
    }

    proof fn lemma_frame_bound(data: Seq<u8>) {
        <([u8; 64], [u8; 8])>::lemma_frame_bound(data);
    }

    proof fn lemma_frame_of_wire(&self, tail: Seq<u8>) {
        (self.proof, self.key).lemma_frame_of_wire(tail);
    }

    proof fn lemma_same_wire(&self, other: &Self) {
        (self.proof, self.key).lemma_same_wire(&(other.proof, other.key));
    }

    fn wire_len(&self) -> (r: Option<usize>) {
        (self.proof, self.key).wire_len()
    }

    fn write(&self, buf: &mut [u8], at: usize) -> (r: Option<usize>) {
        (self.proof, self.key).write(buf, at)
    }

    fn decode(data: &'a [u8]) -> (r: Option<(Self, &'a [u8])>) {
        let ((proof, key), rest) = <([u8; 64], [u8; 8])>::decode(data)?;
        Some((AuthReq { proof, key }, rest))
    }
}

/// The server's answer to [`AuthReq`]: the server's proof.
pub struct AuthResponse {
    pub proof: [u8; 64],
}

impl<'a> Data<'a> for AuthResponse {
    const SIZE: usize = 64;

    open spec fn wire(&self) -> Seq<u8> {
        self.proof.wire()
    }

    open spec fn fits(&self) -> bool {
        self.proof.fits()
    }

    open spec fn same(&self, other: &Self) -> bool {
        self.proof == other.proof
    }

    open spec fn frame(data: Seq<u8>) -> Option<nat> {
        <[u8; 64]>::frame(data)
    }

    proof fn lemma_frame_bound(data: Seq<u8>) {
        <[u8; 64]>::lemma_frame_bound(data);
    }

    proof fn lemma_frame_of_wire(&self, tail: Seq<u8>) {
        self.proof.lemma_frame_of_wire(tail);
    }

    proof fn lemma_same_wire(&self, other: &Self) {
        self.proof.lemma_same_wire(&other.proof);
    }

    fn wire_len(&self) -> (r: Option<usize>) {
        self.proof.wire_len()
    }

    fn write(&self, buf: &mut [u8], at: usize) -> (r: Option<usize>) {
        self.proof.write(buf, at)
    }

    fn decode(data: &'a [u8]) -> (r: Option<(Self, &'a [u8])>) {
        let (proof, rest) = <[u8; 64]>::decode(data)?;
        Some((AuthResponse { proof }, rest))
    }
}

/// A registration: the username, the salt and the password verifier, least
/// significant byte first.
pub struct RegisterReq<'a> {
    pub username: &'a str,
    pub salt: [u8; 32],
    pub verifier: [u8; 512],
}

impl<'a> Data<'a> for RegisterReq<'a> {
    const SIZE: usize = 672;

    open spec fn wire(&self) -> Seq<u8> {
        (self.username, (self.salt, self.verifier)).wire()
    }

    open spec fn fits(&self) -> bool {
        (self.username, (self.salt, self.verifier)).fits()
    }

    open spec fn same(&self, other: &Self) -> bool {
        self.username@ == other.username@
            && self.salt == other.salt
            && self.verifier == other.verifier
    }

    open spec fn frame(data: Seq<u8>) -> Option<nat> {
        <(&'a str, ([u8; 32], [u8; 512]))>::frame(data)
    }

    proof fn lemma_frame_bound(data: Seq<u8>) {
        <(&'a str, ([u8; 32], [u8; 512]))>::lemma_frame_bound(data);
    }

    proof fn lemma_frame_of_wire(&self, tail: Seq<u8>) {
        (self.username, (self.salt, self.verifier)).lemma_frame_of_wire(tail);
    }

    proof fn lemma_same_wire(&self, other: &Self) {
        (self.username, (self.salt, self.verifier)).lemma_same_wire(&(other.username, (other.salt, other.verifier)));
    }

    fn wire_len(&self) -> (r: Option<usize>) {
        (self.username, (self.salt, self.verifier)).wire_len()
    }

    fn write(&self, buf: &mut [u8], at: usize) -> (r: Option<usize>) {
        (self.username, (self.salt, self.verifier)).write(buf, at)
    }

    fn decode(data: &'a [u8]) -> (r: Option<(Self, &'a [u8])>) {
        let ((username, (salt, verifier)), rest) = <(&'a str, ([u8; 32], [u8; 512]))>::decode(data)?;
        Some((RegisterReq { username, salt, verifier }, rest))
    }
}

/// The size of the buffer that goes with each message.
pub proof fn lemma_message_sizes()
    ensures
        PreAuthReq::SIZE == 640,
        PreAuthResp::SIZE == 552,
        AuthReq::SIZE == 72,
        AuthResponse::SIZE == 64,
        RegisterReq::SIZE == 672,
{
}

} // verus!
