//! The wire format of the protocol's messages: fixed byte layouts, fields in
//! declared order. A byte array is written as it is; a string is written as
//! its length in two bytes, least significant first, and then its UTF-8 bytes.

use vstd::prelude::*;
use vstd::slice::slice_subrange;
use vstd::string::StringSliceAdditionalSpecFns;
use vstd::utf8::{encode_utf8_decode_utf8, encode_utf8_valid_utf8, valid_utf8};

verus! {

/// The longest string, in bytes, that the wire format can carry.
pub const MAX_STRING_LEN: usize = 65535;

/// A value with a wire format.
pub trait Data<'a>: Sized {
    /// The size of the buffer that [`crate::session_store::encode`] offers a value of this
    /// type.
    const SIZE: usize;

    /// The bytes that stand for the value on the wire.
    spec fn wire(&self) -> Seq<u8>;

    /// True when the value can be written: no string in it is longer than
    /// [`MAX_STRING_LEN`].
    spec fn fits(&self) -> bool;

    /// True when the two values hold the same content.
    spec fn same(&self, other: &Self) -> bool;

    /// The length of the encoding that `data` starts with, where it starts
    /// with one: where it is long enough, and its strings are UTF-8.
    spec fn frame(data: Seq<u8>) -> Option<nat>;

    /// An encoding is never longer than the bytes it was found in.
    proof fn lemma_frame_bound(data: Seq<u8>)
        ensures
            Self::frame(data) matches Some(n) ==> n <= data.len(),
    ;

    /// Bytes that start with the encoding of a value start with an encoding
    /// of just that length.
    proof fn lemma_frame_of_wire(&self, tail: Seq<u8>)
        requires
            self.fits(),
        ensures
            Self::frame(self.wire() + tail) == Some(self.wire().len()),
    ;

    /// Two values with one encoding hold the same content.
    proof fn lemma_same_wire(&self, other: &Self)
        requires
            self.fits(),
            other.fits(),
            self.wire() == other.wire(),
        ensures
            self.same(other),
    ;

    /// The length of the encoding, where the value can be written.
    fn wire_len(&self) -> (r: Option<usize>)
        ensures
            r is Some <==> self.fits() && self.wire().len() <= usize::MAX,
            r matches Some(n) ==> n == self.wire().len(),
    ;

    /// Writes the encoding into `buf` from the index `at` on and returns the
    /// index behind it. Where the value cannot be written or `buf` is too
    /// short, nothing is written.
    fn write(&self, buf: &mut [u8], at: usize) -> (r: Option<usize>)
        requires
            at <= old(buf)@.len(),
        ensures
            final(buf)@.len() == old(buf)@.len(),
            r is Some <==> self.fits() && at + self.wire().len() <= old(buf)@.len(),
            r matches Some(end) ==> end == at + self.wire().len() && final(buf)@ == old(
                buf,
            )@.subrange(0, at as int) + self.wire() + old(buf)@.subrange(
                end as int,
                old(buf)@.len() as int,
            ),
            r is None ==> final(buf)@ == old(buf)@,
    ;

    /// Reads a value from the front of `data` and returns it with the bytes
    /// that follow it.
    fn decode(data: &'a [u8]) -> (r: Option<(Self, &'a [u8])>)
        ensures
            r is Some <==> Self::frame(data@) is Some,
            r matches Some((v, rest)) ==> {
                let n = Self::frame(data@)->Some_0;
                &&& n <= data@.len()
                &&& v.fits()
                &&& v.wire() == data@.subrange(0, n as int)
                &&& rest@ == data@.subrange(n as int, data@.len() as int)
            },
    ;

    /// Writes the encoding at the front of `buf` and returns its length.
    /// Where the value cannot be written or `buf` is too short, nothing is
    /// written.
    fn encode(&self, buf: &mut [u8]) -> (r: Option<usize>)
        ensures
            final(buf)@.len() == old(buf)@.len(),
            r is Some <==> self.fits() && self.wire().len() <= old(buf)@.len(),
            r matches Some(n) ==> n == self.wire().len() && final(buf)@ == self.wire() + old(
                buf,
            )@.subrange(n as int, old(buf)@.len() as int),
            r is None ==> final(buf)@ == old(buf)@,
    {
        let r = self.write(buf, 0);
        proof {
            if r is Some {
                assert(old(buf)@.subrange(0, 0) + self.wire() =~= self.wire());
            }
        }
        r
    }
}

/// True when `data` starts with the encoding of `v` and goes on with `rest`:
/// what [`Data::decode`] promises of a value and a rest that it returns.
pub open spec fn decoded<'a, T: Data<'a>>(data: Seq<u8>, v: T, rest: Seq<u8>) -> bool {
    &&& T::frame(data) matches Some(n)
    &&& n <= data.len()
    &&& v.fits()
    &&& v.wire() == data.subrange(0, n as int)
    &&& rest == data.subrange(n as int, data.len() as int)
}

/// Decoding what was encoded gives the value back, whatever follows it.
///
/// Let `m` be a value that can be written, and `tail` any bytes. Then the
/// bytes `m.wire() + tail` start with an encoding; and whatever value `v` and
/// rest a decoder finds in them, `v` holds the content of `m` and the rest is
/// `tail`.
pub proof fn lemma_round_trip<'a, T: Data<'a>>(m: T, tail: Seq<u8>, v: T, rest: Seq<u8>)
    requires
        m.fits(),
        decoded(m.wire() + tail, v, rest),
    ensures
        T::frame(m.wire() + tail) == Some(m.wire().len()),
        v.same(&m),
        rest == tail,
{
    let data = m.wire() + tail;
    m.lemma_frame_of_wire(tail);
    assert(data.subrange(0, m.wire().len() as int) =~= m.wire());
    assert(data.subrange(m.wire().len() as int, data.len() as int) =~= tail);
    v.lemma_same_wire(&m);
}

/// The encoding of `val`, where it fits in a buffer of `capacity` bytes.
pub fn encode_within<'a, T: Data<'a>>(val: &T, capacity: usize) -> (r: Option<Vec<u8>>)
    ensures
        r is Some <==> val.fits() && val.wire().len() <= capacity,
        r matches Some(bytes) ==> bytes@ == val.wire(),
{
    let mut buf = vec![0u8; capacity];
    let len = val.encode(buf.as_mut_slice())?;
    buf.truncate(len);
    assert(buf@ =~= val.wire());
    Some(buf)
}

/// Calls `core::str::from_utf8`: the string that the bytes spell, where they
/// are valid UTF-8, and nothing where they are not.
#[verifier::external_body]
fn str_from_utf8<'a>(bytes: &'a [u8]) -> (r: Option<&'a str>)
    ensures
        r is Some <==> valid_utf8(bytes@),
        r matches Some(s) ==> s.spec_bytes() == bytes@,
{
    core::str::from_utf8(bytes).ok()
}

impl<'a, const N: usize> Data<'a> for [u8; N] {
    const SIZE: usize = N;

    open spec fn wire(&self) -> Seq<u8> {
        self@
    }

    open spec fn fits(&self) -> bool {
        true
    }

    open spec fn same(&self, other: &Self) -> bool {
        *self == *other
    }

    open spec fn frame(data: Seq<u8>) -> Option<nat> {
        if data.len() >= N {
            Some(N as nat)
        } else {
            None
        }
    }

    proof fn lemma_frame_bound(data: Seq<u8>) {
    }

    proof fn lemma_frame_of_wire(&self, tail: Seq<u8>) {
    }

    proof fn lemma_same_wire(&self, other: &Self) {
        assert(*self =~= *other);
    }

    fn wire_len(&self) -> (r: Option<usize>) {
        Some(N)
    }

    fn write(&self, buf: &mut [u8], at: usize) -> (r: Option<usize>) {
        if buf.len() - at < N {
            return None;
        }
        let end = at + N;
        let mut i: usize = 0;
        while i < N
            invariant
                i <= N,
                end == at + N,
                end <= buf@.len(),
                buf@.len() == old(buf)@.len(),
                forall|j: int| 0 <= j < at ==> buf@[j] == old(buf)@[j],
                forall|j: int| 0 <= j < i ==> buf@[at + j] == self@[j],
                forall|j: int| end <= j < buf@.len() ==> buf@[j] == old(buf)@[j],
            decreases N - i,
        {
            buf[at + i] = self[i];
            i += 1;
        }
        assert(buf@ =~= old(buf)@.subrange(0, at as int) + self.wire() + old(buf)@.subrange(
            end as int,
            old(buf)@.len() as int,
        ));
        Some(end)
    }

    fn decode(data: &'a [u8]) -> (r: Option<(Self, &'a [u8])>) {
        if data.len() < N {
            return None;
        }
        let mut out = [0u8; N];
        let mut i: usize = 0;
        while i < N
            invariant
                i <= N,
                N <= data@.len(),
                forall|j: int| 0 <= j < i ==> out@[j] == data@[j],
            decreases N - i,
        {
            out[i] = data[i];
            i += 1;
        }
        assert(out@ =~= data@.subrange(0, N as int));
        Some((out, slice_subrange(data, N, data.len())))
    }
}

/// The two bytes of a string's length and then its bytes.
pub open spec fn string_wire(bytes: Seq<u8>) -> Seq<u8> {
    seq![(bytes.len() % 256) as u8, (bytes.len() / 256) as u8] + bytes
}

impl<'a> Data<'a> for &'a str {
    const SIZE: usize = 128;

    open spec fn wire(&self) -> Seq<u8> {
        string_wire((*self).spec_bytes())
    }

    open spec fn fits(&self) -> bool {
        (*self).spec_bytes().len() <= MAX_STRING_LEN
    }

    open spec fn same(&self, other: &Self) -> bool {
        (*self)@ == (*other)@
    }

    open spec fn frame(data: Seq<u8>) -> Option<nat> {
        if data.len() >= 2 {
            let len = data[0] as nat + 256 * data[1] as nat;
            if data.len() >= 2 + len && valid_utf8(data.subrange(2, 2 + len as int)) {
                Some(2 + len)
            } else {
                None
            }
        } else {
            None
        }
    }

    proof fn lemma_frame_bound(data: Seq<u8>) {
    }

    proof fn lemma_frame_of_wire(&self, tail: Seq<u8>) {
        let bytes = (*self).spec_bytes();
        let data = self.wire() + tail;
        assert(data[0] == (bytes.len() % 256) as u8);
        assert(data[1] == (bytes.len() / 256) as u8);
        assert(data.subrange(2, 2 + bytes.len() as int) =~= bytes);
        encode_utf8_valid_utf8((*self)@);
    }

    proof fn lemma_same_wire(&self, other: &Self) {
        let x = (*self).spec_bytes();
        let y = (*other).spec_bytes();
        assert(x =~= self.wire().subrange(2, self.wire().len() as int));
        assert(y =~= other.wire().subrange(2, other.wire().len() as int));
        encode_utf8_decode_utf8((*self)@);
        encode_utf8_decode_utf8((*other)@);
    }

    fn wire_len(&self) -> (r: Option<usize>) {
        let len = self.as_bytes().len();
        if len > MAX_STRING_LEN {
            None
        } else {
            assert(self.wire().len() == len + 2);
            Some(len + 2)
        }
    }

    fn write(&self, buf: &mut [u8], at: usize) -> (r: Option<usize>) {
        let bytes = self.as_bytes();
        let len = bytes.len();
        if len > MAX_STRING_LEN || buf.len() - at < 2 || buf.len() - at - 2 < len {
            return None;
        }
        let start = at + 2;
        let end = start + len;
        buf[at] = (len % 256) as u8;
        buf[at + 1] = (len / 256) as u8;
        let mut i: usize = 0;
        while i < len
            invariant
                i <= len,
                len == bytes@.len(),
                start == at + 2,
                end == start + len,
                end <= buf@.len(),
                buf@.len() == old(buf)@.len(),
                forall|j: int| 0 <= j < at ==> buf@[j] == old(buf)@[j],
                buf@[at as int] == (len % 256) as u8,
                buf@[at + 1] == (len / 256) as u8,
                forall|j: int| 0 <= j < i ==> buf@[start + j] == bytes@[j],
                forall|j: int| end <= j < buf@.len() ==> buf@[j] == old(buf)@[j],
            decreases len - i,
        {
            buf[start + i] = bytes[i];
            i += 1;
        }
        assert(buf@ =~= old(buf)@.subrange(0, at as int) + self.wire() + old(buf)@.subrange(
            end as int,
            old(buf)@.len() as int,
        ));
        Some(end)
    }

    fn decode(data: &'a [u8]) -> (r: Option<(Self, &'a [u8])>) {
        if data.len() < 2 {
            return None;
        }
        let len = data[0] as usize + 256 * (data[1] as usize);
        if data.len() - 2 < len {
            return None;
        }
        let body = slice_subrange(data, 2, 2 + len);
        match str_from_utf8(body) {
            Some(s) => {
                proof {
                    assert(s.wire() =~= data@.subrange(0, 2 + len));
                }
                Some((s, slice_subrange(data, 2 + len, data.len())))
            },
            None => None,
        }
    }
}

impl<'a, A: Data<'a>, B: Data<'a>> Data<'a> for (A, B) {
    const SIZE: usize = A::SIZE + B::SIZE;

    open spec fn wire(&self) -> Seq<u8> {
        self.0.wire() + self.1.wire()
    }

    open spec fn fits(&self) -> bool {
        self.0.fits() && self.1.fits()
    }

    open spec fn same(&self, other: &Self) -> bool {
        self.0.same(&other.0) && self.1.same(&other.1)
    }

    open spec fn frame(data: Seq<u8>) -> Option<nat> {
        match A::frame(data) {
            Some(n) => if n <= data.len() {
                match B::frame(data.skip(n as int)) {
                    Some(m) => Some(n + m),
                    None => None,
                }
            } else {
                None
            },
            None => None,
        }
    }

    proof fn lemma_frame_bound(data: Seq<u8>) {
        A::lemma_frame_bound(data);
        if let Some(n) = A::frame(data) {
            B::lemma_frame_bound(data.skip(n as int));
        }
    }

    proof fn lemma_frame_of_wire(&self, tail: Seq<u8>) {
        let data = self.wire() + tail;
        let n = self.0.wire().len();
        assert(data =~= self.0.wire() + (self.1.wire() + tail));
        self.0.lemma_frame_of_wire(self.1.wire() + tail);
        assert(data.skip(n as int) =~= self.1.wire() + tail);
        self.1.lemma_frame_of_wire(tail);
    }

    proof fn lemma_same_wire(&self, other: &Self) {
        let w = self.wire();
        assert(w =~= self.0.wire() + self.1.wire());
        self.0.lemma_frame_of_wire(self.1.wire());
        other.0.lemma_frame_of_wire(other.1.wire());
        let n = self.0.wire().len() as int;
        assert(self.0.wire() =~= w.subrange(0, n));
        assert(other.0.wire() =~= w.subrange(0, n));
        assert(self.1.wire() =~= w.subrange(n, w.len() as int));
        assert(other.1.wire() =~= w.subrange(n, w.len() as int));
        self.0.lemma_same_wire(&other.0);
        self.1.lemma_same_wire(&other.1);
    }

    fn wire_len(&self) -> (r: Option<usize>) {
        let a = self.0.wire_len()?;
        let b = self.1.wire_len()?;
        a.checked_add(b)
    }

    fn write(&self, buf: &mut [u8], at: usize) -> (r: Option<usize>) {
        let room = buf.len() - at;
        let total = self.wire_len()?;
        if room < total {
            return None;
        }
        let mid = self.0.write(buf, at)?;
        let ghost half = buf@;
        let end = self.1.write(buf, mid)?;
        proof {
            let all = old(buf)@;
            assert(buf@ =~= all.subrange(0, at as int) + self.wire() + all.subrange(
                end as int,
                all.len() as int,
            ));
        }
        Some(end)
    }

    fn decode(data: &'a [u8]) -> (r: Option<(Self, &'a [u8])>) {
        proof {
            A::lemma_frame_bound(data@);
        }
        let (a, rest) = A::decode(data)?;
        let ghost n = A::frame(data@)->Some_0;
        assert(rest@ =~= data@.skip(n as int));
        let (b, rest2) = B::decode(rest)?;
        proof {
            let m = B::frame(rest@)->Some_0;
            assert((a, b).wire() =~= data@.subrange(0, (n + m) as int));
            assert(rest2@ =~= data@.subrange((n + m) as int, data@.len() as int));
        }
        Some(((a, b), rest2))
    }
}

} // verus!
