//! A fixed 4096-bit unsigned integer, held as 512 bytes, and the arithmetic
//! that relates byte strings to the numbers they spell.

use vstd::arithmetic::div_mod::{lemma_breakdown, lemma_small_mod};
use vstd::arithmetic::power::{lemma_pow_increases, lemma_pow_positive, pow};
use vstd::prelude::*;

verus! {

/// The number that `bytes` spell, most significant byte first.
pub open spec fn be_nat(bytes: Seq<u8>) -> nat
    decreases bytes.len(),
{
    if bytes.len() == 0 {
        0
    } else {
        be_nat(bytes.drop_last()) * 256 + bytes.last() as nat
    }
}

/// The number that `bytes` spell, least significant byte first.
pub open spec fn le_nat(bytes: Seq<u8>) -> nat
    decreases bytes.len(),
{
    if bytes.len() == 0 {
        0
    } else {
        bytes[0] as nat + 256 * le_nat(bytes.drop_first())
    }
}

/// The low `len` bytes of `n`, most significant first.
pub open spec fn be_bytes(n: nat, len: nat) -> Seq<u8>
    decreases len,
{
    if len == 0 {
        Seq::empty()
    } else {
        be_bytes(n / 256, (len - 1) as nat).push((n % 256) as u8)
    }
}

/// A number padded with zeros to 512 bytes, most significant first.
pub open spec fn pad(n: nat) -> Seq<u8> {
    be_bytes(n, 512)
}

/// True when every byte of `bytes` is zero.
pub open spec fn all_zero(bytes: Seq<u8>) -> bool {
    forall|i: int| 0 <= i < bytes.len() ==> bytes[i] == 0
}

/// The first number that does not fit in 4096 bits.
pub open spec fn bound_4096() -> int {
    pow(256, 512)
}

/// `be_bytes` gives as many bytes as it is asked for.
pub proof fn lemma_be_bytes_len(n: nat, len: nat)
    ensures
        be_bytes(n, len).len() == len,
    decreases len,
{
    if len > 0 {
        lemma_be_bytes_len(n / 256, (len - 1) as nat);
    }
}

/// A number spelled by `n` bytes is below `256^n`.
pub proof fn lemma_be_nat_bound(bytes: Seq<u8>)
    ensures
        be_nat(bytes) < pow(256, bytes.len()),
    decreases bytes.len(),
{
    reveal(pow);
    if bytes.len() > 0 {
        lemma_be_nat_bound(bytes.drop_last());
    }
}

/// Spelling the number of a byte string in as many bytes gives the string back.
pub proof fn lemma_be_bytes_of_be_nat(bytes: Seq<u8>)
    ensures
        be_bytes(be_nat(bytes), bytes.len()) == bytes,
    decreases bytes.len(),
{
    if bytes.len() > 0 {
        let init = bytes.drop_last();
        lemma_be_bytes_of_be_nat(init);
        assert(be_nat(bytes) / 256 == be_nat(init));
        assert(be_nat(bytes) % 256 == bytes.last());
        assert(bytes =~= init.push(bytes.last()));
    } else {
        assert(bytes =~= Seq::<u8>::empty());
    }
}

/// Reading the `len` low bytes of a number gives the number modulo `256^len`.
pub proof fn lemma_be_nat_of_be_bytes(n: nat, len: nat)
    ensures
        be_nat(be_bytes(n, len)) == n % (pow(256, len) as nat),
    decreases len,
{
    reveal(pow);
    if len > 0 {
        let rest = (len - 1) as nat;
        let s = be_bytes(n, len);
        lemma_be_bytes_len(n / 256, rest);
        assert(s.drop_last() =~= be_bytes(n / 256, rest));
        assert(s.last() == (n % 256) as u8);
        lemma_be_nat_of_be_bytes(n / 256, rest);
        lemma_pow_positive(256, rest);
        lemma_breakdown(n as int, 256, pow(256, rest));
        assert(pow(256, len) == 256 * pow(256, rest));
        assert(256 * ((n as int / 256) % pow(256, rest)) == ((n as int / 256) % pow(256, rest))
            * 256) by (nonlinear_arith);
    } else {
        assert(be_bytes(n, len).len() == 0);
    }
}

/// Two byte strings of one length that spell the same number are the same string.
pub proof fn lemma_be_nat_injective(a: Seq<u8>, b: Seq<u8>)
    requires
        a.len() == b.len(),
        be_nat(a) == be_nat(b),
    ensures
        a == b,
{
    lemma_be_bytes_of_be_nat(a);
    lemma_be_bytes_of_be_nat(b);
}

/// Reversing the bytes turns the big-endian spelling into the little-endian one.
pub proof fn lemma_le_nat_reverse(bytes: Seq<u8>)
    ensures
        le_nat(bytes.reverse()) == be_nat(bytes),
    decreases bytes.len(),
{
    if bytes.len() > 0 {
        let r = bytes.reverse();
        assert(r[0] == bytes.last());
        assert(r.drop_first() =~= bytes.drop_last().reverse());
        lemma_le_nat_reverse(bytes.drop_last());
    }
}

/// Zero bytes in front do not change the number spelled.
pub proof fn lemma_be_nat_leading_zeros(zeros: Seq<u8>, bytes: Seq<u8>)
    requires
        all_zero(zeros),
    ensures
        be_nat(zeros + bytes) == be_nat(bytes),
    decreases bytes.len(), zeros.len(),
{
    let whole = zeros + bytes;
    if bytes.len() > 0 {
        assert(whole.drop_last() =~= zeros + bytes.drop_last());
        assert(whole.last() == bytes.last());
        lemma_be_nat_leading_zeros(zeros, bytes.drop_last());
    } else if zeros.len() > 0 {
        assert(whole =~= zeros);
        assert(zeros.drop_last() + bytes =~= zeros.drop_last());
        assert(all_zero(zeros.drop_last()));
        lemma_be_nat_leading_zeros(zeros.drop_last(), bytes);
    } else {
        assert(whole =~= bytes);
    }
}

/// A number spelled by at most 512 bytes fits in 4096 bits.
pub proof fn lemma_be_nat_fits(bytes: Seq<u8>)
    requires
        bytes.len() <= 512,
    ensures
        be_nat(bytes) < bound_4096(),
{
    lemma_be_nat_bound(bytes);
    lemma_pow_increases(256, bytes.len(), 512);
}

/// Every number of 4096 bits comes back from its 512 bytes, in either byte
/// order.
pub proof fn lemma_pad_round_trip(n: nat)
    requires
        n < bound_4096(),
    ensures
        pad(n).len() == 512,
        be_nat(pad(n)) == n,
        le_nat(pad(n).reverse()) == n,
{
    lemma_be_bytes_len(n, 512);
    lemma_be_nat_of_be_bytes(n, 512);
    lemma_small_mod(n, bound_4096() as nat);
    lemma_le_nat_reverse(pad(n));
}

/// An unsigned integer of exactly 4096 bits.
///
/// Its view is the number itself.
#[derive(Clone, Copy, Debug)]
pub struct U4096 {
    be_bytes: [u8; 512],
}

impl View for U4096 {
    type V = nat;

    closed spec fn view(&self) -> nat {
        be_nat(self.be_bytes@)
    }
}

impl U4096 {
    /// The number fits in 4096 bits.
    pub proof fn lemma_bounded(&self)
        ensures
            self@ < bound_4096(),
    {
        lemma_be_nat_fits(self.be_bytes@);
    }

    /// Two values with one view are one value.
    pub proof fn lemma_eq_by_view(a: Self, b: Self)
        requires
            a@ == b@,
        ensures
            a == b,
    {
        lemma_be_nat_injective(a.be_bytes@, b.be_bytes@);
        assert(a.be_bytes =~= b.be_bytes);
    }

    /// Reads 512 bytes, most significant first.
    pub fn from_be_bytes(bytes: [u8; 512]) -> (r: Self)
        ensures
            r@ == be_nat(bytes@),
            pad(r@) == bytes@,
    {
        proof {
            lemma_be_bytes_of_be_nat(bytes@);
        }
        U4096 { be_bytes: bytes }
    }

    /// Writes the number as 512 bytes, most significant first.
    pub fn to_be_bytes(&self) -> (r: [u8; 512])
        ensures
            r@ == pad(self@),
            be_nat(r@) == self@,
    {
        proof {
            lemma_be_bytes_of_be_nat(self.be_bytes@);
        }
        self.be_bytes
    }

    /// Reads 512 bytes, least significant first.
    pub fn from_le_bytes(bytes: [u8; 512]) -> (r: Self)
        ensures
            r@ == le_nat(bytes@),
            pad(r@) == bytes@.reverse(),
    {
        let r = U4096 { be_bytes: reversed(&bytes) };
        proof {
            lemma_le_nat_reverse(bytes@.reverse());
            assert(bytes@.reverse().reverse() =~= bytes@);
            lemma_be_bytes_of_be_nat(bytes@.reverse());
        }
        r
    }

    /// Writes the number as 512 bytes, least significant first.
    pub fn to_le_bytes(&self) -> (r: [u8; 512])
        ensures
            r@ == pad(self@).reverse(),
            le_nat(r@) == self@,
    {
        let r = reversed(&self.be_bytes);
        proof {
            lemma_le_nat_reverse(self.be_bytes@);
            lemma_be_bytes_of_be_nat(self.be_bytes@);
        }
        r
    }

    /// Reads up to 512 bytes, most significant first, as a 4096-bit number.
    pub fn from_be_slice(bytes: &[u8]) -> (r: Self)
        requires
            bytes@.len() <= 512,
        ensures
            r@ == be_nat(bytes@),
    {
        let n = bytes.len();
        let pad = 512 - n;
        let mut out = [0u8; 512];
        let mut i: usize = 0;
        while i < n
            invariant
                n == bytes@.len(),
                n <= 512,
                pad == 512 - n,
                i <= n,
                forall|j: int| 0 <= j < pad ==> out@[j] == 0,
                forall|j: int| 0 <= j < i ==> out@[pad + j] == bytes@[j],
            decreases n - i,
        {
            out[pad + i] = bytes[i];
            i += 1;
        }
        proof {
            let zeros = out@.subrange(0, pad as int);
            assert(out@ =~= zeros + bytes@);
            lemma_be_nat_leading_zeros(zeros, bytes@);
        }
        U4096 { be_bytes: out }
    }
}

/// The bytes of `bytes` in the opposite order.
pub fn reversed(bytes: &[u8; 512]) -> (r: [u8; 512])
    ensures
        r@ == bytes@.reverse(),
{
    let mut out = [0u8; 512];
    let mut i: usize = 0;
    while i < 512
        invariant
            i <= 512,
            forall|j: int| 0 <= j < i ==> out@[j] == bytes@[511 - j],
        decreases 512 - i,
    {
        out[i] = bytes[511 - i];
        i += 1;
    }
    assert(out@ =~= bytes@.reverse());
    out
}

} // verus!
