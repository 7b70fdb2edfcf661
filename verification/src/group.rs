//! The 4096-bit safe-prime group in which the handshake computes, and its
//! modular arithmetic.

use crate::bigint::{be_nat, bound_4096, U4096};
use crypto_bigint::modular::{MontyForm, MontyParams};
use crypto_bigint::{CheckedAdd, CheckedMul, Encoding, Odd, Zero};
use vstd::arithmetic::div_mod::{
    lemma_add_mod_noop, lemma_mod_bound, lemma_mod_twice, lemma_mul_mod_noop_general,
    lemma_sub_mod_noop,
};
use vstd::arithmetic::power::{lemma_pow_mod_noop, pow};
use vstd::prelude::*;

verus! {

/// The group prime, most significant byte first: the 4096-bit MODP prime
/// `2^4096 - 2^4032 - 1 + 2^64 * (floor(2^3966 * pi) + 240904)`.
pub const N_BYTES: [u8; 512] = [
    0xFF, 0xFF, 0xFF, 0xFF, 0xFF, 0xFF, 0xFF, 0xFF, 0xC9, 0x0F, 0xDA, 0xA2, 0x21, 0x68, 0xC2, 0x34,
    0xC4, 0xC6, 0x62, 0x8B, 0x80, 0xDC, 0x1C, 0xD1, 0x29, 0x02, 0x4E, 0x08, 0x8A, 0x67, 0xCC, 0x74,
    0x02, 0x0B, 0xBE, 0xA6, 0x3B, 0x13, 0x9B, 0x22, 0x51, 0x4A, 0x08, 0x79, 0x8E, 0x34, 0x04, 0xDD,
    0xEF, 0x95, 0x19, 0xB3, 0xCD, 0x3A, 0x43, 0x1B, 0x30, 0x2B, 0x0A, 0x6D, 0xF2, 0x5F, 0x14, 0x37,
    0x4F, 0xE1, 0x35, 0x6D, 0x6D, 0x51, 0xC2, 0x45, 0xE4, 0x85, 0xB5, 0x76, 0x62, 0x5E, 0x7E, 0xC6,
    0xF4, 0x4C, 0x42, 0xE9, 0xA6, 0x37, 0xED, 0x6B, 0x0B, 0xFF, 0x5C, 0xB6, 0xF4, 0x06, 0xB7, 0xED,
    0xEE, 0x38, 0x6B, 0xFB, 0x5A, 0x89, 0x9F, 0xA5, 0xAE, 0x9F, 0x24, 0x11, 0x7C, 0x4B, 0x1F, 0xE6,
    0x49, 0x28, 0x66, 0x51, 0xEC, 0xE4, 0x5B, 0x3D, 0xC2, 0x00, 0x7C, 0xB8, 0xA1, 0x63, 0xBF, 0x05,
    0x98, 0xDA, 0x48, 0x36, 0x1C, 0x55, 0xD3, 0x9A, 0x69, 0x16, 0x3F, 0xA8, 0xFD, 0x24, 0xCF, 0x5F,
    0x83, 0x65, 0x5D, 0x23, 0xDC, 0xA3, 0xAD, 0x96, 0x1C, 0x62, 0xF3, 0x56, 0x20, 0x85, 0x52, 0xBB,
    0x9E, 0xD5, 0x29, 0x07, 0x70, 0x96, 0x96, 0x6D, 0x67, 0x0C, 0x35, 0x4E, 0x4A, 0xBC, 0x98, 0x04,
    0xF1, 0x74, 0x6C, 0x08, 0xCA, 0x18, 0x21, 0x7C, 0x32, 0x90, 0x5E, 0x46, 0x2E, 0x36, 0xCE, 0x3B,
    0xE3, 0x9E, 0x77, 0x2C, 0x18, 0x0E, 0x86, 0x03, 0x9B, 0x27, 0x83, 0xA2, 0xEC, 0x07, 0xA2, 0x8F,
    0xB5, 0xC5, 0x5D, 0xF0, 0x6F, 0x4C, 0x52, 0xC9, 0xDE, 0x2B, 0xCB, 0xF6, 0x95, 0x58, 0x17, 0x18,
    0x39, 0x95, 0x49, 0x7C, 0xEA, 0x95, 0x6A, 0xE5, 0x15, 0xD2, 0x26, 0x18, 0x98, 0xFA, 0x05, 0x10,
    0x15, 0x72, 0x8E, 0x5A, 0x8A, 0xAA, 0xC4, 0x2D, 0xAD, 0x33, 0x17, 0x0D, 0x04, 0x50, 0x7A, 0x33,
    0xA8, 0x55, 0x21, 0xAB, 0xDF, 0x1C, 0xBA, 0x64, 0xEC, 0xFB, 0x85, 0x04, 0x58, 0xDB, 0xEF, 0x0A,
    0x8A, 0xEA, 0x71, 0x57, 0x5D, 0x06, 0x0C, 0x7D, 0xB3, 0x97, 0x0F, 0x85, 0xA6, 0xE1, 0xE4, 0xC7,
    0xAB, 0xF5, 0xAE, 0x8C, 0xDB, 0x09, 0x33, 0xD7, 0x1E, 0x8C, 0x94, 0xE0, 0x4A, 0x25, 0x61, 0x9D,
    0xCE, 0xE3, 0xD2, 0x26, 0x1A, 0xD2, 0xEE, 0x6B, 0xF1, 0x2F, 0xFA, 0x06, 0xD9, 0x8A, 0x08, 0x64,
    0xD8, 0x76, 0x02, 0x73, 0x3E, 0xC8, 0x6A, 0x64, 0x52, 0x1F, 0x2B, 0x18, 0x17, 0x7B, 0x20, 0x0C,
    0xBB, 0xE1, 0x17, 0x57, 0x7A, 0x61, 0x5D, 0x6C, 0x77, 0x09, 0x88, 0xC0, 0xBA, 0xD9, 0x46, 0xE2,
    0x08, 0xE2, 0x4F, 0xA0, 0x74, 0xE5, 0xAB, 0x31, 0x43, 0xDB, 0x5B, 0xFC, 0xE0, 0xFD, 0x10, 0x8E,
    0x4B, 0x82, 0xD1, 0x20, 0xA9, 0x21, 0x08, 0x01, 0x1A, 0x72, 0x3C, 0x12, 0xA7, 0x87, 0xE6, 0xD7,
    0x88, 0x71, 0x9A, 0x10, 0xBD, 0xBA, 0x5B, 0x26, 0x99, 0xC3, 0x27, 0x18, 0x6A, 0xF4, 0xE2, 0x3C,
    0x1A, 0x94, 0x68, 0x34, 0xB6, 0x15, 0x0B, 0xDA, 0x25, 0x83, 0xE9, 0xCA, 0x2A, 0xD4, 0x4C, 0xE8,
    0xDB, 0xBB, 0xC2, 0xDB, 0x04, 0xDE, 0x8E, 0xF9, 0x2E, 0x8E, 0xFC, 0x14, 0x1F, 0xBE, 0xCA, 0xA6,
    0x28, 0x7C, 0x59, 0x47, 0x4E, 0x6B, 0xC0, 0x5D, 0x99, 0xB2, 0x96, 0x4F, 0xA0, 0x90, 0xC3, 0xA2,
    0x23, 0x3B, 0xA1, 0x86, 0x51, 0x5B, 0xE7, 0xED, 0x1F, 0x61, 0x29, 0x70, 0xCE, 0xE2, 0xD7, 0xAF,
    0xB8, 0x1B, 0xDD, 0x76, 0x21, 0x70, 0x48, 0x1C, 0xD0, 0x06, 0x91, 0x27, 0xD5, 0xB0, 0x5A, 0xA9,
    0x93, 0xB4, 0xEA, 0x98, 0x8D, 0x8F, 0xDD, 0xC1, 0x86, 0xFF, 0xB7, 0xDC, 0x90, 0xA6, 0xC0, 0x8F,
    0x4D, 0xF4, 0x35, 0xC9, 0x34, 0x06, 0x31, 0x99, 0xFF, 0xFF, 0xFF, 0xFF, 0xFF, 0xFF, 0xFF, 0xFF,
];

/// The group generator.
pub const G: u8 = 5;

/// The group prime as a number.
pub open spec fn group_n() -> nat {
    be_nat(N_BYTES@)
}

/// The group generator as a number.
pub open spec fn group_g() -> nat {
    G as nat
}

/// `x` reduced into `[0, N)`, also for a negative `x`.
pub open spec fn mod_n(x: int) -> nat {
    (x % (group_n() as int)) as nat
}

/// `base` to the power `exponent`, reduced into `[0, N)`.
pub open spec fn pow_mod_n(base: nat, exponent: nat) -> nat {
    mod_n(pow(base as int, exponent))
}

/// The group prime is odd, so it is at least one.
pub proof fn lemma_group_n_odd()
    ensures
        group_n() % 2 == 1,
        group_n() > 0,
{
    assert(N_BYTES@.len() == 512);
    assert(N_BYTES@.last() == 0xFF);
}

/// True when `x` and `y` leave the same remainder modulo the group prime.
pub open spec fn congruent(x: int, y: int) -> bool {
    mod_n(x) == mod_n(y)
}

/// A remainder is congruent to the number it was taken of.
pub proof fn lemma_mod_n_congruent(x: int)
    ensures
        congruent(mod_n(x) as int, x),
        mod_n(x) < group_n(),
{
    lemma_group_n_odd();
    lemma_mod_bound(x, group_n() as int);
    lemma_mod_twice(x, group_n() as int);
}

/// Sums of congruent numbers are congruent.
pub proof fn lemma_congruent_add(x1: int, x2: int, y1: int, y2: int)
    requires
        congruent(x1, x2),
        congruent(y1, y2),
    ensures
        congruent(x1 + y1, x2 + y2),
{
    lemma_group_n_odd();
    let n = group_n() as int;
    lemma_mod_bound(x1, n);
    lemma_mod_bound(x2, n);
    lemma_mod_bound(y1, n);
    lemma_mod_bound(y2, n);
    lemma_add_mod_noop(x1, y1, n);
    lemma_add_mod_noop(x2, y2, n);
}

/// Differences of congruent numbers are congruent.
pub proof fn lemma_congruent_sub(x1: int, x2: int, y1: int, y2: int)
    requires
        congruent(x1, x2),
        congruent(y1, y2),
    ensures
        congruent(x1 - y1, x2 - y2),
{
    lemma_group_n_odd();
    let n = group_n() as int;
    lemma_mod_bound(x1, n);
    lemma_mod_bound(x2, n);
    lemma_mod_bound(y1, n);
    lemma_mod_bound(y2, n);
    lemma_sub_mod_noop(x1, y1, n);
    lemma_sub_mod_noop(x2, y2, n);
}

/// Products of congruent numbers are congruent.
pub proof fn lemma_congruent_mul(x1: int, x2: int, y1: int, y2: int)
    requires
        congruent(x1, x2),
        congruent(y1, y2),
    ensures
        congruent(x1 * y1, x2 * y2),
{
    lemma_group_n_odd();
    let n = group_n() as int;
    lemma_mod_bound(x1, n);
    lemma_mod_bound(x2, n);
    lemma_mod_bound(y1, n);
    lemma_mod_bound(y2, n);
    lemma_mul_mod_noop_general(x1, y1, n);
    lemma_mul_mod_noop_general(x2, y2, n);
}

/// Equal powers of congruent numbers are congruent.
pub proof fn lemma_congruent_pow(x1: int, x2: int, e: nat)
    requires
        congruent(x1, x2),
    ensures
        congruent(pow(x1, e), pow(x2, e)),
{
    lemma_group_n_odd();
    let n = group_n() as int;
    lemma_mod_bound(x1, n);
    lemma_mod_bound(x2, n);
    lemma_pow_mod_noop(x1, e, n);
    lemma_pow_mod_noop(x2, e, n);
}

/// Calls `MontyForm::new` and `MontyForm::retrieve` of crypto-bigint: the
/// residue of `x` modulo an odd `modulus`. All numbers are 512 bytes, most
/// significant first.
#[verifier::external_body]
fn monty_reduce(x: &[u8; 512], modulus: &[u8; 512]) -> (r: [u8; 512])
    requires
        be_nat(modulus@) % 2 == 1,
    ensures
        be_nat(r@) == be_nat(x@) % be_nat(modulus@),
{
    let m = Odd::new(crypto_bigint::U4096::from_be_bytes(*modulus)).unwrap();
    let x = crypto_bigint::U4096::from_be_bytes(*x);
    MontyForm::new(&x, MontyParams::new_vartime(m)).retrieve().to_be_bytes()
}

/// Calls `MontyForm::pow` of crypto-bigint on the residue of `base`: the
/// power `base^exponent` modulo an odd `modulus`. All numbers are 512 bytes,
/// most significant first.
#[verifier::external_body]
fn monty_pow(base: &[u8; 512], exponent: &[u8; 512], modulus: &[u8; 512]) -> (r: [u8; 512])
    requires
        be_nat(modulus@) % 2 == 1,
    ensures
        be_nat(r@) == pow(be_nat(base@) as int, be_nat(exponent@)) % (be_nat(modulus@) as int),
{
    let m = Odd::new(crypto_bigint::U4096::from_be_bytes(*modulus)).unwrap();
    let b = crypto_bigint::U4096::from_be_bytes(*base);
    let e = crypto_bigint::U4096::from_be_bytes(*exponent);
    MontyForm::new(&b, MontyParams::new_vartime(m)).pow(&e).retrieve().to_be_bytes()
}

/// Calls `MontyForm::mul` of crypto-bigint on the residues of `a` and `b`:
/// their product modulo an odd `modulus`. All numbers are 512 bytes, most
/// significant first.
#[verifier::external_body]
fn monty_mul(a: &[u8; 512], b: &[u8; 512], modulus: &[u8; 512]) -> (r: [u8; 512])
    requires
        be_nat(modulus@) % 2 == 1,
    ensures
        be_nat(r@) == (be_nat(a@) * be_nat(b@)) % be_nat(modulus@),
{
    let m = Odd::new(crypto_bigint::U4096::from_be_bytes(*modulus)).unwrap();
    let p = MontyParams::new_vartime(m);
    let a = MontyForm::new(&crypto_bigint::U4096::from_be_bytes(*a), p);
    let b = MontyForm::new(&crypto_bigint::U4096::from_be_bytes(*b), p);
    a.mul(&b).retrieve().to_be_bytes()
}

/// Calls `MontyForm::add` of crypto-bigint on the residues of `a` and `b`:
/// their sum modulo an odd `modulus`. All numbers are 512 bytes, most
/// significant first.
#[verifier::external_body]
fn monty_add(a: &[u8; 512], b: &[u8; 512], modulus: &[u8; 512]) -> (r: [u8; 512])
    requires
        be_nat(modulus@) % 2 == 1,
    ensures
        be_nat(r@) == (be_nat(a@) + be_nat(b@)) % be_nat(modulus@),
{
    let m = Odd::new(crypto_bigint::U4096::from_be_bytes(*modulus)).unwrap();
    let p = MontyParams::new_vartime(m);
    let a = MontyForm::new(&crypto_bigint::U4096::from_be_bytes(*a), p);
    let b = MontyForm::new(&crypto_bigint::U4096::from_be_bytes(*b), p);
    a.add(&b).retrieve().to_be_bytes()
}

/// Calls `MontyForm::sub` of crypto-bigint on the residues of `a` and `b`:
/// their difference modulo an odd `modulus`, in `[0, modulus)` also where
/// `a` is the smaller. All numbers are 512 bytes, most significant first.
#[verifier::external_body]
fn monty_sub(a: &[u8; 512], b: &[u8; 512], modulus: &[u8; 512]) -> (r: [u8; 512])
    requires
        be_nat(modulus@) % 2 == 1,
    ensures
        be_nat(r@) == (be_nat(a@) - be_nat(b@)) % (be_nat(modulus@) as int),
{
    let m = Odd::new(crypto_bigint::U4096::from_be_bytes(*modulus)).unwrap();
    let p = MontyParams::new_vartime(m);
    let a = MontyForm::new(&crypto_bigint::U4096::from_be_bytes(*a), p);
    let b = MontyForm::new(&crypto_bigint::U4096::from_be_bytes(*b), p);
    a.sub(&b).retrieve().to_be_bytes()
}

/// Calls `Zero::is_zero` of crypto-bigint on a number of 512 bytes, most
/// significant first. It compares with zero in constant time.
#[verifier::external_body]
fn uint_is_zero(x: &[u8; 512]) -> (r: bool)
    ensures
        r == (be_nat(x@) == 0),
{
    crypto_bigint::U4096::from_be_bytes(*x).is_zero().into()
}

/// Calls `CheckedMul::checked_mul` of crypto-bigint on two numbers of 512
/// bytes, most significant first: the product where it fits in 4096 bits,
/// and nothing where it does not.
#[verifier::external_body]
fn uint_checked_mul(a: &[u8; 512], b: &[u8; 512]) -> (r: Option<[u8; 512]>)
    ensures
        r is Some <==> be_nat(a@) * be_nat(b@) < bound_4096(),
        r matches Some(p) ==> be_nat(p@) == be_nat(a@) * be_nat(b@),
{
    let a = crypto_bigint::U4096::from_be_bytes(*a);
    let b = crypto_bigint::U4096::from_be_bytes(*b);
    a.checked_mul(&b).map(|p| p.to_be_bytes()).into()
}

/// Calls `CheckedAdd::checked_add` of crypto-bigint on two numbers of 512
/// bytes, most significant first: the sum where it fits in 4096 bits, and
/// nothing where it does not.
#[verifier::external_body]
fn uint_checked_add(a: &[u8; 512], b: &[u8; 512]) -> (r: Option<[u8; 512]>)
    ensures
        r is Some <==> be_nat(a@) + be_nat(b@) < bound_4096(),
        r matches Some(s) ==> be_nat(s@) == be_nat(a@) + be_nat(b@),
{
    let a = crypto_bigint::U4096::from_be_bytes(*a);
    let b = crypto_bigint::U4096::from_be_bytes(*b);
    a.checked_add(&b).map(|s| s.to_be_bytes()).into()
}

/// The group prime.
pub fn modulus() -> (n: U4096)
    ensures
        n@ == group_n(),
{
    U4096::from_be_bytes(N_BYTES)
}

/// The group generator.
pub fn generator() -> (g: U4096)
    ensures
        g@ == group_g(),
{
    let one = [G];
    proof {
        reveal_with_fuel(be_nat, 2);
        assert(one@.len() == 1 && one@.last() == G);
        assert(one@.drop_last().len() == 0);
    }
    U4096::from_be_slice(one.as_slice())
}

/// `x` modulo the group prime.
pub fn reduce(x: &U4096) -> (r: U4096)
    ensures
        r@ == mod_n(x@ as int),
{
    proof {
        lemma_group_n_odd();
    }
    U4096::from_be_bytes(monty_reduce(&x.to_be_bytes(), &N_BYTES))
}

/// True when `x` is a multiple of the group prime. The comparison takes the
/// same time whatever `x` is.
pub fn is_zero_mod(x: &U4096) -> (r: bool)
    ensures
        r == (mod_n(x@ as int) == 0),
{
    let reduced = reduce(x);
    uint_is_zero(&reduced.to_be_bytes())
}

/// `base^exponent` modulo the group prime.
pub fn pow_mod(base: &U4096, exponent: &U4096) -> (r: U4096)
    ensures
        r@ == pow_mod_n(base@, exponent@),
{
    proof {
        lemma_group_n_odd();
    }
    U4096::from_be_bytes(monty_pow(&base.to_be_bytes(), &exponent.to_be_bytes(), &N_BYTES))
}

/// `a * b` modulo the group prime.
pub fn mul_mod(a: &U4096, b: &U4096) -> (r: U4096)
    ensures
        r@ == mod_n((a@ * b@) as int),
{
    proof {
        lemma_group_n_odd();
    }
    U4096::from_be_bytes(monty_mul(&a.to_be_bytes(), &b.to_be_bytes(), &N_BYTES))
}

/// `a + b` modulo the group prime.
pub fn add_mod(a: &U4096, b: &U4096) -> (r: U4096)
    ensures
        r@ == mod_n((a@ + b@) as int),
{
    proof {
        lemma_group_n_odd();
    }
    U4096::from_be_bytes(monty_add(&a.to_be_bytes(), &b.to_be_bytes(), &N_BYTES))
}

/// `a - b` modulo the group prime: where `a` is the smaller, the prime is
/// added until the difference is in `[0, N)`.
pub fn sub_mod(a: &U4096, b: &U4096) -> (r: U4096)
    ensures
        r@ == mod_n(a@ - b@),
{
    proof {
        lemma_group_n_odd();
    }
    U4096::from_be_bytes(monty_sub(&a.to_be_bytes(), &b.to_be_bytes(), &N_BYTES))
}

/// `a * b` where the product fits in 4096 bits, and `None` where it does not.
pub fn checked_mul(a: &U4096, b: &U4096) -> (r: Option<U4096>)
    ensures
        r is Some <==> a@ * b@ < bound_4096(),
        r matches Some(p) ==> p@ == a@ * b@,
{
    match uint_checked_mul(&a.to_be_bytes(), &b.to_be_bytes()) {
        Some(p) => Some(U4096::from_be_bytes(p)),
        None => None,
    }
}

/// `a + b` where the sum fits in 4096 bits, and `None` where it does not.
pub fn checked_add(a: &U4096, b: &U4096) -> (r: Option<U4096>)
    ensures
        r is Some <==> a@ + b@ < bound_4096(),
        r matches Some(s) ==> s@ == a@ + b@,
{
    match uint_checked_add(&a.to_be_bytes(), &b.to_be_bytes()) {
        Some(s) => Some(U4096::from_be_bytes(s)),
        None => None,
    }
}

} // verus!
