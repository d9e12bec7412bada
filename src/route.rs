//! Route keys: the optional first 8 bytes of a Message plaintext, a
//! big-endian key that the server dispatches on. A key is derived from a
//! string tag with 64-bit MurmurHash2 (`MurmurHash64A`) and seed 69.
use vstd::prelude::*;

use crate::errors::AWError;
use vstd::arithmetic::div_mod::{lemma_div_denominator, lemma_fundamental_div_mod};
use vstd::string::StringSliceAdditionalSpecFns;

verus! {

/// Seed of the route hash; part of the wire contract.
pub const ROUTE_SEED: u64 = 69;

/// `MurmurHash64A` of `key` with seed `seed`.
pub uninterp spec fn murmur64a(key: Seq<u8>, seed: u64) -> u64;

/// Relies on `murmurhash64::murmur_hash64a`: the 64-bit MurmurHash2 of
/// `key` under `seed`, a function of its arguments alone.
#[verifier::external_body]
fn murmur_hash64a(key: &[u8], seed: u64) -> (r: u64)
    ensures
        r == murmur64a(key@, seed),
{
    murmurhash64::murmur_hash64a(key, seed)
}

/// The big-endian value of the first eight bytes of `s`.
pub open spec fn be64_value(s: Seq<u8>) -> nat
    recommends
        s.len() >= 8,
{
    s[0] as nat * 72057594037927936 + s[1] as nat * 281474976710656 + s[2] as nat * 1099511627776
        + s[3] as nat * 4294967296 + s[4] as nat * 16777216 + s[5] as nat * 65536 + s[6] as nat * 256
        + s[7] as nat
}

/// The eight big-endian bytes of `v`.
pub open spec fn be64_bytes(v: u64) -> Seq<u8> {
    seq![
        (v / 72057594037927936) as u8,
        ((v / 281474976710656) % 256) as u8,
        ((v / 1099511627776) % 256) as u8,
        ((v / 4294967296) % 256) as u8,
        ((v / 16777216) % 256) as u8,
        ((v / 65536) % 256) as u8,
        ((v / 256) % 256) as u8,
        (v % 256) as u8,
    ]
}

/// Service that has several handlers addresses them by route: a 64-bit key.
#[derive(Clone, Copy, Debug, PartialEq, Eq, Hash, Structural)]
pub struct Route(pub u64);

impl Route {
    /// The key of the route.
    pub fn id(&self) -> (r: u64)
        ensures
            r == self.0,
    {
        self.0
    }

    /// The key of the route, as an integer.
    pub fn as_u64(&self) -> (r: u64)
        ensures
            r == self.0,
    {
        self.0
    }

    /// The route for a string tag: its MurmurHash64A under seed 69.
    pub fn from_tag(tag: &str) -> (r: Route)
        ensures
            r.0 == murmur64a(tag.spec_bytes(), ROUTE_SEED),
    {
        Route(murmur_hash64a(tag.as_bytes(), ROUTE_SEED))
    }
}

impl From<u64> for Route {
    fn from(src: u64) -> (r: Route)
        ensures
            r.0 == src,
    {
        Route(src)
    }
}

impl vstd::std_specs::convert::FromSpecImpl<u64> for Route {
    open spec fn obeys_from_spec() -> bool {
        true
    }

    open spec fn from_spec(v: u64) -> Route {
        Route(v)
    }
}

/// Reads the big-endian value of the first eight bytes.
pub fn read_u64_be(s: &[u8]) -> (r: u64)
    requires
        s@.len() >= 8,
    ensures
        r as nat == be64_value(s@),
{
    (s[0] as u64) * 72057594037927936 + (s[1] as u64) * 281474976710656 + (s[2] as u64) * 1099511627776
        + (s[3] as u64) * 4294967296 + (s[4] as u64) * 16777216 + (s[5] as u64) * 65536 + (s[6] as u64) * 256
        + (s[7] as u64)
}

/// Appends the eight big-endian bytes of `v`.
pub fn write_u64_be(buf: &mut Vec<u8>, v: u64)
    ensures
        final(buf)@ == old(buf)@ + be64_bytes(v),
{
    let ghost start = buf@;
    buf.push((v / 72057594037927936) as u8);
    buf.push(((v / 281474976710656) % 256) as u8);
    buf.push(((v / 1099511627776) % 256) as u8);
    buf.push(((v / 4294967296) % 256) as u8);
    buf.push(((v / 16777216) % 256) as u8);
    buf.push(((v / 65536) % 256) as u8);
    buf.push(((v / 256) % 256) as u8);
    buf.push((v % 256) as u8);
    assert(buf@ =~= start + be64_bytes(v));
}

/// Eight big-endian bytes read back give the value written: the key that
/// `route_payload` writes is the key that `route_from_payload` reads.
pub proof fn lemma_be64_round_trip(v: u64)
    ensures
        be64_value(be64_bytes(v)) == v as nat,
{
    let x = v as int;
    let b = be64_bytes(v);
    assert(b[0] as int == x / 72057594037927936);
    assert(b[1] as nat == (x / 281474976710656) % 256);
    assert(b[2] as nat == (x / 1099511627776) % 256);
    assert(b[3] as nat == (x / 4294967296) % 256);
    assert(b[4] as nat == (x / 16777216) % 256);
    assert(b[5] as nat == (x / 65536) % 256);
    assert(b[6] as nat == (x / 256) % 256);
    assert(b[7] as int == x % 256);
    lemma_fundamental_div_mod(x / 1, 256);
    lemma_div_denominator(x, 1, 256);
    assert(1 * 256 == 256);
    lemma_fundamental_div_mod(x / 256, 256);
    lemma_div_denominator(x, 256, 256);
    assert(256 * 256 == 65536);
    lemma_fundamental_div_mod(x / 65536, 256);
    lemma_div_denominator(x, 65536, 256);
    assert(65536 * 256 == 16777216);
    lemma_fundamental_div_mod(x / 16777216, 256);
    lemma_div_denominator(x, 16777216, 256);
    assert(16777216 * 256 == 4294967296);
    lemma_fundamental_div_mod(x / 4294967296, 256);
    lemma_div_denominator(x, 4294967296, 256);
    assert(4294967296 * 256 == 1099511627776);
    lemma_fundamental_div_mod(x / 1099511627776, 256);
    lemma_div_denominator(x, 1099511627776, 256);
    assert(1099511627776 * 256 == 281474976710656);
    lemma_fundamental_div_mod(x / 281474976710656, 256);
    lemma_div_denominator(x, 281474976710656, 256);
    assert(281474976710656 * 256 == 72057594037927936);
    assert(x / 1 == x);
}

/// A message for the route `route`, if any: the route key in eight
/// big-endian bytes, then `payload`.
pub fn route_payload(route: Option<Route>, payload: &[u8]) -> (r: Vec<u8>)
    ensures
        route is None ==> r@ == payload@,
        route matches Some(rt) ==> r@ == be64_bytes(rt.0) + payload@,
{
    let mut r: Vec<u8> = Vec::new();
    match route {
        None => {},
        Some(rt) => write_u64_be(&mut r, rt.0),
    }
    crate::frame::push_all(&mut r, payload);
    assert(route is None ==> r@ =~= payload@);
    r
}

/// Takes the route key off the front of a message; a message shorter than
/// 8 bytes has none.
pub fn route_from_payload(payload: &mut Vec<u8>) -> (r: Result<Route, AWError>)
    ensures
        old(payload)@.len() < 8 ==> r == Err::<Route, AWError>(AWError::InvalidRoute) && final(payload)@ == old(payload)@,
        old(payload)@.len() >= 8 ==> r == Ok::<Route, AWError>(Route(be64_value(old(payload)@) as u64))
            && final(payload)@ == old(payload)@.subrange(8, old(payload)@.len() as int),
{
    if payload.len() < 8 {
        return Err(AWError::InvalidRoute);
    }
    let key = read_u64_be(payload.as_slice());
    let rest = payload.split_off(8);
    *payload = rest;
    Ok(Route(key))
}

} // verus!
