//! Keys, nonces and the authenticated public-key box (NaCl `crypto_box`).
//!
//! The box itself is computed by libsodium through `sodiumoxide`; the
//! library only names its results and states the facts it relies on.
use vstd::prelude::*;

verus! {

/// Number of bytes in a public or secret key.
pub const KEY_BYTES: usize = 32;

/// Number of bytes in a nonce.
pub const NONCE_BYTES: usize = 24;

/// Number of bytes by which a sealed box is longer than its plaintext.
pub const MAC_BYTES: usize = 16;

/// A Curve25519 public key.
#[derive(Clone, Copy, Debug, PartialEq, Eq)]
pub struct PublicKey(pub [u8; 32]);

/// A Curve25519 secret key.
#[derive(Clone, Copy, Debug, PartialEq, Eq)]
pub struct SecretKey(pub [u8; 32]);

/// A 24-byte box nonce.
#[derive(Clone, Copy, Debug, PartialEq, Eq)]
pub struct Nonce(pub [u8; 24]);

/// A key pair: public half first, secret half second.
pub type KeyPair = (PublicKey, SecretKey);

impl View for PublicKey {
    type V = Seq<u8>;

    open spec fn view(&self) -> Seq<u8> {
        self.0@
    }
}

impl View for SecretKey {
    type V = Seq<u8>;

    open spec fn view(&self) -> Seq<u8> {
        self.0@
    }
}

impl View for Nonce {
    type V = Seq<u8>;

    open spec fn view(&self) -> Seq<u8> {
        self.0@
    }
}

/// The public key that belongs to a secret key: the Curve25519 multiple
/// of the base point by it, which libsodium's key-pair generation computes.
pub uninterp spec fn public_of(sk: Seq<u8>) -> Seq<u8>;

/// Whether `pk` is the public key of some secret key.
pub open spec fn is_public_key(pk: Seq<u8>) -> bool {
    exists|s: Seq<u8>| pk == #[trigger] public_of(s)
}

/// The box that `crypto_box_easy` makes of message `m` under nonce `n`,
/// for the receiver's public key `pk` and the sender's secret key `sk`.
pub uninterp spec fn sealed(m: Seq<u8>, n: Seq<u8>, pk: Seq<u8>, sk: Seq<u8>) -> Seq<u8>;

/// What `crypto_box_open_easy` makes of box `c` under nonce `n`, for the
/// sender's public key `pk` and the receiver's secret key `sk`: the
/// plaintext, or `None` where the box does not verify.
pub uninterp spec fn opened(c: Seq<u8>, n: Seq<u8>, pk: Seq<u8>, sk: Seq<u8>) -> Option<Seq<u8>>;

/// Relies on `sodiumoxide::crypto::box_::gen_keypair`: a fresh random
/// secret key and the public key that corresponds to it.
#[verifier::external_body]
pub fn gen_keypair() -> (r: KeyPair)
    ensures
        r.0@ == public_of(r.1@),
{
    let (pk, sk) = sodiumoxide::crypto::box_::gen_keypair();
    (PublicKey(pk.0), SecretKey(sk.0))
}

/// Relies on `sodiumoxide::crypto::box_::gen_nonce`: 24 random bytes.
#[verifier::external_body]
pub(crate) fn gen_nonce() -> (r: Nonce) {
    Nonce(sodiumoxide::crypto::box_::gen_nonce().0)
}

/// Relies on `sodiumoxide::crypto::box_::seal`: a vector `MACBYTES` (16)
/// bytes longer than `m`, which is the box of `m` when `pk` is a real
/// public key. For other keys (those of small order) libsodium refuses to
/// seal and the bytes handed back are not described.
#[verifier::external_body]
pub(crate) fn seal(m: &[u8], n: &Nonce, pk: &PublicKey, sk: &SecretKey) -> (r: Vec<u8>)
    ensures
        is_public_key(pk@) ==> r@ == sealed(m@, n@, pk@, sk@),
        r@.len() == m@.len() + 16,
{
    sodiumoxide::crypto::box_::seal(
        m,
        &sodiumoxide::crypto::box_::Nonce(n.0),
        &sodiumoxide::crypto::box_::PublicKey(pk.0),
        &sodiumoxide::crypto::box_::SecretKey(sk.0),
    )
}

/// Relies on `sodiumoxide::crypto::box_::open`: the plaintext of a box that
/// verifies, 16 bytes shorter than the box, and `Err` for any other input.
/// A box sealed for the receiver's key by the holder of the sender's
/// secret key opens to the message that was sealed.
#[verifier::external_body]
pub(crate) fn open(c: &[u8], n: &Nonce, pk: &PublicKey, sk: &SecretKey) -> (r: Result<Vec<u8>, ()>)
    ensures
        r matches Ok(m) ==> opened(c@, n@, pk@, sk@) == Some(m@),
        r is Err ==> opened(c@, n@, pk@, sk@) is None,
        r matches Ok(m) ==> m@.len() + 16 == c@.len(),
        r is Ok <== exists|m: Seq<u8>, sender: Seq<u8>|
            pk@ == public_of(sender) && c@ == #[trigger] sealed(m, n@, public_of(sk@), sender),
        r matches Ok(v) ==> forall|m: Seq<u8>, sender: Seq<u8>|
            pk@ == public_of(sender) && c@ == #[trigger] sealed(m, n@, public_of(sk@), sender)
                ==> v@ == m,
{
    sodiumoxide::crypto::box_::open(
        c,
        &sodiumoxide::crypto::box_::Nonce(n.0),
        &sodiumoxide::crypto::box_::PublicKey(pk.0),
        &sodiumoxide::crypto::box_::SecretKey(sk.0),
    )
}

} // verus!
