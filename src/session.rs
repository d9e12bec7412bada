//! What client and server sessions share: their state, lifetimes and the
//! fixed plaintexts of the handshake.
use vstd::prelude::*;

verus! {

/// Session has three states. On the client, Fresh means a Hello was made;
/// on the server, that a Hello was received. Ready means messages can flow
/// both ways. Error means the session is dead and awaits reaping.
#[derive(Clone, Copy, Debug, PartialEq, Eq, Structural)]
pub enum SessionState {
    /// The handshake is under way.
    Fresh,
    /// The session is established.
    Ready,
    /// The session failed and cannot be used.
    Error,
}

/// Lifetime of a session: 34 minutes, in milliseconds.
pub const SESSION_LIFETIME_MS: i64 = 2040000;

/// Time the server allows between Hello and Initiate: 3 minutes, in
/// milliseconds.
pub const HANDSHAKE_TIMEOUT_MS: i64 = 180000;

/// Length of the zero padding that a Hello box holds.
pub const HELLO_PADDING_LEN: usize = 256;

/// When a session created at `created` expires (saturating at the end of
/// the clock's range).
pub open spec fn expiry(created: i64) -> i64 {
    if created <= i64::MAX - SESSION_LIFETIME_MS {
        (created + SESSION_LIFETIME_MS) as i64
    } else {
        i64::MAX
    }
}

/// Computes `expiry(created)`.
pub fn expiry_of(created: i64) -> (r: i64)
    ensures
        r == expiry(created),
{
    if created <= i64::MAX - SESSION_LIFETIME_MS {
        created + SESSION_LIFETIME_MS
    } else {
        i64::MAX
    }
}

/// The plaintext of a Hello box: 256 zero bytes.
pub open spec fn hello_padding() -> Seq<u8> {
    Seq::new(256, |i: int| 0u8)
}

/// The plaintext of a Ready box: the ASCII literal `My body is ready`.
pub open spec fn ready_literal() -> Seq<u8> {
    seq![77u8, 121, 32, 98, 111, 100, 121, 32, 105, 115, 32, 114, 101, 97, 100, 121]
}

/// The plaintext of an Initiate box: the client's long-term public key
/// (32 bytes), the vouch nonce (24) and the vouch box (48).
pub open spec fn initiate_inner(lt_pk: Seq<u8>, vouch_nonce: Seq<u8>, vouch_box: Seq<u8>) -> Seq<u8> {
    lt_pk + vouch_nonce + vouch_box
}

/// The view of an opened message: its bytes, or the error.
pub open spec fn msg_result(r: Result<Vec<u8>, crate::errors::LlsdError>) -> Result<Seq<u8>, crate::errors::LlsdError> {
    match r {
        Ok(v) => Ok(v@),
        Err(e) => Err(e),
    }
}

/// The 16 bytes of `ready_literal`.
pub fn ready_payload() -> (r: [u8; 16])
    ensures
        r@ == ready_literal(),
{
    let r: [u8; 16] = [77u8, 121, 32, 98, 111, 100, 121, 32, 105, 115, 32, 114, 101, 97, 100, 121];
    assert(r@ =~= ready_literal());
    r
}

/// Whether two byte strings are equal.
pub fn bytes_eq(a: &[u8], b: &[u8]) -> (r: bool)
    ensures
        r == (a@ == b@),
{
    if a.len() != b.len() {
        return false;
    }
    let mut i: usize = 0;
    while i < a.len()
        invariant
            a@.len() == b@.len(),
            i <= a@.len(),
            forall|j: int| 0 <= j < i ==> a@[j] == b@[j],
        decreases a@.len() - i,
    {
        if a[i] != b[i] {
            return false;
        }
        i = i + 1;
    }
    assert(a@ =~= b@);
    true
}

} // verus!
