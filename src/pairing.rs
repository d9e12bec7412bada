//! What a completed handshake gives: a client and a server session that
//! share their short-term keys, so that each opens what the other seals.
use vstd::prelude::*;

use crate::client::{client_reads, client_sent, initiate_box, initiate_learns, ClientView};
use crate::crypto::{is_public_key, public_of};
use crate::errors::LlsdError;
use crate::frame::{Frame, FrameKind};
use crate::server::{honest_initiate, server_reads, server_sent, welcome_outcome, ServerView};
use crate::session::SessionState;

verus! {

/// Client session `c` and server session `s` belong together: each knows
/// the other's short-term public key, and each holds the secret half of
/// its own.
pub open spec fn paired(c: ClientView, s: ServerView) -> bool {
    &&& c.server_pk == Some(s.st_pk)
    &&& s.client_pk == c.st_pk
    &&& c.st_pk == public_of(c.st_sk)
    &&& s.st_pk == public_of(s.st_sk)
}

/// The handshake pairs the sessions: a server session `s0` for the
/// client's short-term key answers a Hello with Welcome `w` (becoming
/// `s1`), and the client session `c0` for the server's long-term key
/// makes Initiate from `w` (becoming `c1`); then `c1` and `s1` are paired.
pub proof fn lemma_handshake_pairs(
    c0: ClientView,
    c1: ClientView,
    s0: ServerView,
    s1: ServerView,
    hello: Frame,
    server_lt_sk: Seq<u8>,
    w: Frame,
    ri: Result<Frame, LlsdError>,
)
    requires
        c0.state == SessionState::Fresh,
        c0.st_pk == public_of(c0.st_sk),
        c0.server_lt_pk == public_of(server_lt_sk),
        s0.client_pk == c0.st_pk,
        s0.st_pk == public_of(s0.st_sk),
        s0.st_pk.len() == 32,
        welcome_outcome(s0, s1, hello, server_lt_sk, Ok::<Frame, LlsdError>(w)),
        initiate_learns(c0, c1, w, ri),
        c1.st_pk == c0.st_pk,
        c1.st_sk == c0.st_sk,
    ensures
        ri is Ok,
        paired(c1, s1),
{
    assert(is_public_key(s0.client_pk)) by {
        assert(s0.client_pk == public_of(c0.st_sk));
    }
    assert(w.kind == FrameKind::Welcome);
    assert(w.payload@ == crate::crypto::sealed(s0.st_pk, w.nonce@, public_of(c0.st_sk), server_lt_sk));
}

/// The Initiate that a client session `c` made for the short-term key of
/// server session `s` is one made as the protocol prescribes, when the
/// client's long-term pair is a real key pair: this names the vouch nonce
/// and box it holds, so that `validate_initiate`'s promise applies.
pub proof fn lemma_initiate_is_honest(c: ClientView, s: ServerView, i: Frame) -> (w: (Seq<u8>, Seq<u8>))
    requires
        exists|vn: Seq<u8>, vb: Seq<u8>| #[trigger] initiate_box(c, s.st_pk, vn, vb, i.nonce@, i.payload@),
        c.lt_pk == public_of(c.lt_sk),
        c.lt_pk.len() == 32,
        c.st_pk == public_of(c.st_sk),
        s.client_pk == c.st_pk,
        s.st_pk == public_of(s.st_sk),
    ensures
        honest_initiate(s, i, c.lt_pk, c.lt_sk, w.0, w.1, c.st_sk),
{
    let (vn, vb) = choose|vn: Seq<u8>, vb: Seq<u8>| #[trigger] initiate_box(c, s.st_pk, vn, vb, i.nonce@, i.payload@);
    assert(is_public_key(s.st_pk));
    (vn, vb)
}

/// After the handshake, what the client seals the server opens: for any
/// message `m`, a Message frame that a paired client made of `m` reads
/// back as `m` at the server.
pub proof fn lemma_client_to_server(c: ClientView, s: ServerView, m: Seq<u8>, f: Frame, r: Result<Seq<u8>, LlsdError>)
    requires
        paired(c, s),
        client_sent(c, m, f),
        server_reads(s, f, r),
    ensures
        r == Ok::<Seq<u8>, LlsdError>(m),
{
    assert(is_public_key(s.st_pk));
    assert(f.payload@ == crate::crypto::sealed(m, f.nonce@, public_of(s.st_sk), c.st_sk));
}

/// After the handshake, what the server seals the client opens: for any
/// message `m`, a Message frame that a paired server made of `m` reads
/// back as `m` at the client.
pub proof fn lemma_server_to_client(c: ClientView, s: ServerView, m: Seq<u8>, f: Frame, r: Result<Seq<u8>, LlsdError>)
    requires
        paired(c, s),
        server_sent(s, m, f),
        client_reads(c, f, r),
    ensures
        r == Ok::<Seq<u8>, LlsdError>(m),
{
    assert(is_public_key(s.client_pk));
    assert(f.payload@ == crate::crypto::sealed(m, f.nonce@, public_of(c.st_sk), s.st_sk));
}

} // verus!
