//! Server side of a session: answers Hello with Welcome, validates
//! Initiate, answers with Ready, then seals and opens messages.
use vstd::prelude::*;

use crate::clock::now_millis;
use crate::crypto::{gen_keypair, is_public_key, gen_nonce, open, opened, public_of, seal, sealed, KeyPair, PublicKey, SecretKey};
use crate::errors::LlsdError;
use crate::frame::{key_from_slice, nonce_from_slice, Frame, FrameKind};
use crate::session::{msg_result, bytes_eq, expiry, expiry_of, hello_padding, initiate_inner, ready_literal, ready_payload, SessionState, HANDSHAKE_TIMEOUT_MS, HELLO_PADDING_LEN};

verus! {

/// A server session as a mathematical value.
pub struct ServerView {
    pub expire_at: i64,
    pub created_at: i64,
    /// Our short-term public and secret keys.
    pub st_pk: Seq<u8>,
    pub st_sk: Seq<u8>,
    /// The client's short-term public key, which identifies the session.
    pub client_pk: Seq<u8>,
    /// The client's long-term public key, once the handshake is done.
    pub client_lt_pk: Option<Seq<u8>>,
    pub state: SessionState,
}

impl ServerView {
    /// Whether the session can send at time `now`: it is Ready and has not
    /// expired.
    pub open spec fn sendable_at(&self, now: i64) -> bool {
        self.state == SessionState::Ready && now < self.expire_at
    }

    /// Whether the session has not expired at time `now`.
    pub open spec fn valid_at(&self, now: i64) -> bool {
        now < self.expire_at
    }
}

/// What validating an Initiate box gives: the box opens under the client's
/// short-term key to at least 104 bytes, the client's long-term key (32),
/// a vouch nonce (24) and a vouch box (the rest), and the vouch box opens
/// under the long-term key to the client's short-term key. The result is
/// the long-term key; any failure is an invalid Initiate frame.
pub open spec fn initiate_result(v: ServerView, payload: Seq<u8>, nonce: Seq<u8>) -> Result<Seq<u8>, LlsdError> {
    match opened(payload, nonce, v.client_pk, v.st_sk) {
        None => Err(LlsdError::InvalidInitiateFrame),
        Some(inner) => if inner.len() < 104 {
            Err(LlsdError::InvalidInitiateFrame)
        } else {
            let lt = inner.subrange(0, 32);
            let vouch_nonce = inner.subrange(32, 56);
            let vouch_box = inner.subrange(56, inner.len() as int);
            if opened(vouch_box, vouch_nonce, lt, v.st_sk) == Some(v.client_pk) {
                Ok(lt)
            } else {
                Err(LlsdError::InvalidInitiateFrame)
            }
        },
    }
}

/// An Initiate frame made as the protocol prescribes: the client that
/// holds the secret key `client_sk` of the session's short-term key sealed,
/// for our short-term key, its long-term key `lt_pk`, a vouch nonce and a
/// 48-byte vouch box: the session's short-term key sealed, for our
/// short-term key, by the holder of `lt_sk`, the secret half of `lt_pk`.
pub open spec fn honest_initiate(
    v: ServerView,
    initiate: Frame,
    lt_pk: Seq<u8>,
    lt_sk: Seq<u8>,
    vouch_nonce: Seq<u8>,
    vouch_box: Seq<u8>,
    client_sk: Seq<u8>,
) -> bool {
    &&& lt_pk.len() == 32
    &&& lt_pk == public_of(lt_sk)
    &&& vouch_nonce.len() == 24
    &&& vouch_box.len() == 48
    &&& vouch_box == sealed(v.client_pk, vouch_nonce, public_of(v.st_sk), lt_sk)
    &&& v.client_pk == public_of(client_sk)
    &&& initiate.payload@ == sealed(
        initiate_inner(lt_pk, vouch_nonce, vouch_box),
        initiate.nonce@,
        public_of(v.st_sk),
        client_sk,
    )
}

/// What answering Hello frame `hello` with our long-term secret key `sk`
/// does to session `o` (becoming `n`) and returns: the Hello box must open
/// under the client's short-term key to exactly 256 bytes, and the Welcome
/// box (48 bytes) holds our short-term public key.
pub open spec fn welcome_outcome(o: ServerView, n: ServerView, hello: Frame, sk: Seq<u8>, r: Result<Frame, LlsdError>) -> bool {
    let opened_hello = opened(hello.payload@, hello.nonce@, o.client_pk, sk);
    if o.state != SessionState::Fresh || hello.kind != FrameKind::Hello {
        r == Err::<Frame, LlsdError>(LlsdError::InvalidSessionState) && n == o
    } else if opened_hello is None {
        r == Err::<Frame, LlsdError>(LlsdError::DecryptionFailed)
            && n == (ServerView { state: SessionState::Error, ..o })
    } else if opened_hello->Some_0.len() != 256 {
        r == Err::<Frame, LlsdError>(LlsdError::InvalidHelloFrame)
            && n == (ServerView { state: SessionState::Error, ..o })
    } else {
        &&& r is Ok
        &&& n == o
        &&& r->Ok_0.id == hello.id
        &&& r->Ok_0.kind == FrameKind::Welcome
        &&& is_public_key(o.client_pk) ==> r->Ok_0.payload@ == sealed(o.st_pk, r->Ok_0.nonce@, o.client_pk, sk)
        &&& r->Ok_0.payload@.len() == 48
    }
}

/// What answering Initiate frame `initiate` from the client with
/// long-term key `lt` at time `now` does to session `o` (becoming `n`) and
/// returns: the session must be Fresh, the frame an Initiate, and no more
/// than 3 minutes may have passed since the session was created; then the
/// session is Ready, records `lt`, and the Ready box holds
/// `My body is ready`.
pub open spec fn ready_outcome(o: ServerView, n: ServerView, initiate: Frame, lt: Seq<u8>, now: i64, r: Result<Frame, LlsdError>) -> bool {
    if o.state != SessionState::Fresh || initiate.kind != FrameKind::Initiate {
        r == Err::<Frame, LlsdError>(LlsdError::InvalidSessionState) && n == o
    } else if now - o.created_at > HANDSHAKE_TIMEOUT_MS {
        r == Err::<Frame, LlsdError>(LlsdError::ExpiredSession) && n == o
    } else {
        &&& r is Ok
        &&& n == (ServerView { state: SessionState::Ready, client_lt_pk: Some(lt), ..o })
        &&& r->Ok_0.id == initiate.id
        &&& r->Ok_0.kind == FrameKind::Ready
        &&& is_public_key(o.client_pk) ==> r->Ok_0.payload@ == sealed(ready_literal(), r->Ok_0.nonce@, o.client_pk, o.st_sk)
        &&& r->Ok_0.payload@.len() == 32
    }
}

/// Reading `frame` on session `s` gives `r`, where a box that the holder
/// of the client's short-term key sealed for our short-term key opens to
/// the message that was sealed.
pub open spec fn server_reads(s: ServerView, frame: Frame, r: Result<Seq<u8>, LlsdError>) -> bool {
    forall|m: Seq<u8>, client_sk: Seq<u8>|
        s.client_pk == public_of(client_sk) && frame.payload@ == #[trigger] sealed(m, frame.nonce@, public_of(s.st_sk), client_sk)
            ==> r == Ok::<Seq<u8>, LlsdError>(m)
}

/// A Message frame `f` that session `s` made of `data`.
pub open spec fn server_sent(s: ServerView, data: Seq<u8>, f: Frame) -> bool {
    &&& f.id@ == s.client_pk
    &&& f.kind == FrameKind::Message
    &&& f.payload@.len() == data.len() + 16
    &&& is_public_key(s.client_pk) ==> f.payload@ == sealed(data, f.nonce@, s.client_pk, s.st_sk)
}

/// Server side session.
#[derive(Clone, Copy, Debug, PartialEq, Eq)]
pub struct Session {
    expire_at: i64,
    created_at: i64,
    st: KeyPair,
    client_pk: PublicKey,
    client_lt_pk: Option<PublicKey>,
    state: SessionState,
}

impl View for Session {
    type V = ServerView;

    closed spec fn view(&self) -> ServerView {
        ServerView {
            expire_at: self.expire_at,
            created_at: self.created_at,
            st_pk: self.st.0@,
            st_sk: self.st.1@,
            client_pk: self.client_pk@,
            client_lt_pk: match self.client_lt_pk {
                Some(k) => Some(k@),
                None => None,
            },
            state: self.state,
        }
    }
}

impl Session {
    /// A new session for the client with short-term key `client_pk`, with
    /// a fresh short-term pair of ours.
    pub fn new(client_pk: PublicKey) -> (r: Session)
        ensures
            r@.state == SessionState::Fresh,
            r@.client_pk == client_pk@,
            r@.client_lt_pk is None,
            r@.st_pk == public_of(r@.st_sk),
            r@.st_pk.len() == 32,
            r@.st_sk.len() == 32,
            r@.client_pk.len() == 32,
            r@.expire_at == expiry(r@.created_at),
    {
        Session::new_at(client_pk, now_millis())
    }

    /// `new`, for a session created at time `now`.
    pub fn new_at(client_pk: PublicKey, now: i64) -> (r: Session)
        ensures
            r@.state == SessionState::Fresh,
            r@.client_pk == client_pk@,
            r@.client_lt_pk is None,
            r@.st_pk == public_of(r@.st_sk),
            r@.st_pk.len() == 32,
            r@.st_sk.len() == 32,
            r@.client_pk.len() == 32,
            r@.created_at == now,
            r@.expire_at == expiry(now),
    {
        Session {
            expire_at: expiry_of(now),
            created_at: now,
            st: gen_keypair(),
            client_pk,
            client_lt_pk: None,
            state: SessionState::Fresh,
        }
    }

    /// The client's short-term public key, which identifies the session.
    pub fn id(&self) -> (r: PublicKey)
        ensures
            r@ == self@.client_pk,
    {
        self.client_pk
    }

    /// The client's long-term public key, once the handshake is done.
    pub fn client_lt_pk(&self) -> (r: Option<PublicKey>)
        ensures
            r is None <==> self@.client_lt_pk is None,
            r matches Some(k) ==> self@.client_lt_pk == Some(k@),
    {
        self.client_lt_pk
    }

    /// Where the handshake stands.
    pub fn state(&self) -> (r: SessionState)
        ensures
            r == self@.state,
    {
        self.state
    }

    /// Whether the session has not expired.
    pub fn is_valid(&self) -> (r: bool)
        ensures
            exists|now: i64| r == self@.valid_at(now),
    {
        let now = now_millis();
        let r = self.is_valid_at(now);
        assert(r == self@.valid_at(now));
        r
    }

    /// Whether the session has not expired at time `now`.
    pub fn is_valid_at(&self, now: i64) -> (r: bool)
        ensures
            r == self@.valid_at(now),
    {
        now < self.expire_at
    }

    /// Marks the session as failed; it is then only fit for reaping.
    pub fn abandon(&mut self)
        ensures
            final(self)@ == (ServerView { state: SessionState::Error, ..old(self)@ }),
    {
        self.state = SessionState::Error;
    }

    /// The Welcome frame, the reply to the client's Hello frame.
    ///
    /// The Hello box must open under the client's short-term key and our
    /// long-term secret key `our_sk` to exactly 256 bytes. The Welcome box
    /// holds our short-term public key.
    pub fn make_welcome(&mut self, hello: &Frame, our_sk: &SecretKey) -> (r: Result<Frame, LlsdError>)
        ensures
            welcome_outcome(old(self)@, final(self)@, *hello, our_sk@, r),
            forall|client_sk: Seq<u8>|
                old(self)@.state == SessionState::Fresh && hello.kind == FrameKind::Hello
                    && old(self)@.client_pk == public_of(client_sk)
                    && hello.payload@ == #[trigger] sealed(hello_padding(), hello.nonce@, public_of(our_sk@), client_sk)
                    ==> r is Ok,
    {
        if self.state != SessionState::Fresh || hello.kind != FrameKind::Hello {
            return Err(LlsdError::InvalidSessionState);
        }
        match open(hello.payload.as_slice(), &hello.nonce, &self.client_pk, our_sk) {
            Err(_) => {
                self.state = SessionState::Error;
                Err(LlsdError::DecryptionFailed)
            },
            Ok(payload) => {
                if payload.len() != HELLO_PADDING_LEN {
                    self.state = SessionState::Error;
                    return Err(LlsdError::InvalidHelloFrame);
                }
                let nonce = gen_nonce();
                let welcome_box = seal(&self.st.0.0, &nonce, &self.client_pk, our_sk);
                Ok(Frame { id: hello.id, nonce, kind: FrameKind::Welcome, payload: welcome_box })
            },
        }
    }

    /// Extracts and checks the client's long-term public key from an
    /// Initiate frame. Whether that key is welcome is decided elsewhere.
    /// An Initiate that the client made as the protocol prescribes
    /// validates.
    pub fn validate_initiate(&self, initiate: &Frame) -> (r: Result<PublicKey, LlsdError>)
        ensures
            r matches Ok(k) ==> initiate_result(self@, initiate.payload@, initiate.nonce@) == Ok::<Seq<u8>, LlsdError>(k@),
            r matches Err(e) ==> initiate_result(self@, initiate.payload@, initiate.nonce@) == Err::<Seq<u8>, LlsdError>(e),
            forall|lt_pk: Seq<u8>, lt_sk: Seq<u8>, vouch_nonce: Seq<u8>, vouch_box: Seq<u8>, client_sk: Seq<u8>|
                honest_initiate(self@, *initiate, lt_pk, lt_sk, vouch_nonce, vouch_box, client_sk)
                    ==> (r matches Ok(k) && k@ == lt_pk),
    {
        let outer = open(initiate.payload.as_slice(), &initiate.nonce, &self.client_pk, &self.st.1);
        match outer {
            Err(_) => {
                proof {
                    assert forall|lt_pk: Seq<u8>, lt_sk: Seq<u8>, vouch_nonce: Seq<u8>, vouch_box: Seq<u8>, client_sk: Seq<u8>|
                        honest_initiate(self@, *initiate, lt_pk, lt_sk, vouch_nonce, vouch_box, client_sk) implies false by {
                        let m = initiate_inner(lt_pk, vouch_nonce, vouch_box);
                        assert(initiate.payload@ == sealed(m, initiate.nonce@, public_of(self@.st_sk), client_sk));
                    }
                }
                Err(LlsdError::InvalidInitiateFrame)
            },
            Ok(inner) => {
                proof {
                    assert forall|lt_pk: Seq<u8>, lt_sk: Seq<u8>, vouch_nonce: Seq<u8>, vouch_box: Seq<u8>, client_sk: Seq<u8>|
                        honest_initiate(self@, *initiate, lt_pk, lt_sk, vouch_nonce, vouch_box, client_sk)
                            implies inner@ == initiate_inner(lt_pk, vouch_nonce, vouch_box) by {
                        let m = initiate_inner(lt_pk, vouch_nonce, vouch_box);
                        assert(initiate.payload@ == sealed(m, initiate.nonce@, public_of(self@.st_sk), client_sk));
                    }
                }
                if inner.len() < 104 {
                    return Err(LlsdError::InvalidInitiateFrame);
                }
                let lt_pk = key_from_slice(inner.as_slice(), 0);
                let vouch_nonce = nonce_from_slice(inner.as_slice(), 32);
                let ghost whole = inner@;
                let mut head = inner;
                let vouch_box = head.split_off(56);
                let vouched = open(vouch_box.as_slice(), &vouch_nonce, &lt_pk, &self.st.1);
                proof {
                    assert forall|lt: Seq<u8>, lt_sk: Seq<u8>, vn: Seq<u8>, vb: Seq<u8>, client_sk: Seq<u8>|
                        honest_initiate(self@, *initiate, lt, lt_sk, vn, vb, client_sk)
                            implies (vouched matches Ok(v) && v@ == self@.client_pk && lt_pk@ == lt) by {
                        let m = initiate_inner(lt, vn, vb);
                        assert(whole == m);
                        assert(lt_pk@ =~= lt);
                        assert(vouch_nonce@ =~= vn);
                        assert(vouch_box@ =~= vb);
                        assert(vouch_box@ == sealed(self@.client_pk, vouch_nonce@, public_of(self@.st_sk), lt_sk));
                    }
                }
                match vouched {
                    Err(_) => Err(LlsdError::InvalidInitiateFrame),
                    Ok(v) => {
                        if bytes_eq(v.as_slice(), &self.client_pk.0) {
                            Ok(lt_pk)
                        } else {
                            Err(LlsdError::InvalidInitiateFrame)
                        }
                    },
                }
            },
        }
    }

    /// The Ready frame, the reply to a validated Initiate frame from the
    /// client whose long-term key is `client_lt_pk`.
    pub fn make_ready(&mut self, initiate: &Frame, client_lt_pk: &PublicKey) -> (r: Result<Frame, LlsdError>)
        ensures
            exists|now: i64| ready_outcome(old(self)@, final(self)@, *initiate, client_lt_pk@, now, r),
    {
        let now = now_millis();
        let r = self.make_ready_at(initiate, client_lt_pk, now);
        assert(ready_outcome(old(self)@, self@, *initiate, client_lt_pk@, now, r));
        r
    }

    /// `make_ready` at time `now`.
    pub fn make_ready_at(&mut self, initiate: &Frame, client_lt_pk: &PublicKey, now: i64) -> (r: Result<Frame, LlsdError>)
        ensures
            ready_outcome(old(self)@, final(self)@, *initiate, client_lt_pk@, now, r),
    {
        if self.state != SessionState::Fresh || initiate.kind != FrameKind::Initiate {
            return Err(LlsdError::InvalidSessionState);
        }
        if (now as i128) - (self.created_at as i128) > HANDSHAKE_TIMEOUT_MS as i128 {
            return Err(LlsdError::ExpiredSession);
        }
        self.state = SessionState::Ready;
        self.client_lt_pk = Some(*client_lt_pk);
        let literal = ready_payload();
        let nonce = gen_nonce();
        let payload = seal(&literal, &nonce, &self.client_pk, &self.st.1);
        Ok(Frame { id: initiate.id, nonce, kind: FrameKind::Ready, payload })
    }

    /// Whether the session can send now.
    pub fn can_send(&self) -> (r: bool)
        ensures
            exists|now: i64| r == self@.sendable_at(now),
    {
        let now = now_millis();
        let r = self.can_send_at(now);
        assert(r == self@.sendable_at(now));
        r
    }

    /// Whether the session can send at time `now`.
    pub fn can_send_at(&self, now: i64) -> (r: bool)
        ensures
            r == self@.sendable_at(now),
    {
        self.state == SessionState::Ready && now < self.expire_at
    }

    /// A Message frame carrying `data` sealed for the client's short-term
    /// key under a fresh nonce; fails unless the session can send now.
    pub fn make_message(&self, data: &[u8]) -> (r: Result<Frame, LlsdError>)
        ensures
            exists|now: i64| (r is Ok <==> self@.sendable_at(now)),
            r matches Ok(f) ==> server_sent(self@, data@, f),
            r is Err ==> r == Err::<Frame, LlsdError>(LlsdError::InvalidSessionState),
    {
        let now = now_millis();
        let r = self.make_message_at(data, now);
        assert(r is Ok <==> self@.sendable_at(now));
        r
    }

    /// `make_message` at time `now`.
    pub fn make_message_at(&self, data: &[u8], now: i64) -> (r: Result<Frame, LlsdError>)
        ensures
            r is Ok <==> self@.sendable_at(now),
            r matches Ok(f) ==> server_sent(self@, data@, f),
            r is Err ==> r == Err::<Frame, LlsdError>(LlsdError::InvalidSessionState),
    {
        if !self.can_send_at(now) {
            return Err(LlsdError::InvalidSessionState);
        }
        let nonce = gen_nonce();
        let payload = seal(data, &nonce, &self.client_pk, &self.st.1);
        Ok(Frame { id: self.client_pk, nonce, kind: FrameKind::Message, payload })
    }

    /// Opens the box of a frame from the client. A box that the holder of
    /// the client's short-term key sealed for our short-term key opens to
    /// the message that was sealed.
    pub fn read_msg(&self, frame: &Frame) -> (r: Result<Vec<u8>, LlsdError>)
        ensures
            ({
                let o = opened(frame.payload@, frame.nonce@, self@.client_pk, self@.st_sk);
                &&& o is None <==> r == Err::<Vec<u8>, LlsdError>(LlsdError::DecryptionFailed)
                &&& o matches Some(m) ==> (r matches Ok(v) && v@ == m)
            }),
            server_reads(self@, *frame, msg_result(r)),
    {
        match open(frame.payload.as_slice(), &frame.nonce, &self.client_pk, &self.st.1) {
            Ok(msg) => Ok(msg),
            Err(_) => Err(LlsdError::DecryptionFailed),
        }
    }
}

} // verus!
