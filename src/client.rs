//! Client side of a session: makes Hello and Initiate, checks Ready, then
//! seals and opens messages.
use vstd::prelude::*;

use crate::clock::now_millis;
use crate::crypto::{gen_keypair, is_public_key, gen_nonce, open, opened, public_of, seal, sealed, KeyPair, PublicKey};
use crate::errors::LlsdError;
use crate::frame::{key_from_slice, push_all, Frame, FrameKind};
use crate::session::{msg_result, bytes_eq, expiry, expiry_of, hello_padding, initiate_inner, ready_literal, ready_payload, SessionState};

verus! {

/// A client session as a mathematical value.
pub struct ClientView {
    pub expire_at: i64,
    pub created_at: i64,
    /// Our short-term public and secret keys.
    pub st_pk: Seq<u8>,
    pub st_sk: Seq<u8>,
    /// Our long-term public and secret keys.
    pub lt_pk: Seq<u8>,
    pub lt_sk: Seq<u8>,
    pub state: SessionState,
    pub server_pk: Option<Seq<u8>>,
    pub server_lt_pk: Seq<u8>,
}

/// An Initiate box of session `o` for the server short-term key `spk`:
/// the vouch `vb` (48 bytes, under the 24-byte nonce `vn`) and the
/// Initiate box sealed under `nonce`, both for `spk` when it is a real
/// public key.
pub open spec fn initiate_box(o: ClientView, spk: Seq<u8>, vn: Seq<u8>, vb: Seq<u8>, nonce: Seq<u8>, payload: Seq<u8>) -> bool {
    &&& vn.len() == 24
    &&& vb.len() == 48
    &&& is_public_key(spk) ==> vb == sealed(o.st_pk, vn, spk, o.lt_sk)
        && payload == sealed(initiate_inner(o.lt_pk, vn, vb), nonce, spk, o.st_sk)
}

/// Reading `frame` on session `c` gives `r`, where a box that the holder
/// of the server's short-term key sealed for our short-term key opens to
/// the message that was sealed.
pub open spec fn client_reads(c: ClientView, frame: Frame, r: Result<Seq<u8>, LlsdError>) -> bool {
    forall|m: Seq<u8>, server_sk: Seq<u8>|
        c.server_pk == Some(public_of(server_sk)) && frame.payload@ == #[trigger] sealed(m, frame.nonce@, public_of(c.st_sk), server_sk)
            ==> r == Ok::<Seq<u8>, LlsdError>(m)
}

/// A Message frame `f` that session `c` made of `data`.
pub open spec fn client_sent(c: ClientView, data: Seq<u8>, f: Frame) -> bool {
    &&& c.server_pk matches Some(k)
    &&& f.id@ == c.st_pk
    &&& f.kind == FrameKind::Message
    &&& f.payload@.len() == data.len() + 16
    &&& is_public_key(k) ==> f.payload@ == sealed(data, f.nonce@, k, c.st_sk)
}

/// Making Initiate from `welcome` turns session `o` into `n` and returns
/// `r`: a Welcome that the holder of the server's long-term key sealed,
/// for our short-term key, around a 32-byte key `spk` succeeds and
/// records `spk` as the server's short-term key.
pub open spec fn initiate_learns(o: ClientView, n: ClientView, welcome: Frame, r: Result<Frame, LlsdError>) -> bool {
    forall|spk: Seq<u8>, server_sk: Seq<u8>|
        o.state == SessionState::Fresh && welcome.kind == FrameKind::Welcome && o.server_lt_pk == public_of(server_sk)
            && spk.len() == 32 && welcome.payload@ == #[trigger] sealed(spk, welcome.nonce@, public_of(o.st_sk), server_sk)
            ==> r is Ok && n.server_pk == Some(spk)
}

/// Client side session.
#[derive(Clone, Copy, Debug, PartialEq, Eq)]
pub struct Session {
    /// When the session expires, in milliseconds since the epoch.
    expire_at: i64,
    /// When the session was created, in milliseconds since the epoch.
    created_at: i64,
    /// Our short-term key pair; its public half identifies the session.
    st: KeyPair,
    /// Our long-term key pair.
    our_pair: KeyPair,
    /// Where the handshake stands.
    state: SessionState,
    /// The server's short-term public key, learned from Welcome.
    server_pk: Option<PublicKey>,
    /// The server's long-term public key, known up front.
    server_lt_pk: PublicKey,
}

impl View for Session {
    type V = ClientView;

    closed spec fn view(&self) -> ClientView {
        ClientView {
            expire_at: self.expire_at,
            created_at: self.created_at,
            st_pk: self.st.0@,
            st_sk: self.st.1@,
            lt_pk: self.our_pair.0@,
            lt_sk: self.our_pair.1@,
            state: self.state,
            server_pk: match self.server_pk {
                Some(k) => Some(k@),
                None => None,
            },
            server_lt_pk: self.server_lt_pk@,
        }
    }
}

impl ClientView {
    /// Whether the session can send at time `now`: it is Ready and has not
    /// expired.
    pub open spec fn sendable_at(&self, now: i64) -> bool {
        self.state == SessionState::Ready && now < self.expire_at
    }
}

impl Session {
    /// A new session for the server with long-term key `server_lt_pk`, with
    /// our long-term pair `our_pair` and a fresh short-term pair.
    pub fn new(server_lt_pk: PublicKey, our_pair: KeyPair) -> (r: Session)
        ensures
            r@.state == SessionState::Fresh,
            r@.server_lt_pk == server_lt_pk@,
            r@.lt_pk == our_pair.0@,
            r@.lt_sk == our_pair.1@,
            r@.server_pk is None,
            r@.st_pk == public_of(r@.st_sk),
            r@.st_pk.len() == 32,
            r@.st_sk.len() == 32,
            r@.server_lt_pk.len() == 32,
            r@.expire_at == expiry(r@.created_at),
    {
        let now = now_millis();
        Session {
            expire_at: expiry_of(now),
            created_at: now,
            st: gen_keypair(),
            our_pair,
            state: SessionState::Fresh,
            server_pk: None,
            server_lt_pk,
        }
    }

    /// Our short-term public key, which identifies the session.
    pub fn id(&self) -> (r: PublicKey)
        ensures
            r@ == self@.st_pk,
    {
        self.st.0
    }

    /// The Hello frame: 256 zero bytes sealed for the server's long-term
    /// key under a fresh nonce. The session does not change.
    pub fn make_hello(&self) -> (r: Frame)
        ensures
            r.id@ == self@.st_pk,
            r.kind == FrameKind::Hello,
            is_public_key(self@.server_lt_pk) ==> r.payload@ == sealed(hello_padding(), r.nonce@, self@.server_lt_pk, self@.st_sk),
            r.payload@.len() == 272,
    {
        let nonce = gen_nonce();
        let padding = [0u8; 256];
        assert(padding@ =~= hello_padding());
        let payload = seal(&padding, &nonce, &self.server_lt_pk, &self.st.1);
        Frame { id: self.st.0, nonce, kind: FrameKind::Hello, payload }
    }

    /// The Initiate frame, the reply to the server's Welcome frame.
    ///
    /// The Welcome box must open under the server's long-term key to a
    /// 32-byte key: the server's short-term key, which is recorded. The
    /// Initiate box holds our long-term key and a vouch: our short-term key
    /// sealed with our long-term secret key under a fresh nonce.
    pub fn make_initiate(&mut self, welcome: &Frame) -> (r: Result<Frame, LlsdError>)
        ensures
            ({
                let o = old(self)@;
                let opened_welcome = opened(welcome.payload@, welcome.nonce@, o.server_lt_pk, o.st_sk);
                if o.state != SessionState::Fresh || welcome.kind != FrameKind::Welcome {
                    r == Err::<Frame, LlsdError>(LlsdError::InvalidSessionState) && final(self)@ == o
                } else if opened_welcome is None {
                    r == Err::<Frame, LlsdError>(LlsdError::DecryptionFailed)
                        && final(self)@ == (ClientView { state: SessionState::Error, ..o })
                } else if opened_welcome->Some_0.len() != 32 {
                    r == Err::<Frame, LlsdError>(LlsdError::InvalidWelcomeFrame)
                        && final(self)@ == (ClientView { state: SessionState::Error, ..o })
                } else {
                    let spk = opened_welcome->Some_0;
                    &&& r is Ok
                    &&& final(self)@ == (ClientView { server_pk: Some(spk), ..o })
                    &&& r->Ok_0.id == welcome.id
                    &&& r->Ok_0.kind == FrameKind::Initiate
                    &&& r->Ok_0.payload@.len() == 120
                    &&& exists|vn: Seq<u8>, vb: Seq<u8>| #[trigger] initiate_box(o, spk, vn, vb, r->Ok_0.nonce@, r->Ok_0.payload@)
                }
            }),
            initiate_learns(old(self)@, final(self)@, *welcome, r),
    {
        if self.state != SessionState::Fresh || welcome.kind != FrameKind::Welcome {
            return Err(LlsdError::InvalidSessionState);
        }
        match open(welcome.payload.as_slice(), &welcome.nonce, &self.server_lt_pk, &self.st.1) {
            Err(_) => {
                self.state = SessionState::Error;
                Err(LlsdError::DecryptionFailed)
            },
            Ok(server_pk) => {
                if server_pk.len() != 32 {
                    self.state = SessionState::Error;
                    return Err(LlsdError::InvalidWelcomeFrame);
                }
                let key = key_from_slice(server_pk.as_slice(), 0);
                assert(key@ =~= server_pk@);
                self.server_pk = Some(key);
                let vouch_nonce = gen_nonce();
                let vouch_box = seal(&self.st.0.0, &vouch_nonce, &key, &self.our_pair.1);
                let mut inner: Vec<u8> = Vec::new();
                push_all(&mut inner, &self.our_pair.0.0);
                push_all(&mut inner, &vouch_nonce.0);
                push_all(&mut inner, vouch_box.as_slice());
                let nonce = gen_nonce();
                let payload = seal(inner.as_slice(), &nonce, &key, &self.st.1);
                let frame = Frame { id: welcome.id, nonce, kind: FrameKind::Initiate, payload };
                assert(inner@ == initiate_inner(self.our_pair.0@, vouch_nonce@, vouch_box@));
                assert(vouch_box@.len() == 48);
                assert(is_public_key(key@) ==> frame.payload@ == sealed(initiate_inner(self@.lt_pk, vouch_nonce@, vouch_box@), frame.nonce@, key@, self@.st_sk));
                assert(inner@.len() == 104);
                let ghost o = old(self)@;
                let ghost vn = vouch_nonce@;
                let ghost vb = vouch_box@;
                assert(initiate_box(o, key@, vn, vb, frame.nonce@, frame.payload@));
                Ok(frame)
            },
        }
    }

    /// Checks the server's Ready frame: its box must open to the literal
    /// `My body is ready`, and the session becomes Ready.
    pub fn read_ready(&mut self, ready: &Frame) -> (r: Result<(), LlsdError>)
        ensures
            ({
                let o = old(self)@;
                if o.state != SessionState::Fresh || ready.kind != FrameKind::Ready || o.server_pk is None {
                    r == Err::<(), LlsdError>(LlsdError::InvalidSessionState) && final(self)@ == o
                } else {
                    let opened_ready = opened(ready.payload@, ready.nonce@, o.server_pk->Some_0, o.st_sk);
                    if opened_ready is None {
                        r == Err::<(), LlsdError>(LlsdError::DecryptionFailed)
                            && final(self)@ == (ClientView { state: SessionState::Error, ..o })
                    } else if opened_ready->Some_0 != ready_literal() {
                        r == Err::<(), LlsdError>(LlsdError::InvalidReadyFrame)
                            && final(self)@ == (ClientView { state: SessionState::Error, ..o })
                    } else {
                        r == Ok::<(), LlsdError>(()) && final(self)@ == (ClientView { state: SessionState::Ready, ..o })
                    }
                }
            }),
            forall|server_st_sk: Seq<u8>|
                old(self)@.state == SessionState::Fresh && ready.kind == FrameKind::Ready
                    && old(self)@.server_pk == Some(public_of(server_st_sk))
                    && ready.payload@ == #[trigger] sealed(ready_literal(), ready.nonce@, public_of(old(self)@.st_sk), server_st_sk)
                    ==> r is Ok && final(self)@.state == SessionState::Ready,
    {
        if self.state != SessionState::Fresh || ready.kind != FrameKind::Ready || self.server_pk.is_none() {
            return Err(LlsdError::InvalidSessionState);
        }
        match self.read_msg(ready) {
            Err(e) => {
                self.state = SessionState::Error;
                Err(e)
            },
            Ok(msg) => {
                let expected = ready_payload();
                if bytes_eq(msg.as_slice(), &expected) {
                    self.state = SessionState::Ready;
                    Ok(())
                } else {
                    self.state = SessionState::Error;
                    Err(LlsdError::InvalidReadyFrame)
                }
            },
        }
    }

    /// Whether the session can send now.
    pub fn can_send(&self) -> (r: bool)
        ensures
            exists|now: i64| r == self@.sendable_at(now),
    {
        let now = now_millis();
        let r = self.can_send_at(now);
        assert(r == self@.sendable_at(now));
        r
    }

    /// Whether the session can send at time `now`.
    pub fn can_send_at(&self, now: i64) -> (r: bool)
        ensures
            r == self@.sendable_at(now),
    {
        self.state == SessionState::Ready && now < self.expire_at
    }

    /// A Message frame carrying `data` sealed for the server's short-term
    /// key under a fresh nonce; fails unless the session can send now.
    pub fn make_message(&self, data: &[u8]) -> (r: Result<Frame, LlsdError>)
        ensures
            exists|now: i64| (r is Ok <==> self@.sendable_at(now) && self@.server_pk is Some),
            r matches Ok(f) ==> client_sent(self@, data@, f),
            r is Err ==> r == Err::<Frame, LlsdError>(LlsdError::InvalidSessionState),
    {
        let now = now_millis();
        let r = self.make_message_at(data, now);
        assert(r is Ok <==> self@.sendable_at(now) && self@.server_pk is Some);
        r
    }

    /// `make_message` at time `now`.
    pub fn make_message_at(&self, data: &[u8], now: i64) -> (r: Result<Frame, LlsdError>)
        ensures
            r is Ok <==> self@.sendable_at(now) && self@.server_pk is Some,
            r matches Ok(f) ==> client_sent(self@, data@, f),
            r is Err ==> r == Err::<Frame, LlsdError>(LlsdError::InvalidSessionState),
    {
        if !self.can_send_at(now) {
            return Err(LlsdError::InvalidSessionState);
        }
        match self.server_pk {
            None => Err(LlsdError::InvalidSessionState),
            Some(k) => {
                let nonce = gen_nonce();
                let payload = seal(data, &nonce, &k, &self.st.1);
                Ok(Frame { id: self.st.0, nonce, kind: FrameKind::Message, payload })
            },
        }
    }

    /// Opens the box of a frame from the server. A box that the holder of
    /// the server's short-term key sealed for our short-term key opens to
    /// the message that was sealed.
    pub fn read_msg(&self, frame: &Frame) -> (r: Result<Vec<u8>, LlsdError>)
        ensures
            self@.server_pk is None ==> r == Err::<Vec<u8>, LlsdError>(LlsdError::InvalidSessionState),
            self@.server_pk matches Some(k) ==> {
                let o = opened(frame.payload@, frame.nonce@, k, self@.st_sk);
                &&& o is None <==> r == Err::<Vec<u8>, LlsdError>(LlsdError::DecryptionFailed)
                &&& o matches Some(m) ==> (r matches Ok(v) && v@ == m)
            },
            client_reads(self@, *frame, msg_result(r)),
    {
        match self.server_pk {
            None => Err(LlsdError::InvalidSessionState),
            Some(k) => match open(frame.payload.as_slice(), &frame.nonce, &k, &self.st.1) {
                Ok(msg) => Ok(msg),
                Err(_) => Err(LlsdError::DecryptionFailed),
            },
        }
    }
}

} // verus!
