//! The server core: routes each inbound frame to the right transition of
//! the session it belongs to, hands decrypted message bodies to the
//! handler, and seals the replies.
use vstd::prelude::*;

use crate::auth::Authenticator;
use crate::clock::now_millis;
use crate::crypto::{is_public_key, opened, public_of, sealed, PublicKey, SecretKey};
use crate::errors::{AWError, LlsdError};
use crate::frame::{Frame, FrameKind};
use crate::handler::Handler;
use crate::server::{honest_initiate, initiate_result, ServerView, Session};
use crate::session::{expiry, hello_padding, ready_literal, SessionState, HANDSHAKE_TIMEOUT_MS};
use crate::store::{kept_at, SessionStore};

verus! {

/// Sessions, keyed by the client's short-term public key.
pub type Sessions = Map<Seq<u8>, ServerView>;

/// Handling Hello frame `req` at time `now` turns sessions `s` into `t`
/// and returns `r`. A Hello for a known session is refused; otherwise a
/// new Fresh session is registered and answers with Welcome, or fails (and
/// stays registered, in the Error state, for the reaper).
///
/// A Hello that the holder of the frame's id sealed, as the protocol
/// prescribes, for our long-term key is answered with Welcome.
pub open spec fn hello_step(s: Sessions, t: Sessions, sk: Seq<u8>, req: Frame, now: i64, r: Result<Frame, AWError>) -> bool {
    &&& hello_outcome(s, t, sk, req, now, r)
    &&& forall|client_sk: Seq<u8>|
        !s.contains_key(req.id@) && now != i64::MAX && req.id@ == public_of(client_sk)
            && req.payload@ == #[trigger] sealed(hello_padding(), req.nonce@, public_of(sk), client_sk)
            ==> r is Ok
}

/// The outcome of a Hello, by what its box opens to.
pub open spec fn hello_outcome(s: Sessions, t: Sessions, sk: Seq<u8>, req: Frame, now: i64, r: Result<Frame, AWError>) -> bool {
    let id = req.id@;
    if s.contains_key(id) {
        r == Err::<Frame, AWError>(AWError::LlsdError(LlsdError::InvalidSessionState)) && t == s
    } else if now == i64::MAX {
        r == Err::<Frame, AWError>(AWError::ServerFault) && t == s
    } else {
        let v = t[id];
        &&& t.contains_key(id)
        &&& t == s.insert(id, v)
        &&& v.client_pk == id
        &&& v.created_at == now
        &&& v.expire_at == expiry(now)
        &&& v.client_lt_pk is None
        &&& v.st_pk == public_of(v.st_sk)
        &&& v.st_pk.len() == 32
        &&& v.st_sk.len() == 32
        &&& match opened(req.payload@, req.nonce@, id, sk) {
            None => v.state == SessionState::Error
                && r == Err::<Frame, AWError>(AWError::LlsdError(LlsdError::DecryptionFailed)),
            Some(p) => if p.len() != 256 {
                v.state == SessionState::Error
                    && r == Err::<Frame, AWError>(AWError::LlsdError(LlsdError::InvalidHelloFrame))
            } else {
                &&& v.state == SessionState::Fresh
                &&& r matches Ok(f)
                &&& f.id == req.id
                &&& f.kind == FrameKind::Welcome
                &&& is_public_key(id) ==> f.payload@ == sealed(v.st_pk, f.nonce@, id, sk)
                &&& f.payload@.len() == 48
            },
        }
    }
}

/// Handling Initiate frame `req` at time `now` with authenticator `auth`
/// turns sessions `s` into `t` and returns `r`. The frame must belong to a
/// known session and validate; a client long-term key that `auth` refuses
/// gets the same error as a missing session, and its session fails; the
/// session must still be Fresh and at most 3 minutes old; then it becomes
/// Ready and answers with Ready.
///
/// An Initiate that the client made as the protocol prescribes validates,
/// so it is answered by the authenticator's decision and the session's
/// state and age alone.
pub open spec fn initiate_step<A: Authenticator>(s: Sessions, t: Sessions, auth: A, req: Frame, now: i64, r: Result<Frame, AWError>) -> bool {
    &&& initiate_outcome(s, t, auth, req, now, r)
    &&& s.contains_key(req.id@) ==> forall|lt_pk: Seq<u8>, lt_sk: Seq<u8>, vn: Seq<u8>, vb: Seq<u8>, client_sk: Seq<u8>|
        #[trigger] honest_initiate(s[req.id@], req, lt_pk, lt_sk, vn, vb, client_sk)
            ==> initiate_result(s[req.id@], req.payload@, req.nonce@) == Ok::<Seq<u8>, LlsdError>(lt_pk)
}

/// The outcome of an Initiate, by what validating it gives.
pub open spec fn initiate_outcome<A: Authenticator>(s: Sessions, t: Sessions, auth: A, req: Frame, now: i64, r: Result<Frame, AWError>) -> bool {
    let id = req.id@;
    if !s.contains_key(id) {
        r == Err::<Frame, AWError>(AWError::LlsdError(LlsdError::InvalidSessionState)) && t == s
    } else {
        let v = s[id];
        match initiate_result(v, req.payload@, req.nonce@) {
            Err(e) => r == Err::<Frame, AWError>(AWError::LlsdError(e)) && t == s,
            Ok(lt) => if !auth.accepts(lt) {
                r == Err::<Frame, AWError>(AWError::SessionNotFound)
                    && t == s.insert(id, ServerView { state: SessionState::Error, ..v })
            } else if v.state != SessionState::Fresh {
                r == Err::<Frame, AWError>(AWError::LlsdError(LlsdError::InvalidSessionState)) && t == s
            } else if now - v.created_at > HANDSHAKE_TIMEOUT_MS {
                r == Err::<Frame, AWError>(AWError::LlsdError(LlsdError::ExpiredSession)) && t == s
            } else {
                &&& t == s.insert(id, ServerView { state: SessionState::Ready, client_lt_pk: Some(lt), ..v })
                &&& r matches Ok(f)
                &&& f.id == req.id
                &&& f.kind == FrameKind::Ready
                &&& is_public_key(v.client_pk) ==> f.payload@ == sealed(ready_literal(), f.nonce@, v.client_pk, v.st_sk)
                &&& f.payload@.len() == 32
            },
        }
    }
}

/// Handling Message frame `req` at time `now` leaves sessions `s` as they
/// are and returns `r`. The frame must belong to a session that can send
/// and its box must open; the handler's reply, if any, is sealed for the
/// client in a Message frame.
///
/// The handler gets the session and the opened body. An error of the
/// handler is returned as it is; its reply is sealed for the client.
pub open spec fn message_step<H: Handler>(s: Sessions, t: Sessions, handler: H, req: Frame, now: i64, r: Result<Frame, AWError>) -> bool {
    let id = req.id@;
    &&& t == s
    &&& if !s.contains_key(id) || !s[id].sendable_at(now) {
        r == Err::<Frame, AWError>(AWError::LlsdError(LlsdError::InvalidSessionState))
    } else {
        let v = s[id];
        match opened(req.payload@, req.nonce@, v.client_pk, v.st_sk) {
            None => r == Err::<Frame, AWError>(AWError::LlsdError(LlsdError::DecryptionFailed)),
            Some(m) => exists|h: Result<Seq<u8>, AWError>| #[trigger] handler.handles(v, m, h) && reply_of(v, h, r),
        }
    }
}

/// The frame `r` that answers with the handler's outcome `h` on session
/// `v`: its error, or a Message frame sealing its reply for the client.
pub open spec fn reply_of(v: ServerView, h: Result<Seq<u8>, AWError>, r: Result<Frame, AWError>) -> bool {
    match h {
        Err(e) => r == Err::<Frame, AWError>(e),
        Ok(reply) => {
            &&& r matches Ok(f)
            &&& f.id@ == v.client_pk
            &&& f.kind == FrameKind::Message
            &&& f.payload@.len() == reply.len() + 16
            &&& is_public_key(v.client_pk) ==> f.payload@ == sealed(reply, f.nonce@, v.client_pk, v.st_sk)
        },
    }
}

/// Handling frame `req` at time `now`: by its kind. Welcome, Ready and
/// Termination frames have no business at the server.
pub open spec fn process_step<A: Authenticator, H: Handler>(
    s: Sessions,
    t: Sessions,
    auth: A,
    handler: H,
    sk: Seq<u8>,
    req: Frame,
    now: i64,
    r: Result<Frame, AWError>,
) -> bool {
    match req.kind {
        FrameKind::Hello => hello_step(s, t, sk, req, now, r),
        FrameKind::Initiate => initiate_step(s, t, auth, req, now, r),
        FrameKind::Message => message_step(s, t, handler, req, now, r),
        _ => r == Err::<Frame, AWError>(AWError::LlsdError(LlsdError::BadFrame)) && t == s,
    }
}

/// No session became Ready between `s` and `t` unless the authenticator
/// accepts the client long-term key it recorded.
pub open spec fn ready_only_if_accepted<A: Authenticator>(s: Sessions, t: Sessions, auth: A) -> bool {
    forall|k: Seq<u8>|
        #![trigger t[k]]
        t.contains_key(k) && t[k].state == SessionState::Ready && !(s.contains_key(k) && s[k].state == SessionState::Ready)
            ==> (t[k].client_lt_pk matches Some(lt) && auth.accepts(lt))
}

/// The server: its long-term keys, its sessions, the authenticator and
/// the handler.
pub struct AngelSystem<A: Authenticator, H: Handler> {
    sessions: SessionStore,
    authenticator: A,
    public_key: PublicKey,
    secret_key: SecretKey,
    handler: H,
}

impl<A: Authenticator, H: Handler> AngelSystem<A, H> {
    /// The sessions held.
    pub closed spec fn sessions(&self) -> Sessions {
        self.sessions@
    }

    /// The authenticator.
    pub closed spec fn authenticator(&self) -> A {
        self.authenticator
    }

    /// The server's long-term secret key.
    pub closed spec fn secret_key(&self) -> Seq<u8> {
        self.secret_key@
    }

    /// The handler.
    pub closed spec fn handler(&self) -> H {
        self.handler
    }

    /// The server's long-term public key.
    pub closed spec fn public_key_view(&self) -> Seq<u8> {
        self.public_key@
    }

    /// The session store is well formed.
    pub closed spec fn wf(&self) -> bool {
        self.sessions.wf()
    }

    /// A server with long-term keys `pk` and `sk` over the sessions of
    /// `store`.
    pub fn new(store: SessionStore, authenticator: A, pk: PublicKey, sk: SecretKey, handler: H) -> (r: AngelSystem<A, H>)
        requires
            store.wf(),
        ensures
            r.wf(),
            r.sessions() == store@,
            r.authenticator() == authenticator,
            r.secret_key() == sk@,
            r.public_key_view() == pk@,
    {
        AngelSystem { sessions: store, authenticator, public_key: pk, secret_key: sk, handler }
    }

    /// The server's long-term public key.
    pub fn public_key(&self) -> (r: PublicKey)
        ensures
            r@ == self.public_key_view(),
    {
        self.public_key
    }

    /// The session of the client whose short-term key is `id`, if any.
    pub fn session(&self, id: &PublicKey) -> (r: Option<&Session>)
        requires
            self.wf(),
        ensures
            r is None <==> !self.sessions().contains_key(id@),
            r matches Some(s) ==> s@ == self.sessions()[id@],
    {
        self.sessions.find_by_pk(id)
    }

    /// Drops every session that has expired or failed at time `now`.
    pub fn reap_at(&mut self, now: i64)
        requires
            old(self).wf(),
        ensures
            final(self).wf(),
            final(self).authenticator() == old(self).authenticator(),
            final(self).handler() == old(self).handler(),
            final(self).secret_key() == old(self).secret_key(),
            forall|k: Seq<u8>|
                #[trigger] final(self).sessions().contains_key(k)
                    <==> old(self).sessions().contains_key(k) && kept_at(old(self).sessions()[k], now),
            forall|k: Seq<u8>|
                #[trigger] final(self).sessions().contains_key(k) ==> final(self).sessions()[k] == old(self).sessions()[k],
    {
        self.sessions.reap_at(now);
    }

    /// Handles one inbound frame and returns the reply frame.
    pub fn process(&mut self, req: Frame) -> (r: Result<Frame, AWError>)
        requires
            old(self).wf(),
        ensures
            final(self).wf(),
            final(self).authenticator() == old(self).authenticator(),
            final(self).handler() == old(self).handler(),
            final(self).secret_key() == old(self).secret_key(),
            exists|now: i64|
                now < i64::MAX && #[trigger] process_step(
                    old(self).sessions(),
                    final(self).sessions(),
                    old(self).authenticator(),
                    old(self).handler(),
                    old(self).secret_key(),
                    req,
                    now,
                    r,
                ),
            ready_only_if_accepted(old(self).sessions(), final(self).sessions(), old(self).authenticator()),
    {
        let now = now_millis();
        let r = self.process_at(req, now);
        assert(process_step(
            old(self).sessions(),
            self.sessions(),
            old(self).authenticator(),
            old(self).handler(),
            old(self).secret_key(),
            req,
            now,
            r,
        ));
        r
    }

    /// `process` at time `now`.
    pub fn process_at(&mut self, req: Frame, now: i64) -> (r: Result<Frame, AWError>)
        requires
            old(self).wf(),
        ensures
            final(self).wf(),
            final(self).authenticator() == old(self).authenticator(),
            final(self).handler() == old(self).handler(),
            final(self).secret_key() == old(self).secret_key(),
            process_step(
                old(self).sessions(),
                final(self).sessions(),
                old(self).authenticator(),
                old(self).handler(),
                old(self).secret_key(),
                req,
                now,
                r,
            ),
            ready_only_if_accepted(old(self).sessions(), final(self).sessions(), old(self).authenticator()),
    {
        let ghost s = self.sessions@;
        let r = match req.kind {
            FrameKind::Hello => self.process_hello(&req, now),
            FrameKind::Initiate => self.process_initiate(&req, now),
            FrameKind::Message => self.process_message(&req, now),
            _ => Err(AWError::LlsdError(LlsdError::BadFrame)),
        };
        proof {
            let t = self.sessions@;
            if req.kind == FrameKind::Hello && !s.contains_key(req.id@) && now != i64::MAX {
                assert forall|k: Seq<u8>|
                    #![trigger t[k]]
                    t.contains_key(k) && t[k].state == SessionState::Ready && !(s.contains_key(k) && s[k].state == SessionState::Ready)
                        implies (t[k].client_lt_pk matches Some(lt) && self.authenticator.accepts(lt)) by {
                    if k != req.id@ {
                        assert(t[k] == s[k]);
                    }
                }
            }
            if req.kind == FrameKind::Initiate && s.contains_key(req.id@) {
                assert forall|k: Seq<u8>|
                    #![trigger t[k]]
                    t.contains_key(k) && t[k].state == SessionState::Ready && !(s.contains_key(k) && s[k].state == SessionState::Ready)
                        implies (t[k].client_lt_pk matches Some(lt) && self.authenticator.accepts(lt)) by {
                    if k != req.id@ {
                        assert(t[k] == s[k]);
                    }
                }
            }
        }
        r
    }

    fn process_hello(&mut self, req: &Frame, now: i64) -> (r: Result<Frame, AWError>)
        requires
            old(self).wf(),
            req.kind == FrameKind::Hello,
        ensures
            final(self).wf(),
            final(self).authenticator == old(self).authenticator,
            final(self).handler == old(self).handler,
            final(self).secret_key == old(self).secret_key,
            hello_step(old(self).sessions@, final(self).sessions@, old(self).secret_key@, *req, now, r),
    {
        if self.sessions.contains(&req.id) {
            return Err(AWError::LlsdError(LlsdError::InvalidSessionState));
        }
        let session = Session::new_at(req.id, now);
        if self.sessions.insert_at(session, now).is_none() {
            return Err(AWError::ServerFault);
        }
        let ghost mid = self.sessions@;
        let mut s = session;
        let res = s.make_welcome(req, &self.secret_key);
        self.sessions.update(s);
        proof {
            assert(self.sessions@ =~= old(self).sessions@.insert(req.id@, s@));
            assert(self.sessions@[req.id@] == s@);
        }
        match res {
            Ok(f) => Ok(f),
            Err(e) => Err(AWError::LlsdError(e)),
        }
    }

    fn process_initiate(&mut self, req: &Frame, now: i64) -> (r: Result<Frame, AWError>)
        requires
            old(self).wf(),
            req.kind == FrameKind::Initiate,
        ensures
            final(self).wf(),
            final(self).authenticator == old(self).authenticator,
            final(self).handler == old(self).handler,
            final(self).secret_key == old(self).secret_key,
            initiate_step(old(self).sessions@, final(self).sessions@, old(self).authenticator, *req, now, r),
    {
        let session = match self.sessions.find_by_pk(&req.id) {
            None => return Err(AWError::LlsdError(LlsdError::InvalidSessionState)),
            Some(s) => *s,
        };
        match session.validate_initiate(req) {
            Err(e) => Err(AWError::LlsdError(e)),
            Ok(key) => {
                if !self.authenticator.is_valid(&key) {
                    let mut s = session;
                    s.abandon();
                    self.sessions.update(s);
                    return Err(AWError::SessionNotFound);
                }
                let mut s = session;
                match s.make_ready_at(req, &key, now) {
                    Err(e) => Err(AWError::LlsdError(e)),
                    Ok(f) => {
                        self.sessions.update(s);
                        Ok(f)
                    },
                }
            },
        }
    }

    fn process_message(&mut self, req: &Frame, now: i64) -> (r: Result<Frame, AWError>)
        requires
            old(self).wf(),
            req.kind == FrameKind::Message,
        ensures
            final(self).wf(),
            final(self).authenticator == old(self).authenticator,
            final(self).handler == old(self).handler,
            final(self).secret_key == old(self).secret_key,
            message_step(old(self).sessions@, final(self).sessions@, old(self).handler, *req, now, r),
    {
        let session = match self.sessions.find_by_pk(&req.id) {
            None => return Err(AWError::LlsdError(LlsdError::InvalidSessionState)),
            Some(s) => *s,
        };
        if !session.can_send_at(now) {
            return Err(AWError::LlsdError(LlsdError::InvalidSessionState));
        }
        let msg = match session.read_msg(req) {
            Err(_) => return Err(AWError::LlsdError(LlsdError::DecryptionFailed)),
            Ok(m) => m,
        };
        let reply = match self.handler.handle(&session, msg) {
            Err(e) => return Err(e),
            Ok(b) => b,
        };
        match session.make_message_at(reply.as_slice(), now) {
            Ok(f) => Ok(f),
            Err(e) => Err(AWError::LlsdError(e)),
        }
    }
}

} // verus!
