//! The decisions of a client engine: whether its connection is ready, and
//! the Message frame a request goes out in. The engine itself (transport,
//! handshake round trips) runs outside the library.
use vstd::prelude::*;

use crate::client::Session;
use crate::clock::now_millis;
use crate::crypto::{is_public_key, sealed};
use crate::errors::LlsdError;
use crate::frame::{Frame, FrameKind};
use crate::route::{be64_bytes, route_payload, Route};

verus! {

/// What state a connection is in.
#[derive(Clone, Copy, Debug, PartialEq, Eq, Hash, Structural)]
pub enum ConnectionState {
    /// Has a session that is authenticated and has not expired.
    Ready,
    /// Has no session, or one that cannot send.
    NotReady,
}

/// Whether a connection that holds `session` is ready at time `now`.
pub open spec fn ready_at(session: Option<Session>, now: i64) -> bool {
    session matches Some(s) && s@.sendable_at(now)
}

/// The body of a request: the route key, if any, then the payload.
pub open spec fn request_body(route: Option<Route>, payload: Seq<u8>) -> Seq<u8> {
    match route {
        None => payload,
        Some(rt) => be64_bytes(rt.0) + payload,
    }
}

impl ConnectionState {
    /// The state of a connection that holds `session`, at time `now`.
    pub fn of_at(session: &Option<Session>, now: i64) -> (r: ConnectionState)
        ensures
            r == ConnectionState::Ready <==> ready_at(*session, now),
    {
        match session {
            Some(s) => if s.can_send_at(now) {
                ConnectionState::Ready
            } else {
                ConnectionState::NotReady
            },
            None => ConnectionState::NotReady,
        }
    }

    /// The state of a connection that holds `session`, now.
    pub fn of(session: &Option<Session>) -> (r: ConnectionState)
        ensures
            exists|now: i64| (r == ConnectionState::Ready <==> #[trigger] ready_at(*session, now)),
    {
        let now = now_millis();
        let r = ConnectionState::of_at(session, now);
        assert(r == ConnectionState::Ready <==> ready_at(*session, now));
        r
    }
}

/// The Message frame for a request of `payload` on `route`, at time `now`:
/// refused unless the session can send.
pub fn make_request_at(session: &Session, route: Option<Route>, payload: &[u8], now: i64) -> (r: Result<Frame, LlsdError>)
    ensures
        r is Ok <==> session@.sendable_at(now) && session@.server_pk is Some,
        r is Err ==> r == Err::<Frame, LlsdError>(LlsdError::InvalidSessionState),
        r matches Ok(f) ==> session@.server_pk matches Some(k) && f.kind == FrameKind::Message
            && f.id@ == session@.st_pk
            && (is_public_key(k) ==> f.payload@ == sealed(request_body(route, payload@), f.nonce@, k, session@.st_sk)),
{
    let body = route_payload(route, payload);
    session.make_message_at(body.as_slice(), now)
}

/// `make_request_at`, now.
pub fn make_request(session: &Session, route: Option<Route>, payload: &[u8]) -> (r: Result<Frame, LlsdError>)
    ensures
        exists|now: i64| (r is Ok <==> session@.sendable_at(now) && session@.server_pk is Some),
        r is Err ==> r == Err::<Frame, LlsdError>(LlsdError::InvalidSessionState),
        r matches Ok(f) ==> session@.server_pk matches Some(k) && f.kind == FrameKind::Message
            && f.id@ == session@.st_pk
            && (is_public_key(k) ==> f.payload@ == sealed(request_body(route, payload@), f.nonce@, k, session@.st_sk)),
{
    let now = now_millis();
    let r = make_request_at(session, route, payload, now);
    assert(r is Ok <==> session@.sendable_at(now) && session@.server_pk is Some);
    r
}

} // verus!
