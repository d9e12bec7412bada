use angel_whisper::auth::{Authenticator, DumbAuthenticator};
use angel_whisper::crypto::{KeyPair, Nonce, PublicKey, gen_keypair};
use sodiumoxide::crypto::box_;
use angel_whisper::errors::{AWError, LlsdError};
use angel_whisper::frame::{Frame, FrameKind};
use angel_whisper::handler::{DynamicRouter, Handler, RouteAction};
use angel_whisper::route::Route;
use angel_whisper::session::SessionState;
use angel_whisper::store::SessionStore;
use angel_whisper::{AngelSystem, ClientSession, ServerSession};

fn gen_nonce() -> Nonce {
    Nonce(box_::gen_nonce().0)
}


struct EchoHandler;
impl Handler for EchoHandler {
    fn handle(&self, _: &ServerSession, msg: Vec<u8>) -> Result<Vec<u8>, AWError> {
        if msg == b"ping".to_vec() {
            Ok(b"pong".to_vec())
        } else {
            Err(AWError::NotImplemented)
        }
    }
}

fn system_for(server_lt: &KeyPair, white_list: Vec<PublicKey>) -> AngelSystem<DumbAuthenticator, EchoHandler> {
    AngelSystem::new(SessionStore::new(), DumbAuthenticator::new(white_list), server_lt.0, server_lt.1, EchoHandler)
}

#[test]
fn angel_system_bare_handshake_and_ping_pong() {
    let (our_pk, our_sk) = gen_keypair();

    let (server_pk, server_sk) = gen_keypair();

    let store = SessionStore::new();
    let authenticator = DumbAuthenticator::new(vec![our_pk]);

    let mut system = AngelSystem::new(store, authenticator, server_pk, server_sk, EchoHandler);

    let mut session = ClientSession::new(server_pk, (our_pk, our_sk));
    let hello_result = system.process(session.make_hello());
    assert!(hello_result.is_ok());
    let welcome_frame = hello_result.unwrap();
    assert_eq!(welcome_frame.kind, FrameKind::Welcome);

    let initiate = session.make_initiate(&welcome_frame).unwrap();

    let initiate_result = system.process(initiate);

    assert!(initiate_result.is_ok());
    let ready = initiate_result.unwrap();
    assert_eq!(&ready.kind, &FrameKind::Ready);

    let ready_status = session.read_ready(&ready);
    assert!(ready_status.is_ok());

    let ping_frame = session.make_message(&b"ping".to_vec()).expect("Failed to create Message Frame");
    let pong_result = system.process(ping_frame);
    assert!(pong_result.is_ok());

    let message_frame = pong_result.unwrap();
    let pong_payload = session.read_msg(&message_frame).unwrap();
    assert_eq!(pong_payload, b"pong".to_vec());
}

#[test]
fn llsd_handshake_and_ping_pong() {
    let (our_pk, our_sk) = gen_keypair();

    let (server_pk, server_sk) = gen_keypair();

    let store = SessionStore::new();
    let authenticator = DumbAuthenticator::new(vec![our_pk]);

    let mut system = AngelSystem::new(store, authenticator, server_pk.clone(), server_sk, EchoHandler);

    let mut session = ClientSession::new(server_pk.clone(), (our_pk, our_sk));
    let hello_result = system.process(session.make_hello());
    assert!(hello_result.is_ok());
    let welcome_frame = hello_result.unwrap();
    assert_eq!(welcome_frame.kind, FrameKind::Welcome);

    let initiate = session.make_initiate(&welcome_frame).unwrap();

    let initiate_result = system.process(initiate);

    assert!(initiate_result.is_ok());
    assert_eq!(initiate_result.unwrap().kind, FrameKind::Ready);

    let ping_frame = session.make_message(&b"ping".to_vec());
    // the client has not read the Ready frame, so it cannot send yet
    assert!(ping_frame.is_err());
}

#[test]
fn test_dumb_store() {
    let (pk, _) = gen_keypair();
    let (pk2, _) = gen_keypair();

    let dumb = DumbAuthenticator::new(vec![pk]);

    assert_eq!(dumb.is_valid(&pk), true);
    assert_eq!(dumb.is_valid(&pk2), false);
}

#[test]
fn unauthorised_client_gets_no_ready() {
    let client_lt = gen_keypair();
    let server_lt = gen_keypair();
    let mut system = system_for(&server_lt, vec![]);
    let mut client = ClientSession::new(server_lt.0, client_lt);
    let welcome = system.process(client.make_hello()).unwrap();
    let initiate = client.make_initiate(&welcome).unwrap();
    assert_eq!(system.process(initiate), Err(AWError::SessionNotFound));
    assert_eq!(system.session(&client.id()).unwrap().state(), SessionState::Error);
}

#[test]
fn replayed_hello_is_refused() {
    let client_lt = gen_keypair();
    let server_lt = gen_keypair();
    let mut system = system_for(&server_lt, vec![client_lt.0]);
    let client = ClientSession::new(server_lt.0, client_lt);
    let hello = client.make_hello();
    assert!(system.process(hello.clone()).is_ok());
    assert_eq!(system.process(hello), Err(AWError::LlsdError(LlsdError::InvalidSessionState)));
}

#[test]
fn initiate_without_session_is_wrong_state() {
    let client_lt = gen_keypair();
    let server_lt = gen_keypair();
    let mut system = system_for(&server_lt, vec![client_lt.0]);
    let frame = Frame { id: gen_keypair().0, nonce: gen_nonce(), kind: FrameKind::Initiate, payload: vec![0u8; 120] };
    assert_eq!(system.process(frame), Err(AWError::LlsdError(LlsdError::InvalidSessionState)));
}

#[test]
fn late_initiate_is_expired() {
    let client_lt = gen_keypair();
    let server_lt = gen_keypair();
    let mut system = system_for(&server_lt, vec![client_lt.0]);
    let mut client = ClientSession::new(server_lt.0, client_lt);
    let welcome = system.process_at(client.make_hello(), 1_000).unwrap();
    let initiate = client.make_initiate(&welcome).unwrap();
    assert_eq!(
        system.process_at(initiate.clone(), 1_000 + 180_001),
        Err(AWError::LlsdError(LlsdError::ExpiredSession))
    );
    assert_eq!(system.session(&client.id()).unwrap().state(), SessionState::Fresh);
    assert_eq!(system.process_at(initiate, 1_000 + 180_000).unwrap().kind, FrameKind::Ready);
}

#[test]
fn message_before_ready_is_refused() {
    let client_lt = gen_keypair();
    let server_lt = gen_keypair();
    let mut system = system_for(&server_lt, vec![client_lt.0]);
    let client = ClientSession::new(server_lt.0, client_lt);
    system.process(client.make_hello()).unwrap();
    let frame = Frame { id: client.id(), nonce: gen_nonce(), kind: FrameKind::Message, payload: vec![0u8; 20] };
    assert_eq!(system.process(frame), Err(AWError::LlsdError(LlsdError::InvalidSessionState)));
    assert_eq!(system.session(&client.id()).unwrap().state(), SessionState::Fresh);
}

#[test]
fn message_for_unknown_session_is_wrong_state() {
    let client_lt = gen_keypair();
    let server_lt = gen_keypair();
    let mut system = system_for(&server_lt, vec![client_lt.0]);
    let frame = Frame { id: gen_keypair().0, nonce: gen_nonce(), kind: FrameKind::Message, payload: vec![] };
    assert_eq!(system.process(frame), Err(AWError::LlsdError(LlsdError::InvalidSessionState)));
}

#[test]
fn tampered_message_fails_to_decrypt() {
    let client_lt = gen_keypair();
    let server_lt = gen_keypair();
    let mut system = system_for(&server_lt, vec![client_lt.0]);
    let mut client = ClientSession::new(server_lt.0, client_lt);
    let welcome = system.process(client.make_hello()).unwrap();
    let ready = system.process(client.make_initiate(&welcome).unwrap()).unwrap();
    client.read_ready(&ready).unwrap();
    let mut ping = client.make_message(b"ping").unwrap();
    ping.payload[3] ^= 0x80;
    assert_eq!(system.process(ping), Err(AWError::LlsdError(LlsdError::DecryptionFailed)));
    let other = client.make_message(b"other").unwrap();
    assert_eq!(system.process(other), Err(AWError::NotImplemented));
}

#[test]
fn frames_the_server_never_takes_are_bad() {
    let client_lt = gen_keypair();
    let server_lt = gen_keypair();
    let mut system = system_for(&server_lt, vec![client_lt.0]);
    for kind in [FrameKind::Welcome, FrameKind::Ready, FrameKind::Termination] {
        let frame = Frame { id: gen_keypair().0, nonce: gen_nonce(), kind, payload: vec![] };
        assert_eq!(system.process(frame), Err(AWError::LlsdError(LlsdError::BadFrame)));
    }
}

#[test]
fn hello_that_does_not_open_leaves_failed_session() {
    let client_lt = gen_keypair();
    let server_lt = gen_keypair();
    let other_server = gen_keypair();
    let mut system = system_for(&server_lt, vec![client_lt.0]);
    let client = ClientSession::new(other_server.0, client_lt);
    assert_eq!(system.process(client.make_hello()), Err(AWError::LlsdError(LlsdError::DecryptionFailed)));
    assert_eq!(system.session(&client.id()).unwrap().state(), SessionState::Error);
}

#[test]
fn hello_at_end_of_clock_is_a_server_fault() {
    let client_lt = gen_keypair();
    let server_lt = gen_keypair();
    let mut system = system_for(&server_lt, vec![client_lt.0]);
    let client = ClientSession::new(server_lt.0, client_lt);
    assert_eq!(system.process_at(client.make_hello(), i64::MAX), Err(AWError::ServerFault));
    assert!(system.session(&client.id()).is_none());
}

struct EchoBody;
impl RouteAction for EchoBody {
    fn process(&self, _route: &Route, _session: &ServerSession, msg: Vec<u8>) -> Result<Vec<u8>, AWError> {
        Ok(msg)
    }
}

#[test]
fn routed_message_reaches_its_handler() {
    let client_lt = gen_keypair();
    let server_lt = gen_keypair();
    let mut router = DynamicRouter::new();
    let echo = Route::from_tag("echo");
    router.register_route(echo, EchoBody);
    let mut system =
        AngelSystem::new(SessionStore::new(), DumbAuthenticator::new(vec![client_lt.0]), server_lt.0, server_lt.1, router);
    let mut client = ClientSession::new(server_lt.0, client_lt);
    let welcome = system.process(client.make_hello()).unwrap();
    let ready = system.process(client.make_initiate(&welcome).unwrap()).unwrap();
    client.read_ready(&ready).unwrap();

    let mut body = echo.id().to_be_bytes().to_vec();
    body.extend_from_slice(b"hello");
    let reply = system.process(client.make_message(&body).unwrap()).unwrap();
    assert_eq!(client.read_msg(&reply).unwrap(), b"hello".to_vec());

    let short = client.make_message(b"hello").unwrap();
    assert_eq!(system.process(short), Err(AWError::InvalidRoute));
}

#[test]
fn server_public_key_is_kept() {
    let server_lt = gen_keypair();
    let system = system_for(&server_lt, vec![]);
    assert_eq!(system.public_key(), server_lt.0);
}

#[test]
fn reaping_drops_failed_sessions() {
    let client_lt = gen_keypair();
    let server_lt = gen_keypair();
    let mut system = system_for(&server_lt, vec![]);
    let mut client = ClientSession::new(server_lt.0, client_lt);
    let welcome = system.process_at(client.make_hello(), 5_000).unwrap();
    let initiate = client.make_initiate(&welcome).unwrap();
    assert_eq!(system.process_at(initiate, 6_000), Err(AWError::SessionNotFound));
    system.reap_at(6_000);
    assert!(system.session(&client.id()).is_none());
}
