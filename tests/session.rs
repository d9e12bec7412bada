use angel_whisper::crypto::{Nonce, PublicKey, SecretKey, gen_keypair};
use sodiumoxide::crypto::box_;
use angel_whisper::errors::LlsdError;
use angel_whisper::frame::{Frame, FrameKind};
use angel_whisper::session::SessionState;
use angel_whisper::{ClientSession, ServerSession};

fn gen_nonce() -> Nonce {
    Nonce(box_::gen_nonce().0)
}

fn seal(m: &[u8], n: &Nonce, pk: &PublicKey, sk: &SecretKey) -> Vec<u8> {
    box_::seal(m, &box_::Nonce(n.0), &box_::PublicKey(pk.0), &box_::SecretKey(sk.0))
}

fn open(c: &[u8], n: &Nonce, pk: &PublicKey, sk: &SecretKey) -> Result<Vec<u8>, ()> {
    box_::open(c, &box_::Nonce(n.0), &box_::PublicKey(pk.0), &box_::SecretKey(sk.0))
}


fn do_handshake(client: &mut ClientSession, server: &mut ServerSession, server_lt_secret: &SecretKey) {
    let hello = client.make_hello();
    let welcome = server.make_welcome(&hello, server_lt_secret).unwrap();
    let initiate = client.make_initiate(&welcome).unwrap();
    let client_lt_pk = server.validate_initiate(&initiate).unwrap();
    let ready = server.make_ready(&initiate, &client_lt_pk).unwrap();
    client.read_ready(&ready).unwrap();
}

#[test]
fn test_cant_send_if_not_ready() {
    let client_lt = gen_keypair();
    let server_lt = gen_keypair();

    let client_session = ClientSession::new(server_lt.0.clone(), client_lt.clone());

    let err = client_session.make_message(b"wat");
    assert!(err.is_err());
}

#[test]
fn test_successful_hashshake() {
    let client_lt = gen_keypair();
    let server_lt = gen_keypair();

    let mut client_session = ClientSession::new(server_lt.0.clone(), client_lt.clone());
    let mut server_session = ServerSession::new(client_session.id());

    let hello_frame = client_session.make_hello();

    let welcome_frame = server_session
        .make_welcome(&hello_frame, &server_lt.1)
        .expect("Failed to create welcome");

    let initiate_frame = client_session
        .make_initiate(&welcome_frame)
        .expect("Failed to create initiate");

    assert!(!client_session.can_send());
    assert!(!server_session.can_send());
    let client_lt_pk = server_session
        .validate_initiate(&initiate_frame)
        .expect("Failed to validate initiate frame");
    assert_eq!(&client_lt_pk, &client_lt.0);

    let ready_frame = server_session
        .make_ready(&initiate_frame, &client_lt_pk)
        .expect("Failed to create readu frame");

    assert!(client_session.read_ready(&ready_frame).is_ok());
    assert!(client_session.can_send());

    assert!(server_session.can_send());

    // Messages flow around like record
    let from_client_to_server = client_session.make_message(b"Shout it loud and proud").unwrap();
    let from_client_to_server_read = server_session.read_msg(&from_client_to_server).unwrap();
    assert_eq!(&from_client_to_server_read[..], b"Shout it loud and proud");

    let from_server_to_client = server_session.make_message(b"I'm the hyper star").unwrap();
    let from_server_to_client_read = client_session.read_msg(&from_server_to_client).unwrap();
    assert_eq!(&from_server_to_client_read[..], b"I'm the hyper star");
}

#[test]
fn plaintext_sizes_of_the_handshake() {
    let client_lt = gen_keypair();
    let server_lt = gen_keypair();
    let mut client = ClientSession::new(server_lt.0, client_lt);
    let mut server = ServerSession::new(client.id());
    let hello = client.make_hello();
    assert_eq!(hello.kind, FrameKind::Hello);
    assert_eq!(hello.id, client.id());
    assert_eq!(hello.payload.len(), 256 + 16);
    let welcome = server.make_welcome(&hello, &server_lt.1).unwrap();
    assert_eq!(welcome.kind, FrameKind::Welcome);
    assert_eq!(welcome.payload.len(), 32 + 16);
    let initiate = client.make_initiate(&welcome).unwrap();
    assert_eq!(initiate.kind, FrameKind::Initiate);
    assert_eq!(initiate.payload.len(), 104 + 16);
    let lt = server.validate_initiate(&initiate).unwrap();
    let ready = server.make_ready(&initiate, &lt).unwrap();
    assert_eq!(ready.kind, FrameKind::Ready);
    assert_eq!(ready.payload.len(), 16 + 16);
    assert_eq!(server.state(), SessionState::Ready);
    assert_eq!(server.client_lt_pk(), Some(client_lt.0));
}

#[test]
fn message_round_trip_both_ways() {
    let client_lt = gen_keypair();
    let server_lt = gen_keypair();
    let mut client = ClientSession::new(server_lt.0, client_lt);
    let mut server = ServerSession::new(client.id());
    do_handshake(&mut client, &mut server, &server_lt.1);
    for m in [&b""[..], &b"x"[..], &[0u8; 1000][..]] {
        let f = client.make_message(m).unwrap();
        assert_eq!(f.kind, FrameKind::Message);
        assert_ne!(&f.payload[..], m);
        assert_eq!(server.read_msg(&f).unwrap(), m.to_vec());
        let g = server.make_message(m).unwrap();
        assert_eq!(client.read_msg(&g).unwrap(), m.to_vec());
    }
}

#[test]
fn two_messages_have_distinct_nonces() {
    let client_lt = gen_keypair();
    let server_lt = gen_keypair();
    let mut client = ClientSession::new(server_lt.0, client_lt);
    let mut server = ServerSession::new(client.id());
    do_handshake(&mut client, &mut server, &server_lt.1);
    let a = client.make_message(b"same").unwrap();
    let b = client.make_message(b"same").unwrap();
    assert_ne!(a.nonce, b.nonce);
    assert_ne!(a.payload, b.payload);
}

#[test]
fn hello_with_wrong_padding_is_invalid() {
    let client_st = gen_keypair();
    let server_lt = gen_keypair();
    for len in [255usize, 257, 0] {
        let mut server = ServerSession::new(client_st.0);
        let nonce = gen_nonce();
        let payload = seal(&vec![0u8; len], &nonce, &server_lt.0, &client_st.1);
        let hello = Frame { id: client_st.0, nonce, kind: FrameKind::Hello, payload };
        assert_eq!(server.make_welcome(&hello, &server_lt.1), Err(LlsdError::InvalidHelloFrame));
        assert_eq!(server.state(), SessionState::Error);
    }
}

#[test]
fn tampered_hello_fails_to_decrypt() {
    let client_lt = gen_keypair();
    let server_lt = gen_keypair();
    let client = ClientSession::new(server_lt.0, client_lt);
    let mut server = ServerSession::new(client.id());
    let mut hello = client.make_hello();
    hello.payload[0] ^= 1;
    assert_eq!(server.make_welcome(&hello, &server_lt.1), Err(LlsdError::DecryptionFailed));
    assert_eq!(server.state(), SessionState::Error);
}

#[test]
fn welcome_of_wrong_kind_is_wrong_state() {
    let client_lt = gen_keypair();
    let server_lt = gen_keypair();
    let mut client = ClientSession::new(server_lt.0, client_lt);
    let hello = client.make_hello();
    assert_eq!(client.make_initiate(&hello), Err(LlsdError::InvalidSessionState));
    let mut server = ServerSession::new(client.id());
    let welcome = server.make_welcome(&hello, &server_lt.1).unwrap();
    assert_eq!(server.make_welcome(&welcome, &server_lt.1), Err(LlsdError::InvalidSessionState));
}

#[test]
fn welcome_with_short_key_is_invalid() {
    let client_lt = gen_keypair();
    let server_lt = gen_keypair();
    let mut client = ClientSession::new(server_lt.0, client_lt);
    let nonce = gen_nonce();
    let payload = seal(&[1u8; 31], &nonce, &client.id(), &server_lt.1);
    let welcome = Frame { id: client.id(), nonce, kind: FrameKind::Welcome, payload };
    assert_eq!(client.make_initiate(&welcome), Err(LlsdError::InvalidWelcomeFrame));
    assert!(client.make_message(b"x").is_err());
}

#[test]
fn welcome_that_does_not_open_fails() {
    let client_lt = gen_keypair();
    let server_lt = gen_keypair();
    let mut client = ClientSession::new(server_lt.0, client_lt);
    let welcome = Frame { id: client.id(), nonce: gen_nonce(), kind: FrameKind::Welcome, payload: vec![0u8; 48] };
    assert_eq!(client.make_initiate(&welcome), Err(LlsdError::DecryptionFailed));
}

#[test]
fn ready_with_wrong_literal_is_invalid() {
    let client_lt = gen_keypair();
    let server_lt = gen_keypair();
    let mut client = ClientSession::new(server_lt.0, client_lt);
    let mut server = ServerSession::new(client.id());
    let hello = client.make_hello();
    let welcome = server.make_welcome(&hello, &server_lt.1).unwrap();
    let initiate = client.make_initiate(&welcome).unwrap();
    let lt = server.validate_initiate(&initiate).unwrap();
    server.make_ready(&initiate, &lt).unwrap();
    // a Message frame carries another plaintext than the Ready literal
    let mut not_ready = server.make_message(b"My body is READY").unwrap();
    not_ready.kind = FrameKind::Ready;
    assert_eq!(client.read_ready(&not_ready), Err(LlsdError::InvalidReadyFrame));
    assert!(!client.can_send());
}

#[test]
fn initiate_with_forged_vouch_is_invalid() {
    let client_lt = gen_keypair();
    let client_st = gen_keypair();
    let server_lt = gen_keypair();
    let mut server = ServerSession::new(client_st.0);
    let nonce = gen_nonce();
    let hello = Frame {
        id: client_st.0,
        nonce,
        kind: FrameKind::Hello,
        payload: seal(&[0u8; 256], &nonce, &server_lt.0, &client_st.1),
    };
    let welcome = server.make_welcome(&hello, &server_lt.1).unwrap();
    let server_st = open(&welcome.payload, &welcome.nonce, &server_lt.0, &client_st.1).unwrap();
    let server_st = PublicKey(server_st.try_into().unwrap());

    let initiate_with = |vouched: &[u8], inner_len: usize| {
        let vn = gen_nonce();
        let mut inner = client_lt.0 .0.to_vec();
        inner.extend_from_slice(&vn.0);
        inner.extend(seal(vouched, &vn, &server_st, &client_lt.1));
        inner.truncate(inner_len);
        let n = gen_nonce();
        Frame { id: client_st.0, nonce: n, kind: FrameKind::Initiate, payload: seal(&inner, &n, &server_st, &client_st.1) }
    };
    assert_eq!(server.validate_initiate(&initiate_with(&client_st.0 .0, 104)), Ok(client_lt.0));
    assert_eq!(server.validate_initiate(&initiate_with(&[0u8; 32], 104)), Err(LlsdError::InvalidInitiateFrame));
    assert_eq!(server.validate_initiate(&initiate_with(&client_st.0 .0, 103)), Err(LlsdError::InvalidInitiateFrame));
    let garbage = Frame { id: client_st.0, nonce: gen_nonce(), kind: FrameKind::Initiate, payload: vec![0u8; 120] };
    assert_eq!(server.validate_initiate(&garbage), Err(LlsdError::InvalidInitiateFrame));
}

#[test]
fn ready_more_than_three_minutes_late_is_expired() {
    let client_lt = gen_keypair();
    let server_lt = gen_keypair();
    let mut client = ClientSession::new(server_lt.0, client_lt);
    let mut server = ServerSession::new_at(client.id(), 0);
    let hello = client.make_hello();
    let welcome = server.make_welcome(&hello, &server_lt.1).unwrap();
    let initiate = client.make_initiate(&welcome).unwrap();
    let lt = server.validate_initiate(&initiate).unwrap();
    assert_eq!(server.make_ready_at(&initiate, &lt, 180_001), Err(LlsdError::ExpiredSession));
    assert_eq!(server.state(), SessionState::Fresh);
    assert!(server.make_ready_at(&initiate, &lt, 180_000).is_ok());
}

#[test]
fn expired_client_session_cannot_send() {
    let client_lt = gen_keypair();
    let server_lt = gen_keypair();
    let mut client = ClientSession::new(server_lt.0, client_lt);
    let mut server = ServerSession::new(client.id());
    do_handshake(&mut client, &mut server, &server_lt.1);
    assert!(client.can_send_at(0));
    assert!(!client.can_send_at(i64::MAX));
    assert_eq!(client.make_message_at(b"x", i64::MAX), Err(LlsdError::InvalidSessionState));
    assert_eq!(server.make_message_at(b"x", i64::MAX), Err(LlsdError::InvalidSessionState));
}
