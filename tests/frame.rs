use angel_whisper::crypto::{Nonce, gen_keypair};
use sodiumoxide::crypto::box_;
use angel_whisper::errors::LlsdError;
use angel_whisper::frame::{Frame, FrameKind, HEADER_SIZE};

fn gen_nonce() -> Nonce {
    Nonce(box_::gen_nonce().0)
}


fn make_frame() -> Frame {
    let (pk, _) = gen_keypair();
    Frame { id: pk, nonce: gen_nonce(), kind: FrameKind::Hello, payload: vec![0, 0, 0] }
}

#[test]
fn pack_and_unpack() {
    let frame = make_frame();
    let packed_frame = frame.pack();
    assert_eq!(packed_frame.len(), 60);

    let parsed_frame = Frame::from_slice(&packed_frame);

    assert_eq!(frame, parsed_frame.unwrap());
}

#[test]
fn malformed_frame() {
    let packed_frame = vec![1 as u8, 2, 3];

    let parsed_frame = Frame::from_slice(&packed_frame);

    assert_eq!(parsed_frame.is_err(), true);
    let err = parsed_frame.err().unwrap();
    match err {
        LlsdError::IncompleteFrame => assert!(true),
        _ => panic!("WRONG ERROR KIND"),
    }
}

#[test]
fn packed_layout_is_id_nonce_kind_payload() {
    let frame = Frame { kind: FrameKind::Initiate, payload: vec![9, 8], ..make_frame() };
    let packed = frame.pack();
    assert_eq!(&packed[0..32], &frame.id.0[..]);
    assert_eq!(&packed[32..56], &frame.nonce.0[..]);
    assert_eq!(packed[56], 3);
    assert_eq!(&packed[57..], &[9u8, 8][..]);
    assert_eq!(frame.length(), HEADER_SIZE + 2);
}

#[test]
fn frame_kind_bytes() {
    assert_eq!(FrameKind::from(0), None);
    assert_eq!(FrameKind::from(1), Some(FrameKind::Hello));
    assert_eq!(FrameKind::from(6), Some(FrameKind::Termination));
    assert_eq!(FrameKind::from(7), None);
    assert_eq!(FrameKind::from_slice(&[5]), Some(FrameKind::Message));
    assert_eq!(FrameKind::from_slice(&[5, 5]), None);
    assert_eq!(FrameKind::from_slice(&[]), None);
    assert_eq!(FrameKind::Ready.as_byte(), 4);
}

#[test]
fn unknown_kind_is_bad_frame() {
    for kind in [0u8, 7] {
        let mut packed = make_frame().pack();
        packed[56] = kind;
        assert_eq!(Frame::from_slice(&packed), Err(LlsdError::BadFrame));
    }
}

#[test]
fn empty_payload_round_trips() {
    let frame = Frame { payload: vec![], ..make_frame() };
    let packed = frame.pack();
    assert_eq!(packed.len(), HEADER_SIZE);
    assert_eq!(Frame::from_slice(&packed), Ok(frame));
}
