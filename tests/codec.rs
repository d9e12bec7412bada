use angel_whisper::codec::{FrameCodec, DEFAULT_MAX_FRAME_LEN};
use angel_whisper::crypto::{Nonce, gen_keypair};
use sodiumoxide::crypto::box_;
use angel_whisper::errors::LlsdError;
use angel_whisper::frame::{Frame, FrameKind};

fn gen_nonce() -> Nonce {
    Nonce(box_::gen_nonce().0)
}


fn make_frame() -> Frame {
    let (pk, _) = gen_keypair();
    Frame { id: pk, nonce: gen_nonce(), kind: FrameKind::Hello, payload: vec![0, 0, 0] }
}

fn put_u32(buf: &mut Vec<u8>, v: u32) {
    buf.extend_from_slice(&v.to_be_bytes());
}

#[test]
fn test_decode() {
    let mut buf: Vec<u8> = Vec::with_capacity(70);
    let frame = make_frame();
    let codec = FrameCodec::new();
    // First let's test if it can handle missing len
    let result = codec.decode(&mut buf);
    assert_eq!(0, buf.len());
    assert!(result.is_ok());
    assert!(result.unwrap().is_none());

    put_u32(&mut buf, frame.length() as u32);

    // Message has just header
    let result = codec.decode(&mut buf);
    assert_eq!(4, buf.len());
    assert!(result.is_ok());
    assert!(result.unwrap().is_none());

    frame.pack_to_buf(&mut buf);

    // Message is partial
    let mut buf_partial = buf[0..30].to_vec();
    let result = codec.decode(&mut buf_partial);
    assert_eq!(30, buf_partial.len());
    assert!(result.is_ok());
    assert!(result.unwrap().is_none());

    // Message is fully available
    let result = codec.decode(&mut buf);
    assert_eq!(0, buf.len());
    assert!(result.is_ok());
    assert!(result.unwrap().is_some());

    put_u32(&mut buf, frame.length() as u32);
    frame.pack_to_buf(&mut buf);
    put_u32(&mut buf, frame.length() as u32);

    // Two messages at once
    let result = codec.decode(&mut buf);
    assert_eq!(4, buf.len());
    assert!(result.is_ok());
    assert!(result.unwrap().is_some());
}

#[test]
fn test_encode() {
    let frame = make_frame();
    let mut buf: Vec<u8> = Vec::new();
    let codec = FrameCodec::new();

    let result = codec.encode(frame.clone(), &mut buf);
    assert!(result.is_ok());
    let payload_len = u32::from_be_bytes([buf[0], buf[1], buf[2], buf[3]]) as usize;
    assert_eq!(frame.length(), payload_len);
}

#[test]
fn encode_then_decode_gives_the_frame() {
    let frame = make_frame();
    let codec = FrameCodec::new();
    let mut buf = vec![];
    codec.encode(frame.clone(), &mut buf).unwrap();
    assert_eq!(buf.len(), 4 + 60);
    assert_eq!(&buf[0..4], &[0, 0, 0, 60]);
    assert_eq!(codec.decode(&mut buf), Ok(Some(frame)));
    assert!(buf.is_empty());
}

#[test]
fn fewer_than_four_bytes_give_nothing() {
    let codec = FrameCodec::new();
    for n in 0..4 {
        let mut buf = vec![0u8; n];
        assert_eq!(codec.decode(&mut buf), Ok(None));
        assert_eq!(buf.len(), n);
    }
}

#[test]
fn one_byte_short_gives_nothing() {
    let codec = FrameCodec::new();
    let mut buf = vec![];
    codec.encode(make_frame(), &mut buf).unwrap();
    buf.pop();
    let before = buf.clone();
    assert_eq!(codec.decode(&mut buf), Ok(None));
    assert_eq!(buf, before);
}

#[test]
fn bad_kind_in_stream_is_bad_frame() {
    let codec = FrameCodec::new();
    for kind in [0u8, 7] {
        let mut buf = vec![];
        codec.encode(make_frame(), &mut buf).unwrap();
        buf[4 + 56] = kind;
        assert_eq!(codec.decode(&mut buf), Err(LlsdError::BadFrame));
        assert!(buf.is_empty());
    }
}

#[test]
fn announced_length_under_header_is_bad_frame() {
    let codec = FrameCodec::new();
    let mut buf = vec![0, 0, 0, 56];
    buf.extend_from_slice(&[0u8; 56]);
    assert_eq!(codec.decode(&mut buf), Err(LlsdError::BadFrame));
}

#[test]
fn announced_length_over_bound_is_bad_frame() {
    let codec = FrameCodec::new();
    let mut buf = vec![];
    put_u32(&mut buf, DEFAULT_MAX_FRAME_LEN + 1);
    assert_eq!(codec.decode(&mut buf), Err(LlsdError::BadFrame));
    let small = FrameCodec { max_frame_len: 59 };
    let mut out = vec![];
    assert_eq!(small.encode(make_frame(), &mut out), Err(LlsdError::BadFrame));
    assert!(out.is_empty());
}

#[test]
fn hello_fed_one_byte_at_a_time() {
    let codec = FrameCodec::new();
    let frame = Frame { payload: vec![7u8; 272], ..make_frame() };
    let mut wire = vec![];
    codec.encode(frame.clone(), &mut wire).unwrap();
    let mut buf = vec![];
    let mut seen = vec![];
    for (i, b) in wire.iter().enumerate() {
        buf.push(*b);
        match codec.decode(&mut buf).unwrap() {
            Some(f) => {
                assert_eq!(i, wire.len() - 1);
                seen.push(f);
            }
            None => assert!(i < wire.len() - 1),
        }
    }
    assert_eq!(seen, vec![frame]);
    assert!(buf.is_empty());
}

#[test]
fn two_frames_in_one_buffer() {
    let codec = FrameCodec::new();
    let hello = make_frame();
    let initiate = Frame { kind: FrameKind::Initiate, payload: vec![1u8; 120], ..make_frame() };
    let mut buf = vec![];
    codec.encode(hello.clone(), &mut buf).unwrap();
    codec.encode(initiate.clone(), &mut buf).unwrap();
    let total = buf.len();
    assert_eq!(total, 4 + 60 + 4 + 177);
    assert_eq!(codec.decode(&mut buf), Ok(Some(hello)));
    assert_eq!(buf.len(), 4 + 177);
    assert_eq!(codec.decode(&mut buf), Ok(Some(initiate)));
    assert!(buf.is_empty());
    assert_eq!(codec.decode(&mut buf), Ok(None));
}

#[test]
fn stream_cut_into_uneven_chunks() {
    let codec = FrameCodec::new();
    let frames: Vec<Frame> = (0..4)
        .map(|i| Frame { payload: vec![i as u8; i * 10], ..make_frame() })
        .collect();
    let mut wire = vec![];
    for f in &frames {
        codec.encode(f.clone(), &mut wire).unwrap();
    }
    let mut buf = vec![];
    let mut seen = vec![];
    for chunk in wire.chunks(37) {
        buf.extend_from_slice(chunk);
        while let Some(f) = codec.decode(&mut buf).unwrap() {
            seen.push(f);
        }
    }
    assert_eq!(seen, frames);
    assert!(buf.is_empty());
}

#[test]
fn decode_all_takes_every_whole_frame() {
    let codec = FrameCodec::new();
    let a = make_frame();
    let b = Frame { kind: FrameKind::Message, ..make_frame() };
    let mut buf = vec![];
    codec.encode(a.clone(), &mut buf).unwrap();
    codec.encode(b.clone(), &mut buf).unwrap();
    buf.extend_from_slice(&[0, 0]);
    assert_eq!(codec.decode_all(&mut buf), Ok(vec![a, b]));
    assert_eq!(buf, vec![0, 0]);
    let mut bad = vec![0, 0, 0, 1];
    assert_eq!(codec.decode_all(&mut bad), Err(LlsdError::BadFrame));
}
