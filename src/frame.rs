//! The frame: the wire unit, with its packed form
//! `id (32) ‖ nonce (24) ‖ kind (1) ‖ payload`.
use vstd::prelude::*;

use crate::crypto::{Nonce, PublicKey};
use crate::errors::LlsdError;

verus! {

/// Header size in bytes: 32 for the id, 24 for the nonce, 1 for the kind.
pub const HEADER_SIZE: usize = 57;

/// Frame type.
#[derive(Clone, Copy, Debug, PartialEq, Eq, Structural)]
pub enum FrameKind {
    /// Initial frame. Sent from client.
    Hello,
    /// Reply to the initial frame. Sent from server.
    Welcome,
    /// Authentication frame. Sent from client.
    Initiate,
    /// Sent from server after a successful handshake.
    Ready,
    /// Generic message frame. Sent from either side.
    Message,
    /// Termination of a handshake or a session. Sent from either side.
    Termination,
}

/// The byte that stands for a kind on the wire.
pub open spec fn kind_byte(k: FrameKind) -> u8 {
    match k {
        FrameKind::Hello => 1,
        FrameKind::Welcome => 2,
        FrameKind::Initiate => 3,
        FrameKind::Ready => 4,
        FrameKind::Message => 5,
        FrameKind::Termination => 6,
    }
}

/// The kind that a byte stands for, if any: bytes 1 to 6.
pub open spec fn kind_of_byte(b: u8) -> Option<FrameKind> {
    if b == 1 {
        Some(FrameKind::Hello)
    } else if b == 2 {
        Some(FrameKind::Welcome)
    } else if b == 3 {
        Some(FrameKind::Initiate)
    } else if b == 4 {
        Some(FrameKind::Ready)
    } else if b == 5 {
        Some(FrameKind::Message)
    } else if b == 6 {
        Some(FrameKind::Termination)
    } else {
        None
    }
}

impl FrameKind {
    /// The kind that a byte stands for; `None` outside 1..=6.
    pub fn from(kind: u8) -> (r: Option<FrameKind>)
        ensures
            r == kind_of_byte(kind),
    {
        match kind {
            1 => Some(FrameKind::Hello),
            2 => Some(FrameKind::Welcome),
            3 => Some(FrameKind::Initiate),
            4 => Some(FrameKind::Ready),
            5 => Some(FrameKind::Message),
            6 => Some(FrameKind::Termination),
            _ => None,
        }
    }

    /// The kind of a one-byte slice; `None` for any other length.
    pub fn from_slice(kind: &[u8]) -> (r: Option<FrameKind>)
        ensures
            r == (if kind@.len() == 1 { kind_of_byte(kind@[0]) } else { None }),
    {
        if kind.len() != 1 {
            return None;
        }
        FrameKind::from(kind[0])
    }

    /// The byte that stands for this kind on the wire.
    pub fn as_byte(&self) -> (r: u8)
        ensures
            r == kind_byte(*self),
    {
        match self {
            FrameKind::Hello => 1,
            FrameKind::Welcome => 2,
            FrameKind::Initiate => 3,
            FrameKind::Ready => 4,
            FrameKind::Message => 5,
            FrameKind::Termination => 6,
        }
    }
}

/// A frame as a mathematical value.
pub struct FrameModel {
    pub id: Seq<u8>,
    pub nonce: Seq<u8>,
    pub kind: FrameKind,
    pub payload: Seq<u8>,
}

/// Main unit of information passed between client and server. The frame
/// does not care what its payload holds as long as the header is correct.
#[derive(Clone, Debug, PartialEq)]
pub struct Frame {
    /// Session identifier: the client's short-term public key.
    pub id: PublicKey,
    /// Nonce the payload was sealed with.
    pub nonce: Nonce,
    /// Message type.
    pub kind: FrameKind,
    /// Payload, most often a sealed box.
    pub payload: Vec<u8>,
}

impl View for Frame {
    type V = FrameModel;

    open spec fn view(&self) -> FrameModel {
        FrameModel { id: self.id@, nonce: self.nonce@, kind: self.kind, payload: self.payload@ }
    }
}

/// A frame model whose id and nonce have the sizes of a key and a nonce.
pub open spec fn well_sized(f: FrameModel) -> bool {
    f.id.len() == 32 && f.nonce.len() == 24
}

/// The packed form of a frame.
pub open spec fn packed(f: FrameModel) -> Seq<u8> {
    f.id + f.nonce + seq![kind_byte(f.kind)] + f.payload
}

/// What a packed frame parses to: fewer than 57 bytes are incomplete, an
/// unknown kind byte is a bad frame, and the rest after the header is the
/// payload.
pub open spec fn parse_frame(s: Seq<u8>) -> Result<FrameModel, LlsdError> {
    if s.len() < 57 {
        Err(LlsdError::IncompleteFrame)
    } else {
        match kind_of_byte(s[56]) {
            None => Err(LlsdError::BadFrame),
            Some(k) => Ok(
                FrameModel {
                    id: s.subrange(0, 32),
                    nonce: s.subrange(32, 56),
                    kind: k,
                    payload: s.subrange(57, s.len() as int),
                },
            ),
        }
    }
}

/// The view of a parse result.
pub open spec fn parse_result_view(r: Result<Frame, LlsdError>) -> Result<FrameModel, LlsdError> {
    match r {
        Ok(f) => Ok(f@),
        Err(e) => Err(e),
    }
}

/// Copies 32 bytes of `s` from `start` into a key.
pub(crate) fn key_from_slice(s: &[u8], start: usize) -> (r: PublicKey)
    requires
        start + 32 <= s@.len(),
    ensures
        r@ == s@.subrange(start as int, start + 32),
{
    let mut a = [0u8; 32];
    let mut i: usize = 0;
    while i < 32
        invariant
            start + 32 <= s.len(),
            i <= 32,
            forall|j: int| 0 <= j < i ==> a@[j] == s@[start + j],
        decreases 32 - i,
    {
        a[i] = s[start + i];
        i = i + 1;
    }
    assert(a@ =~= s@.subrange(start as int, start + 32));
    PublicKey(a)
}

/// Copies 24 bytes of `s` from `start` into a nonce.
pub(crate) fn nonce_from_slice(s: &[u8], start: usize) -> (r: Nonce)
    requires
        start + 24 <= s@.len(),
    ensures
        r@ == s@.subrange(start as int, start + 24),
{
    let mut a = [0u8; 24];
    let mut i: usize = 0;
    while i < 24
        invariant
            start + 24 <= s.len(),
            i <= 24,
            forall|j: int| 0 <= j < i ==> a@[j] == s@[start + j],
        decreases 24 - i,
    {
        a[i] = s[start + i];
        i = i + 1;
    }
    assert(a@ =~= s@.subrange(start as int, start + 24));
    Nonce(a)
}

/// Appends the bytes of `s` to `buf`.
pub(crate) fn push_all(buf: &mut Vec<u8>, s: &[u8])
    ensures
        final(buf)@ == old(buf)@ + s@,
{
    let ghost start = buf@;
    let mut i: usize = 0;
    while i < s.len()
        invariant
            i <= s@.len(),
            buf@ == start + s@.subrange(0, i as int),
        decreases s@.len() - i,
    {
        buf.push(s[i]);
        i = i + 1;
        assert(buf@ =~= start + s@.subrange(0, i as int));
    }
    assert(s@.subrange(0, s@.len() as int) =~= s@);
}

impl Frame {
    /// Length of the packed frame: header and payload.
    pub fn length(&self) -> (r: usize)
        requires
            self.payload@.len() + HEADER_SIZE <= usize::MAX,
        ensures
            r == self.payload@.len() + HEADER_SIZE,
            r == packed(self@).len(),
    {
        HEADER_SIZE + self.payload.len()
    }

    /// Appends the packed frame to `buf`. The length prefix is not written.
    pub fn pack_to_buf(&self, buf: &mut Vec<u8>)
        ensures
            final(buf)@ == old(buf)@ + packed(self@),
    {
        let ghost start = buf@;
        push_all(buf, &self.id.0);
        push_all(buf, &self.nonce.0);
        buf.push(self.kind.as_byte());
        push_all(buf, self.payload.as_slice());
        assert(buf@ =~= start + packed(self@));
    }

    /// The packed frame.
    pub fn pack(&self) -> (r: Vec<u8>)
        ensures
            r@ == packed(self@),
    {
        let mut frame: Vec<u8> = Vec::new();
        self.pack_to_buf(&mut frame);
        assert(frame@ =~= packed(self@));
        frame
    }

    /// Parses a packed frame.
    pub fn from_slice(i: &[u8]) -> (r: Result<Frame, LlsdError>)
        ensures
            parse_result_view(r) == parse_frame(i@),
    {
        if i.len() < HEADER_SIZE {
            return Err(LlsdError::IncompleteFrame);
        }
        match FrameKind::from(i[56]) {
            None => Err(LlsdError::BadFrame),
            Some(kind) => {
                let id = key_from_slice(i, 0);
                let nonce = nonce_from_slice(i, 32);
                let mut payload: Vec<u8> = Vec::new();
                let mut k: usize = HEADER_SIZE;
                while k < i.len()
                    invariant
                        HEADER_SIZE <= k <= i@.len(),
                        payload@ == i@.subrange(57, k as int),
                    decreases i@.len() - k,
                {
                    payload.push(i[k]);
                    k = k + 1;
                    assert(payload@ =~= i@.subrange(57, k as int));
                }
                let f = Frame { id, nonce, kind, payload };
                assert(f@.payload =~= parse_frame(i@)->Ok_0.payload);
                Ok(f)
            },
        }
    }
}

/// Packing then parsing gives the frame back.
pub proof fn lemma_parse_packed(f: FrameModel)
    requires
        well_sized(f),
    ensures
        parse_frame(packed(f)) == Ok::<FrameModel, LlsdError>(f),
{
    let s = packed(f);
    assert(s[56] == kind_byte(f.kind));
    assert(s.subrange(0, 32) =~= f.id);
    assert(s.subrange(32, 56) =~= f.nonce);
    assert(s.subrange(57, s.len() as int) =~= f.payload);
    assert(kind_of_byte(kind_byte(f.kind)) == Some(f.kind));
}

} // verus!
