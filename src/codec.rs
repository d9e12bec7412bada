//! Length-prefixed stream framing: each frame on the wire is preceded by
//! the 4-byte big-endian length of its packed form.
use vstd::prelude::*;

use crate::errors::LlsdError;
use crate::frame::{lemma_parse_packed, packed, parse_frame, well_sized, Frame, FrameModel, HEADER_SIZE};

verus! {

/// Default bound on a frame's packed length: 1 MiB.
pub const DEFAULT_MAX_FRAME_LEN: u32 = 1048576;

/// The big-endian value of the first four bytes of `s`.
pub open spec fn be32_value(s: Seq<u8>) -> nat
    recommends
        s.len() >= 4,
{
    s[0] as nat * 16777216 + s[1] as nat * 65536 + s[2] as nat * 256 + s[3] as nat
}

/// The four big-endian bytes of `v`.
pub open spec fn be32_bytes(v: nat) -> Seq<u8> {
    seq![
        ((v / 16777216) % 256) as u8,
        ((v / 65536) % 256) as u8,
        ((v / 256) % 256) as u8,
        (v % 256) as u8,
    ]
}

/// The wire form of a frame: its length, then the packed frame.
pub open spec fn encoded(f: FrameModel) -> Seq<u8> {
    be32_bytes(packed(f).len()) + packed(f)
}

/// A frame that the codec can carry under the bound `max`.
pub open spec fn fits(f: FrameModel, max: nat) -> bool {
    well_sized(f) && packed(f).len() <= max
}

/// One step of the decoder on buffer `buf`: the outcome and the buffer
/// that is left.
///  - Fewer than 4 bytes: no frame yet.
///  - An announced length under the header size or over `max`: a bad frame.
///  - Fewer bytes than announced: no frame yet.
///  - Otherwise the announced bytes are consumed and parsed.
#[verifier::opaque]
pub open spec fn decode_step(buf: Seq<u8>, max: nat) -> (Result<Option<FrameModel>, LlsdError>, Seq<u8>) {
    if buf.len() < 4 {
        (Ok(None), buf)
    } else {
        let l = be32_value(buf) as int;
        if l < 57 || l > max {
            (Err(LlsdError::BadFrame), buf)
        } else if buf.len() < 4 + l {
            (Ok(None), buf)
        } else {
            let rest = buf.subrange(4 + l, buf.len() as int);
            match parse_frame(buf.subrange(4, 4 + l)) {
                Ok(f) => (Ok(Some(f)), rest),
                Err(_) => (Err(LlsdError::BadFrame), rest),
            }
        }
    }
}

/// Runs the decoder on `buf` until it yields no frame: the frames, in
/// order, and the bytes left; or the first error.
pub open spec fn drain(buf: Seq<u8>, max: nat) -> Result<(Seq<FrameModel>, Seq<u8>), LlsdError>
    decreases buf.len(),
{
    let (r, rest) = decode_step(buf, max);
    match r {
        Err(e) => Err(e),
        Ok(None) => Ok((Seq::empty(), buf)),
        Ok(Some(f)) => if rest.len() < buf.len() {
            match drain(rest, max) {
                Ok((fs, tail)) => Ok((seq![f] + fs, tail)),
                Err(e) => Err(e),
            }
        } else {
            Ok((seq![f], rest))
        },
    }
}

/// Delivers `chunks` one after another to a decoder whose buffer holds
/// `buf`, draining it after each: all frames yielded, and the bytes left.
pub open spec fn feed(buf: Seq<u8>, chunks: Seq<Seq<u8>>, max: nat) -> Result<(Seq<FrameModel>, Seq<u8>), LlsdError>
    decreases chunks.len(),
{
    if chunks.len() == 0 {
        Ok((Seq::empty(), buf))
    } else {
        match drain(buf + chunks[0], max) {
            Err(e) => Err(e),
            Ok((fs, rest)) => match feed(rest, chunks.drop_first(), max) {
                Ok((gs, tail)) => Ok((fs + gs, tail)),
                Err(e) => Err(e),
            },
        }
    }
}

/// The concatenation of `chunks`.
pub open spec fn flatten(chunks: Seq<Seq<u8>>) -> Seq<u8>
    decreases chunks.len(),
{
    if chunks.len() == 0 {
        Seq::empty()
    } else {
        chunks[0] + flatten(chunks.drop_first())
    }
}

/// The wire forms of `fs`, one after another.
pub open spec fn stream(fs: Seq<FrameModel>) -> Seq<u8>
    decreases fs.len(),
{
    if fs.len() == 0 {
        Seq::empty()
    } else {
        encoded(fs[0]) + stream(fs.drop_first())
    }
}

/// Views of a decoded result.
pub open spec fn decode_result_view(r: Result<Option<Frame>, LlsdError>) -> Result<Option<FrameModel>, LlsdError> {
    match r {
        Ok(Some(f)) => Ok(Some(f@)),
        Ok(None) => Ok(None),
        Err(e) => Err(e),
    }
}

/// The views of a run of frames.
pub open spec fn frames_view(fs: Seq<Frame>) -> Seq<FrameModel> {
    fs.map_values(|f: Frame| f@)
}

/// A step that yields a frame consumes bytes; one that yields none
/// consumes nothing.
proof fn lemma_decode_step_shrinks(buf: Seq<u8>, max: nat)
    ensures
        decode_step(buf, max).0 matches Ok(Some(_)) ==> decode_step(buf, max).1.len() < buf.len(),
        decode_step(buf, max).0 matches Ok(None) ==> decode_step(buf, max).1 == buf,
{
    reveal(decode_step);
}

/// Reads the big-endian value of the first four bytes.
pub fn read_u32_be(s: &[u8]) -> (r: u32)
    requires
        s@.len() >= 4,
    ensures
        r as nat == be32_value(s@),
{
    let v: u64 = (s[0] as u64) * 16777216 + (s[1] as u64) * 65536 + (s[2] as u64) * 256 + (s[3] as u64);
    v as u32
}

/// Appends the four big-endian bytes of `v`.
pub fn write_u32_be(buf: &mut Vec<u8>, v: u32)
    ensures
        final(buf)@ == old(buf)@ + be32_bytes(v as nat),
{
    let ghost start = buf@;
    buf.push((v / 16777216) as u8);
    buf.push(((v / 65536) % 256) as u8);
    buf.push(((v / 256) % 256) as u8);
    buf.push((v % 256) as u8);
    assert(buf@ =~= start + be32_bytes(v as nat));
}

/// Four big-endian bytes read back give the value written.
pub proof fn lemma_be32_round_trip(v: nat)
    requires
        v < 4294967296,
    ensures
        be32_value(be32_bytes(v)) == v,
{
    let b = be32_bytes(v);
    assert(b[0] as nat == v / 16777216);
    assert(b[1] as nat == (v / 65536) % 256);
    assert(b[2] as nat == (v / 256) % 256);
    assert(b[3] as nat == v % 256);
    assert(v / 16777216 * 16777216 + (v / 65536) % 256 * 65536 + (v / 256) % 256 * 256 + v % 256 == v)
        by (nonlinear_arith)
        requires
            v < 4294967296,
    ;
}

/// Length-prefixed codec for frames, for both clients and servers.
pub struct FrameCodec {
    /// Largest packed frame, in bytes, that the codec accepts.
    pub max_frame_len: u32,
}

impl FrameCodec {
    /// A codec with the default bound of 1 MiB.
    pub fn new() -> (r: FrameCodec)
        ensures
            r.max_frame_len == DEFAULT_MAX_FRAME_LEN,
    {
        FrameCodec { max_frame_len: DEFAULT_MAX_FRAME_LEN }
    }

    /// Takes the next frame off the front of `buf`, if it is all there.
    pub fn decode(&self, buf: &mut Vec<u8>) -> (r: Result<Option<Frame>, LlsdError>)
        ensures
            (decode_result_view(r), final(buf)@) == decode_step(old(buf)@, self.max_frame_len as nat),
    {
        proof {
            reveal(decode_step);
        }
        if buf.len() < 4 {
            return Ok(None);
        }
        let payload_len = read_u32_be(buf.as_slice());
        if payload_len < 57 || payload_len > self.max_frame_len {
            return Err(LlsdError::BadFrame);
        }
        if (buf.len() as u64) < 4 + payload_len as u64 {
            return Ok(None);
        }
        let total: usize = 4 + payload_len as usize;
        let ghost start = buf@;
        let rest = buf.split_off(total);
        let data = buf.split_off(4);
        *buf = rest;
        assert(data@ =~= start.subrange(4, total as int));
        match Frame::from_slice(data.as_slice()) {
            Ok(frame) => Ok(Some(frame)),
            Err(_) => Err(LlsdError::BadFrame),
        }
    }

    /// Takes every whole frame off the front of `buf`, in order, until no
    /// whole frame is left; the first bad frame fails the call.
    pub fn decode_all(&self, buf: &mut Vec<u8>) -> (r: Result<Vec<Frame>, LlsdError>)
        ensures
            drain(old(buf)@, self.max_frame_len as nat) is Err ==> r is Err,
            r matches Err(e) ==> drain(old(buf)@, self.max_frame_len as nat) == Err::<(Seq<FrameModel>, Seq<u8>), LlsdError>(e),
            r matches Ok(fs) ==> drain(old(buf)@, self.max_frame_len as nat) == Ok::<(Seq<FrameModel>, Seq<u8>), LlsdError>(
                (frames_view(fs@), final(buf)@),
            ),
    {
        let ghost max = self.max_frame_len as nat;
        let mut out: Vec<Frame> = Vec::new();
        loop
            invariant
                max == self.max_frame_len as nat,
                drain(old(buf)@, max) == (match drain(buf@, max) {
                    Ok((fs, rest)) => Ok::<(Seq<FrameModel>, Seq<u8>), LlsdError>((frames_view(out@) + fs, rest)),
                    Err(e) => Err(e),
                }),
            decreases buf@.len(),
        {
            let ghost before = buf@;
            proof {
                lemma_decode_step_shrinks(before, max);
            }
            match self.decode(buf) {
                Err(e) => {
                    assert(drain(before, max) == Err::<(Seq<FrameModel>, Seq<u8>), LlsdError>(e));
                    return Err(e);
                },
                Ok(None) => {
                    assert(drain(before, max) == Ok::<(Seq<FrameModel>, Seq<u8>), LlsdError>((Seq::empty(), before)));
                    assert(frames_view(out@) + Seq::<FrameModel>::empty() =~= frames_view(out@));
                    return Ok(out);
                },
                Ok(Some(f)) => {
                    let ghost prev = out@;
                    out.push(f);
                    proof {
                        assert(frames_view(out@) =~= frames_view(prev).push(f@));
                        match drain(buf@, max) {
                            Ok((fs, rest)) => {
                                assert(frames_view(prev) + (seq![f@] + fs) =~= frames_view(out@) + fs);
                            },
                            Err(e) => {},
                        }
                    }
                },
            }
        }
    }

    /// Appends the wire form of `msg` to `buf`; a frame over the bound is
    /// refused as a bad frame and nothing is written.
    pub fn encode(&self, msg: Frame, buf: &mut Vec<u8>) -> (r: Result<(), LlsdError>)
        ensures
            r is Ok <==> packed(msg@).len() <= self.max_frame_len,
            r is Ok ==> final(buf)@ == old(buf)@ + encoded(msg@),
            r is Err ==> r == Err::<(), LlsdError>(LlsdError::BadFrame) && final(buf)@ == old(buf)@,
    {
        if self.max_frame_len < 57 || msg.payload.len() > self.max_frame_len as usize - HEADER_SIZE {
            return Err(LlsdError::BadFrame);
        }
        let len = msg.length();
        write_u32_be(buf, len as u32);
        msg.pack_to_buf(buf);
        Ok(())
    }
}

/// Every frame of `fs` fits under `max`.
pub open spec fn all_fit(fs: Seq<FrameModel>, max: nat) -> bool {
    forall|i: int| 0 <= i < fs.len() ==> fits(#[trigger] fs[i], max)
}

/// `t` is a prefix of the wire form of `todo` that holds no whole frame.
pub open spec fn short_prefix(t: Seq<u8>, todo: Seq<FrameModel>) -> bool {
    &&& t.len() <= stream(todo).len()
    &&& t == stream(todo).subrange(0, t.len() as int)
    &&& todo.len() > 0 ==> t.len() < encoded(todo[0]).len()
}

/// Decoding the wire form of a frame that fits gives the frame back and
/// leaves exactly the bytes that followed it.
pub proof fn lemma_decode_encoded(f: FrameModel, rest: Seq<u8>, max: u32)
    requires
        fits(f, max as nat),
    ensures
        decode_step(encoded(f) + rest, max as nat) == (Ok::<Option<FrameModel>, LlsdError>(Some(f)), rest),
{
    reveal(decode_step);
    let p = packed(f);
    let l = p.len();
    let buf = encoded(f) + rest;
    lemma_be32_round_trip(l);
    assert(be32_value(buf) == be32_value(be32_bytes(l)));
    assert(buf.subrange(4, 4 + l as int) =~= p);
    assert(buf.subrange(4 + l as int, buf.len() as int) =~= rest);
    lemma_parse_packed(f);
}

/// Fewer than four buffered bytes give no frame and no error, and stay
/// buffered.
pub proof fn lemma_under_four_bytes(buf: Seq<u8>, max: nat)
    requires
        buf.len() < 4,
    ensures
        decode_step(buf, max) == (Ok::<Option<FrameModel>, LlsdError>(None), buf),
{
    reveal(decode_step);
}

/// Any strict prefix of a frame's wire form (in particular one byte
/// short of it) gives no frame and no error, and stays buffered.
pub proof fn lemma_strict_prefix_incomplete(f: FrameModel, n: nat, max: u32)
    requires
        fits(f, max as nat),
        n < encoded(f).len(),
    ensures
        decode_step(encoded(f).subrange(0, n as int), max as nat)
            == (Ok::<Option<FrameModel>, LlsdError>(None), encoded(f).subrange(0, n as int)),
{
    let t = encoded(f).subrange(0, n as int);
    let todo = seq![f];
    assert(todo.drop_first() =~= Seq::<FrameModel>::empty());
    assert(todo[0] == f);
    assert(stream(Seq::<FrameModel>::empty()) =~= Seq::<u8>::empty());
    assert(stream(todo) =~= encoded(f) + stream(todo.drop_first()));
    assert(stream(todo) =~= encoded(f));
    assert(all_fit(todo, max as nat));
    lemma_short_prefix_incomplete(t, todo, max);
}

/// A whole frame whose kind byte is not one of 1 to 6 is a bad frame;
/// its bytes are consumed.
pub proof fn lemma_bad_kind(buf: Seq<u8>, max: nat)
    requires
        buf.len() >= 4,
        57 <= be32_value(buf) <= max,
        buf.len() >= 4 + be32_value(buf),
        buf[60] < 1 || buf[60] > 6,
    ensures
        decode_step(buf, max) == (
            Err::<Option<FrameModel>, LlsdError>(LlsdError::BadFrame),
            buf.subrange(4 + be32_value(buf) as int, buf.len() as int),
        ),
{
    reveal(decode_step);
    let l = be32_value(buf) as int;
    assert(buf.subrange(4, 4 + l)[56] == buf[60]);
}

/// The wire form of two runs of frames is the one after the other.
pub proof fn lemma_stream_append(a: Seq<FrameModel>, b: Seq<FrameModel>)
    ensures
        stream(a + b) == stream(a) + stream(b),
    decreases a.len(),
{
    if a.len() == 0 {
        assert(a + b =~= b);
        assert(stream(a) + stream(b) =~= stream(b));
    } else {
        assert((a + b).drop_first() =~= a.drop_first() + b);
        lemma_stream_append(a.drop_first(), b);
        assert(stream(a + b) =~= stream(a) + stream(b));
    }
}

/// A prefix that holds no whole frame gives no frame and no error.
proof fn lemma_short_prefix_incomplete(t: Seq<u8>, todo: Seq<FrameModel>, max: u32)
    requires
        all_fit(todo, max as nat),
        short_prefix(t, todo),
    ensures
        decode_step(t, max as nat) == (Ok::<Option<FrameModel>, LlsdError>(None), t),
{
    reveal(decode_step);
    if t.len() >= 4 {
        assert(todo.len() > 0);
        let f = todo[0];
        assert(fits(f, max as nat));
        let l = packed(f).len();
        lemma_be32_round_trip(l);
        assert(stream(todo) == encoded(f) + stream(todo.drop_first()));
        assert(t[0] == encoded(f)[0] && t[1] == encoded(f)[1] && t[2] == encoded(f)[2] && t[3] == encoded(f)[3]);
        assert(be32_value(t) == be32_value(be32_bytes(l)));
    }
}

/// Draining whole frames followed by a prefix with no whole frame yields
/// those frames and leaves the prefix.
proof fn lemma_drain_stream(gs: Seq<FrameModel>, t: Seq<u8>, todo: Seq<FrameModel>, max: u32)
    requires
        all_fit(gs, max as nat),
        all_fit(todo, max as nat),
        short_prefix(t, todo),
    ensures
        drain(stream(gs) + t, max as nat) == Ok::<(Seq<FrameModel>, Seq<u8>), LlsdError>((gs, t)),
    decreases gs.len(),
{
    if gs.len() == 0 {
        assert(stream(gs) + t =~= t);
        lemma_short_prefix_incomplete(t, todo, max);
        assert(gs =~= Seq::<FrameModel>::empty());
    } else {
        let g = gs[0];
        assert(fits(g, max as nat));
        let tail = stream(gs.drop_first()) + t;
        assert(stream(gs) + t =~= encoded(g) + tail);
        lemma_decode_encoded(g, tail, max);
        assert(all_fit(gs.drop_first(), max as nat)) by {
            assert forall|i: int| 0 <= i < gs.drop_first().len() implies fits(#[trigger] gs.drop_first()[i], max as nat) by {
                assert(gs.drop_first()[i] == gs[i + 1]);
            }
        }
        lemma_drain_stream(gs.drop_first(), t, todo, max);
        assert(seq![g] + gs.drop_first() =~= gs);
    }
}

/// Any prefix of the wire form of `todo` is some whole frames of it
/// followed by a prefix of the remaining ones with no whole frame.
proof fn lemma_split_prefix(x: Seq<u8>, todo: Seq<FrameModel>) -> (res: (int, Seq<u8>))
    requires
        x.len() <= stream(todo).len(),
        x == stream(todo).subrange(0, x.len() as int),
    ensures
        0 <= res.0 <= todo.len(),
        x == stream(todo.subrange(0, res.0)) + res.1,
        short_prefix(res.1, todo.subrange(res.0, todo.len() as int)),
    decreases todo.len(),
{
    if todo.len() == 0 || x.len() < encoded(todo[0]).len() {
        assert(todo.subrange(0, 0) =~= Seq::<FrameModel>::empty());
        assert(todo.subrange(0, todo.len() as int) =~= todo);
        assert(stream(Seq::<FrameModel>::empty()) + x =~= x);
        (0, x)
    } else {
        let e = encoded(todo[0]);
        let rest = todo.drop_first();
        assert(stream(todo) == e + stream(rest));
        let x2 = x.subrange(e.len() as int, x.len() as int);
        assert(x2 =~= stream(rest).subrange(0, x2.len() as int));
        let (k, t) = lemma_split_prefix(x2, rest);
        let head = todo.subrange(0, k + 1);
        assert(head[0] == todo[0]);
        assert(head.drop_first() =~= rest.subrange(0, k));
        assert(stream(head) == e + stream(rest.subrange(0, k)));
        assert(x =~= e + x2);
        assert(todo.subrange(k + 1, todo.len() as int) =~= rest.subrange(k, rest.len() as int));
        (k + 1, t)
    }
}

/// Feeding chunks that make up the wire form of `todo`, after a buffered
/// prefix with no whole frame, yields exactly `todo` and leaves nothing.
proof fn lemma_feed_stream(buf: Seq<u8>, chunks: Seq<Seq<u8>>, todo: Seq<FrameModel>, max: u32)
    requires
        all_fit(todo, max as nat),
        buf + flatten(chunks) == stream(todo),
        todo.len() > 0 ==> buf.len() < encoded(todo[0]).len(),
    ensures
        feed(buf, chunks, max as nat) == Ok::<(Seq<FrameModel>, Seq<u8>), LlsdError>((todo, Seq::<u8>::empty())),
    decreases chunks.len(),
{
    if chunks.len() == 0 {
        assert(buf + flatten(chunks) =~= buf);
        if todo.len() > 0 {
            assert(stream(todo) == encoded(todo[0]) + stream(todo.drop_first()));
        }
        assert(todo =~= Seq::<FrameModel>::empty());
        assert(buf =~= Seq::<u8>::empty());
    } else {
        let x = buf + chunks[0];
        let more = chunks.drop_first();
        assert(flatten(chunks) == chunks[0] + flatten(more));
        assert(stream(todo) =~= x + flatten(more));
        assert(x =~= stream(todo).subrange(0, x.len() as int));
        let (k, t) = lemma_split_prefix(x, todo);
        let done = todo.subrange(0, k);
        let left = todo.subrange(k, todo.len() as int);
        assert(all_fit(done, max as nat)) by {
            assert forall|i: int| 0 <= i < done.len() implies fits(#[trigger] done[i], max as nat) by {
                assert(done[i] == todo[i]);
            }
        }
        assert(all_fit(left, max as nat)) by {
            assert forall|i: int| 0 <= i < left.len() implies fits(#[trigger] left[i], max as nat) by {
                assert(left[i] == todo[i + k]);
            }
        }
        lemma_drain_stream(done, t, left, max);
        assert(todo =~= done + left);
        lemma_stream_append(done, left);
        let sd = stream(done);
        let a = t + flatten(more);
        let b = stream(left);
        assert(sd + a =~= sd + b);
        assert((sd + a).subrange(sd.len() as int, (sd + a).len() as int) =~= a);
        assert((sd + b).subrange(sd.len() as int, (sd + b).len() as int) =~= b);
        lemma_feed_stream(t, more, left, max);
        assert(done + left =~= todo);
    }
}

/// Whatever chunks a stream of wire-form frames is cut into, a decoder
/// that is fed them one after another, draining after each, yields exactly
/// those frames, in order, and nothing else.
pub proof fn lemma_chunked_stream(fs: Seq<FrameModel>, chunks: Seq<Seq<u8>>, max: u32)
    requires
        all_fit(fs, max as nat),
        flatten(chunks) == stream(fs),
    ensures
        feed(Seq::empty(), chunks, max as nat) == Ok::<(Seq<FrameModel>, Seq<u8>), LlsdError>((fs, Seq::<u8>::empty())),
{
    assert(Seq::<u8>::empty() + flatten(chunks) =~= flatten(chunks));
    lemma_feed_stream(Seq::empty(), chunks, fs, max);
}

} // verus!
