//! Tags that name a message's command and payload on the wire.
use vstd::prelude::*;

use crate::frame::push_all;
use vstd::string::StringSliceAdditionalSpecFns;

verus! {

/// The bytes of the tag `c37707` that names a Hello.
pub open spec fn hello_tag() -> Seq<u8> {
    seq![99u8, 51, 55, 55, 48, 55]
}

/// Whether `s` starts with the Hello tag.
fn starts_with_hello_tag(s: &[u8]) -> (r: bool)
    ensures
        r == (s@.len() >= 6 && s@.subrange(0, 6) == hello_tag()),
{
    if s.len() < 6 {
        return false;
    }
    let r = s[0] == 99 && s[1] == 51 && s[2] == 55 && s[3] == 55 && s[4] == 48 && s[5] == 55;
    assert(r ==> s@.subrange(0, 6) =~= hello_tag());
    assert(s@.subrange(0, 6) == hello_tag() ==> s@.subrange(0, 6)[0] == 99u8 && s@.subrange(0, 6)[1] == 51u8
        && s@.subrange(0, 6)[2] == 55u8 && s@.subrange(0, 6)[3] == 55u8 && s@.subrange(0, 6)[4] == 48u8
        && s@.subrange(0, 6)[5] == 55u8);
    r
}

/// A command of a message.
#[derive(Clone, Copy, Debug, PartialEq, Eq, Structural)]
pub enum Command {
    /// The client's first message.
    Hello,
}

impl Command {
    /// The tag of the command.
    pub fn id(&self) -> (r: &'static str)
        ensures
            r@ == "c37707"@,
    {
        proof {
            reveal_strlit("c37707");
        }
        match self {
            Command::Hello => "c37707",
        }
    }

    /// The command that a tag names, if any.
    pub fn from_id(id: &str) -> (r: Option<Command>)
        ensures
            r is Some <==> id.spec_bytes() == hello_tag(),
            r is Some ==> r == Some(Command::Hello),
    {
        let b = id.as_bytes();
        if b.len() == 6 && starts_with_hello_tag(b) {
            assert(b@ =~= b@.subrange(0, 6));
            Some(Command::Hello)
        } else {
            assert(hello_tag().len() == 6);
            assert(b@.len() == 6 ==> b@.subrange(0, 6) =~= b@);
            None
        }
    }
}

/// A payload, tagged with its kind.
#[derive(Clone, Debug, PartialEq, Eq)]
pub enum FramePayload {
    /// The padding of a Hello.
    Hello(Vec<u8>),
}

impl FramePayload {
    /// The tag of the payload's kind.
    pub fn id(&self) -> (r: Vec<u8>)
        ensures
            r@ == hello_tag(),
    {
        let r: Vec<u8> = vec![99u8, 51, 55, 55, 48, 55];
        assert(r@ =~= hello_tag());
        r
    }

    /// The payload in `input`: the Hello tag, then its bytes.
    pub fn from_slice(input: &[u8]) -> (r: Option<FramePayload>)
        ensures
            r is Some <==> input@.len() >= 6 && input@.subrange(0, 6) == hello_tag(),
            r matches Some(FramePayload::Hello(v)) ==> v@ == input@.subrange(6, input@.len() as int),
    {
        if !starts_with_hello_tag(input) {
            return None;
        }
        let mut v: Vec<u8> = Vec::new();
        let mut i: usize = 6;
        while i < input.len()
            invariant
                6 <= i <= input@.len(),
                v@ == input@.subrange(6, i as int),
            decreases input@.len() - i,
        {
            v.push(input[i]);
            i = i + 1;
            assert(v@ =~= input@.subrange(6, i as int));
        }
        Some(FramePayload::Hello(v))
    }

    /// The bytes the payload carries.
    pub fn pack(&self) -> (r: Vec<u8>)
        ensures
            self matches FramePayload::Hello(v) ==> r@ == v@,
    {
        match self {
            FramePayload::Hello(nulls) => {
                let mut r: Vec<u8> = Vec::new();
                push_all(&mut r, nulls.as_slice());
                assert(r@ =~= nulls@);
                r
            },
        }
    }
}

} // verus!
