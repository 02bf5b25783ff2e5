//! Length-prefixed framing of messages: a 4-byte big-endian length, then the
//! UTF-8 text of the message.
//!
//! The reader and the writer hold bytes: the writer collects the frames to be
//! sent, and the reader is given the bytes received so far and takes whole
//! frames off their front.
use vstd::prelude::*;
use vstd::utf8::{
    decode_utf8, encode_utf8, encode_utf8_decode_utf8, encode_utf8_valid_utf8, valid_utf8,
};
use vstd::string::StringSliceAdditionalSpecFns;

use crate::ext::string_from_utf8;
use crate::protocol::{decode_message, encode_message, Message, MessageView};
use crate::protocol_laws::{lemma_message_roundtrip, message_exact, message_safe};

verus! {

/// Big-endian bytes of `x`.
pub open spec fn be32(x: u32) -> Seq<u8> {
    seq![(x >> 24u32) as u8, (x >> 16u32) as u8, (x >> 8u32) as u8, x as u8]
}

/// The number that four big-endian bytes stand for.
pub open spec fn from_be32(b0: u8, b1: u8, b2: u8, b3: u8) -> u32 {
    ((b0 as u32) << 24u32) | ((b1 as u32) << 16u32) | ((b2 as u32) << 8u32) | (b3 as u32)
}

/// A frame: the payload's length, truncated to 32 bits, in four big-endian bytes, then
/// the payload.
pub open spec fn frame(payload: Seq<u8>) -> Seq<u8> {
    be32(payload.len() as u32) + payload
}

/// The bytes that sending `m` writes.
pub open spec fn frame_message(m: MessageView) -> Seq<u8> {
    frame(encode_utf8(encode_message(m)))
}

/// What taking one frame off the front of received bytes gives.
#[verifier::ext_equal]
pub enum Received {
    /// A whole frame holding a message.
    Message(MessageView),
    /// Fewer bytes than a whole frame; nothing is taken.
    Incomplete,
    /// A whole frame whose payload is not UTF-8.
    InvalidUtf8,
    /// A whole frame whose text is not a message; the decoder's error.
    InvalidMessage(Seq<char>),
}

/// One frame taken off the front of `buf`: what it held, and the bytes left.
pub open spec fn receive_spec(buf: Seq<u8>) -> (Received, Seq<u8>) {
    if buf.len() < 4 {
        (Received::Incomplete, buf)
    } else {
        let n = from_be32(buf[0], buf[1], buf[2], buf[3]) as int;
        if buf.len() < 4 + n {
            (Received::Incomplete, buf)
        } else {
            let payload = buf.subrange(4, 4 + n);
            let rest = buf.skip(4 + n);
            if !valid_utf8(payload) {
                (Received::InvalidUtf8, rest)
            } else {
                match decode_message(decode_utf8(payload)) {
                    Ok(m) => (Received::Message(m), rest),
                    Err(e) => (Received::InvalidMessage(e), rest),
                }
            }
        }
    }
}

/// Why no message could be taken off the received bytes.
#[derive(Debug, Clone)]
pub enum ReceiveError {
    /// Not yet a whole frame: more bytes are needed.
    Incomplete,
    /// The payload is not UTF-8.
    InvalidUtf8,
    /// The payload is not a message.
    InvalidMessage(String),
}

pub open spec fn received_of(r: Result<Message, ReceiveError>) -> Received {
    match r {
        Ok(m) => Received::Message(m@),
        Err(ReceiveError::Incomplete) => Received::Incomplete,
        Err(ReceiveError::InvalidUtf8) => Received::InvalidUtf8,
        Err(ReceiveError::InvalidMessage(e)) => Received::InvalidMessage(e@),
    }
}

/// Collects the frames of the messages sent.
pub struct ProtocolWriter {
    out: Vec<u8>,
}

impl View for ProtocolWriter {
    type V = Seq<u8>;

    /// The bytes sent and not yet taken.
    closed spec fn view(&self) -> Seq<u8> {
        self.out@
    }
}

/// Takes frames off the front of the bytes received.
pub struct ProtocolReader {
    buf: Vec<u8>,
}

impl View for ProtocolReader {
    type V = Seq<u8>;

    /// The bytes received and not yet taken.
    closed spec fn view(&self) -> Seq<u8> {
        self.buf@
    }
}

fn push_bytes(dst: &mut Vec<u8>, src: &[u8])
    ensures
        final(dst)@ == old(dst)@ + src@,
{
    let ghost start = dst@;
    let mut i: usize = 0;
    while i < src.len()
        invariant
            i <= src.len(),
            dst@ == start + src@.take(i as int),
        decreases src.len() - i,
    {
        dst.push(src[i]);
        assert(src@.take(i as int).push(src@[i as int]) == src@.take(i + 1));
        i = i + 1;
    }
    assert(src@.take(src.len() as int) == src@);
}

fn copy_range(v: &[u8], a: usize, b: usize) -> (r: Vec<u8>)
    requires
        a <= b <= v.len(),
    ensures
        r@ == v@.subrange(a as int, b as int),
{
    let mut r: Vec<u8> = Vec::new();
    let mut i: usize = a;
    while i < b
        invariant
            a <= i <= b <= v.len(),
            r@ == v@.subrange(a as int, i as int),
        decreases b - i,
    {
        r.push(v[i]);
        assert(v@.subrange(a as int, i as int).push(v@[i as int]) == v@.subrange(a as int, i + 1));
        i = i + 1;
    }
    r
}

impl ProtocolWriter {
    /// A writer with nothing sent.
    pub fn new() -> (w: ProtocolWriter)
        ensures
            w@ == Seq::<u8>::empty(),
    {
        ProtocolWriter { out: Vec::new() }
    }

    /// Appends the frame of `msg`.
    pub fn send(&mut self, msg: &Message)
        ensures
            final(self)@ == old(self)@ + frame_message(msg@),
    {
        let payload = msg.encode();
        let ps = payload.as_str();
        let bytes = ps.as_bytes();
        assert(ps@ == payload@);
        let len = bytes.len() as u32;
        self.out.push((len >> 24u32) as u8);
        self.out.push((len >> 16u32) as u8);
        self.out.push((len >> 8u32) as u8);
        self.out.push(len as u8);
        push_bytes(&mut self.out, bytes);
    }

    /// The bytes sent since the last call; afterwards none are pending.
    pub fn take_output(&mut self) -> (r: Vec<u8>)
        ensures
            r@ == old(self)@,
            final(self)@ == Seq::<u8>::empty(),
    {
        let mut r: Vec<u8> = Vec::new();
        std::mem::swap(&mut r, &mut self.out);
        r
    }
}

impl ProtocolReader {
    /// A reader over the bytes `input`.
    pub fn new(input: Vec<u8>) -> (r: ProtocolReader)
        ensures
            r@ == input@,
    {
        ProtocolReader { buf: input }
    }

    /// Appends bytes that arrived.
    pub fn feed(&mut self, bytes: &[u8])
        ensures
            final(self)@ == old(self)@ + bytes@,
    {
        push_bytes(&mut self.buf, bytes);
    }

    /// Takes one frame off the front of the received bytes and decodes it.
    /// When the bytes do not yet hold a whole frame, nothing is taken.
    pub fn receive(&mut self) -> (r: Result<Message, ReceiveError>)
        ensures
            (received_of(r), final(self)@) == receive_spec(old(self)@),
    {
        if self.buf.len() < 4 {
            return Err(ReceiveError::Incomplete);
        }
        let n = from_be_bytes(self.buf[0], self.buf[1], self.buf[2], self.buf[3]);
        let n = n as usize;
        if self.buf.len() - 4 < n {
            return Err(ReceiveError::Incomplete);
        }
        let payload = copy_range(&self.buf, 4, 4 + n);
        let rest = copy_range(&self.buf, 4 + n, self.buf.len());
        assert(rest@ == self.buf@.skip(4 + n));
        self.buf = rest;
        match string_from_utf8(payload) {
            None => Err(ReceiveError::InvalidUtf8),
            Some(text) => match Message::decode(text.as_str()) {
                Ok(m) => Ok(m),
                Err(e) => Err(ReceiveError::InvalidMessage(e)),
            },
        }
    }
}

fn from_be_bytes(b0: u8, b1: u8, b2: u8, b3: u8) -> (r: u32)
    ensures
        r == from_be32(b0, b1, b2, b3),
{
    ((b0 as u32) << 24u32) | ((b1 as u32) << 16u32) | ((b2 as u32) << 8u32) | (b3 as u32)
}

proof fn lemma_be32_roundtrip(x: u32)
    ensures
        from_be32((x >> 24u32) as u8, (x >> 16u32) as u8, (x >> 8u32) as u8, x as u8) == x,
{
    assert(((((x >> 24u32) as u8) as u32) << 24u32) | ((((x >> 16u32) as u8) as u32) << 16u32) | (
    (((x >> 8u32) as u8) as u32) << 8u32) | (((x as u8) as u32)) == x) by (bit_vector);
}

/// Taking a frame off bytes that begin with the frame of `m` gives what
/// decoding the text of `m` gives, and leaves the bytes behind the frame,
/// whenever the text of `m` is shorter than 2^32 bytes.
pub proof fn lemma_wire_roundtrip(m: MessageView, rest: Seq<u8>)
    requires
        encode_utf8(encode_message(m)).len() < 0x1_0000_0000,
    ensures
        receive_spec(frame_message(m) + rest) == (
            match decode_message(encode_message(m)) {
                Ok(m2) => Received::Message(m2),
                Err(e) => Received::InvalidMessage(e),
            },
            rest,
        ),
{
    let text = encode_message(m);
    let payload = encode_utf8(text);
    let n = payload.len();
    let buf = frame_message(m) + rest;
    lemma_be32_roundtrip(n as u32);
    assert(n as u32 == n);
    assert(buf.subrange(4, 4 + n as int) == payload);
    assert(buf.skip(4 + n as int) == rest);
    encode_utf8_valid_utf8(text);
    encode_utf8_decode_utf8(text);
}

/// A message sent through the framing and received back is, for a
/// [`message_exact`] message, the message itself; for any
/// [`message_safe`] message, one with the same text.
pub proof fn lemma_send_receive(m: MessageView, rest: Seq<u8>)
    requires
        encode_utf8(encode_message(m)).len() < 0x1_0000_0000,
        message_safe(m),
    ensures
        receive_spec(frame_message(m) + rest).1 == rest,
        receive_spec(frame_message(m) + rest).0 matches Received::Message(m2) && encode_message(
            m2,
        ) == encode_message(m),
        message_exact(m) ==> receive_spec(frame_message(m) + rest).0 == Received::Message(m),
{
    lemma_wire_roundtrip(m, rest);
    lemma_message_roundtrip(m);
}

} // verus!
