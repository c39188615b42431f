//! Wire framing: one self-delimiting frame per message.
//!
//! A frame is a 4-byte big-endian length, then that many bytes: an 8-byte
//! big-endian correlation serial, an 8-byte big-endian message identifier and
//! the message body. The length therefore is 16 plus the length of the body.
//! Bodies are bounded by [`MAX_DATA_LEN`]; a length outside the admitted range
//! makes a frame malformed, while a frame that simply has not arrived in full
//! is not an error.

use vstd::arithmetic::div_mod::lemma_fundamental_div_mod;
use vstd::arithmetic::div_mod::lemma_fundamental_div_mod_converse;
use vstd::prelude::*;

verus! {

/// Bytes of the length prefix.
pub const PREFIX_LEN: usize = 4;

/// Bytes of serial and identifier together, the least value of a length prefix.
pub const FIXED_LEN: usize = 16;

/// Bytes in front of the body: prefix, serial and identifier.
pub const HEADER_LEN: usize = 20;

/// The longest body that a frame may carry.
pub const MAX_DATA_LEN: usize = 16777216;

/// A message as it travels: its kind and its serialized body.
#[derive(Debug, Clone, PartialEq, Eq)]
pub struct Pdu {
    pub ident: u64,
    pub data: Vec<u8>,
}

/// A message together with the serial that correlates request and reply.
#[derive(Debug, Clone, PartialEq, Eq)]
pub struct DecodedPdu {
    pub serial: u64,
    pub pdu: Pdu,
}

/// Why bytes could not be framed or unframed.
#[derive(Debug, Clone, Copy, PartialEq, Eq, Structural)]
pub enum CodecError {
    /// The length prefix is too small to hold serial and identifier.
    FrameTooShort,
    /// The body is longer than [`MAX_DATA_LEN`].
    FrameTooLarge,
}

/// The mathematical content of a [`DecodedPdu`].
pub struct Frame {
    pub serial: u64,
    pub ident: u64,
    pub data: Seq<u8>,
}

impl View for DecodedPdu {
    type V = Frame;

    open spec fn view(&self) -> Frame {
        Frame { serial: self.serial, ident: self.pdu.ident, data: self.pdu.data@ }
    }
}

/// What the front of a byte buffer holds.
pub enum Decode {
    /// No complete frame yet, and nothing wrong so far.
    NeedMore,
    /// The front of the buffer can never become a frame.
    Malformed(CodecError),
    /// A frame, and the number of bytes it occupies.
    Complete(Frame, nat),
}

/// The number that four bytes spell, most significant byte first.
pub open spec fn be32(s: Seq<u8>) -> int {
    s[0] * 16777216 + s[1] * 65536 + s[2] * 256 + s[3]
}

/// The number that eight bytes spell, most significant byte first.
pub open spec fn be64(s: Seq<u8>) -> int {
    be32(s.subrange(0, 4)) * 4294967296 + be32(s.subrange(4, 8))
}

/// The four bytes that spell a number below 2^32, most significant byte first.
pub open spec fn be32_bytes(x: int) -> Seq<u8> {
    seq![
        (x / 16777216 % 256) as u8,
        (x / 65536 % 256) as u8,
        (x / 256 % 256) as u8,
        (x % 256) as u8,
    ]
}

/// The eight bytes that spell a number below 2^64, most significant byte first.
pub open spec fn be64_bytes(x: int) -> Seq<u8> {
    be32_bytes(x / 4294967296) + be32_bytes(x % 4294967296)
}

/// Whether a frame can be put on the wire.
pub open spec fn encodable(f: Frame) -> bool {
    f.data.len() <= MAX_DATA_LEN
}

/// The bytes of a frame on the wire.
pub open spec fn encode_frame(f: Frame) -> Seq<u8> {
    be32_bytes(FIXED_LEN + f.data.len()) + be64_bytes(f.serial as int) + be64_bytes(f.ident as int)
        + f.data
}

/// What the front of `buf` holds.
pub open spec fn decode_frame(buf: Seq<u8>) -> Decode {
    if buf.len() < PREFIX_LEN {
        Decode::NeedMore
    } else {
        let n = be32(buf.subrange(0, 4));
        if n < FIXED_LEN {
            Decode::Malformed(CodecError::FrameTooShort)
        } else if n > FIXED_LEN + MAX_DATA_LEN {
            Decode::Malformed(CodecError::FrameTooLarge)
        } else if buf.len() < PREFIX_LEN + n {
            Decode::NeedMore
        } else {
            Decode::Complete(
                Frame {
                    serial: be64(buf.subrange(4, 12)) as u64,
                    ident: be64(buf.subrange(12, 20)) as u64,
                    data: buf.subrange(20, PREFIX_LEN + n),
                },
                (PREFIX_LEN + n) as nat,
            )
        }
    }
}

/// The base-256 digits of `a * 256^3 + b * 256^2 + c * 256 + d` are `a`, `b`,
/// `c` and `d`.
proof fn lemma_digits(a: int, b: int, c: int, d: int)
    requires
        0 <= a < 256,
        0 <= b < 256,
        0 <= c < 256,
        0 <= d < 256,
    ensures
        ({
            let x = a * 16777216 + b * 65536 + c * 256 + d;
            &&& 0 <= x < 4294967296
            &&& x / 16777216 % 256 == a
            &&& x / 65536 % 256 == b
            &&& x / 256 % 256 == c
            &&& x % 256 == d
        }),
{
    let x = a * 16777216 + b * 65536 + c * 256 + d;
    lemma_fundamental_div_mod_converse(x, 256, a * 65536 + b * 256 + c, d);
    lemma_fundamental_div_mod_converse(x / 256, 256, a * 256 + b, c);
    lemma_fundamental_div_mod_converse(x, 65536, a * 256 + b, c * 256 + d);
    lemma_fundamental_div_mod_converse(x / 65536, 256, a, b);
    lemma_fundamental_div_mod_converse(x, 16777216, a, b * 65536 + c * 256 + d);
    lemma_fundamental_div_mod_converse(a, 256, 0, a);
}

/// Four bytes spell a number below 2^32, and `be32_bytes` undoes `be32`.
pub proof fn lemma_be32_of_bytes(s: Seq<u8>)
    requires
        s.len() == 4,
    ensures
        0 <= be32(s) < 4294967296,
        be32_bytes(be32(s)) == s,
{
    lemma_digits(s[0] as int, s[1] as int, s[2] as int, s[3] as int);
    assert(be32_bytes(be32(s)) =~= s);
}

/// `be32` undoes `be32_bytes` on every number below 2^32.
pub proof fn lemma_be32_of_number(x: int)
    requires
        0 <= x < 4294967296,
    ensures
        be32_bytes(x).len() == 4,
        be32(be32_bytes(x)) == x,
{
    let q1 = x / 256;
    let q2 = q1 / 256;
    let q3 = q2 / 256;
    lemma_fundamental_div_mod(x, 256);
    lemma_fundamental_div_mod(q1, 256);
    lemma_fundamental_div_mod(q2, 256);
    lemma_fundamental_div_mod_converse(x, 65536, q2, (q1 % 256) * 256 + x % 256);
    lemma_fundamental_div_mod_converse(
        x,
        16777216,
        q3,
        (q2 % 256) * 65536 + (q1 % 256) * 256 + x % 256,
    );
    lemma_fundamental_div_mod_converse(q3, 256, 0, q3);
}

/// Eight bytes spell a number below 2^64, and `be64_bytes` undoes `be64`.
pub proof fn lemma_be64_of_bytes(s: Seq<u8>)
    requires
        s.len() == 8,
    ensures
        0 <= be64(s) < 18446744073709551616,
        be64_bytes(be64(s)) == s,
{
    let hi = s.subrange(0, 4);
    let lo = s.subrange(4, 8);
    lemma_be32_of_bytes(hi);
    lemma_be32_of_bytes(lo);
    assert(be64(s) / 4294967296 == be32(hi));
    assert(be64(s) % 4294967296 == be32(lo));
    assert(hi + lo =~= s);
}

/// `be64` undoes `be64_bytes` on every number below 2^64.
pub proof fn lemma_be64_of_number(x: int)
    requires
        0 <= x < 18446744073709551616,
    ensures
        be64_bytes(x).len() == 8,
        be64(be64_bytes(x)) == x,
{
    let hi = x / 4294967296;
    let lo = x % 4294967296;
    lemma_be32_of_number(hi);
    lemma_be32_of_number(lo);
    let s = be64_bytes(x);
    assert(s.subrange(0, 4) =~= be32_bytes(hi));
    assert(s.subrange(4, 8) =~= be32_bytes(lo));
}


/// Decoding the bytes of a frame, with anything behind them, gives the frame
/// back and consumes exactly its bytes.
pub proof fn lemma_round_trip(f: Frame, rest: Seq<u8>)
    requires
        encodable(f),
    ensures
        decode_frame(encode_frame(f) + rest) == Decode::Complete(f, encode_frame(f).len()),
        encode_frame(f).len() == HEADER_LEN + f.data.len(),
        (encode_frame(f) + rest).skip(encode_frame(f).len() as int) == rest,
{
    let n = FIXED_LEN + f.data.len();
    let wire = encode_frame(f);
    let buf = wire + rest;
    lemma_be32_of_number(n as int);
    lemma_be64_of_number(f.serial as int);
    lemma_be64_of_number(f.ident as int);
    assert(buf.subrange(0, 4) =~= be32_bytes(n as int));
    assert(buf.subrange(4, 12) =~= be64_bytes(f.serial as int));
    assert(buf.subrange(12, 20) =~= be64_bytes(f.ident as int));
    assert(buf.subrange(20, PREFIX_LEN + n) =~= f.data);
    assert(buf.skip(wire.len() as int) =~= rest);
}

/// No proper prefix of a frame's bytes is a frame or malformed: it asks for
/// more.
pub proof fn lemma_prefix_needs_more(f: Frame, k: int)
    requires
        encodable(f),
        0 <= k < encode_frame(f).len(),
    ensures
        decode_frame(encode_frame(f).take(k)) == Decode::NeedMore,
{
    let n = FIXED_LEN + f.data.len();
    let wire = encode_frame(f);
    lemma_be32_of_number(n as int);
    lemma_be64_of_number(f.serial as int);
    lemma_be64_of_number(f.ident as int);
    if k >= 4 {
        assert(wire.take(k).subrange(0, 4) =~= be32_bytes(n as int));
    }
}

/// What a buffer's front was found to hold, it still holds after more bytes
/// arrive, unless it asked for more.
pub proof fn lemma_decode_stable(buf: Seq<u8>, more: Seq<u8>)
    requires
        decode_frame(buf) != Decode::NeedMore,
    ensures
        decode_frame(buf + more) == decode_frame(buf),
{
    let all = buf + more;
    assert(all.subrange(0, 4) =~= buf.subrange(0, 4));
    let n = be32(buf.subrange(0, 4));
    if FIXED_LEN <= n <= FIXED_LEN + MAX_DATA_LEN {
        assert(all.subrange(4, 12) =~= buf.subrange(4, 12));
        assert(all.subrange(12, 20) =~= buf.subrange(12, 20));
        assert(all.subrange(20, PREFIX_LEN + n) =~= buf.subrange(20, PREFIX_LEN + n));
    }
}

/// Reads four bytes at `at` as a number, most significant byte first.
fn read_be32(buf: &Vec<u8>, at: usize) -> (x: u32)
    requires
        at + 4 <= buf.len(),
    ensures
        x == be32(buf@.subrange(at as int, at + 4)),
{
    let b0: u32 = buf[at] as u32;
    let b1: u32 = buf[at + 1] as u32;
    let b2: u32 = buf[at + 2] as u32;
    let b3: u32 = buf[at + 3] as u32;
    b0 * 16777216 + b1 * 65536 + b2 * 256 + b3
}

/// Reads eight bytes at `at` as a number, most significant byte first.
fn read_be64(buf: &Vec<u8>, at: usize) -> (x: u64)
    requires
        at + 8 <= buf.len(),
    ensures
        x == be64(buf@.subrange(at as int, at + 8)),
{
    let hi: u64 = read_be32(buf, at) as u64;
    let lo: u64 = read_be32(buf, at + 4) as u64;
    proof {
        let s = buf@.subrange(at as int, at + 8);
        assert(s.subrange(0, 4) =~= buf@.subrange(at as int, at + 4));
        assert(s.subrange(4, 8) =~= buf@.subrange(at + 4, at + 8));
    }
    hi * 4294967296 + lo
}

/// Appends the four bytes of `x`, most significant byte first.
fn push_be32(out: &mut Vec<u8>, x: u32)
    ensures
        final(out)@ == old(out)@ + be32_bytes(x as int),
{
    out.push((x / 16777216 % 256) as u8);
    out.push((x / 65536 % 256) as u8);
    out.push((x / 256 % 256) as u8);
    out.push((x % 256) as u8);
    assert(out@ =~= old(out)@ + be32_bytes(x as int));
}

/// Appends the eight bytes of `x`, most significant byte first.
fn push_be64(out: &mut Vec<u8>, x: u64)
    ensures
        final(out)@ == old(out)@ + be64_bytes(x as int),
{
    push_be32(out, (x / 4294967296) as u32);
    push_be32(out, (x % 4294967296) as u32);
    assert(out@ =~= old(out)@ + be64_bytes(x as int));
}

/// Appends a copy of `src[from..to]` to `out`.
pub(crate) fn push_range(out: &mut Vec<u8>, src: &Vec<u8>, from: usize, to: usize)
    requires
        from <= to <= src.len(),
    ensures
        final(out)@ == old(out)@ + src@.subrange(from as int, to as int),
{
    let mut i: usize = from;
    while i < to
        invariant
            from <= i <= to <= src.len(),
            out@ == old(out)@ + src@.subrange(from as int, i as int),
        decreases to - i,
    {
        out.push(src[i]);
        i += 1;
        assert(out@ =~= old(out)@ + src@.subrange(from as int, i as int));
    }
}

impl Pdu {
    /// The bytes of this message on the wire, under the given serial. A body
    /// longer than [`MAX_DATA_LEN`] cannot be framed.
    pub fn encode(&self, serial: u64) -> (r: Result<Vec<u8>, CodecError>)
        ensures
            self.data@.len() <= MAX_DATA_LEN ==> r is Ok && r->Ok_0@ == encode_frame(
                Frame { serial, ident: self.ident, data: self.data@ },
            ),
            self.data@.len() > MAX_DATA_LEN ==> r == Err::<Vec<u8>, CodecError>(
                CodecError::FrameTooLarge,
            ),
    {
        if self.data.len() > MAX_DATA_LEN {
            return Err(CodecError::FrameTooLarge);
        }
        let mut out: Vec<u8> = Vec::new();
        push_be32(&mut out, (FIXED_LEN + self.data.len()) as u32);
        push_be64(&mut out, serial);
        push_be64(&mut out, self.ident);
        push_range(&mut out, &self.data, 0, self.data.len());
        proof {
            assert(self.data@.subrange(0, self.data@.len() as int) =~= self.data@);
            assert(out@ =~= encode_frame(Frame { serial, ident: self.ident, data: self.data@ }));
        }
        Ok(out)
    }

    /// Takes one frame off the front of `buffer`, if a whole one is there.
    ///
    /// A complete frame is returned and its bytes leave the buffer; what
    /// follows it stays. While the frame is incomplete the answer is
    /// `Ok(None)`, and when the front is malformed it is the error: in both
    /// cases the buffer keeps every byte.
    pub fn stream_decode(buffer: &mut Vec<u8>) -> (r: Result<Option<DecodedPdu>, CodecError>)
        ensures
            match decode_frame(old(buffer)@) {
                Decode::NeedMore => r == Ok::<Option<DecodedPdu>, CodecError>(None) && final(buffer)@ == old(buffer)@,
                Decode::Malformed(e) => r == Err::<Option<DecodedPdu>, CodecError>(e) && final(buffer)@ == old(buffer)@,
                Decode::Complete(f, n) => r is Ok && r->Ok_0 is Some && r->Ok_0->Some_0@ == f
                    && final(buffer)@ == old(buffer)@.skip(n as int),
            },
    {
        if buffer.len() < PREFIX_LEN {
            return Ok(None);
        }
        let n: usize = read_be32(buffer, 0) as usize;
        if n < FIXED_LEN {
            return Err(CodecError::FrameTooShort);
        }
        if n > FIXED_LEN + MAX_DATA_LEN {
            return Err(CodecError::FrameTooLarge);
        }
        let total: usize = PREFIX_LEN + n;
        if buffer.len() < total {
            return Ok(None);
        }
        let serial = read_be64(buffer, 4);
        let ident = read_be64(buffer, 12);
        let mut data: Vec<u8> = Vec::new();
        push_range(&mut data, buffer, HEADER_LEN, total);
        let rest = buffer.split_off(total);
        proof {
            lemma_be64_of_bytes(old(buffer)@.subrange(4, 12));
            lemma_be64_of_bytes(old(buffer)@.subrange(12, 20));
            assert(rest@ =~= old(buffer)@.skip(total as int));
        }
        *buffer = rest;
        Ok(Some(DecodedPdu { serial, pdu: Pdu { ident, data } }))
    }
}

} // verus!
