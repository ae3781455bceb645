//! Length-prefixed framing of the wire protocol.
//!
//! Each frame is a fixed-width, big-endian, four-byte payload length followed
//! by exactly that many payload bytes; one frame carries exactly one encoded
//! message.  Encoding and decoding are exact inverses, so a frame written on
//! one side of a connection is recovered unchanged on the other.

use vstd::prelude::*;

verus! {

/// The four header bytes: the payload length in big-endian order.
pub open spec fn spec_u32_be(n: u32) -> Seq<u8> {
    seq![
        ((n >> 24) & 0xff) as u8,
        ((n >> 16) & 0xff) as u8,
        ((n >> 8) & 0xff) as u8,
        (n & 0xff) as u8,
    ]
}

/// The big-endian value of four header bytes.
pub open spec fn spec_u32_of_be(b0: u8, b1: u8, b2: u8, b3: u8) -> u32 {
    ((b0 as u32) << 24) | ((b1 as u32) << 16) | ((b2 as u32) << 8) | (b3 as u32)
}

/// One frame: the payload length, then the payload.
pub open spec fn spec_frame(payload: Seq<u8>) -> Seq<u8>
    recommends
        payload.len() <= u32::MAX,
{
    spec_u32_be(payload.len() as u32) + payload
}

/// Decoding one frame from the front of a buffer: `None` while the buffer is
/// shorter than one whole frame, otherwise the payload and the number of
/// bytes consumed.
pub open spec fn spec_decode_frame(b: Seq<u8>) -> Option<(Seq<u8>, int)> {
    if b.len() < 4 {
        Option::None
    } else {
        let n = spec_u32_of_be(b[0], b[1], b[2], b[3]) as int;
        if b.len() < 4 + n {
            Option::None
        } else {
            Option::Some((b.subrange(4, 4 + n), 4 + n))
        }
    }
}

/// Reading the header back yields the encoded length.
pub proof fn lemma_u32_be_roundtrip(n: u32)
    ensures
        spec_u32_of_be(
            spec_u32_be(n)[0],
            spec_u32_be(n)[1],
            spec_u32_be(n)[2],
            spec_u32_be(n)[3],
        ) == n,
{
    assert((((((n >> 24) & 0xff) as u8) as u32) << 24) | (((((n >> 16) & 0xff) as u8) as u32)
        << 16) | (((((n >> 8) & 0xff) as u8) as u32) << 8) | ((((n & 0xff) as u8) as u32)) == n)
        by (bit_vector);
}

/// Law: framing round trip.  A frame decodes to exactly the payload it was
/// built from, consuming exactly the frame, whatever bytes follow it.
pub proof fn lemma_frame_roundtrip(payload: Seq<u8>, rest: Seq<u8>)
    requires
        payload.len() <= u32::MAX,
    ensures
        spec_decode_frame(spec_frame(payload) + rest) == Option::Some(
            (payload, 4 + payload.len() as int),
        ),
{
    let b = spec_frame(payload) + rest;
    lemma_u32_be_roundtrip(payload.len() as u32);
    assert(b.len() >= 4);
    assert(b[0] == spec_u32_be(payload.len() as u32)[0]);
    assert(b[1] == spec_u32_be(payload.len() as u32)[1]);
    assert(b[2] == spec_u32_be(payload.len() as u32)[2]);
    assert(b[3] == spec_u32_be(payload.len() as u32)[3]);
    assert(spec_u32_of_be(b[0], b[1], b[2], b[3]) == payload.len() as u32);
    assert(b.subrange(4, 4 + payload.len() as int) =~= payload);
}

/// Builds the one frame that carries `payload`.
pub fn encode_frame(payload: &Vec<u8>) -> (r: Vec<u8>)
    requires
        payload@.len() <= u32::MAX,
    ensures
        r@ == spec_frame(payload@),
{
    let n: u32 = payload.len() as u32;
    let mut out: Vec<u8> = Vec::new();
    out.push(((n >> 24) & 0xff) as u8);
    out.push(((n >> 16) & 0xff) as u8);
    out.push(((n >> 8) & 0xff) as u8);
    out.push((n & 0xff) as u8);
    assert(out@ =~= spec_u32_be(n));
    out.extend_from_slice(payload.as_slice());
    assert(out@ =~= spec_frame(payload@));
    out
}

/// Decodes one frame from the front of `buf`: the payload and the bytes
/// consumed, or `None` while `buf` is shorter than one whole frame.
pub fn decode_frame(buf: &Vec<u8>) -> (r: Option<(Vec<u8>, usize)>)
    ensures
        r is None <==> spec_decode_frame(buf@) is None,
        r matches Some(pc) ==> spec_decode_frame(buf@) == Option::Some((pc.0@, pc.1 as int)),
{
    if buf.len() < 4 {
        return None;
    }
    let n = u32_of_be(buf[0], buf[1], buf[2], buf[3]);
    if (buf.len() - 4) < (n as usize) {
        return None;
    }
    let n: usize = n as usize;
    let m: usize = buf.len();
    let mut payload: Vec<u8> = Vec::new();
    let mut i: usize = 0;
    while i < n
        invariant
            i <= n,
            4 + n <= m,
            m == buf@.len(),
            payload@ =~= buf@.subrange(4, 4 + i as int),
        decreases n - i,
    {
        payload.push(buf[4 + i]);
        i = i + 1;
    }
    assert(payload@ =~= buf@.subrange(4, 4 + n as int));
    Some((payload, 4 + n))
}

/// The big-endian value of four header bytes.
pub fn u32_of_be(b0: u8, b1: u8, b2: u8, b3: u8) -> (r: u32)
    ensures
        r == spec_u32_of_be(b0, b1, b2, b3),
{
    ((b0 as u32) << 24) | ((b1 as u32) << 16) | ((b2 as u32) << 8) | (b3 as u32)
}

} // verus!
