//! Length-prefixed frames: four little-endian length bytes, then the payload.

use vstd::prelude::*;

verus! {

/// The unsigned integer that four little-endian bytes denote.
pub open spec fn le_u32(b: Seq<u8>) -> int {
    b[0] as int + 256 * (b[1] as int) + 65536 * (b[2] as int) + 16777216 * (b[3] as int)
}

/// The four little-endian bytes of `n`.
pub open spec fn le_bytes(n: int) -> Seq<u8> {
    seq![(n % 256) as u8, (n / 256 % 256) as u8, (n / 65536 % 256) as u8, (n / 16777216 % 256) as u8]
}

/// The frame that carries `payload`.
pub open spec fn framed(payload: Seq<u8>) -> Seq<u8> {
    le_bytes(payload.len() as int) + payload
}

/// The payload length announced by a frame header.
pub fn frame_length(header: &[u8; 4]) -> (r: u32)
    ensures
        r == le_u32(header@),
{
    let b0 = header[0] as u32;
    let b1 = header[1] as u32;
    let b2 = header[2] as u32;
    let b3 = header[3] as u32;
    b0 + 256 * b1 + 65536 * b2 + 16777216 * b3
}

/// The header for a payload of `n` bytes.
pub fn frame_header(n: u32) -> (r: [u8; 4])
    ensures
        r@ == le_bytes(n as int),
{
    let r = [(n % 256) as u8, (n / 256 % 256) as u8, (n / 65536 % 256) as u8, (n / 16777216 % 256) as u8];
    assert(r@ =~= le_bytes(n as int));
    r
}

/// Frames `payload`; it must fit the 32-bit length field.
pub fn encode_frame(payload: &Vec<u8>) -> (r: Vec<u8>)
    requires
        payload.len() <= u32::MAX,
    ensures
        r@ == framed(payload@),
{
    let h = frame_header(payload.len() as u32);
    let mut r: Vec<u8> = Vec::new();
    r.push(h[0]);
    r.push(h[1]);
    r.push(h[2]);
    r.push(h[3]);
    let mut i: usize = 0;
    while i < payload.len()
        invariant
            i <= payload.len(),
            r@ == h@ + payload@.subrange(0, i as int),
        decreases payload.len() - i,
    {
        r.push(payload[i]);
        proof {
            assert(payload@.subrange(0, i + 1) =~= payload@.subrange(0, i as int).push(payload@[i as int]));
        }
        i += 1;
        assert(r@ =~= h@ + payload@.subrange(0, i as int));
    }
    assert(payload@.subrange(0, payload.len() as int) =~= payload@);
    r
}

/// The payload of a complete frame: `None` unless `frame` holds a header and
/// exactly as many bytes as the header announces.
pub fn decode_frame(frame: &Vec<u8>) -> (r: Option<Vec<u8>>)
    ensures
        r is Some <==> frame.len() >= 4 && frame.len() - 4 == le_u32(frame@),
        r matches Some(p) ==> p@ == frame@.skip(4),
{
    if frame.len() < 4 {
        return None;
    }
    let header: [u8; 4] = [frame[0], frame[1], frame[2], frame[3]];
    assert(header@ =~= frame@.subrange(0, 4));
    let n = frame_length(&header);
    if frame.len() - 4 != n as usize {
        return None;
    }
    let mut p: Vec<u8> = Vec::new();
    let mut i: usize = 4;
    while i < frame.len()
        invariant
            4 <= i <= frame.len(),
            p@ == frame@.subrange(4, i as int),
        decreases frame.len() - i,
    {
        p.push(frame[i]);
        i += 1;
        assert(p@ =~= frame@.subrange(4, i as int));
    }
    Some(p)
}

/// Reading back the length of a header gives the length it was made for.
pub proof fn lemma_header_round_trip(n: int)
    requires
        0 <= n <= u32::MAX,
    ensures
        le_u32(le_bytes(n)) == n,
{
    let b = le_bytes(n);
    assert(b[0] as int == n % 256);
    assert(b[1] as int == n / 256 % 256);
    assert(b[2] as int == n / 65536 % 256);
    assert(b[3] as int == n / 16777216 % 256);
    assert(n == n % 256 + 256 * (n / 256 % 256) + 65536 * (n / 65536 % 256) + 16777216 * (n / 16777216 % 256)) by (nonlinear_arith)
        requires 0 <= n <= u32::MAX;
}

/// Decoding a frame built from a payload gives that payload back.
pub proof fn lemma_frame_round_trip(payload: Seq<u8>)
    requires
        payload.len() <= u32::MAX,
    ensures
        framed(payload).len() >= 4,
        framed(payload).len() - 4 == le_u32(framed(payload)),
        framed(payload).skip(4) == payload,
{
    lemma_header_round_trip(payload.len() as int);
    let f = framed(payload);
    assert(f.subrange(0, 4) =~= le_bytes(payload.len() as int));
    assert(f[0] == le_bytes(payload.len() as int)[0]);
    assert(f[1] == le_bytes(payload.len() as int)[1]);
    assert(f[2] == le_bytes(payload.len() as int)[2]);
    assert(f[3] == le_bytes(payload.len() as int)[3]);
    assert(f.skip(4) =~= payload);
}

} // verus!
