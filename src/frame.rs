//! Framing of daemon messages: a 16-byte little-endian header followed by the
//! serialized payload.
use byteorder::{ByteOrder, LittleEndian};
use vstd::prelude::*;

verus! {

/// Length of the fixed frame header in bytes.
pub const HEADER_LEN: usize = 16;

/// Protocol version written in every header.
pub const PROTOCOL_VERSION: u32 = 1;

/// Message kind for a property-list payload.
pub const PLIST_MESSAGE: u32 = 8;

/// Correlation tag; constant, so one request may be outstanding at a time.
pub const TAG: u32 = 1;

/// The unsigned integer whose little-endian encoding is the first four bytes of `b`.
pub open spec fn le_u32(b: Seq<u8>) -> int
    recommends
        b.len() >= 4,
{
    b[0] as int + 256 * (b[1] as int) + 65536 * (b[2] as int) + 16777216 * (b[3] as int)
}

/// The four little-endian bytes of `n`.
pub open spec fn le_bytes(n: u32) -> Seq<u8> {
    seq![
        (n % 256) as u8,
        ((n / 256) % 256) as u8,
        ((n / 65536) % 256) as u8,
        (n / 16777216) as u8,
    ]
}

/// Header of a frame whose payload has `payload_len` bytes.
pub open spec fn header_of(payload_len: nat) -> Seq<u8>
    recommends
        payload_len + 16 <= u32::MAX,
{
    le_bytes((payload_len + 16) as u32) + le_bytes(1) + le_bytes(8) + le_bytes(1)
}

/// The complete frame carrying `payload`.
pub open spec fn frame_of(payload: Seq<u8>) -> Seq<u8> {
    header_of(payload.len()) + payload
}

/// Total length recorded in a header.
pub open spec fn total_length(header: Seq<u8>) -> int {
    le_u32(header)
}

/// The payload carried by `frame`, or `None` when the frame is too short or
/// its header records a total length below the header's own size or beyond
/// the bytes present.
pub open spec fn payload_of(frame: Seq<u8>) -> Option<Seq<u8>> {
    if frame.len() < 16 || total_length(frame) < 16 || total_length(frame) > frame.len() {
        None
    } else {
        Some(frame.subrange(16, total_length(frame)))
    }
}

/// Relies on byteorder's `LittleEndian::read_u32`: reads the first four bytes,
/// least significant first.
#[verifier::external_body]
fn read_le_u32(buf: &[u8]) -> (r: u32)
    requires
        buf@.len() >= 4,
    ensures
        r as int == le_u32(buf@),
{
    LittleEndian::read_u32(buf)
}

/// Relies on byteorder's `LittleEndian::write_u32`: writes `n` as four bytes,
/// least significant first.
#[verifier::external_body]
fn write_le_u32(n: u32) -> (r: [u8; 4])
    ensures
        r@ == le_bytes(n),
{
    let mut buf = [0u8; 4];
    LittleEndian::write_u32(&mut buf, n);
    buf
}

/// Reading back the four bytes of `n` gives `n`.
pub proof fn lemma_le_round_trip(n: u32)
    ensures
        le_u32(le_bytes(n)) == n as int,
{
    let b = le_bytes(n);
    assert(b[0] as int == n % 256);
    assert(b[1] as int == (n / 256) % 256);
    assert(b[2] as int == (n / 65536) % 256);
    assert(b[3] as int == n / 16777216);
}

fn push_all(out: &mut Vec<u8>, bytes: &[u8])
    ensures
        final(out)@ == old(out)@ + bytes@,
{
    let mut i: usize = 0;
    while i < bytes.len()
        invariant
            i <= bytes@.len(),
            out@ == old(out)@ + bytes@.subrange(0, i as int),
        decreases bytes@.len() - i,
    {
        out.push(bytes[i]);
        i = i + 1;
        assert(bytes@.subrange(0, i as int) == bytes@.subrange(0, i - 1 as int).push(bytes@[i - 1]));
    }
    assert(bytes@.subrange(0, i as int) == bytes@);
}

/// Builds the frame that carries `data`: the header with its total length,
/// version, message kind and tag, followed by `data` unchanged.
pub fn prepare_request_data(data: &[u8]) -> (r: Vec<u8>)
    requires
        data@.len() + 16 <= u32::MAX,
    ensures
        r@ == frame_of(data@),
{
    let total: u32 = data.len() as u32 + 16;
    let mut out: Vec<u8> = Vec::new();
    push_all(&mut out, &write_le_u32(total));
    push_all(&mut out, &write_le_u32(PROTOCOL_VERSION));
    push_all(&mut out, &write_le_u32(PLIST_MESSAGE));
    push_all(&mut out, &write_le_u32(TAG));
    push_all(&mut out, data);
    out
}

/// Number of payload bytes that follow `header`, as recorded in its total
/// length field; `None` when that length is below the header's own size.
pub fn payload_length(header: &[u8]) -> (r: Option<usize>)
    requires
        header@.len() >= 16,
    ensures
        total_length(header@) < 16 ==> r is None,
        total_length(header@) >= 16 ==> r == Some((total_length(header@) - 16) as usize),
{
    let total: u32 = read_le_u32(header);
    if total < 16 {
        None
    } else {
        Some((total - 16) as usize)
    }
}

/// The payload of a complete frame held in `frame`; `None` when `frame` is
/// shorter than a header, or its total length is below 16 or beyond the
/// bytes given. Bytes after the recorded total length are ignored.
pub fn decode_frame(frame: &[u8]) -> (r: Option<Vec<u8>>)
    ensures
        match payload_of(frame@) {
            Some(p) => r is Some && r->Some_0@ == p,
            None => r is None,
        },
{
    if frame.len() < HEADER_LEN {
        return None;
    }
    let len = match payload_length(frame) {
        Some(n) => n,
        None => return None,
    };
    if len > frame.len() - HEADER_LEN {
        return None;
    }
    let end: usize = HEADER_LEN + len;
    let mut out: Vec<u8> = Vec::new();
    let mut i: usize = HEADER_LEN;
    while i < end
        invariant
            16 <= i <= end == 16 + len <= frame@.len(),
            out@ == frame@.subrange(16, i as int),
        decreases end - i,
    {
        out.push(frame[i]);
        i = i + 1;
        assert(frame@.subrange(16, i as int) == frame@.subrange(16, i - 1 as int).push(frame@[i - 1]));
    }
    Some(out)
}

/// The total length field of an encoded frame is the payload's length plus 16.
pub proof fn lemma_header_total_length(payload: Seq<u8>)
    requires
        payload.len() + 16 <= u32::MAX,
    ensures
        frame_of(payload).len() == payload.len() + 16,
        total_length(frame_of(payload)) == payload.len() + 16,
{
    let f = frame_of(payload);
    let t = (payload.len() + 16) as u32;
    lemma_le_round_trip(t);
    assert(f.subrange(0, 4) == le_bytes(t));
    assert(f[0] == le_bytes(t)[0] && f[1] == le_bytes(t)[1]);
    assert(f[2] == le_bytes(t)[2] && f[3] == le_bytes(t)[3]);
}

/// Decoding an encoded frame gives back its payload.
pub proof fn lemma_frame_round_trip(payload: Seq<u8>)
    requires
        payload.len() + 16 <= u32::MAX,
    ensures
        payload_of(frame_of(payload)) == Some(payload),
{
    lemma_header_total_length(payload);
    assert(frame_of(payload).subrange(16, payload.len() + 16 as int) == payload);
}

} // verus!
