//! Frame codec: CRC16 checksums, header parsing, and stream decoding.

use vstd::prelude::*;

verus! {

/// One entry of the fixed 16-entry half-byte CRC-16/CCITT table.
pub open spec fn crc_tbl(i: int) -> u16 {
    if i == 0 {
        0x0000
    } else if i == 1 {
        0x1081
    } else if i == 2 {
        0x2102
    } else if i == 3 {
        0x3183
    } else if i == 4 {
        0x4204
    } else if i == 5 {
        0x5285
    } else if i == 6 {
        0x6306
    } else if i == 7 {
        0x7387
    } else if i == 8 {
        0x8408
    } else if i == 9 {
        0x9489
    } else if i == 10 {
        0xa50a
    } else if i == 11 {
        0xb58b
    } else if i == 12 {
        0xc60c
    } else if i == 13 {
        0xd68d
    } else if i == 14 {
        0xe70e
    } else {
        0xf78f
    }
}

/// One nibble step of the CRC register: shift by four and fold the table
/// entry selected by the low nibble of `crc ^ c`.
pub open spec fn crc16_step(crc: u16, c: u16) -> u16 {
    ((crc >> 4) & 0x0fff) ^ crc_tbl(((crc ^ c) & 15) as int)
}

/// Folding one input byte into the CRC register: low nibble first, then
/// high nibble.
pub open spec fn crc16_update(crc: u16, byte: u8) -> u16 {
    crc16_step(crc16_step(crc, byte as u16), (byte as u16) >> 4)
}

/// The raw CRC register after folding every byte of `s` in order,
/// starting from `0xffff`.
pub open spec fn crc16_raw(s: Seq<u8>) -> u16
    decreases s.len(),
{
    if s.len() == 0 {
        0xffff
    } else {
        crc16_update(crc16_raw(s.drop_last()), s.last())
    }
}

/// The CRC16 of a byte sequence: the one's complement of the final register.
pub open spec fn crc16(s: Seq<u8>) -> u16 {
    !crc16_raw(s)
}

fn crc_tbl_at(i: u16) -> (r: u16)
    requires
        i < 16,
    ensures
        r == crc_tbl(i as int),
{
    match i {
        0 => 0x0000,
        1 => 0x1081,
        2 => 0x2102,
        3 => 0x3183,
        4 => 0x4204,
        5 => 0x5285,
        6 => 0x6306,
        7 => 0x7387,
        8 => 0x8408,
        9 => 0x9489,
        10 => 0xa50a,
        11 => 0xb58b,
        12 => 0xc60c,
        13 => 0xd68d,
        14 => 0xe70e,
        _ => 0xf78f,
    }
}

fn crc_step(crc: u16, c: u16) -> (r: u16)
    ensures
        r == crc16_step(crc, c),
{
    let idx: u16 = (crc ^ c) & 15;
    proof {
        assert((crc ^ c) & 15 < 16) by (bit_vector);
    }
    ((crc >> 4) & 0x0fff) ^ crc_tbl_at(idx)
}

/// Table-driven CRC16 over a byte slice: two half-byte table lookups per
/// input byte, initial register `0xffff`, result complemented.
pub fn compute_crc16(data: &[u8]) -> (r: u16)
    ensures
        r == crc16(data@),
{
    let mut crc: u16 = 0xffff;
    let mut i: usize = 0;
    while i < data.len()
        invariant
            i <= data@.len(),
            crc == crc16_raw(data@.take(i as int)),
        decreases data@.len() - i,
    {
        let cc: u16 = data[i] as u16;
        crc = crc_step(crc, cc);
        crc = crc_step(crc, cc >> 4);
        proof {
            assert(data@.take(i + 1).drop_last() =~= data@.take(i as int));
            assert(data@.take(i + 1).last() == data@[i as int]);
        }
        i = i + 1;
    }
    proof {
        assert(data@.take(data@.len() as int) =~= data@);
    }
    !crc
}

/// Errors of the frame codec.
#[derive(Clone, Copy, PartialEq, Eq, Structural, Debug)]
pub enum CodecError {
    /// No valid header was found within the search bound; the stream is
    /// unrecoverable from the current position.
    FrameSyncError,
    /// The declared payload length exceeds the remaining buffer.
    FrameTruncated,
    /// The decode cursor does not address the buffer.
    InvalidFrameSize,
}

/// The two big-endian bytes of `s` starting at `i`, as one `u16`.
pub open spec fn be16_at(s: Seq<u8>, i: int) -> u16 {
    (s[i] * 0x100 + s[i + 1]) as u16
}

/// The four big-endian bytes of `s` starting at `i`, as one `u32`.
pub open spec fn be32_at(s: Seq<u8>, i: int) -> u32 {
    (s[i] * 0x1000000 + s[i + 1] * 0x10000 + s[i + 2] * 0x100 + s[i + 3]) as u32
}

/// The size of an encoded frame header in bytes: two `u16` fields and
/// three `u32` fields.
pub const HEADER_SIZE: usize = 16;

/// A header candidate starts at `i`: its leading checksum field equals
/// the CRC16 of the fourteen non-checksum header bytes.
pub open spec fn header_valid_at(s: Seq<u8>, i: int) -> bool {
    &&& 0 <= i
    &&& i + HEADER_SIZE <= s.len()
    &&& be16_at(s, i) == crc16(s.subrange(i + 2, i + HEADER_SIZE as int))
}

fn read_u16_be(data: &[u8], i: usize) -> (r: u16)
    requires
        i + 2 <= data@.len(),
    ensures
        r == be16_at(data@, i as int),
{
    (data[i] as u16) * 0x100 + (data[i + 1] as u16)
}

fn read_u32_be(data: &[u8], i: usize) -> (r: u32)
    requires
        i + 4 <= data@.len(),
    ensures
        r == be32_at(data@, i as int),
{
    (data[i] as u32) * 0x1000000 + (data[i + 1] as u32) * 0x10000 + (data[i + 2] as u32) * 0x100
        + (data[i + 3] as u32)
}

/// One decoded frame header. Fields are big-endian on the wire, in this
/// order: checksum, size, event type, source id, destination id.
#[derive(Clone, Copy, PartialEq, Eq, Structural, Debug)]
pub struct Header {
    pub checksum: u16,
    pub size: u16,
    pub event_type: u32,
    pub source_id: u32,
    pub destination_id: u32,
}

impl Header {
    /// Reads the five header fields from the first sixteen bytes of `data`.
    pub fn new(data: &[u8]) -> (r: Result<Header, CodecError>)
        ensures
            data@.len() >= HEADER_SIZE ==> r == Ok::<Header, CodecError>(
                Header {
                    checksum: be16_at(data@, 0),
                    size: be16_at(data@, 2),
                    event_type: be32_at(data@, 4),
                    source_id: be32_at(data@, 8),
                    destination_id: be32_at(data@, 12),
                },
            ),
            data@.len() < HEADER_SIZE ==> r == Err::<Header, CodecError>(CodecError::FrameTruncated),
    {
        if data.len() < HEADER_SIZE {
            return Err(CodecError::FrameTruncated);
        }
        let checksum = read_u16_be(data, 0);
        let size = read_u16_be(data, 2);
        let event_type = read_u32_be(data, 4);
        let source_id = read_u32_be(data, 8);
        let destination_id = read_u32_be(data, 12);
        Ok(Header { checksum, size, event_type, source_id, destination_id })
    }
}

fn header_valid(data: &[u8], i: usize) -> (r: bool)
    requires
        i + HEADER_SIZE <= data@.len(),
    ensures
        r == header_valid_at(data@, i as int),
{
    let n = data.len();
    proof {
        assert(i + HEADER_SIZE <= n);
    }
    let checksum = read_u16_be(data, i);
    let span = vstd::slice::slice_subrange(data, i + 2, i + HEADER_SIZE);
    checksum == compute_crc16(span)
}

/// Checks the header candidate at the start of `data`: the checksum field
/// must equal the CRC16 of the fourteen non-checksum header bytes.
pub fn validate_header(data: &[u8]) -> (r: Result<(), CodecError>)
    ensures
        r is Ok <==> header_valid_at(data@, 0),
        data@.len() < HEADER_SIZE ==> r == Err::<(), CodecError>(CodecError::FrameTruncated),
        data@.len() >= HEADER_SIZE && !header_valid_at(data@, 0) ==> r == Err::<(), CodecError>(
            CodecError::FrameSyncError,
        ),
{
    if data.len() < HEADER_SIZE {
        return Err(CodecError::FrameTruncated);
    }
    if header_valid(data, 0) {
        Ok(())
    } else {
        Err(CodecError::FrameSyncError)
    }
}

/// What decoding one logical record from `s` at cursor `pos` yields: the
/// payload block and the cursor position after it, or the error.
///
/// Resynchronization advances the cursor one byte at a time until a
/// sixteen-byte candidate validates; the search is bounded by the buffer
/// length. A validated header whose size field is the continuation
/// sentinel `0xFFFF` carries no payload of its own: decoding continues
/// with the next frame. Any other size names the payload block, which
/// must fit in the remaining buffer.
pub open spec fn decode_from(s: Seq<u8>, pos: int) -> Result<(Seq<u8>, int), CodecError>
    decreases s.len() - pos,
{
    if pos < 0 || pos > s.len() {
        Err(CodecError::InvalidFrameSize)
    } else if pos + HEADER_SIZE > s.len() {
        Err(CodecError::FrameSyncError)
    } else if !header_valid_at(s, pos) {
        decode_from(s, pos + 1)
    } else {
        let size = be16_at(s, pos + 2) as int;
        if size == 0xFFFF {
            decode_from(s, pos + HEADER_SIZE)
        } else if pos + HEADER_SIZE + size <= s.len() {
            Ok((s.subrange(pos + HEADER_SIZE, pos + HEADER_SIZE + size), pos + HEADER_SIZE + size))
        } else {
            Err(CodecError::FrameTruncated)
        }
    }
}

/// Decodes one logical record from `data`, starting at `*offset`,
/// appending its payload to `data_vector`.
///
/// On success the cursor is left after the decoded record; on an error
/// neither the accumulator nor the cursor moves. The continuation chain
/// is followed iteratively, bounded by the buffer length.
pub fn parse_object(data: &[u8], data_vector: &mut Vec<u8>, offset: &mut usize) -> (r: Result<
    (),
    CodecError,
>)
    ensures
        match decode_from(data@, *old(offset) as int) {
            Ok(pr) => r is Ok && final(data_vector)@ == old(data_vector)@ + pr.0 && *final(offset)
                == pr.1,
            Err(e) => r == Err::<(), CodecError>(e) && final(data_vector)@ == old(data_vector)@
                && *final(offset) == *old(offset),
        },
{
    let len = data.len();
    if *offset > len {
        return Err(CodecError::InvalidFrameSize);
    }
    let mut cur: usize = *offset;
    loop
        invariant
            cur <= len,
            len == data@.len(),
            *offset == *old(offset),
            data_vector@ == old(data_vector)@,
            decode_from(data@, *old(offset) as int) == decode_from(data@, cur as int),
        decreases len - cur,
    {
        if len < HEADER_SIZE || cur > len - HEADER_SIZE {
            return Err(CodecError::FrameSyncError);
        }
        if !header_valid(data, cur) {
            cur = cur + 1;
        } else {
            let size = read_u16_be(data, cur + 2);
            let after_header = cur + HEADER_SIZE;
            if size == 0xffff {
                cur = after_header;
            } else {
                let remaining = len - after_header;
                if size as usize > remaining {
                    return Err(CodecError::FrameTruncated);
                }
                let payload_end = after_header + size as usize;
                let mut k: usize = 0;
                while k < size as usize
                    invariant
                        k <= size as usize,
                        len == data@.len(),
                        after_header + size as usize <= len,
                        data_vector@ == old(data_vector)@ + data@.subrange(
                            after_header as int,
                            after_header + k,
                        ),
                    decreases size as usize - k,
                {
                    data_vector.push(data[after_header + k]);
                    proof {
                        assert(data@.subrange(after_header as int, after_header + k + 1)
                            =~= data@.subrange(after_header as int, after_header + k as int).push(
                            data@[after_header + k],
                        ));
                    }
                    k = k + 1;
                }
                *offset = payload_end;
                return Ok(());
            }
        }
    }
}

/// Decodes one logical record from the start of `data` and returns its
/// payload block. The input buffer is never mutated.
pub fn parse_stream(data: &[u8]) -> (r: Result<Vec<u8>, CodecError>)
    ensures
        match decode_from(data@, 0) {
            Ok(pr) => r matches Ok(v) && v@ == pr.0,
            Err(e) => r == Err::<Vec<u8>, CodecError>(e),
        },
{
    let mut data_vector: Vec<u8> = Vec::new();
    let mut offset: usize = 0;
    match parse_object(data, &mut data_vector, &mut offset) {
        Ok(()) => Ok(data_vector),
        Err(e) => Err(e),
    }
}

/// The two bytes of `x`, most significant first.
pub open spec fn be16_bytes(x: u16) -> Seq<u8> {
    seq![(x / 0x100) as u8, (x % 0x100) as u8]
}

/// The four bytes of `x`, most significant first.
pub open spec fn be32_bytes(x: u32) -> Seq<u8> {
    seq![
        (x / 0x1000000) as u8,
        ((x / 0x10000) % 0x100) as u8,
        ((x / 0x100) % 0x100) as u8,
        (x % 0x100) as u8,
    ]
}

/// The fourteen non-checksum header bytes: size, event type, source id and
/// destination id, each big-endian.
pub open spec fn header_body_bytes(
    size: u16,
    event_type: u32,
    source_id: u32,
    destination_id: u32,
) -> Seq<u8> {
    be16_bytes(size) + be32_bytes(event_type) + be32_bytes(source_id) + be32_bytes(destination_id)
}

/// A whole encoded header: the CRC16 of the non-checksum bytes, then those
/// bytes themselves.
pub open spec fn encoded_header(
    size: u16,
    event_type: u32,
    source_id: u32,
    destination_id: u32,
) -> Seq<u8> {
    be16_bytes(crc16(header_body_bytes(size, event_type, source_id, destination_id)))
        + header_body_bytes(size, event_type, source_id, destination_id)
}

/// A whole encoded frame: the header, then the payload bytes.
pub open spec fn encoded_frame(
    size: u16,
    event_type: u32,
    source_id: u32,
    destination_id: u32,
    payload: Seq<u8>,
) -> Seq<u8> {
    encoded_header(size, event_type, source_id, destination_id) + payload
}

fn push_u32_be(v: &mut Vec<u8>, x: u32)
    ensures
        final(v)@ == old(v)@ + be32_bytes(x),
{
    v.push((x / 0x1000000) as u8);
    v.push(((x / 0x10000) % 0x100) as u8);
    v.push(((x / 0x100) % 0x100) as u8);
    v.push((x % 0x100) as u8);
    proof {
        assert(v@ =~= old(v)@ + be32_bytes(x));
    }
}

/// Encodes the given header fields, computing the checksum over the
/// fourteen non-checksum header bytes.
pub fn encode_header(size: u16, event_type: u32, source_id: u32, destination_id: u32) -> (r: Vec<
    u8,
>)
    ensures
        r@ == encoded_header(size, event_type, source_id, destination_id),
{
    let mut body: Vec<u8> = Vec::new();
    body.push((size / 0x100) as u8);
    body.push((size % 0x100) as u8);
    push_u32_be(&mut body, event_type);
    push_u32_be(&mut body, source_id);
    push_u32_be(&mut body, destination_id);
    proof {
        assert(body@ =~= header_body_bytes(size, event_type, source_id, destination_id));
    }
    let crc = compute_crc16(body.as_slice());
    let mut out: Vec<u8> = Vec::new();
    out.push((crc / 0x100) as u8);
    out.push((crc % 0x100) as u8);
    let mut k: usize = 0;
    while k < body.len()
        invariant
            k <= body@.len(),
            out@ == be16_bytes(crc) + body@.take(k as int),
        decreases body@.len() - k,
    {
        out.push(body[k]);
        proof {
            assert(body@.take(k + 1) =~= body@.take(k as int).push(body@[k as int]));
            assert(out@ =~= be16_bytes(crc) + body@.take(k + 1));
        }
        k = k + 1;
    }
    proof {
        assert(body@.take(body@.len() as int) =~= body@);
        assert(out@ =~= encoded_header(size, event_type, source_id, destination_id));
    }
    out
}

/// Encodes one complete non-continuation frame around `payload`: the size
/// field is the payload length, which must stay below the continuation
/// sentinel.
pub fn encode_frame(event_type: u32, source_id: u32, destination_id: u32, payload: &[u8]) -> (r:
    Vec<u8>)
    requires
        payload@.len() < 0xFFFF,
    ensures
        r@ == encoded_frame(
            payload@.len() as u16,
            event_type,
            source_id,
            destination_id,
            payload@,
        ),
{
    let size = payload.len() as u16;
    let mut out = encode_header(size, event_type, source_id, destination_id);
    let mut k: usize = 0;
    while k < payload.len()
        invariant
            k <= payload@.len(),
            out@ == encoded_header(size, event_type, source_id, destination_id) + payload@.take(
                k as int,
            ),
        decreases payload@.len() - k,
    {
        out.push(payload[k]);
        proof {
            assert(payload@.take(k + 1) =~= payload@.take(k as int).push(payload@[k as int]));
            assert(out@ =~= encoded_header(size, event_type, source_id, destination_id)
                + payload@.take(k + 1));
        }
        k = k + 1;
    }
    proof {
        assert(payload@.take(payload@.len() as int) =~= payload@);
    }
    out
}

proof fn lemma_be16_at_bytes(s: Seq<u8>, i: int, x: u16)
    requires
        0 <= i,
        i + 2 <= s.len(),
        s[i] == (x / 0x100) as u8,
        s[i + 1] == (x % 0x100) as u8,
    ensures
        be16_at(s, i) == x,
{
    vstd::arithmetic::div_mod::lemma_fundamental_div_mod(x as int, 0x100);
}

/// Every header built by the encoder validates: its checksum field is the
/// CRC16 of the fourteen non-checksum header bytes.
pub proof fn lemma_encoded_header_validates(
    size: u16,
    event_type: u32,
    source_id: u32,
    destination_id: u32,
)
    ensures
        ({
            let enc = encoded_header(size, event_type, source_id, destination_id);
            &&& enc.len() == HEADER_SIZE
            &&& be16_at(enc, 0) == crc16(enc.subrange(2, HEADER_SIZE as int))
            &&& header_valid_at(enc, 0)
        }),
{
    let body = header_body_bytes(size, event_type, source_id, destination_id);
    let enc = encoded_header(size, event_type, source_id, destination_id);
    assert(enc.subrange(2, HEADER_SIZE as int) =~= body);
    lemma_be16_at_bytes(enc, 0, crc16(body));
}

/// Round trip: decoding a buffer built by the encoder for one
/// non-continuation frame yields exactly the original payload, with the
/// cursor left after the frame.
pub proof fn lemma_round_trip(
    size: u16,
    event_type: u32,
    source_id: u32,
    destination_id: u32,
    payload: Seq<u8>,
)
    requires
        size != 0xFFFF,
        payload.len() == size as int,
    ensures
        decode_from(encoded_frame(size, event_type, source_id, destination_id, payload), 0)
            == Ok::<(Seq<u8>, int), CodecError>((payload, HEADER_SIZE + size as int)),
{
    let enc = encoded_header(size, event_type, source_id, destination_id);
    let s = encoded_frame(size, event_type, source_id, destination_id, payload);
    lemma_encoded_header_validates(size, event_type, source_id, destination_id);
    assert(s.subrange(2, HEADER_SIZE as int) =~= enc.subrange(2, HEADER_SIZE as int));
    assert(s[0] == enc[0]);
    assert(s[1] == enc[1]);
    assert(header_valid_at(s, 0));
    assert(s.subrange(2, 4) =~= be16_bytes(size));
    assert(s[2] == be16_bytes(size)[0]);
    assert(s[3] == be16_bytes(size)[1]);
    lemma_be16_at_bytes(s, 2, size);
    assert(s.subrange(HEADER_SIZE as int, HEADER_SIZE + size as int) =~= payload);
}

proof fn lemma_header_valid_shift(prefix: Seq<u8>, t: Seq<u8>, i: int)
    requires
        0 <= i,
    ensures
        header_valid_at(prefix + t, prefix.len() + i) == header_valid_at(t, i),
{
    let s = prefix + t;
    let p = prefix.len() + i;
    if i + HEADER_SIZE <= t.len() {
        assert(s.subrange(p + 2, p + HEADER_SIZE as int) =~= t.subrange(
            i + 2,
            i + HEADER_SIZE as int,
        ));
        assert(s[p] == t[i]);
        assert(s[p + 1] == t[i + 1]);
    }
}

proof fn lemma_decode_from_shift(prefix: Seq<u8>, t: Seq<u8>, pos: int)
    requires
        0 <= pos <= t.len(),
    ensures
        ({
            let s = prefix + t;
            let p = prefix.len() + pos;
            match decode_from(t, pos) {
                Ok(pr) => decode_from(s, p) == Ok::<(Seq<u8>, int), CodecError>(
                    (pr.0, prefix.len() + pr.1),
                ),
                Err(e) => decode_from(s, p) == Err::<(Seq<u8>, int), CodecError>(e),
            }
        }),
    decreases t.len() - pos,
{
    let s = prefix + t;
    let p = prefix.len() + pos;
    lemma_header_valid_shift(prefix, t, pos);
    if pos + HEADER_SIZE > t.len() {
    } else if !header_valid_at(t, pos) {
        lemma_decode_from_shift(prefix, t, pos + 1);
    } else {
        assert(s[p + 2] == t[pos + 2]);
        assert(s[p + 3] == t[pos + 3]);
        assert(be16_at(s, p + 2) == be16_at(t, pos + 2));
        let size = be16_at(t, pos + 2) as int;
        if size == 0xFFFF {
            lemma_decode_from_shift(prefix, t, pos + HEADER_SIZE as int);
        } else if pos + HEADER_SIZE + size <= t.len() {
            assert(s.subrange(p + HEADER_SIZE as int, p + HEADER_SIZE + size) =~= t.subrange(
                pos + HEADER_SIZE as int,
                pos + HEADER_SIZE + size,
            ));
        }
    }
}

proof fn lemma_decode_skip(s: Seq<u8>, a: int, b: int)
    requires
        0 <= a <= b,
        b + HEADER_SIZE <= s.len(),
        forall|k: int| a <= k < b ==> !header_valid_at(s, k),
    ensures
        decode_from(s, a) == decode_from(s, b),
    decreases b - a,
{
    if a < b {
        assert(!header_valid_at(s, a));
        assert(decode_from(s, a) == decode_from(s, a + 1));
        lemma_decode_skip(s, a + 1, b);
    }
}

/// Resync recovery: with garbage bytes in front of an encoded frame, and
/// no spurious valid header inside the garbage, decoding locks onto the
/// real header after skipping exactly the garbage, and yields the
/// original payload.
pub proof fn lemma_resync_recovery(
    garbage: Seq<u8>,
    size: u16,
    event_type: u32,
    source_id: u32,
    destination_id: u32,
    payload: Seq<u8>,
)
    requires
        size != 0xFFFF,
        payload.len() == size as int,
        forall|k: int|
            0 <= k < garbage.len() ==> !header_valid_at(
                garbage + encoded_frame(size, event_type, source_id, destination_id, payload),
                k,
            ),
    ensures
        decode_from(garbage + encoded_frame(size, event_type, source_id, destination_id, payload), 0)
            == Ok::<(Seq<u8>, int), CodecError>(
            (payload, garbage.len() + HEADER_SIZE + size as int),
        ),
{
    let f = encoded_frame(size, event_type, source_id, destination_id, payload);
    let s = garbage + f;
    let g = garbage.len() as int;
    lemma_round_trip(size, event_type, source_id, destination_id, payload);
    lemma_decode_from_shift(garbage, f, 0);
    lemma_decode_skip(s, 0, g);
}

/// Continuation: a frame whose size field is the sentinel carries no
/// payload of its own; decoding continues with the next frame and yields
/// that frame's payload.
pub proof fn lemma_continuation(
    cont_event_type: u32,
    cont_source_id: u32,
    cont_destination_id: u32,
    size: u16,
    event_type: u32,
    source_id: u32,
    destination_id: u32,
    payload: Seq<u8>,
)
    requires
        size != 0xFFFF,
        payload.len() == size as int,
    ensures
        ({
            let s = encoded_header(0xFFFF, cont_event_type, cont_source_id, cont_destination_id)
                + encoded_frame(size, event_type, source_id, destination_id, payload);
            decode_from(s, 0) == Ok::<(Seq<u8>, int), CodecError>(
                (payload, 2 * HEADER_SIZE + size as int),
            )
        }),
{
    let a = encoded_header(0xFFFF, cont_event_type, cont_source_id, cont_destination_id);
    let f = encoded_frame(size, event_type, source_id, destination_id, payload);
    let s = a + f;
    lemma_encoded_header_validates(0xFFFF, cont_event_type, cont_source_id, cont_destination_id);
    assert(s.subrange(2, HEADER_SIZE as int) =~= a.subrange(2, HEADER_SIZE as int));
    assert(s[0] == a[0]);
    assert(s[1] == a[1]);
    assert(header_valid_at(s, 0));
    assert(s.subrange(2, 4) =~= be16_bytes(0xFFFF));
    assert(s[2] == be16_bytes(0xFFFF)[0]);
    assert(s[3] == be16_bytes(0xFFFF)[1]);
    lemma_be16_at_bytes(s, 2, 0xFFFF);
    lemma_round_trip(size, event_type, source_id, destination_id, payload);
    lemma_decode_from_shift(a, f, 0);
}

} // verus!
