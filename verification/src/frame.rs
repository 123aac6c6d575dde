//! The binary frame that a Drive file body carries, before sealing.
//!
//! Layout, multi-byte integers big-endian:
//!
//! ```text
//! | ver: u8 | kind: u8 | sid: [u8; 16] | seq: u64 | payload_len: u32 | payload[payload_len] |
//! ```
use bytes::{Buf, BufMut, Bytes, BytesMut};
use vstd::prelude::*;
use vstd::slice::slice_subrange;

use crate::numeral;

verus! {

/// The wire version that this build speaks.
pub const WIRE_VERSION: u8 = 1;

/// Bytes before the payload: 1 (ver) + 1 (kind) + 16 (sid) + 8 (seq) + 4 (len).
pub const HEADER_LEN: usize = 30;

/// Largest payload accepted on the wire (4 MiB).
pub const MAX_PAYLOAD: u32 = 4194304;

/// Session identifier: 16 random bytes.
pub type SessionId = [u8; 16];

/// Frame variants.
#[derive(Debug, Clone, Copy, PartialEq, Eq, Structural)]
pub enum FrameKind {
    /// One-shot session opener with the key-agreement input.
    Hello,
    /// Request to dial the real destination.
    Connect,
    /// Application data.
    Data,
    /// Half-close of the sender's direction.
    Eof,
    /// Full session close.
    Close,
    /// Error report with a UTF-8 reason.
    Error,
}

/// A frame with its payload.
#[derive(Debug, Clone, PartialEq, Eq)]
pub struct WireFrame {
    pub version: u8,
    pub kind: FrameKind,
    pub sid: SessionId,
    pub seq: u64,
    pub payload: Bytes,
}

/// Why a byte string is not a frame.
#[derive(Debug, Clone, Copy, PartialEq, Eq, Structural)]
pub enum DecodeError {
    TooShort(usize),
    UnsupportedVersion(u8),
    UnknownKind(u8),
    PayloadTooLarge(u32),
    PayloadTruncated { declared: u32, available: usize },
}

/// Trusted: the immutable byte buffer of the `bytes` crate.
#[verifier::external_type_specification]
#[verifier::external_body]
pub struct ExBytes(bytes::Bytes);

/// Trusted: the growable byte buffer of the `bytes` crate.
#[verifier::external_type_specification]
#[verifier::external_body]
pub struct ExBytesMut(bytes::BytesMut);

/// The bytes that a `Bytes` holds.
pub uninterp spec fn content(b: Bytes) -> Seq<u8>;

/// The bytes that a `BytesMut` holds.
pub uninterp spec fn buffered(b: BytesMut) -> Seq<u8>;

/// Trusted: `Bytes::copy_from_slice` makes a buffer that holds a copy of the
/// slice.
#[verifier::external_body]
pub(crate) fn bytes_from_slice(data: &[u8]) -> (b: Bytes)
    ensures
        content(b) == data@,
{
    Bytes::copy_from_slice(data)
}

/// Trusted: `Bytes` dereferences to the slice of the bytes it holds.
#[verifier::external_body]
pub(crate) fn bytes_as_slice(b: &Bytes) -> (s: &[u8])
    ensures
        s@ == content(*b),
{
    b
}

/// Trusted: cloning a `Bytes` gives a buffer that holds the same bytes.
pub assume_specification[ <bytes::Bytes as Clone>::clone ](b: &bytes::Bytes) -> (r: bytes::Bytes)
    ensures
        content(r) == content(*b),
;

/// Trusted: `BytesMut::with_capacity` makes an empty buffer. It allocates,
/// which fails for a capacity over `isize::MAX`.
#[verifier::external_body]
fn buffer_with_capacity(capacity: usize) -> (b: BytesMut)
    requires
        capacity <= isize::MAX,
    ensures
        buffered(b) == Seq::<u8>::empty(),
{
    BytesMut::with_capacity(capacity)
}

/// Trusted: `BufMut::put_u8` on a `BytesMut` appends one byte.
#[verifier::external_body]
fn buffer_put_u8(b: &mut BytesMut, n: u8)
    requires
        buffered(*old(b)).len() + 1 <= isize::MAX,
    ensures
        buffered(*final(b)) == buffered(*old(b)).push(n),
{
    b.put_u8(n)
}

/// Trusted: `BufMut::put_slice` on a `BytesMut` appends the slice.
#[verifier::external_body]
fn buffer_put_slice(b: &mut BytesMut, src: &[u8])
    requires
        buffered(*old(b)).len() + src@.len() <= isize::MAX,
    ensures
        buffered(*final(b)) == buffered(*old(b)) + src@,
{
    b.put_slice(src)
}

/// Trusted: `BufMut::put_u64` on a `BytesMut` appends the eight bytes of the
/// number, most significant first.
#[verifier::external_body]
fn buffer_put_u64(b: &mut BytesMut, n: u64)
    requires
        buffered(*old(b)).len() + 8 <= isize::MAX,
    ensures
        buffered(*final(b)) == buffered(*old(b)) + be_bytes(n as nat, 8),
{
    b.put_u64(n)
}

/// Trusted: `BufMut::put_u32` on a `BytesMut` appends the four bytes of the
/// number, most significant first.
#[verifier::external_body]
fn buffer_put_u32(b: &mut BytesMut, n: u32)
    requires
        buffered(*old(b)).len() + 4 <= isize::MAX,
    ensures
        buffered(*final(b)) == buffered(*old(b)) + be_bytes(n as nat, 4),
{
    b.put_u32(n)
}

/// Trusted: `Buf::get_u8` on a byte slice reads the first byte and moves past
/// it. It panics on an empty slice.
#[verifier::external_body]
fn cursor_get_u8(cursor: &mut &[u8]) -> (n: u8)
    requires
        old(cursor)@.len() >= 1,
    ensures
        n == old(cursor)@[0],
        final(cursor)@ == old(cursor)@.skip(1),
{
    cursor.get_u8()
}

/// Trusted: `Buf::get_u64` on a byte slice reads eight bytes, most significant
/// first, and moves past them. It panics on a shorter slice.
#[verifier::external_body]
fn cursor_get_u64(cursor: &mut &[u8]) -> (n: u64)
    requires
        old(cursor)@.len() >= 8,
    ensures
        n == be_value(old(cursor)@.take(8)),
        final(cursor)@ == old(cursor)@.skip(8),
{
    cursor.get_u64()
}

/// Trusted: `Buf::get_u32` on a byte slice reads four bytes, most significant
/// first, and moves past them. It panics on a shorter slice.
#[verifier::external_body]
fn cursor_get_u32(cursor: &mut &[u8]) -> (n: u32)
    requires
        old(cursor)@.len() >= 4,
    ensures
        n == be_value(old(cursor)@.take(4)),
        final(cursor)@ == old(cursor)@.skip(4),
{
    cursor.get_u32()
}

/// Trusted: `Buf::copy_to_slice` on a byte slice fills the destination from
/// the front and moves past what it copied. It panics on a shorter slice.
#[verifier::external_body]
fn cursor_copy_sid(cursor: &mut &[u8], dst: &mut SessionId)
    requires
        old(cursor)@.len() >= 16,
    ensures
        final(dst)@ == old(cursor)@.take(16),
        final(cursor)@ == old(cursor)@.skip(16),
{
    cursor.copy_to_slice(dst)
}

/// The `width` low-order bytes of `n`, most significant first.
pub open spec fn be_bytes(n: nat, width: nat) -> Seq<u8>
    decreases width,
{
    if width == 0 {
        Seq::empty()
    } else {
        be_bytes(n / 256, (width - 1) as nat).push((n % 256) as u8)
    }
}

/// The number that bytes denote, most significant first.
pub open spec fn be_value(s: Seq<u8>) -> nat
    decreases s.len(),
{
    if s.len() == 0 {
        0
    } else {
        be_value(s.drop_last()) * 256 + s.last() as nat
    }
}

/// The wire byte of a kind.
pub open spec fn kind_byte(k: FrameKind) -> u8 {
    match k {
        FrameKind::Hello => 1,
        FrameKind::Connect => 2,
        FrameKind::Data => 3,
        FrameKind::Eof => 4,
        FrameKind::Close => 5,
        FrameKind::Error => 6,
    }
}

/// The frame's bytes on the wire. The length field holds the payload length
/// modulo 2^32.
pub open spec fn encoded(version: u8, kind: FrameKind, sid: Seq<u8>, seq: u64, payload: Seq<u8>) -> Seq<
    u8,
> {
    seq![version, kind_byte(kind)] + sid + be_bytes(seq as nat, 8) + be_bytes(
        payload.len() % 0x1_0000_0000,
        4,
    ) + payload
}

/// The session identifier field.
pub open spec fn sid_field(b: Seq<u8>) -> Seq<u8> {
    b.subrange(2, 18)
}

/// The sequence number field.
pub open spec fn seq_field(b: Seq<u8>) -> nat {
    be_value(b.subrange(18, 26))
}

/// The payload length field.
pub open spec fn len_field(b: Seq<u8>) -> nat {
    be_value(b.subrange(26, 30))
}

/// The payload that the length field delimits.
pub open spec fn payload_field(b: Seq<u8>) -> Seq<u8> {
    b.subrange(30, 30 + len_field(b) as int)
}

/// The first defect of `b` as a frame, in header order; `None` for a frame.
pub open spec fn defect(b: Seq<u8>) -> Option<DecodeError> {
    if b.len() < HEADER_LEN {
        Some(DecodeError::TooShort(b.len() as usize))
    } else if b[0] != WIRE_VERSION {
        Some(DecodeError::UnsupportedVersion(b[0]))
    } else if !(1 <= b[1] <= 6) {
        Some(DecodeError::UnknownKind(b[1]))
    } else if len_field(b) > MAX_PAYLOAD {
        Some(DecodeError::PayloadTooLarge(len_field(b) as u32))
    } else if b.len() - HEADER_LEN < len_field(b) {
        Some(
            DecodeError::PayloadTruncated {
                declared: len_field(b) as u32,
                available: (b.len() - HEADER_LEN) as usize,
            },
        )
    } else {
        None
    }
}

impl FrameKind {
    /// The kind with wire byte `b`, if there is one.
    pub fn from_u8(b: u8) -> (r: Option<FrameKind>)
        ensures
            match r {
                Some(k) => kind_byte(k) == b,
                None => !(1 <= b <= 6),
            },
    {
        match b {
            1 => Some(FrameKind::Hello),
            2 => Some(FrameKind::Connect),
            3 => Some(FrameKind::Data),
            4 => Some(FrameKind::Eof),
            5 => Some(FrameKind::Close),
            6 => Some(FrameKind::Error),
            _ => None,
        }
    }

    /// The wire byte of the kind.
    pub fn to_u8(self) -> (b: u8)
        ensures
            b == kind_byte(self),
    {
        match self {
            FrameKind::Hello => 1,
            FrameKind::Connect => 2,
            FrameKind::Data => 3,
            FrameKind::Eof => 4,
            FrameKind::Close => 5,
            FrameKind::Error => 6,
        }
    }
}

impl WireFrame {
    /// The frame's bytes on the wire.
    pub open spec fn wire(&self) -> Seq<u8> {
        encoded(self.version, self.kind, self.sid@, self.seq, content(self.payload))
    }

    /// Writes the frame onto the wire.
    pub fn encode(&self) -> (b: BytesMut)
        requires
            content(self.payload).len() + HEADER_LEN <= isize::MAX,
        ensures
            buffered(b) == self.wire(),
    {
        let payload = bytes_as_slice(&self.payload);
        let mut buf = buffer_with_capacity(HEADER_LEN + payload.len());
        buffer_put_u8(&mut buf, self.version);
        buffer_put_u8(&mut buf, self.kind.to_u8());
        buffer_put_slice(&mut buf, self.sid.as_slice());
        proof {
            lemma_be_bytes_len(self.seq as nat, 8);
        }
        buffer_put_u64(&mut buf, self.seq);
        let len: u32 = (payload.len() as u64 % 0x1_0000_0000) as u32;
        proof {
            lemma_be_bytes_len(len as nat, 4);
        }
        buffer_put_u32(&mut buf, len);
        buffer_put_slice(&mut buf, payload);
        proof {
            assert(buffered(buf) =~= self.wire());
        }
        buf
    }

    /// Reads a frame from the front of `input`.
    pub fn decode(input: &[u8]) -> (r: Result<WireFrame, DecodeError>)
        ensures
            match r {
                Ok(f) => {
                    &&& defect(input@) is None
                    &&& f.version == WIRE_VERSION
                    &&& kind_byte(f.kind) == input@[1]
                    &&& f.sid@ == sid_field(input@)
                    &&& f.seq == seq_field(input@)
                    &&& content(f.payload) == payload_field(input@)
                },
                Err(e) => defect(input@) == Some(e),
            },
    {
        if input.len() < HEADER_LEN {
            return Err(DecodeError::TooShort(input.len()));
        }
        let ghost b = input@;
        let mut cursor = input;
        let version = cursor_get_u8(&mut cursor);
        if version != WIRE_VERSION {
            return Err(DecodeError::UnsupportedVersion(version));
        }
        let kind_byte = cursor_get_u8(&mut cursor);
        let kind = match FrameKind::from_u8(kind_byte) {
            Some(kind) => kind,
            None => return Err(DecodeError::UnknownKind(kind_byte)),
        };
        let mut sid: SessionId = [0u8;16];
        cursor_copy_sid(&mut cursor, &mut sid);
        proof {
            assert(sid@ =~= sid_field(b));
            assert(cursor@ =~= b.skip(18));
            assert(cursor@.take(8) =~= b.subrange(18, 26));
        }
        let seq = cursor_get_u64(&mut cursor);
        proof {
            assert(cursor@ =~= b.skip(26));
            assert(cursor@.take(4) =~= b.subrange(26, 30));
        }
        let len = cursor_get_u32(&mut cursor);
        proof {
            assert(cursor@ =~= b.skip(30));
        }
        if len > MAX_PAYLOAD {
            return Err(DecodeError::PayloadTooLarge(len));
        }
        if cursor.len() < len as usize {
            return Err(
                DecodeError::PayloadTruncated { declared: len, available: cursor.len() },
            );
        }
        let payload = bytes_from_slice(slice_subrange(cursor, 0, len as usize));
        proof {
            assert(content(payload) =~= payload_field(b));
        }
        Ok(WireFrame { version, kind, sid, seq, payload })
    }
}

impl DecodeError {
    /// The message for a log or a user.
    pub open spec fn text(&self) -> Seq<char> {
        match self {
            DecodeError::TooShort(n) => "frame too short ("@ + numeral::decimal(*n as nat)
                + " bytes; need at least 30)"@,
            DecodeError::UnsupportedVersion(v) => "unsupported wire version "@ + numeral::decimal(
                *v as nat,
            ) + " (this build supports 1)"@,
            DecodeError::UnknownKind(b) => "unknown frame kind 0x"@ + numeral::hex2(*b),
            DecodeError::PayloadTooLarge(n) => "payload length "@ + numeral::decimal(*n as nat)
                + " exceeds maximum 4194304"@,
            DecodeError::PayloadTruncated { declared, available } => "declared payload "@
                + numeral::decimal(*declared as nat) + " bytes but buffer has "@
                + numeral::decimal(*available as nat),
        }
    }

    /// The message for a log or a user.
    pub fn message(&self) -> (s: String)
        ensures
            s@ == self.text(),
    {
        match self {
            DecodeError::TooShort(n) => {
                "frame too short (".to_owned().concat(
                    numeral::to_decimal(*n as u64).as_str(),
                ).concat(" bytes; need at least 30)")
            },
            DecodeError::UnsupportedVersion(v) => {
                "unsupported wire version ".to_owned().concat(
                    numeral::to_decimal(*v as u64).as_str(),
                ).concat(" (this build supports 1)")
            },
            DecodeError::UnknownKind(b) => "unknown frame kind 0x".to_owned().concat(
                numeral::to_hex2(*b).as_str(),
            ),
            DecodeError::PayloadTooLarge(n) => {
                "payload length ".to_owned().concat(
                    numeral::to_decimal(*n as u64).as_str(),
                ).concat(" exceeds maximum 4194304")
            },
            DecodeError::PayloadTruncated { declared, available } => {
                "declared payload ".to_owned().concat(
                    numeral::to_decimal(*declared as u64).as_str(),
                ).concat(" bytes but buffer has ").concat(
                    numeral::to_decimal(*available as u64).as_str(),
                )
            },
        }
    }
}

proof fn lemma_be_bytes_len(n: nat, width: nat)
    ensures
        be_bytes(n, width).len() == width,
    decreases width,
{
    if width > 0 {
        lemma_be_bytes_len(n / 256, (width - 1) as nat);
    }
}

/// 256 to the power of `width`.
pub open spec fn byte_range(width: nat) -> nat
    decreases width,
{
    if width == 0 {
        1
    } else {
        256 * byte_range((width - 1) as nat)
    }
}

pub proof fn lemma_be_value_of_bytes(n: nat, width: nat)
    requires
        n < byte_range(width),
    ensures
        be_value(be_bytes(n, width)) == n,
    decreases width,
{
    lemma_be_bytes_len(n, width);
    if width > 0 {
        assert(n / 256 < byte_range((width - 1) as nat));
        lemma_be_value_of_bytes(n / 256, (width - 1) as nat);
        assert(be_bytes(n, width).drop_last() =~= be_bytes(n / 256, (width - 1) as nat));
    }
}

pub proof fn lemma_be_bytes_of_value(s: Seq<u8>)
    ensures
        be_bytes(be_value(s), s.len()) == s,
    decreases s.len(),
{
    if s.len() > 0 {
        lemma_be_bytes_of_value(s.drop_last());
        let v = be_value(s);
        assert(v / 256 == be_value(s.drop_last()));
        assert(v % 256 == s.last());
        assert(s.drop_last().push(s.last()) =~= s);
    }
}

/// Decoding gives back what was encoded: the bytes of a frame of this version
/// with a payload within the limit have no defect, and each field reads back.
/// Bytes after the frame make no difference.
pub proof fn law_decode_reads_back_encode(
    kind: FrameKind,
    sid: SessionId,
    seq: u64,
    payload: Seq<u8>,
    trailing: Seq<u8>,
)
    requires
        payload.len() <= MAX_PAYLOAD,
    ensures
        ({
            let b = encoded(WIRE_VERSION, kind, sid@, seq, payload) + trailing;
            &&& defect(b) is None
            &&& b[1] == kind_byte(kind)
            &&& sid_field(b) == sid@
            &&& seq_field(b) == seq
            &&& payload_field(b) == payload
        }),
{
    let b = encoded(WIRE_VERSION, kind, sid@, seq, payload) + trailing;
    lemma_be_bytes_len(seq as nat, 8);
    lemma_be_bytes_len(payload.len(), 4);
    reveal_with_fuel(byte_range, 9);
    lemma_be_value_of_bytes(seq as nat, 8);
    lemma_be_value_of_bytes(payload.len(), 4);
    assert(sid_field(b) =~= sid@);
    assert(b.subrange(18, 26) =~= be_bytes(seq as nat, 8));
    assert(b.subrange(26, 30) =~= be_bytes(payload.len(), 4));
    assert(payload_field(b) =~= payload);
}

/// Encoding gives back what was decoded: where `b` has no defect, the frame
/// built from its fields encodes to the bytes that decoding consumed.
pub proof fn law_encode_reads_back_decode(b: Seq<u8>, kind: FrameKind)
    requires
        defect(b) is None,
        kind_byte(kind) == b[1],
    ensures
        encoded(b[0], kind, sid_field(b), seq_field(b) as u64, payload_field(b)) == b.take(
            30 + len_field(b) as int,
        ),
{
    let s8 = b.subrange(18, 26);
    let s4 = b.subrange(26, 30);
    lemma_be_bytes_of_value(s8);
    lemma_be_bytes_of_value(s4);
    lemma_be_value_bound(s8);
    reveal_with_fuel(byte_range, 9);
    assert(encoded(b[0], kind, sid_field(b), seq_field(b) as u64, payload_field(b)) =~= b.take(
        30 + len_field(b) as int,
    ));
}

pub proof fn lemma_be_value_bound(s: Seq<u8>)
    ensures
        be_value(s) < byte_range(s.len()),
    decreases s.len(),
{
    if s.len() > 0 {
        lemma_be_value_bound(s.drop_last());
    }
}

/// An encoded frame is exactly the header and the payload long.
pub proof fn law_encoded_length(version: u8, kind: FrameKind, sid: SessionId, seq: u64, payload: Seq<u8>)
    ensures
        encoded(version, kind, sid@, seq, payload).len() == HEADER_LEN + payload.len(),
{
    lemma_be_bytes_len(seq as nat, 8);
    lemma_be_bytes_len(payload.len() % 0x1_0000_0000, 4);
}

/// A frame cut short is refused: no proper prefix of an encoded frame decodes.
pub proof fn law_truncated_frame_refused(
    kind: FrameKind,
    sid: SessionId,
    seq: u64,
    payload: Seq<u8>,
    k: nat,
)
    requires
        payload.len() <= MAX_PAYLOAD,
        k < HEADER_LEN + payload.len(),
    ensures
        ({
            let e = encoded(WIRE_VERSION, kind, sid@, seq, payload);
            defect(e.take(k as int)) == Some(
                if k < HEADER_LEN {
                    DecodeError::TooShort(k as usize)
                } else {
                    DecodeError::PayloadTruncated {
                        declared: payload.len() as u32,
                        available: (k - HEADER_LEN) as usize,
                    }
                },
            )
        }),
{
    let e = encoded(WIRE_VERSION, kind, sid@, seq, payload);
    law_encoded_length(WIRE_VERSION, kind, sid, seq, payload);
    law_decode_reads_back_encode(kind, sid, seq, payload, Seq::empty());
    assert(e + Seq::<u8>::empty() =~= e);
    if k >= HEADER_LEN {
        let p = e.take(k as int);
        assert(p.subrange(26, 30) =~= e.subrange(26, 30));
        assert(payload_field(e).len() == payload.len());
    }
}

/// The number in eight bytes, most significant byte first.
pub open spec fn number8(b: Seq<u8>, at: int) -> int {
    b[at] * 0x100_0000_0000_0000int + b[at + 1] * 0x1_0000_0000_0000int + b[at + 2]
        * 0x100_0000_0000int + b[at + 3] * 0x1_0000_0000int + b[at + 4] * 0x100_0000int + b[at + 5]
        * 0x1_0000int + b[at + 6] * 0x100int + b[at + 7]
}

/// The number in four bytes, most significant byte first.
pub open spec fn number4(b: Seq<u8>, at: int) -> int {
    b[at] * 0x100_0000int + b[at + 1] * 0x1_0000int + b[at + 2] * 0x100int + b[at + 3]
}

proof fn lemma_number4(b: Seq<u8>, at: int)
    requires
        0 <= at,
        at + 4 <= b.len(),
    ensures
        be_value(b.subrange(at, at + 4)) == number4(b, at),
{
    reveal_with_fuel(be_value, 5);
    let s = b.subrange(at, at + 4);
    assert(s.drop_last() =~= b.subrange(at, at + 3));
    assert(s.drop_last().drop_last() =~= b.subrange(at, at + 2));
    assert(s.drop_last().drop_last().drop_last() =~= b.subrange(at, at + 1));
}

proof fn lemma_number8(b: Seq<u8>, at: int)
    requires
        0 <= at,
        at + 8 <= b.len(),
    ensures
        be_value(b.subrange(at, at + 8)) == number8(b, at),
{
    reveal_with_fuel(be_value, 5);
    lemma_number4(b, at);
    let s = b.subrange(at, at + 8);
    assert(s.drop_last() =~= b.subrange(at, at + 7));
    assert(s.drop_last().drop_last() =~= b.subrange(at, at + 6));
    assert(s.drop_last().drop_last().drop_last() =~= b.subrange(at, at + 5));
    assert(s.drop_last().drop_last().drop_last().drop_last() =~= b.subrange(at, at + 4));
}

/// The layout of an encoded frame: the version, a byte for the kind, sixteen
/// bytes of session, eight of sequence number and four of payload length, both
/// with the most significant byte first, then the payload.
pub proof fn law_layout(version: u8, kind: FrameKind, sid: SessionId, seq: u64, payload: Seq<u8>)
    requires
        payload.len() <= u32::MAX,
    ensures
        ({
            let b = encoded(version, kind, sid@, seq, payload);
            &&& b.len() == 30 + payload.len()
            &&& b[0] == version
            &&& b[1] == (match kind {
                FrameKind::Hello => 1u8,
                FrameKind::Connect => 2u8,
                FrameKind::Data => 3u8,
                FrameKind::Eof => 4u8,
                FrameKind::Close => 5u8,
                FrameKind::Error => 6u8,
            })
            &&& b.subrange(2, 18) == sid@
            &&& number8(b, 18) == seq
            &&& number4(b, 26) == payload.len()
            &&& b.skip(30) == payload
        }),
{
    let b = encoded(version, kind, sid@, seq, payload);
    let len = payload.len() % 0x1_0000_0000;
    lemma_be_bytes_len(seq as nat, 8);
    lemma_be_bytes_len(len, 4);
    reveal_with_fuel(byte_range, 9);
    lemma_be_value_of_bytes(seq as nat, 8);
    lemma_be_value_of_bytes(len, 4);
    lemma_number8(b, 18);
    lemma_number4(b, 26);
    assert(b.subrange(2, 18) =~= sid@);
    assert(b.subrange(18, 26) =~= be_bytes(seq as nat, 8));
    assert(b.subrange(26, 30) =~= be_bytes(len, 4));
    assert(b.skip(30) =~= payload);
}

/// Bytes are a frame if and only if there is a whole header of version 1 with a
/// known kind, and at least as many bytes after it as it declares, which are no
/// more than 4 MiB. The first of these that fails, in this order, is the error.
pub proof fn law_which_bytes_decode(b: Seq<u8>)
    ensures
        defect(b) is None <==> b.len() >= 30 && b[0] == 1 && 1 <= b[1] <= 6 && number4(b, 26)
            <= 0x40_0000 && b.len() >= 30 + number4(b, 26),
        defect(b) is Some && defect(b)->0 is TooShort <==> b.len() < 30,
        b.len() >= 30 ==> {
            &&& (defect(b) is Some && defect(b)->0 is UnsupportedVersion) <==> b[0] != 1
            &&& (defect(b) is Some && defect(b)->0 is UnknownKind) <==> b[0] == 1 && !(1 <= b[1]
                <= 6)
            &&& (defect(b) is Some && defect(b)->0 is PayloadTooLarge) <==> b[0] == 1 && 1 <= b[1]
                <= 6 && number4(b, 26) > 0x40_0000
            &&& (defect(b) is Some && defect(b)->0 is PayloadTruncated) <==> b[0] == 1 && 1 <= b[1]
                <= 6 && number4(b, 26) <= 0x40_0000 && b.len() < 30 + number4(b, 26)
        },
{
    if b.len() >= 30 {
        lemma_number4(b, 26);
    }
}

/// A frame's fields are where the layout puts them.
pub proof fn law_fields_of_a_frame(b: Seq<u8>)
    requires
        defect(b) is None,
    ensures
        sid_field(b).len() == 16,
        forall|i: int| 0 <= i < 16 ==> #[trigger] sid_field(b)[i] == b[2 + i],
        seq_field(b) == number8(b, 18),
        payload_field(b).len() == number4(b, 26),
        forall|i: int|
            0 <= i < payload_field(b).len() ==> #[trigger] payload_field(b)[i] == b[30 + i],
{
    lemma_number8(b, 18);
    lemma_number4(b, 26);
}

/// Each error tells what was found and what was expected.
pub proof fn law_error_texts(n: usize, b: u8, len: u32, available: usize)
    ensures
        DecodeError::TooShort(n).text() == "frame too short ("@ + numeral::decimal(n as nat)
            + " bytes; need at least 30)"@,
        DecodeError::UnsupportedVersion(b).text() == "unsupported wire version "@
            + numeral::decimal(b as nat) + " (this build supports 1)"@,
        DecodeError::UnknownKind(b).text() == "unknown frame kind 0x"@ + numeral::hex2(b),
        DecodeError::PayloadTooLarge(len).text() == "payload length "@ + numeral::decimal(
            len as nat,
        ) + " exceeds maximum 4194304"@,
        (DecodeError::PayloadTruncated { declared: len, available }).text() == "declared payload "@
            + numeral::decimal(len as nat) + " bytes but buffer has "@ + numeral::decimal(
            available as nat,
        ),
{
}

} // verus!
