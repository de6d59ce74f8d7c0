//! Framing of the packets exchanged over TCP: a version byte, a type byte,
//! the payload length as a big-endian `u64`, then the payload.

use vstd::prelude::*;
use vstd::slice::slice_subrange;
use vstd::slice::slice_to_vec;

verus! {

/// The only protocol version this implementation speaks.
pub const PROTOCOL_VERSION: u8 = 1;

/// Number of bytes before the payload: version, type and the 8-byte length.
pub const HEADER_LEN: usize = 10;

/// Kind of a packet, carried in the second byte of a frame.
#[derive(Debug, Clone, Copy, PartialEq, Eq, Structural)]
pub enum PacketType {
    Message,
    FileOffer,
    FileAccept,
    FileReject,
    FileData,
}

/// Wire code of each packet type.
pub open spec fn packet_type_code(t: PacketType) -> u8 {
    match t {
        PacketType::Message => 1,
        PacketType::FileOffer => 2,
        PacketType::FileAccept => 3,
        PacketType::FileReject => 4,
        PacketType::FileData => 5,
    }
}

/// The packet type that a wire code stands for, if any.
pub open spec fn packet_type_of(code: u8) -> Option<PacketType> {
    if code == 1 {
        Some(PacketType::Message)
    } else if code == 2 {
        Some(PacketType::FileOffer)
    } else if code == 3 {
        Some(PacketType::FileAccept)
    } else if code == 4 {
        Some(PacketType::FileReject)
    } else if code == 5 {
        Some(PacketType::FileData)
    } else {
        None
    }
}

impl PacketType {
    /// Decodes a wire code; codes outside 1..=5 give `None`.
    pub fn from_u8(value: u8) -> (res: Option<PacketType>)
        ensures
            res == packet_type_of(value),
    {
        match value {
            1 => Some(PacketType::Message),
            2 => Some(PacketType::FileOffer),
            3 => Some(PacketType::FileAccept),
            4 => Some(PacketType::FileReject),
            5 => Some(PacketType::FileData),
            _ => None,
        }
    }

    /// The wire code of this packet type.
    pub fn to_u8(self) -> (code: u8)
        ensures
            code == packet_type_code(self),
    {
        match self {
            PacketType::Message => 1,
            PacketType::FileOffer => 2,
            PacketType::FileAccept => 3,
            PacketType::FileReject => 4,
            PacketType::FileData => 5,
        }
    }
}

/// Decoding a code gives back the type that was encoded, and a code decodes
/// to a type only if it is that type's code.
pub proof fn lemma_packet_type_code_roundtrip(t: PacketType, code: u8)
    ensures
        packet_type_of(packet_type_code(t)) == Some(t),
        packet_type_of(code) == Some(t) ==> packet_type_code(t) == code,
{
}

/// A decoded packet.
pub struct Packet {
    pub packet_type: PacketType,
    pub payload: Vec<u8>,
}

/// The eight big-endian bytes of `n`.
pub open spec fn be_bytes_u64(n: u64) -> Seq<u8> {
    seq![
        (n >> 56u64) as u8,
        (n >> 48u64) as u8,
        (n >> 40u64) as u8,
        (n >> 32u64) as u8,
        (n >> 24u64) as u8,
        (n >> 16u64) as u8,
        (n >> 8u64) as u8,
        n as u8,
    ]
}

/// The number whose big-endian bytes are the first eight of `b`.
pub open spec fn be_u64(b: Seq<u8>) -> u64 {
    ((b[0] as u64) << 56u64) | ((b[1] as u64) << 48u64) | ((b[2] as u64) << 40u64) | ((
    b[3] as u64) << 32u64) | ((b[4] as u64) << 24u64) | ((b[5] as u64) << 16u64) | ((
    b[6] as u64) << 8u64) | (b[7] as u64)
}

proof fn lemma_be_bytes_roundtrip_bits(n: u64)
    by (bit_vector)
    ensures
        (((((n >> 56u64) as u8) as u64) << 56u64) | ((((n >> 48u64) as u8) as u64) << 48u64) | ((((
        n >> 40u64) as u8) as u64) << 40u64) | ((((n >> 32u64) as u8) as u64) << 32u64) | ((((n
            >> 24u64) as u8) as u64) << 24u64) | ((((n >> 16u64) as u8) as u64) << 16u64) | ((((n
            >> 8u64) as u8) as u64) << 8u64) | ((n as u8) as u64)) == n,
{
}

/// Reading back the big-endian bytes of a number gives the number.
pub proof fn lemma_be_bytes_roundtrip(n: u64)
    ensures
        be_u64(be_bytes_u64(n)) == n,
        be_bytes_u64(n).len() == 8,
{
    lemma_be_bytes_roundtrip_bits(n);
}

/// The frame that carries `payload` as a packet of type `t`.
pub open spec fn frame(t: PacketType, payload: Seq<u8>) -> Seq<u8> {
    seq![PROTOCOL_VERSION, packet_type_code(t)] + be_bytes_u64(payload.len() as u64) + payload
}

pub(crate) fn push_be_u64(out: &mut Vec<u8>, n: u64)
    ensures
        final(out)@ == old(out)@ + be_bytes_u64(n),
{
    out.push((n >> 56u64) as u8);
    out.push((n >> 48u64) as u8);
    out.push((n >> 40u64) as u8);
    out.push((n >> 32u64) as u8);
    out.push((n >> 24u64) as u8);
    out.push((n >> 16u64) as u8);
    out.push((n >> 8u64) as u8);
    out.push(n as u8);
    assert(final(out)@ =~= old(out)@ + be_bytes_u64(n));
}

/// Appends to `out` the frame of a packet of type `packet_type` carrying
/// `payload`.
pub fn write_packet(out: &mut Vec<u8>, packet_type: PacketType, payload: &[u8])
    ensures
        final(out)@ == old(out)@ + frame(packet_type, payload@),
{
    out.push(PROTOCOL_VERSION);
    out.push(packet_type.to_u8());
    push_be_u64(out, payload.len() as u64);
    out.extend_from_slice(payload);
    assert(final(out)@ =~= old(out)@ + frame(packet_type, payload@));
}

/// What a reader makes of the bytes received so far.
pub enum ReadSpec {
    /// A whole packet, made of the first `consumed` bytes.
    Complete { packet_type: PacketType, payload: Seq<u8>, consumed: nat },
    /// The bytes so far are a valid beginning; this many more are needed
    /// before the reader can decide anything further.
    NeedMore(nat),
    /// The first byte is not the protocol version.
    UnsupportedVersion,
    /// The second byte is no packet type.
    UnknownPacketType,
}

/// How a reader that takes bytes in order judges `input`: it checks the
/// version as soon as it has one byte, the type as soon as it has two,
/// and then waits for the length and the whole payload.
pub open spec fn spec_read_packet(input: Seq<u8>) -> ReadSpec {
    if input.len() == 0 {
        ReadSpec::NeedMore(1)
    } else if input[0] != PROTOCOL_VERSION {
        ReadSpec::UnsupportedVersion
    } else if input.len() < 2 {
        ReadSpec::NeedMore(1)
    } else if packet_type_of(input[1]) is None {
        ReadSpec::UnknownPacketType
    } else if input.len() < 10 {
        ReadSpec::NeedMore((10 - input.len()) as nat)
    } else {
        let n = be_u64(input.subrange(2, 10));
        if input.len() - 10 < n {
            ReadSpec::NeedMore((n - (input.len() - 10)) as nat)
        } else {
            ReadSpec::Complete {
                packet_type: packet_type_of(input[1]).unwrap(),
                payload: input.subrange(10, 10 + n),
                consumed: (10 + n) as nat,
            }
        }
    }
}

/// Why a stream of bytes is not a packet (or not yet one).
#[derive(Debug, Clone, Copy, PartialEq, Eq, Structural)]
pub enum PacketError {
    /// This many more bytes are needed.
    NeedMore(u64),
    UnsupportedVersion,
    UnknownPacketType,
}

/// Whether an executable read result is the one the reader spec describes.
pub open spec fn read_result_matches(res: Result<(Packet, usize), PacketError>, s: ReadSpec) -> bool {
    match s {
        ReadSpec::Complete { packet_type, payload, consumed } => res matches Ok((p, used)) && p.packet_type
            == packet_type && p.payload@ == payload && used == consumed,
        ReadSpec::NeedMore(k) => res == Err::<(Packet, usize), PacketError>(PacketError::NeedMore(k as u64)),
        ReadSpec::UnsupportedVersion => res == Err::<(Packet, usize), PacketError>(PacketError::UnsupportedVersion),
        ReadSpec::UnknownPacketType => res == Err::<(Packet, usize), PacketError>(PacketError::UnknownPacketType),
    }
}

/// Reads one packet from the start of `input`, the bytes received so far.
/// `Err(NeedMore(k))` asks for exactly `k` more bytes before the next
/// decision; the other errors are final.
pub fn read_packet(input: &[u8]) -> (res: Result<(Packet, usize), PacketError>)
    ensures
        read_result_matches(res, spec_read_packet(input@)),
{
    let len = input.len();
    if len == 0 {
        return Err(PacketError::NeedMore(1));
    }
    if input[0] != PROTOCOL_VERSION {
        return Err(PacketError::UnsupportedVersion);
    }
    if len < 2 {
        return Err(PacketError::NeedMore(1));
    }
    let packet_type = match PacketType::from_u8(input[1]) {
        Some(t) => t,
        None => {
            return Err(PacketError::UnknownPacketType);
        },
    };
    if len < HEADER_LEN {
        return Err(PacketError::NeedMore((HEADER_LEN - len) as u64));
    }
    let n: u64 = ((input[2] as u64) << 56u64) | ((input[3] as u64) << 48u64) | ((input[4] as u64)
        << 40u64) | ((input[5] as u64) << 32u64) | ((input[6] as u64) << 24u64) | ((
    input[7] as u64) << 16u64) | ((input[8] as u64) << 8u64) | (input[9] as u64);
    assert(n == be_u64(input@.subrange(2, 10)));
    let have: u64 = (len - HEADER_LEN) as u64;
    if have < n {
        return Err(PacketError::NeedMore(n - have));
    }
    let end: usize = HEADER_LEN + n as usize;
    let payload = slice_to_vec(slice_subrange(input, HEADER_LEN, end));
    Ok((Packet { packet_type, payload }, end))
}

/// A reader given a whole frame, followed by any bytes at all, reads back
/// exactly the packet type and payload that were framed, and consumes the
/// frame and nothing more.
pub proof fn lemma_read_after_write(t: PacketType, payload: Seq<u8>, rest: Seq<u8>)
    requires
        payload.len() <= u64::MAX,
    ensures
        spec_read_packet(frame(t, payload) + rest) == (ReadSpec::Complete {
            packet_type: t,
            payload,
            consumed: 10 + payload.len(),
        }),
{
    let f = frame(t, payload);
    let input = f + rest;
    lemma_be_bytes_roundtrip(payload.len() as u64);
    assert(input.subrange(2, 10) =~= be_bytes_u64(payload.len() as u64));
    assert(input.subrange(10, 10 + payload.len() as int) =~= payload);
    assert(input[0] == PROTOCOL_VERSION);
    assert(input[1] == packet_type_code(t));
    lemma_packet_type_code_roundtrip(t, input[1]);
}

/// A reader given any proper beginning of a frame never rejects it: it asks
/// for more bytes, and never for more than the rest of the frame.
pub proof fn lemma_partial_frame_needs_more(t: PacketType, payload: Seq<u8>, k: nat)
    requires
        payload.len() <= u64::MAX,
        k < frame(t, payload).len(),
    ensures
        spec_read_packet(frame(t, payload).take(k as int)) matches ReadSpec::NeedMore(m) && 0 < m
            && k + m <= frame(t, payload).len(),
{
    let f = frame(t, payload);
    let input = f.take(k as int);
    lemma_be_bytes_roundtrip(payload.len() as u64);
    lemma_packet_type_code_roundtrip(t, packet_type_code(t));
    if k >= 10 {
        assert(input.subrange(2, 10) =~= be_bytes_u64(payload.len() as u64));
    }
}

} // verus!
