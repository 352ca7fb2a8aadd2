use vstd::prelude::*;

use crate::tailbyte::{eot_bit, sot_bit, tid_bits, toggle_bit, Tailbyte};
use crate::utils::CrcData;

verus! {

/// Byte `i` (0 is the most significant) of the big-endian encoding of
/// `bits`, for `0 <= i < 8`.
pub open spec fn be_byte(bits: u64, i: int) -> u8 {
    ((bits >> ((56 - 8 * i) as u64)) & 0xFFu64) as u8
}

/// The byte index that a shift of `56 - 8 * k` saturating at zero reads:
/// `k` itself up to 7, then 7.
pub open spec fn clamp7(k: int) -> int {
    if k < 7 { k } else { 7 }
}

/// The 64-bit big-endian number whose bytes are the first eight of `raw`.
pub open spec fn pack_be(raw: Seq<u8>) -> u64 {
    ((raw[0] as u64) << 56u64) | ((raw[1] as u64) << 48u64) | ((raw[2] as u64) << 40u64) | ((
    raw[3] as u64) << 32u64) | ((raw[4] as u64) << 24u64) | ((raw[5] as u64) << 16u64) | ((
    raw[6] as u64) << 8u64) | (raw[7] as u64)
}

/// Reading back byte `i` of a packed big-endian number gives the `i`-th
/// byte that was packed.
proof fn lemma_pack_be_bytes(b0: u8, b1: u8, b2: u8, b3: u8, b4: u8, b5: u8, b6: u8, b7: u8)
    by (bit_vector)
    ensures
        ({
            let p = ((b0 as u64) << 56u64) | ((b1 as u64) << 48u64) | ((b2 as u64) << 40u64) | ((
            b3 as u64) << 32u64) | ((b4 as u64) << 24u64) | ((b5 as u64) << 16u64) | ((b6 as u64)
                << 8u64) | (b7 as u64);
            &&& ((p >> 56u64) & 0xFFu64) as u8 == b0
            &&& ((p >> 48u64) & 0xFFu64) as u8 == b1
            &&& ((p >> 40u64) & 0xFFu64) as u8 == b2
            &&& ((p >> 32u64) & 0xFFu64) as u8 == b3
            &&& ((p >> 24u64) & 0xFFu64) as u8 == b4
            &&& ((p >> 16u64) & 0xFFu64) as u8 == b5
            &&& ((p >> 8u64) & 0xFFu64) as u8 == b6
            &&& ((p >> 0u64) & 0xFFu64) as u8 == b7
        }),
{
}

/// Every byte of the big-endian encoding of `pack_be(raw)` is the byte of
/// `raw` at the same place.
pub proof fn lemma_pack_be(raw: Seq<u8>)
    requires
        raw.len() == 8,
    ensures
        forall|i: int| 0 <= i < 8 ==> #[trigger] be_byte(pack_be(raw), i) == raw[i],
{
    lemma_pack_be_bytes(raw[0], raw[1], raw[2], raw[3], raw[4], raw[5], raw[6], raw[7]);
    assert forall|i: int| 0 <= i < 8 implies #[trigger] be_byte(pack_be(raw), i) == raw[i] by {
        if i == 0 {
        } else if i == 1 {
        } else if i == 2 {
        } else if i == 3 {
        } else if i == 4 {
        } else if i == 5 {
        } else if i == 6 {
        } else {
        }
    }
}

/// The first frame of a multi-frame transfer: the two transfer CRC bytes,
/// five payload bytes and the tail byte.
#[derive(Debug, Hash)]
pub struct StartMessagePayload {
    pub crc: CrcData,
    pub payload: [u8; 5],
    pub tailbyte: Tailbyte,
}

impl StartMessagePayload {
    /// Whether this is what `new` reads from the big-endian bytes of `bits`:
    /// bytes 0 and 1 are the CRC, bytes 2..=6 the payload, byte 7 the tail
    /// byte.
    pub open spec fn decodes(self, bits: u64) -> bool {
        &&& self.crc.crc_1 == be_byte(bits, 0)
        &&& self.crc.crc_2 == be_byte(bits, 1)
        &&& forall|k: int| 0 <= k < 5 ==> #[trigger] self.payload@[k] == be_byte(bits, 2 + k)
        &&& self.tailbyte.value == be_byte(bits, 7)
    }

    /// Splits the eight bytes of a full start frame (big-endian in `bits`).
    /// Never fails.
    pub fn new(bits: u64) -> (r: Option<Self>)
        ensures
            r matches Some(p) && p.decodes(bits),
    {
        let crc_1 = ((bits >> 56) & 0xFF) as u8;
        let crc_2 = ((bits >> 48) & 0xFF) as u8;

        let mut payload = [0u8; 5];
        for i in 0..5
            invariant
                forall|k: int| 0 <= k < i ==> #[trigger] payload@[k] == be_byte(bits, 2 + k),
        {
            let shift = 40usize - (i * 8);
            payload[i] = ((bits >> shift) & 0xFF) as u8;
        }

        let tailbyte = Tailbyte::from_value((bits & 0xFF) as u8);
        assert(bits >> 0u64 == bits) by (bit_vector);

        Some(Self { crc: CrcData { crc_1, crc_2 }, payload, tailbyte })
    }
}

/// A frame inside a multi-frame transfer, laid out as a start frame: two
/// bytes in the CRC place, five payload bytes and the tail byte.
#[derive(Debug, Hash)]
pub struct MiddleMessagePayload {
    pub crc: CrcData,
    pub payload: [u8; 5],
    pub tailbyte: Tailbyte,
}

impl MiddleMessagePayload {
    /// Whether this is what `new` reads from the big-endian bytes of `bits`:
    /// bytes 0 and 1 are the CRC, bytes 2..=6 the payload, byte 7 the tail
    /// byte.
    pub open spec fn decodes(self, bits: u64) -> bool {
        &&& self.crc.crc_1 == be_byte(bits, 0)
        &&& self.crc.crc_2 == be_byte(bits, 1)
        &&& forall|k: int| 0 <= k < 5 ==> #[trigger] self.payload@[k] == be_byte(bits, 2 + k)
        &&& self.tailbyte.value == be_byte(bits, 7)
    }

    /// Splits the eight bytes of a full middle frame (big-endian in `bits`).
    /// Never fails.
    pub fn new(bits: u64) -> (r: Option<Self>)
        ensures
            r matches Some(p) && p.decodes(bits),
    {
        let crc_1 = ((bits >> 56) & 0xFF) as u8;
        let crc_2 = ((bits >> 48) & 0xFF) as u8;

        let mut payload = [0u8; 5];
        for i in 0..5
            invariant
                forall|k: int| 0 <= k < i ==> #[trigger] payload@[k] == be_byte(bits, 2 + k),
        {
            let shift = 40usize - (i * 8);
            payload[i] = ((bits >> shift) & 0xFF) as u8;
        }

        let tailbyte = Tailbyte::from_value((bits & 0xFF) as u8);
        assert(bits >> 0u64 == bits) by (bit_vector);

        Some(Self { crc: CrcData { crc_1, crc_2 }, payload, tailbyte })
    }
}


/// The last frame of a multi-frame transfer.
#[derive(Debug, Hash)]
pub struct EndMessagePayload {
    pub payload: Vec<u8>,
    pub tailbyte: Tailbyte,
    pub payload_len: u8,
}

/// Whether `payload`, `tailbyte` and `stored_len` are what a short frame
/// constructor reads from the big-endian bytes of `bits` for
/// `payload_len`: the first `payload_len` bytes (byte 7 repeated past the
/// eighth), the byte at `payload_len` (byte 7 from there on) as tail byte,
/// and `payload_len` truncated to eight bits.
pub open spec fn short_frame_decodes(
    payload: Seq<u8>,
    tailbyte: Tailbyte,
    stored_len: u8,
    bits: u64,
    payload_len: int,
) -> bool {
    &&& payload.len() == payload_len
    &&& forall|k: int| 0 <= k < payload_len ==> #[trigger] payload[k] == be_byte(bits, clamp7(k))
    &&& tailbyte.value == be_byte(bits, clamp7(payload_len))
    &&& stored_len == payload_len % 256
}

/// Reads the first `payload_len` big-endian bytes of `bits` and the tail
/// byte that follows them.
fn read_short_frame(bits: u64, payload_len: usize) -> (r: (Vec<u8>, Tailbyte))
    requires
        payload_len * 8 <= usize::MAX,
    ensures
        r.0@.len() == payload_len,
        forall|k: int| 0 <= k < payload_len ==> #[trigger] r.0@[k] == be_byte(bits, clamp7(k)),
        r.1.value == be_byte(bits, clamp7(payload_len as int)),
{
    let mut payload: Vec<u8> = Vec::new();
    for i in 0..payload_len
        invariant
            payload_len * 8 <= usize::MAX,
            payload@.len() == i,
            forall|k: int| 0 <= k < i ==> #[trigger] payload@[k] == be_byte(bits, clamp7(k)),
    {
        let shift = 56usize.saturating_sub(i * 8);
        payload.push(((bits >> shift) & 0xFF) as u8);
    }

    let tail_shift = 56usize.saturating_sub(payload_len * 8);
    let tailbyte = Tailbyte::from_value(((bits >> tail_shift) & 0xFF) as u8);
    (payload, tailbyte)
}

/// Casting to `u8` keeps the value modulo 256.
proof fn lemma_truncate_to_u8(x: usize)
    by (bit_vector)
    ensures
        x as u8 == x % 256,
{
}

impl EndMessagePayload {
    /// Whether this is what `new` reads from `bits` for `payload_len`.
    pub open spec fn decodes(self, bits: u64, payload_len: int) -> bool {
        short_frame_decodes(self.payload@, self.tailbyte, self.payload_len, bits, payload_len)
    }

    /// Reads the first `payload_len` big-endian bytes of `bits` as payload
    /// and the byte after them as tail byte.  Never fails.
    pub fn new(bits: u64, payload_len: usize) -> (r: Option<Self>)
        requires
            payload_len * 8 <= usize::MAX,
        ensures
            r matches Some(p) && p.decodes(bits, payload_len as int),
    {
        let (payload, tailbyte) = read_short_frame(bits, payload_len);
        proof {
            lemma_truncate_to_u8(payload_len);
        }
        Some(Self { payload, tailbyte, payload_len: #[verifier::truncate] (payload_len as u8) })
    }
}

/// A transfer that fits in one frame.
#[derive(Debug, Hash)]
pub struct SingleMessagePayload {
    pub payload: Vec<u8>,
    pub tailbyte: Tailbyte,
    pub payload_len: u8,
}

impl SingleMessagePayload {
    /// Whether this is what `new` reads from `bits` for `payload_len`.
    pub open spec fn decodes(self, bits: u64, payload_len: int) -> bool {
        short_frame_decodes(self.payload@, self.tailbyte, self.payload_len, bits, payload_len)
    }

    /// Reads the first `payload_len` big-endian bytes of `bits` as payload
    /// and the byte after them as tail byte.  Never fails.
    pub fn new(bits: u64, payload_len: usize) -> (r: Option<Self>)
        requires
            payload_len * 8 <= usize::MAX,
        ensures
            r matches Some(p) && p.decodes(bits, payload_len as int),
    {
        let (payload, tailbyte) = read_short_frame(bits, payload_len);
        proof {
            lemma_truncate_to_u8(payload_len);
        }
        Some(Self { payload, tailbyte, payload_len: #[verifier::truncate] (payload_len as u8) })
    }
}

/// The kind of frame a tail byte announces, with the frame's fields.
#[derive(Debug, Hash)]
pub enum PayloadType {
    StartMessagePayload(StartMessagePayload),
    EndMessagePayload(EndMessagePayload),
    MiddleMessagePayload(MiddleMessagePayload),
    SingleMessagePayload(SingleMessagePayload),
}

/// Whether the fields of a start or middle frame are the bytes of the
/// eight-byte frame `raw`: CRC bytes `raw[0]`, `raw[1]`, payload
/// `raw[2..7]`, tail byte `raw[7]`.
pub open spec fn full_frame_fields(crc: CrcData, payload: [u8; 5], tailbyte: Tailbyte, raw: Seq<
    u8,
>) -> bool {
    &&& crc.crc_1 == raw[0]
    &&& crc.crc_2 == raw[1]
    &&& payload@ == raw.subrange(2, 7)
    &&& tailbyte.value == raw[7]
}

/// Whether the fields of a single or end frame are the bytes of the
/// eight-byte frame `raw` for data length `dlc`: the frame's last byte
/// `raw[dlc - 1]` is the tail byte, the bytes before it `raw[0..dlc - 1]`
/// are the payload, and `dlc - 1` is the stored payload length.
pub open spec fn short_frame_fields(
    payload: Seq<u8>,
    tailbyte: Tailbyte,
    stored_len: u8,
    raw: Seq<u8>,
    dlc: int,
) -> bool {
    &&& payload == raw.subrange(0, dlc - 1)
    &&& tailbyte.value == raw[dlc - 1]
    &&& stored_len == dlc - 1
}

impl PayloadType {
    /// Whether this is what `get_payload_type` reads from the eight bytes
    /// `raw` of which the first `dlc` are the frame: the start and end
    /// flags of the frame's last byte `raw[dlc - 1]` choose the kind, and
    /// the fields are bytes of `raw`.
    pub open spec fn decodes_frame(self, raw: Seq<u8>, dlc: int) -> bool {
        let tail = raw[dlc - 1];
        match self {
            PayloadType::SingleMessagePayload(p) => {
                &&& sot_bit(tail) && eot_bit(tail)
                &&& short_frame_fields(p.payload@, p.tailbyte, p.payload_len, raw, dlc)
            },
            PayloadType::StartMessagePayload(p) => {
                &&& sot_bit(tail) && !eot_bit(tail)
                &&& full_frame_fields(p.crc, p.payload, p.tailbyte, raw)
            },
            PayloadType::EndMessagePayload(p) => {
                &&& !sot_bit(tail) && eot_bit(tail)
                &&& short_frame_fields(p.payload@, p.tailbyte, p.payload_len, raw, dlc)
            },
            PayloadType::MiddleMessagePayload(p) => {
                &&& !sot_bit(tail) && !eot_bit(tail)
                &&& full_frame_fields(p.crc, p.payload, p.tailbyte, raw)
            },
        }
    }

    /// Classifies a received frame.  `raw_data` holds the frame's bytes,
    /// the first `dlc` of them being the frame; its last byte is the tail
    /// byte.  Fails exactly when `dlc` is not in `1..=8`.
    pub fn get_payload_type(raw_data: [u8; 8], dlc: usize) -> (r: Option<Self>)
        ensures
            r is None <==> !(1 <= dlc <= 8),
            r matches Some(p) ==> p.decodes_frame(raw_data@, dlc as int),
    {
        if dlc < 1 || dlc > raw_data.len() {
            return None;
        }
        let tailbyte = Tailbyte::from_value(raw_data[dlc - 1]);

        let data: u64 = ((raw_data[0] as u64) << 56) | ((raw_data[1] as u64) << 48) | ((
        raw_data[2] as u64) << 40) | ((raw_data[3] as u64) << 32) | ((raw_data[4] as u64) << 24)
            | ((raw_data[5] as u64) << 16) | ((raw_data[6] as u64) << 8) | (raw_data[7] as u64);
        proof {
            lemma_pack_be(raw_data@);
            assert(data == pack_be(raw_data@));
        }

        if tailbyte.start_of_transfer() {
            if tailbyte.end_of_transfer() {
                let p = SingleMessagePayload::new(data, dlc - 1).unwrap();
                proof {
                    assert(p.payload@ =~= raw_data@.subrange(0, dlc - 1));
                }
                return Some(PayloadType::SingleMessagePayload(p));
            }
            let p = StartMessagePayload::new(data).unwrap();
            proof {
                assert(p.payload@ =~= raw_data@.subrange(2, 7));
            }
            return Some(PayloadType::StartMessagePayload(p));
        } else if tailbyte.end_of_transfer() {
            let p = EndMessagePayload::new(data, dlc - 1).unwrap();
            proof {
                assert(p.payload@ =~= raw_data@.subrange(0, dlc - 1));
            }
            return Some(PayloadType::EndMessagePayload(p));
        }
        let p = MiddleMessagePayload::new(data).unwrap();
        proof {
            assert(p.payload@ =~= raw_data@.subrange(2, 7));
        }
        Some(PayloadType::MiddleMessagePayload(p))
    }

    /// The tail byte stored in the frame, whatever its kind.
    pub open spec fn stored_tailbyte(self) -> Tailbyte {
        match self {
            PayloadType::MiddleMessagePayload(m) => m.tailbyte,
            PayloadType::EndMessagePayload(e) => e.tailbyte,
            PayloadType::StartMessagePayload(s) => s.tailbyte,
            PayloadType::SingleMessagePayload(s) => s.tailbyte,
        }
    }

    /// Whether the frame ends its transfer (an end or single frame).
    pub open spec fn ends_transfer(self) -> bool {
        self is EndMessagePayload || self is SingleMessagePayload
    }

    /// Whether the frame starts its transfer (a start or single frame).
    pub open spec fn starts_transfer(self) -> bool {
        self is StartMessagePayload || self is SingleMessagePayload
    }

    /// The transfer identifier of the stored tail byte.
    pub fn get_transfert_id(&self) -> (r: u8)
        ensures
            r == tid_bits(self.stored_tailbyte().value),
    {
        match self {
            PayloadType::MiddleMessagePayload(m) => m.tailbyte.transfer_id(),
            PayloadType::EndMessagePayload(e) => e.tailbyte.transfer_id(),
            PayloadType::StartMessagePayload(s) => s.tailbyte.transfer_id(),
            PayloadType::SingleMessagePayload(s) => s.tailbyte.transfer_id(),
        }
    }

    /// Whether the frame is an end or single frame.
    pub fn end_of_transfer(&self) -> (r: bool)
        ensures
            r == self.ends_transfer(),
    {
        match self {
            PayloadType::EndMessagePayload(_) => true,
            PayloadType::SingleMessagePayload(_) => true,
            _ => false,
        }
    }

    /// Whether the frame is a start or single frame.
    pub fn start_of_transfer(&self) -> (r: bool)
        ensures
            r == self.starts_transfer(),
    {
        match self {
            PayloadType::StartMessagePayload(_) => true,
            PayloadType::SingleMessagePayload(_) => true,
            _ => false,
        }
    }

    /// The toggle bit of the stored tail byte.
    pub fn toggle(&self) -> (r: bool)
        ensures
            r == toggle_bit(self.stored_tailbyte().value),
    {
        match self {
            PayloadType::MiddleMessagePayload(m) => m.tailbyte.toggle(),
            PayloadType::EndMessagePayload(e) => e.tailbyte.toggle(),
            PayloadType::StartMessagePayload(s) => s.tailbyte.toggle(),
            PayloadType::SingleMessagePayload(s) => s.tailbyte.toggle(),
        }
    }
}

/// Whether two classified frames are of the same kind with equal fields.
pub open spec fn same_payload(p: PayloadType, q: PayloadType) -> bool {
    match (p, q) {
        (PayloadType::StartMessagePayload(a), PayloadType::StartMessagePayload(b)) => {
            a.crc == b.crc && a.payload@ == b.payload@ && a.tailbyte == b.tailbyte
        },
        (PayloadType::MiddleMessagePayload(a), PayloadType::MiddleMessagePayload(b)) => {
            a.crc == b.crc && a.payload@ == b.payload@ && a.tailbyte == b.tailbyte
        },
        (PayloadType::EndMessagePayload(a), PayloadType::EndMessagePayload(b)) => {
            a.payload@ == b.payload@ && a.tailbyte == b.tailbyte && a.payload_len == b.payload_len
        },
        (PayloadType::SingleMessagePayload(a), PayloadType::SingleMessagePayload(b)) => {
            a.payload@ == b.payload@ && a.tailbyte == b.tailbyte && a.payload_len == b.payload_len
        },
        _ => false,
    }
}

/// Classification is deterministic: two classifications of the same bytes
/// are of the same kind with equal fields.
pub proof fn lemma_classification_deterministic(p: PayloadType, q: PayloadType, raw: Seq<u8>, dlc: int)
    requires
        p.decodes_frame(raw, dlc),
        q.decodes_frame(raw, dlc),
    ensures
        same_payload(p, q),
{
}

/// A classified frame starts (ends) its transfer exactly when the start
/// (end) bit of the frame's last byte is set.
pub proof fn lemma_transfer_flags_follow_tail_byte(p: PayloadType, raw: Seq<u8>, dlc: int)
    requires
        p.decodes_frame(raw, dlc),
    ensures
        p.starts_transfer() == sot_bit(raw[dlc - 1]),
        p.ends_transfer() == eot_bit(raw[dlc - 1]),
{
}

/// The toggle bit and transfer identifier read from a classified single or
/// end frame, or from any full eight-byte frame, are those of the frame's
/// last byte.  (A start or middle frame is read as eight bytes, so one
/// shorter than eight bytes stores `raw[7]` as its tail byte.)
pub proof fn lemma_tail_fields_follow_tail_byte(p: PayloadType, raw: Seq<u8>, dlc: int)
    requires
        raw.len() == 8,
        1 <= dlc <= 8,
        p.decodes_frame(raw, dlc),
        p.ends_transfer() || dlc == 8,
    ensures
        toggle_bit(p.stored_tailbyte().value) == toggle_bit(raw[dlc - 1]),
        tid_bits(p.stored_tailbyte().value) == tid_bits(raw[dlc - 1]),
{
}


/// Layout of a classified frame whose last byte has no end bit: it is a
/// start frame when that byte has the start bit and a middle frame when
/// not, and its fields are the frame's eight bytes in order: CRC bytes 0
/// and 1, payload bytes 2 to 6, tail byte 7.  Laid end to end, the fields
/// give the eight bytes back.
pub proof fn lemma_start_middle_frame_layout(p: PayloadType, raw: Seq<u8>, dlc: int)
    requires
        raw.len() == 8,
        1 <= dlc <= 8,
        p.decodes_frame(raw, dlc),
        !eot_bit(raw[dlc - 1]),
    ensures
        sot_bit(raw[dlc - 1]) ==> p is StartMessagePayload,
        !sot_bit(raw[dlc - 1]) ==> p is MiddleMessagePayload,
        match p {
            PayloadType::StartMessagePayload(f) => {
                &&& f.crc.crc_1 == raw[0]
                &&& f.crc.crc_2 == raw[1]
                &&& forall|k: int| 0 <= k < 5 ==> #[trigger] f.payload@[k] == raw[2 + k]
                &&& f.tailbyte.value == raw[7]
                &&& seq![f.crc.crc_1, f.crc.crc_2] + f.payload@ + seq![f.tailbyte.value] == raw
            },
            PayloadType::MiddleMessagePayload(f) => {
                &&& f.crc.crc_1 == raw[0]
                &&& f.crc.crc_2 == raw[1]
                &&& forall|k: int| 0 <= k < 5 ==> #[trigger] f.payload@[k] == raw[2 + k]
                &&& f.tailbyte.value == raw[7]
                &&& seq![f.crc.crc_1, f.crc.crc_2] + f.payload@ + seq![f.tailbyte.value] == raw
            },
            _ => false,
        },
{
    match p {
        PayloadType::StartMessagePayload(f) => {
            assert(seq![f.crc.crc_1, f.crc.crc_2] + f.payload@ + seq![f.tailbyte.value] =~= raw);
        },
        PayloadType::MiddleMessagePayload(f) => {
            assert(seq![f.crc.crc_1, f.crc.crc_2] + f.payload@ + seq![f.tailbyte.value] =~= raw);
        },
        _ => {},
    }
}

/// Layout of a classified frame whose last byte has the end bit: it is a
/// single frame when that byte also has the start bit and an end frame when
/// not; its payload is the `dlc - 1` bytes before the last byte, in order,
/// its tail byte is the last byte, and its stored length is `dlc - 1`.
/// Payload then tail byte give the frame's `dlc` bytes back.
pub proof fn lemma_single_end_frame_layout(p: PayloadType, raw: Seq<u8>, dlc: int)
    requires
        raw.len() == 8,
        1 <= dlc <= 8,
        p.decodes_frame(raw, dlc),
        eot_bit(raw[dlc - 1]),
    ensures
        sot_bit(raw[dlc - 1]) ==> p is SingleMessagePayload,
        !sot_bit(raw[dlc - 1]) ==> p is EndMessagePayload,
        match p {
            PayloadType::SingleMessagePayload(f) => {
                &&& f.payload@.len() == dlc - 1
                &&& forall|k: int| 0 <= k < dlc - 1 ==> #[trigger] f.payload@[k] == raw[k]
                &&& f.tailbyte.value == raw[dlc - 1]
                &&& f.payload_len == dlc - 1
                &&& f.payload@ + seq![f.tailbyte.value] == raw.subrange(0, dlc)
            },
            PayloadType::EndMessagePayload(f) => {
                &&& f.payload@.len() == dlc - 1
                &&& forall|k: int| 0 <= k < dlc - 1 ==> #[trigger] f.payload@[k] == raw[k]
                &&& f.tailbyte.value == raw[dlc - 1]
                &&& f.payload_len == dlc - 1
                &&& f.payload@ + seq![f.tailbyte.value] == raw.subrange(0, dlc)
            },
            _ => false,
        },
{
    match p {
        PayloadType::SingleMessagePayload(f) => {
            assert(f.payload@ + seq![f.tailbyte.value] =~= raw.subrange(0, dlc));
        },
        PayloadType::EndMessagePayload(f) => {
            assert(f.payload@ + seq![f.tailbyte.value] =~= raw.subrange(0, dlc));
        },
        _ => {},
    }
}

/// A start or middle frame built from the eight bytes `raw` packed
/// big-endian holds them in order: CRC bytes 0 and 1, payload bytes 2 to
/// 6, tail byte 7.
pub proof fn lemma_full_payload_bytes(
    crc: CrcData,
    payload: [u8; 5],
    tailbyte: Tailbyte,
    raw: Seq<u8>,
)
    requires
        raw.len() == 8,
        (StartMessagePayload { crc, payload, tailbyte }).decodes(pack_be(raw)) || (
        MiddleMessagePayload { crc, payload, tailbyte }).decodes(pack_be(raw)),
    ensures
        crc.crc_1 == raw[0],
        crc.crc_2 == raw[1],
        forall|k: int| 0 <= k < 5 ==> #[trigger] payload@[k] == raw[2 + k],
        tailbyte.value == raw[7],
{
    lemma_pack_be(raw);
    let s = StartMessagePayload { crc, payload, tailbyte };
    let m = MiddleMessagePayload { crc, payload, tailbyte };
    assert forall|k: int| 0 <= k < 5 implies #[trigger] payload@[k] == raw[2 + k] by {
        assert(be_byte(pack_be(raw), 2 + k) == raw[2 + k]);
        if s.decodes(pack_be(raw)) {
            assert(s.payload@[k] == be_byte(pack_be(raw), 2 + k));
        } else {
            assert(m.payload@[k] == be_byte(pack_be(raw), 2 + k));
        }
    }
}

/// A single or end frame built from the eight bytes `raw` packed
/// big-endian for a payload of `n` bytes (`n` below 8) holds the first `n`
/// bytes in order as payload and byte `n` as tail byte.
pub proof fn lemma_short_payload_bytes(payload: Seq<u8>, tailbyte: Tailbyte, stored_len: u8, raw: Seq<u8>, n: int)
    requires
        raw.len() == 8,
        0 <= n < 8,
        short_frame_decodes(payload, tailbyte, stored_len, pack_be(raw), n),
    ensures
        payload.len() == n,
        forall|k: int| 0 <= k < n ==> #[trigger] payload[k] == raw[k],
        tailbyte.value == raw[n],
        stored_len == n,
{
    lemma_pack_be(raw);
    assert forall|k: int| 0 <= k < n implies #[trigger] payload[k] == raw[k] by {
        assert(be_byte(pack_be(raw), clamp7(k)) == raw[k]);
    }
    assert(be_byte(pack_be(raw), clamp7(n)) == raw[n]);
}

} // verus!
