use vstd::prelude::*;

use crate::can_id::CanId;
use crate::message_type::{
    lemma_ano_message_type_id_fields, lemma_message_type_id_fields, lemma_service_type_id_fields,
    AnoMessageTypeId, MessageIdMiddleBytes, MessageTypeId, ServiceTypeId,
};
use crate::payload::{same_payload, lemma_classification_deterministic, PayloadType};
use crate::tailbyte::{eot_bit, sot_bit};

verus! {

/// The transfer priority: bits 24..=28 of an extended identifier.
pub open spec fn id_priority(raw: u32) -> u16 {
    ((raw / 0x100_0000) % 32) as u16
}

/// The 16 middle bits (8..=23) of an extended identifier.
pub open spec fn id_middle(raw: u32) -> u16 {
    ((raw / 256) % 65536) as u16
}

/// The service-not-message flag: bit 7 of an extended identifier.
pub open spec fn id_service_not_message(raw: u32) -> bool {
    (raw / 128) % 2 == 1
}

/// The source node identifier: bits 0..=6 of an extended identifier.
pub open spec fn id_source_node(raw: u32) -> u8 {
    (raw % 128) as u8
}

/// What the middle bits of an extended identifier describe: a service
/// transfer when the service flag is set, otherwise an anonymous message
/// when the source node is 0, otherwise a message.
pub open spec fn id_mtid(raw: u32) -> MessageIdMiddleBytes {
    if id_service_not_message(raw) {
        MessageIdMiddleBytes::ServiceTypeId(ServiceTypeId::from_middle(id_middle(raw)))
    } else if id_source_node(raw) == 0 {
        MessageIdMiddleBytes::AnoMessageTypeId(AnoMessageTypeId::from_middle(id_middle(raw)))
    } else {
        MessageIdMiddleBytes::MessageTypeId(MessageTypeId::from_middle(id_middle(raw)))
    }
}

/// `data` followed by zeros up to eight bytes.
pub open spec fn padded(data: Seq<u8>) -> Seq<u8> {
    Seq::new(8, |i: int| if i < data.len() { data[i] } else { 0u8 })
}

/// Whether `DroneCanFrame::new` accepts an identifier and data: the data
/// holds one to eight bytes, the identifier is extended with a raw value
/// that fits in 29 bits, and an anonymous message (message with source
/// node 0) is a single-frame transfer, that is its last byte has both the
/// start and the end bit set.
pub open spec fn frame_accepted(id: CanId, data: Seq<u8>) -> bool {
    &&& 1 <= data.len() <= 8
    &&& id is Extended
    &&& id->Extended_0 <= 0x1FFF_FFFF
    &&& (id_service_not_message(id->Extended_0) || id_source_node(id->Extended_0) != 0 || (sot_bit(
        data[data.len() - 1],
    ) && eot_bit(data[data.len() - 1])))
}

/// Bit-level reading of the fields of an extended identifier.
proof fn lemma_id_fields(raw: u32)
    by (bit_vector)
    ensures
        ((raw >> 24u32) & 0x1Fu32) as u16 == (raw / 0x100_0000) % 32,
        ((raw >> 8u32) & 0xFFFFu32) as u16 == (raw / 256) % 65536,
        ((raw >> 7u32) & 1u32) == (raw / 128) % 2,
        (raw & 0x7Fu32) as u8 == raw % 128,
{
}

/// A DroneCAN frame: a CAN frame with an extended identifier and one to
/// eight data bytes, the last of which is the tail byte.
#[derive(Debug)]
pub struct DroneCanFrame {
    pub id: CanId,
    pub priority: u16,
    pub mtid: MessageIdMiddleBytes,
    pub service_not_message: bool,
    pub source_node_id: u8,
    pub payload: PayloadType,
    pub raw_data: [u8; 8],
    pub dlc: usize,
}

impl DroneCanFrame {
    /// The frame's data bytes.
    pub open spec fn data_view(&self) -> Seq<u8> {
        self.raw_data@.subrange(0, self.dlc as int)
    }

    /// The frame's data length.
    pub open spec fn spec_dlc(&self) -> usize {
        self.dlc
    }

    /// Whether the frame's private fields are consistent: one to eight data
    /// bytes, stored first among eight bytes padded with zeros.
    pub open spec fn wf(&self) -> bool {
        &&& 1 <= self.dlc <= 8
        &&& self.raw_data@ == padded(self.data_view())
    }

    /// Whether this frame is what `new` builds from `id` and `data`: the
    /// identifier's fields, the classified payload of the data padded to
    /// eight bytes, and the data itself.
    pub open spec fn parsed_from(&self, id: CanId, data: Seq<u8>) -> bool {
        &&& frame_accepted(id, data)
        &&& self.wf()
        &&& self.id == id
        &&& self.priority == id_priority(id->Extended_0)
        &&& self.mtid == id_mtid(id->Extended_0)
        &&& self.service_not_message == id_service_not_message(id->Extended_0)
        &&& self.source_node_id == id_source_node(id->Extended_0)
        &&& self.payload.decodes_frame(padded(data), data.len() as int)
        &&& self.spec_dlc() == data.len()
        &&& self.data_view() == data
    }

    /// Decodes a received CAN frame.  Returns `None` unless
    /// `frame_accepted(id, data)`; otherwise the frame whose fields are read
    /// from the identifier and the data as `parsed_from` states.
    pub fn new(id: CanId, data: &[u8]) -> (r: Option<Self>)
        ensures
            r is Some <==> frame_accepted(id, data@),
            r matches Some(f) ==> f.parsed_from(id, data@),
    {
        let len = data.len();

        if len == 0 || len > 8 {
            return None;
        }

        let (priority, mtid_val, service_not_message, source_node_id) = match id {
            CanId::Extended(raw) => {
                if raw > 0x1FFF_FFFF {
                    return None;
                }
                proof {
                    lemma_id_fields(raw);
                }
                (
                    ((raw >> 24) & 0x1F) as u16,
                    ((raw >> 8) & 0xFFFF) as u16,
                    ((raw >> 7) & 1) == 1,
                    (raw & 0x7F) as u8,
                )
            },
            CanId::Standard(_) => return None,
        };

        let mtid = if service_not_message {
            MessageIdMiddleBytes::ServiceTypeId(ServiceTypeId::new(mtid_val))
        } else if source_node_id == 0 {
            MessageIdMiddleBytes::AnoMessageTypeId(AnoMessageTypeId::new(mtid_val))
        } else {
            MessageIdMiddleBytes::MessageTypeId(MessageTypeId::new(mtid_val))
        };

        let mut raw_data = [0u8; 8];
        for i in 0..len
            invariant
                len == data@.len(),
                len <= 8,
                forall|k: int| 0 <= k < i ==> raw_data@[k] == data@[k],
                forall|k: int| i <= k < 8 ==> raw_data@[k] == 0,
        {
            raw_data[i] = data[i];
        }
        assert(raw_data@ =~= padded(data@));

        let payload = PayloadType::get_payload_type(raw_data, len)?;

        if matches!(mtid, MessageIdMiddleBytes::AnoMessageTypeId(_)) && !matches!(
            payload,
            PayloadType::SingleMessagePayload(_)
        ) {
            return None;
        }
        let r = DroneCanFrame {
            id,
            priority,
            mtid,
            service_not_message,
            source_node_id,
            payload,
            raw_data,
            dlc: len,
        };
        assert(r.data_view() =~= data@);
        Some(r)
    }

    /// DroneCAN has no remote frames: always `None`.
    pub fn new_remote(id: CanId, dlc: usize) -> (r: Option<Self>)
        ensures
            r is None,
    {
        None
    }

    /// Whether the identifier is extended.
    pub fn is_extended(&self) -> (r: bool)
        ensures
            r == (self.id is Extended),
    {
        matches!(self.id, CanId::Extended(_))
    }

    /// DroneCAN frames are never remote frames.
    pub fn is_remote_frame(&self) -> (r: bool)
        ensures
            !r,
    {
        false
    }

    /// The frame's identifier.
    pub fn id(&self) -> (r: CanId)
        ensures
            r == self.id,
    {
        self.id
    }

    /// The frame's data length.
    pub fn dlc(&self) -> (r: usize)
        ensures
            r == self.spec_dlc(),
    {
        self.dlc
    }

    /// The frame's data bytes.
    pub fn data(&self) -> (r: &[u8])
        requires
            self.wf(),
        ensures
            r@ == self.data_view(),
    {
        vstd::slice::slice_subrange(self.raw_data.as_slice(), 0, self.dlc)
    }
}

/// Decoding the identifier and data of a decoded frame again gives the
/// same frame: the identifier, every identifier field, the data and the
/// classified payload are equal.
pub proof fn lemma_frame_reparse(f: DroneCanFrame, g: DroneCanFrame, id: CanId, data: Seq<u8>)
    requires
        f.parsed_from(id, data),
        g.parsed_from(f.id, f.data_view()),
    ensures
        frame_accepted(f.id, f.data_view()),
        g.id == f.id,
        g.priority == f.priority,
        g.mtid == f.mtid,
        g.service_not_message == f.service_not_message,
        g.source_node_id == f.source_node_id,
        g.dlc == f.dlc,
        g.data_view() == f.data_view(),
        g.raw_data@ == f.raw_data@,
        same_payload(g.payload, f.payload),
{
    lemma_classification_deterministic(g.payload, f.payload, padded(data), data.len() as int);
}

/// An accepted anonymous message is a single-frame transfer.
pub proof fn lemma_anonymous_frames_are_single(f: DroneCanFrame, id: CanId, data: Seq<u8>)
    requires
        f.parsed_from(id, data),
        f.mtid is AnoMessageTypeId,
    ensures
        f.payload is SingleMessagePayload,
        f.source_node_id == 0,
        !f.service_not_message,
{
}

/// The data type identifier of a decoded frame: the service type (bits
/// 16..=23 of the identifier) for a service transfer, the two low message
/// type bits (8..=9) for an anonymous message, the whole message type
/// (8..=23) for a message.
pub proof fn lemma_frame_data_type_id(f: DroneCanFrame, id: CanId, data: Seq<u8>)
    requires
        f.parsed_from(id, data),
    ensures
        f.mtid.spec_data_type_id() as int == (if id_service_not_message(id->Extended_0) {
            (id_middle(id->Extended_0) / 256) as int
        } else if id_source_node(id->Extended_0) == 0 {
            (id_middle(id->Extended_0) % 4) as int
        } else {
            id_middle(id->Extended_0) as int
        }),
{
    lemma_message_type_id_fields(id_middle(id->Extended_0));
    lemma_ano_message_type_id_fields(id_middle(id->Extended_0));
    lemma_service_type_id_fields(id_middle(id->Extended_0));
}

/// The middle bits that a decoded `mtid` was read from, rebuilt from its
/// fields.
pub open spec fn mtid_middle_bits(m: MessageIdMiddleBytes) -> int {
    match m {
        MessageIdMiddleBytes::MessageTypeId(t) => t.spec_mtid() as int,
        MessageIdMiddleBytes::AnoMessageTypeId(a) => a.spec_discriminator() * 4 + a.spec_lbmtid(),
        MessageIdMiddleBytes::ServiceTypeId(s) => s.spec_stid() * 256 + (if s.spec_request_not_response() {
            128int
        } else {
            0int
        }) + s.spec_dest_node_id(),
    }
}

/// The fields of a decoded frame rebuild its 29-bit identifier: priority
/// (below 32) times 2^24, plus the middle bits (below 2^16, as the `mtid`
/// kind holds them) times 256, plus 128 for a service transfer, plus the
/// source node (below 128).
pub proof fn lemma_frame_fields_rebuild_identifier(f: DroneCanFrame, id: CanId, data: Seq<u8>)
    requires
        f.parsed_from(id, data),
    ensures
        f.priority < 32,
        f.source_node_id < 128,
        0 <= mtid_middle_bits(f.mtid) < 65536,
        id->Extended_0 == f.priority * 0x100_0000 + mtid_middle_bits(f.mtid) * 256 + (
        if f.service_not_message { 128int } else { 0int }) + f.source_node_id,
        f.service_not_message ==> f.mtid is ServiceTypeId,
        !f.service_not_message && f.source_node_id == 0 ==> f.mtid is AnoMessageTypeId,
        !f.service_not_message && f.source_node_id != 0 ==> f.mtid is MessageTypeId,
{
    let raw = id->Extended_0;
    lemma_message_type_id_fields(id_middle(raw));
    lemma_ano_message_type_id_fields(id_middle(raw));
    lemma_service_type_id_fields(id_middle(raw));
}

/// A decoded frame's eight stored bytes are its data followed by zeros.
pub proof fn lemma_frame_data_layout(f: DroneCanFrame, id: CanId, data: Seq<u8>)
    requires
        f.parsed_from(id, data),
    ensures
        f.dlc == data.len(),
        f.raw_data@.len() == 8,
        forall|k: int| 0 <= k < data.len() ==> #[trigger] f.raw_data@[k] == data[k],
        forall|k: int| data.len() <= k < 8 ==> #[trigger] f.raw_data@[k] == 0,
{
}

} // verus!
