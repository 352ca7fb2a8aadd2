use vstd::prelude::*;

verus! {

/// The data type identifier of a message transfer sent by a node with an
/// identifier.
#[derive(PartialEq, Eq, Structural, Debug)]
pub struct MessageTypeId {
    mtid: u16,
}

impl MessageTypeId {
    /// The message type identifier held.
    pub closed spec fn spec_mtid(self) -> u16 {
        self.mtid
    }

    /// The value that `new` builds from the 16 middle bits of a CAN
    /// identifier.
    pub closed spec fn from_middle(mtid: u16) -> Self {
        Self { mtid }
    }

    /// Wraps a message type identifier.
    pub fn new(mtid: u16) -> (r: Self)
        ensures
            r == Self::from_middle(mtid),
            r.spec_mtid() == mtid,
    {
        Self { mtid }
    }
}

/// The middle bits of an anonymous message's CAN identifier: a 14-bit
/// discriminator and the two low bits of the message type identifier.
#[derive(PartialEq, Eq, Structural, Debug)]
pub struct AnoMessageTypeId {
    discriminator: u16,
    lbmtid: u8,
}

impl AnoMessageTypeId {
    /// The 14-bit discriminator.
    pub closed spec fn spec_discriminator(self) -> u16 {
        self.discriminator
    }

    /// The two low bits of the message type identifier.
    pub closed spec fn spec_lbmtid(self) -> u8 {
        self.lbmtid
    }

    /// The value that `new` builds from the 16 middle bits of a CAN
    /// identifier.
    pub closed spec fn from_middle(mtid_middle_bytes: u16) -> Self {
        Self {
            discriminator: (mtid_middle_bytes / 4) as u16,
            lbmtid: (mtid_middle_bytes % 4) as u8,
        }
    }

    /// Splits the 16 middle bits into the discriminator (bits 2..=15) and
    /// the low message type bits (bits 0..=1).
    pub fn new(mtid_middle_bytes: u16) -> (r: Self)
        ensures
            r == Self::from_middle(mtid_middle_bytes),
            r.spec_discriminator() == mtid_middle_bytes / 4,
            r.spec_lbmtid() == mtid_middle_bytes % 4,
    {
        let m = mtid_middle_bytes;
        assert((m >> 2u16) & 0x3FFFu16 == m / 4 && (m & 0x0003u16) as u8 == m % 4) by (bit_vector);
        Self {
            discriminator: (mtid_middle_bytes >> 2) & 0x3FFF,
            lbmtid: (mtid_middle_bytes & 0x0003) as u8,
        }
    }
}

/// The middle bits of a service transfer's CAN identifier.
#[derive(PartialEq, Eq, Structural, Debug)]
pub struct ServiceTypeId {
    stid: u8,
    request_not_response: bool,
    dest_node_id: u8,
}

impl ServiceTypeId {
    /// The service type identifier.
    pub closed spec fn spec_stid(self) -> u8 {
        self.stid
    }

    /// Whether the transfer is a request (rather than a response).
    pub closed spec fn spec_request_not_response(self) -> bool {
        self.request_not_response
    }

    /// The identifier of the destination node.
    pub closed spec fn spec_dest_node_id(self) -> u8 {
        self.dest_node_id
    }

    /// The value that `new` builds from the 16 middle bits of a CAN
    /// identifier.
    pub closed spec fn from_middle(mtid_middle_bytes: u16) -> Self {
        Self {
            stid: (mtid_middle_bytes / 256) as u8,
            request_not_response: (mtid_middle_bytes / 128) % 2 == 1,
            dest_node_id: (mtid_middle_bytes % 128) as u8,
        }
    }

    /// Splits the 16 middle bits into the service type identifier (bits
    /// 8..=15), the request flag (bit 7) and the destination node (bits
    /// 0..=6).
    pub fn new(mtid_middle_bytes: u16) -> (r: Self)
        ensures
            r == Self::from_middle(mtid_middle_bytes),
            r.spec_stid() == mtid_middle_bytes / 256,
            r.spec_request_not_response() == ((mtid_middle_bytes / 128) % 2 == 1),
            r.spec_dest_node_id() == mtid_middle_bytes % 128,
    {
        let m = mtid_middle_bytes;
        assert((m >> 8u16) as u8 == m / 256 && (m >> 7u16) & 0x0001u16 == (m / 128) % 2 && (m
            as u8) & 0x7Fu8 == m % 128) by (bit_vector);
        Self {
            stid: (mtid_middle_bytes >> 8) as u8,
            request_not_response: ((mtid_middle_bytes >> 7) & 0x0001) == 1,
            dest_node_id: (mtid_middle_bytes as u8) & 0x7F,
        }
    }
}

/// The message type identifier built from the middle bits is those bits.
pub proof fn lemma_message_type_id_fields(mtid: u16)
    ensures
        MessageTypeId::from_middle(mtid).spec_mtid() == mtid,
{
}

/// The anonymous message fields built from the middle bits: the
/// discriminator is bits 2..=15, the low message type bits are bits 0..=1.
pub proof fn lemma_ano_message_type_id_fields(mtid_middle_bytes: u16)
    ensures
        AnoMessageTypeId::from_middle(mtid_middle_bytes).spec_discriminator() == mtid_middle_bytes
            / 4,
        AnoMessageTypeId::from_middle(mtid_middle_bytes).spec_lbmtid() == mtid_middle_bytes % 4,
{
}

/// The service fields built from the middle bits: the service type is bits
/// 8..=15, the request flag bit 7, the destination node bits 0..=6.
pub proof fn lemma_service_type_id_fields(mtid_middle_bytes: u16)
    ensures
        ServiceTypeId::from_middle(mtid_middle_bytes).spec_stid() == mtid_middle_bytes / 256,
        ServiceTypeId::from_middle(mtid_middle_bytes).spec_request_not_response() == ((
        mtid_middle_bytes / 128) % 2 == 1),
        ServiceTypeId::from_middle(mtid_middle_bytes).spec_dest_node_id() == mtid_middle_bytes
            % 128,
{
}

/// What the 16 middle bits of a DroneCAN identifier describe.
#[derive(PartialEq, Eq, Structural, Debug)]
pub enum MessageIdMiddleBytes {
    MessageTypeId(MessageTypeId),
    AnoMessageTypeId(AnoMessageTypeId),
    ServiceTypeId(ServiceTypeId),
}

impl MessageIdMiddleBytes {
    /// The data type identifier: the whole message type identifier of a
    /// message, the two low message type bits of an anonymous message, or
    /// the service type identifier of a service transfer.
    pub open spec fn spec_data_type_id(self) -> u16 {
        match self {
            MessageIdMiddleBytes::MessageTypeId(m) => m.spec_mtid(),
            MessageIdMiddleBytes::AnoMessageTypeId(a) => a.spec_lbmtid() as u16,
            MessageIdMiddleBytes::ServiceTypeId(s) => s.spec_stid() as u16,
        }
    }

    /// The data type identifier (see `spec_data_type_id`).
    pub fn get_data_type_id(&self) -> (r: u16)
        ensures
            r == self.spec_data_type_id(),
    {
        match self {
            MessageIdMiddleBytes::MessageTypeId(m) => m.mtid,
            MessageIdMiddleBytes::AnoMessageTypeId(a) => a.lbmtid as u16,
            MessageIdMiddleBytes::ServiceTypeId(s) => s.stid as u16,
        }
    }
}

} // verus!
