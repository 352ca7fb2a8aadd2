use dronecan::can_id::CanId;
use dronecan::dronecan_frame::DroneCanFrame;
use dronecan::message_type::MessageIdMiddleBytes;
use dronecan::payload::PayloadType;
use embedded_can::{ExtendedId, Id, StandardId};

/// The library's value for an `embedded_can` identifier.
fn can_id(id: impl Into<Id>) -> CanId {
    match id.into() {
        Id::Standard(s) => CanId::Standard(s.as_raw()),
        Id::Extended(e) => CanId::Extended(e.as_raw()),
    }
}

#[test]
fn test_create_and_parse_frame() {
    let id = ExtendedId::new(0x18FF0001).expect("Invalid ExtendedId");
    let payload = [0x01, 0x02, 0xC0];

    let frame = DroneCanFrame::new(can_id(id), &payload).expect("Failed to create frame");

    assert!(frame.is_extended());
    assert_eq!(frame.id(), can_id(Id::Extended(id)));
    assert_eq!(frame.dlc(), 3);
    assert_eq!(frame.data(), &payload[..]);

    assert_eq!(frame.priority, 24);
    assert_eq!(frame.source_node_id, 1);

    let roundtrip = DroneCanFrame::new(frame.id(), frame.data())
        .expect("Failed to create frame from parsed data");

    assert_eq!(roundtrip.priority, frame.priority);
    assert_eq!(roundtrip.source_node_id, frame.source_node_id);
}

#[test]
fn test_start_frame() {
    let id = ExtendedId::new(0x18FF0001).expect("Invalid ExtendedId");
    let payload = [0x01, 0x02, 0x03, 0x04, 0x05, 0x06, 0x07, 0x80];

    let frame = DroneCanFrame::new(can_id(id), &payload).expect("Failed to create start frame");

    assert_eq!(frame.dlc(), 8);

    match &frame.payload {
        PayloadType::StartMessagePayload(_) => {}
        _ => panic!("Expected StartMessagePayload"),
    }
}

#[test]
fn test_invalid_payload_length() {
    let id = ExtendedId::new(0x18FF0001).expect("Invalid ExtendedId");
    let long_payload = [0; 9];

    let result = DroneCanFrame::new(can_id(id), &long_payload);
    assert!(result.is_none());
}

#[test]
fn test_empty_payload() {
    let id = ExtendedId::new(0x18FF0001).expect("Invalid ExtendedId");
    let empty_payload: [u8; 0] = [];

    let frame = DroneCanFrame::new(can_id(id), &empty_payload);
    assert!(frame.is_none());
}

#[test]
fn test_standard_id_rejected() {
    let id = StandardId::new(0x123).expect("Invalid StandardId");
    let payload = [0x01, 0xC0];
    assert!(DroneCanFrame::new(can_id(id), &payload).is_none());
}

#[test]
fn test_service_frame_parsing() {
    let id = ExtendedId::new(0x1807_0081).expect("Invalid ExtendedId");
    let payload = [0x01, 0xC0];
    let frame = DroneCanFrame::new(can_id(id), &payload).expect("Failed to create service frame");

    assert!(frame.service_not_message);
    match &frame.mtid {
        MessageIdMiddleBytes::ServiceTypeId(_) => {}
        _ => panic!("Expected ServiceTypeId"),
    }
}

#[test]
fn test_anonymous_message_parsing() {
    let id = ExtendedId::new(0x1800_0000).expect("Invalid ExtendedId");
    let payload = [0x01, 0xC0];
    let frame = DroneCanFrame::new(can_id(id), &payload).expect("Failed to create anonymous frame");

    assert_eq!(frame.source_node_id, 0);
    assert!(!frame.service_not_message);
    match &frame.mtid {
        MessageIdMiddleBytes::AnoMessageTypeId(_) => {}
        _ => panic!("Expected AnoMessageTypeId"),
    }
}

#[test]
fn test_middle_frame_tail_byte() {
    let id = ExtendedId::new(0x18FF0001).expect("Invalid ExtendedId");
    let payload = [0x01, 0x02, 0x03, 0x04, 0x05, 0x06, 0x07, 0x40];
    let frame = DroneCanFrame::new(can_id(id), &payload).expect("Failed to create middle frame");

    match &frame.payload {
        PayloadType::StartMessagePayload(_) => panic!("Should not be Start"),
        _ => {}
    }
}

#[test]
fn test_end_frame_tail_byte() {
    let id = ExtendedId::new(0x18FF0001).expect("Invalid ExtendedId");
    let payload = [0x01, 0x02, 0x03, 0x04, 0x05, 0x06, 0x07, 0x60];
    let _frame = DroneCanFrame::new(can_id(id), &payload).expect("Failed to create end frame");
}

#[test]
fn test_new_remote_always_none() {
    let id = ExtendedId::new(0x18FF0001).expect("Invalid ExtendedId");
    assert!(DroneCanFrame::new_remote(can_id(id), 8).is_none());
}

#[test]
fn test_priority_boundary_values() {
    let id_min = ExtendedId::new(0x0000_0001).expect("Invalid ExtendedId");
    let frame_min = DroneCanFrame::new(can_id(id_min), &[0xC0]).expect("Failed min priority");
    assert_eq!(frame_min.priority, 0);

    let id_max = ExtendedId::new(0x1F00_0001).expect("Invalid ExtendedId");
    let frame_max = DroneCanFrame::new(can_id(id_max), &[0xC0]).expect("Failed max priority");
    assert_eq!(frame_max.priority, 31);
}

#[test]
fn test_source_node_id_boundary_values() {
    let id_min = ExtendedId::new(0x1800_0001).expect("Invalid ExtendedId");
    let frame_min = DroneCanFrame::new(can_id(id_min), &[0xC0]).expect("Failed min node id");
    assert_eq!(frame_min.source_node_id, 1);

    let id_max = ExtendedId::new(0x1800_007F).expect("Invalid ExtendedId");
    let frame_max = DroneCanFrame::new(can_id(id_max), &[0xC0]).expect("Failed max node id");
    assert_eq!(frame_max.source_node_id, 127);
}

#[test]
fn test_roundtrip_full_equality() {
    let id = ExtendedId::new(0x18FF0001).expect("Invalid ExtendedId");
    let payload = [0x01, 0x02, 0xC0];
    let frame = DroneCanFrame::new(can_id(id), &payload).expect("Failed to create frame");
    let roundtrip = DroneCanFrame::new(frame.id(), frame.data()).expect("Failed roundtrip");

    assert_eq!(roundtrip.priority, frame.priority);
    assert_eq!(roundtrip.source_node_id, frame.source_node_id);
    assert_eq!(roundtrip.service_not_message, frame.service_not_message);
    assert_eq!(roundtrip.dlc(), frame.dlc());
    assert_eq!(roundtrip.data(), frame.data());
}

#[test]
fn test_anonymous_multiframe_rejected() {
    let id = ExtendedId::new(0x1800_0000).expect("Invalid ExtendedId");
    let payload = [0x01, 0x02, 0x03, 0x04, 0x05, 0x06, 0x07, 0x80];
    assert!(DroneCanFrame::new(can_id(id), &payload).is_none());
}

// Further cases of the library's own.

#[test]
fn frame_fields_read_from_extended_identifier() {
    // priority 0x1A, middle bits 0xBEEF, message, node 0x55
    let frame = DroneCanFrame::new(CanId::Extended(0x1ABE_EF55), &[0xAA, 0xC3]).unwrap();
    assert_eq!(frame.priority, 0x1A);
    assert!(!frame.service_not_message);
    assert_eq!(frame.source_node_id, 0x55);
    assert_eq!(frame.mtid.get_data_type_id(), 0xBEEF);
    assert_eq!(frame.raw_data, [0xAA, 0xC3, 0, 0, 0, 0, 0, 0]);
    assert!(!frame.is_remote_frame());
}

#[test]
fn service_frame_reports_service_type_id() {
    // middle bits 0x3797: service type 0x37, request, destination 0x17
    let frame = DroneCanFrame::new(CanId::Extended(0x0037_9781), &[0xC5]).unwrap();
    assert!(frame.service_not_message);
    assert_eq!(frame.mtid.get_data_type_id(), 0x37);
    assert_eq!(frame.source_node_id, 1);
}

#[test]
fn anonymous_frame_reports_low_type_bits() {
    let frame = DroneCanFrame::new(CanId::Extended(0x0012_3600), &[0xC0]).unwrap();
    assert_eq!(frame.mtid.get_data_type_id(), 0x2);
}

#[test]
fn anonymous_single_frame_accepted_and_end_frame_refused() {
    assert!(DroneCanFrame::new(CanId::Extended(0x1800_0000), &[0x01, 0xE0]).is_some());
    assert!(DroneCanFrame::new(CanId::Extended(0x1800_0000), &[0x01, 0x60]).is_none());
    assert!(DroneCanFrame::new(CanId::Extended(0x1800_0000), &[0x01, 0x20]).is_none());
    // a service frame from node 0 is not anonymous
    assert!(DroneCanFrame::new(CanId::Extended(0x1800_0080), &[0x01, 0x20]).is_some());
}

#[test]
fn reparsed_frame_keeps_payload() {
    let frame = DroneCanFrame::new(CanId::Extended(0x18FF_0001), &[1, 2, 3, 4, 5, 6, 7, 0x85]).unwrap();
    let again = DroneCanFrame::new(frame.id(), frame.data()).unwrap();
    match (&frame.payload, &again.payload) {
        (PayloadType::StartMessagePayload(a), PayloadType::StartMessagePayload(b)) => {
            assert_eq!(a.crc, b.crc);
            assert_eq!(a.payload, b.payload);
            assert_eq!(a.tailbyte, b.tailbyte);
            assert_eq!(a.payload, [3, 4, 5, 6, 7]);
            assert_eq!(a.crc.as_u16(), 0x0102);
        }
        _ => panic!("Expected StartMessagePayload twice"),
    }
    assert_eq!(again.raw_data, frame.raw_data);
}

#[test]
fn extended_identifier_wider_than_29_bits_is_refused() {
    assert!(DroneCanFrame::new(CanId::Extended(0x2000_0001), &[0xC0]).is_none());
    assert!(DroneCanFrame::new(CanId::Extended(0x1FFF_FFFF), &[0xC0]).is_some());
}

#[test]
fn short_single_frame_payload_excludes_tail_byte() {
    let frame = DroneCanFrame::new(CanId::Extended(0x18FF_0001), &[0x01, 0x02, 0xC5]).unwrap();
    assert_eq!(frame.payload.get_transfert_id(), 5);
    match &frame.payload {
        PayloadType::SingleMessagePayload(p) => {
            assert_eq!(p.payload, vec![0x01, 0x02]);
            assert_eq!(p.tailbyte.value, 0xC5);
            assert_eq!(p.payload_len, 2);
        }
        _ => panic!("Expected SingleMessagePayload"),
    }
}
