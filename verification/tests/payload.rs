use dronecan::payload::{
    EndMessagePayload, MiddleMessagePayload, PayloadType, SingleMessagePayload, StartMessagePayload,
};

const MIDDLE_MESSAGE_FRAME: [u8; 8] = [0x44, 0x44, 0x44, 0x44, 0x44, 0x44, 0x44, 0b00100000];
const START_MESSAGE_FRAME: [u8; 8] = [0x44, 0x44, 0x44, 0x44, 0x44, 0x44, 0x44, 0b10100000];
const END_MESSAGE_FRAME: [u8; 8] = [0x44, 0x44, 0x44, 0x44, 0x44, 0x44, 0x44, 0b01100000];
const SINGLE_MESSAGE_FRAME: [u8; 8] = [0x44, 0x44, 0x44, 0x44, 0x44, 0x44, 0x44, 0b11100000];

const END_MESSAGE_FRAME_4: [u8; 8] = [0x44, 0x44, 0x44, 0b01100000, 0x00, 0x00, 0x00, 0x00];
const SINGLE_MESSAGE_FRAME_6: [u8; 8] = [0x44, 0x44, 0x44, 0x44, 0x44, 0b11100000, 0x00, 0x00];

#[test]
fn check_message_type_assignation() {
    let type_message =
        PayloadType::get_payload_type(MIDDLE_MESSAGE_FRAME, MIDDLE_MESSAGE_FRAME.len());
    assert!(matches!(type_message, Some(PayloadType::MiddleMessagePayload(_))));

    let type_message =
        PayloadType::get_payload_type(START_MESSAGE_FRAME, START_MESSAGE_FRAME.len());
    assert!(matches!(type_message, Some(PayloadType::StartMessagePayload(_))));

    let type_message = PayloadType::get_payload_type(END_MESSAGE_FRAME, END_MESSAGE_FRAME.len());

    assert!(matches!(type_message, Some(PayloadType::EndMessagePayload(_))));

    let type_message =
        PayloadType::get_payload_type(SINGLE_MESSAGE_FRAME, SINGLE_MESSAGE_FRAME.len());

    assert!(matches!(type_message, Some(PayloadType::SingleMessagePayload(_))));

    let type_message = PayloadType::get_payload_type(END_MESSAGE_FRAME_4, 4);

    assert!(matches!(type_message, Some(PayloadType::EndMessagePayload(_))));

    let type_message = PayloadType::get_payload_type(SINGLE_MESSAGE_FRAME_6, 6);

    assert!(matches!(type_message, Some(PayloadType::SingleMessagePayload(_))));
}

// Further cases of the library's own.

#[test]
fn data_length_outside_one_to_eight_is_refused() {
    assert!(PayloadType::get_payload_type(SINGLE_MESSAGE_FRAME, 0).is_none());
    assert!(PayloadType::get_payload_type(SINGLE_MESSAGE_FRAME, 9).is_none());
    assert!(PayloadType::get_payload_type(SINGLE_MESSAGE_FRAME, 1).is_some());
}

#[test]
fn start_payload_splits_bytes() {
    let p = StartMessagePayload::new(0x0102_0304_0506_07A5).unwrap();
    assert_eq!(p.crc.crc_1, 0x01);
    assert_eq!(p.crc.crc_2, 0x02);
    assert_eq!(p.payload, [0x03, 0x04, 0x05, 0x06, 0x07]);
    assert_eq!(p.tailbyte.value, 0xA5);
    let m = MiddleMessagePayload::new(0x1112_1314_1516_1722).unwrap();
    assert_eq!(m.crc.as_u16(), 0x1112);
    assert_eq!(m.payload, [0x13, 0x14, 0x15, 0x16, 0x17]);
    assert_eq!(m.tailbyte.value, 0x22);
}

#[test]
fn short_payload_reads_payload_then_tail_byte() {
    let e = EndMessagePayload::new(0x0102_0360_0000_0000, 3).unwrap();
    assert_eq!(e.payload, vec![0x01, 0x02, 0x03]);
    assert_eq!(e.tailbyte.value, 0x60);
    assert_eq!(e.payload_len, 3);
    let s = SingleMessagePayload::new(0x0102_0304_0506_07E8, 7).unwrap();
    assert_eq!(s.payload, vec![1, 2, 3, 4, 5, 6, 7]);
    assert_eq!(s.tailbyte.value, 0xE8);
    assert_eq!(s.payload_len, 7);
    // past eight bytes the last byte repeats; the stored length wraps at 256
    let long = SingleMessagePayload::new(0x0102_0304_0506_0709, 300).unwrap();
    assert_eq!(long.payload.len(), 300);
    assert_eq!(long.payload[9], 0x09);
    assert_eq!(long.tailbyte.value, 0x09);
    assert_eq!(long.payload_len, 44);
}

#[test]
fn payload_flags_and_tail_fields() {
    let single = PayloadType::get_payload_type([1, 2, 3, 4, 5, 6, 7, 0xE9], 8).unwrap();
    assert!(single.start_of_transfer());
    assert!(single.end_of_transfer());
    assert!(single.toggle());
    assert_eq!(single.get_transfert_id(), 9);

    let middle = PayloadType::get_payload_type([1, 2, 3, 4, 5, 6, 7, 0x03], 8).unwrap();
    assert!(!middle.start_of_transfer());
    assert!(!middle.end_of_transfer());
    assert!(!middle.toggle());
    assert_eq!(middle.get_transfert_id(), 3);

    // in a short single or end frame the last byte is the tail byte and the
    // bytes before it are the payload
    let short = PayloadType::get_payload_type([0x01, 0xE0, 0, 0, 0, 0, 0, 0], 2).unwrap();
    assert!(short.toggle());
    match short {
        PayloadType::SingleMessagePayload(p) => {
            assert_eq!(p.payload, vec![0x01]);
            assert_eq!(p.tailbyte.value, 0xE0);
            assert_eq!(p.payload_len, 1);
        }
        _ => panic!("Expected SingleMessagePayload"),
    }
    let two = PayloadType::get_payload_type([0x01, 0xC5, 0, 0, 0, 0, 0, 0], 2).unwrap();
    assert_eq!(two.get_transfert_id(), 5);
    match PayloadType::get_payload_type(END_MESSAGE_FRAME_4, 4).unwrap() {
        PayloadType::EndMessagePayload(p) => {
            assert_eq!(p.payload, vec![0x44, 0x44, 0x44]);
            assert_eq!(p.tailbyte.value, 0b01100000);
            assert_eq!(p.payload_len, 3);
        }
        _ => panic!("Expected EndMessagePayload"),
    }
}
