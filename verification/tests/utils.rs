use dronecan::utils::CrcData;

#[test]
fn crc_matches_reference_check_value() {
    let payload = b"123456789";
    assert_eq!(CrcData::from_payload(payload).as_u16(), 0x29B1);
}

#[test]
fn crc_with_data_type_signature() {
    let data_type_signature: u64 = 0x0000_0000_0000_03F3;
    let mut buf = [0u8; 8 + 3];
    buf[..8].copy_from_slice(&data_type_signature.to_le_bytes());
    buf[8..].copy_from_slice(&[0x01, 0x02, 0x03]);
    let _value = CrcData::from_payload(&buf).as_u16();
}

// Further cases of the library's own.

#[test]
fn crc_bytes_split_high_first() {
    let c = CrcData::from_payload(b"123456789");
    assert_eq!(c.crc_1, 0x29);
    assert_eq!(c.crc_2, 0xB1);
    assert_eq!(CrcData::from_payload(b"").as_u16(), 0xFFFF);
}

#[test]
fn crc_split_and_join_roundtrip() {
    let c = CrcData::from_u16(0xBEEF);
    assert_eq!(c, CrcData { crc_1: 0xBE, crc_2: 0xEF });
    assert_eq!(c.as_u16(), 0xBEEF);
    assert_eq!(CrcData { crc_1: 0x12, crc_2: 0x34 }.as_u16(), 0x1234);
}

#[test]
fn crc_of_data_followed_by_its_crc_is_zero() {
    let data = [0x01u8, 0x02, 0x03, 0xFE];
    let c = CrcData::from_payload(&data);
    let mut with_crc = data.to_vec();
    with_crc.push(c.crc_1);
    with_crc.push(c.crc_2);
    assert_eq!(CrcData::from_payload(&with_crc).as_u16(), 0);
    assert_eq!(CrcData::from_payload(b"123456789\x29\xB1").as_u16(), 0);
}
