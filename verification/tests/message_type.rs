use dronecan::message_type::{
    AnoMessageTypeId, MessageIdMiddleBytes, MessageTypeId, ServiceTypeId,
};

#[test]
fn data_type_id_of_each_kind() {
    assert_eq!(MessageIdMiddleBytes::MessageTypeId(MessageTypeId::new(0x1234)).get_data_type_id(), 0x1234);
    assert_eq!(MessageIdMiddleBytes::AnoMessageTypeId(AnoMessageTypeId::new(0xFFFE)).get_data_type_id(), 2);
    assert_eq!(MessageIdMiddleBytes::ServiceTypeId(ServiceTypeId::new(0xAB85)).get_data_type_id(), 0xAB);
}

#[test]
fn middle_bits_split_into_fields() {
    assert_eq!(AnoMessageTypeId::new(0xFFFE), AnoMessageTypeId::new(0xFFFE));
    assert_ne!(AnoMessageTypeId::new(0x0004), AnoMessageTypeId::new(0x0005));
    assert_ne!(ServiceTypeId::new(0x0080), ServiceTypeId::new(0x0000));
    assert_ne!(ServiceTypeId::new(0x0001), ServiceTypeId::new(0x0000));
}
