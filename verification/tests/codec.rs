use europay::errors::PayError;
use europay::messaging::{
    Iso8583Message, MTI_AUTH_REQUEST, MTI_AUTH_RESPONSE, MTI_FINANCIAL_REQUEST,
    MTI_FINANCIAL_RESPONSE,
};

#[test]
fn wire_round_trip_reproduces_fields() {
    let mut msg = Iso8583Message::new(MTI_AUTH_REQUEST.to_string());
    msg.set_field(2, "4111".to_string());
    msg.set_field(7, "100.00".to_string());
    let encoded = msg.serialize();
    let decoded = Iso8583Message::deserialize(&encoded).expect("round trip should decode");
    assert_eq!(decoded.mti, "0100");
    assert_eq!(decoded.get_field(2), Some(&"4111".to_string()));
    assert_eq!(decoded.get_field(7), Some(&"100.00".to_string()));
    assert_eq!(decoded.get_field(3), None);
    assert_eq!(decoded.bitmap, msg.bitmap);
}

#[test]
fn truncated_buffer_is_rejected() {
    let mut msg = Iso8583Message::new(MTI_AUTH_REQUEST.to_string());
    msg.set_field(2, "4111".to_string());
    let mut encoded = msg.serialize();
    encoded.truncate(10);
    assert_eq!(
        Iso8583Message::deserialize(&encoded),
        Err(PayError::TruncatedMessage)
    );
}

#[test]
fn field_length_past_end_is_rejected() {
    // Valid header, then a field claiming five bytes with only two present.
    let mut data = b"0100".to_vec();
    data.extend_from_slice(&[0u8; 8]);
    data.extend_from_slice(&[2, 0, 5, b'a', b'b']);
    assert_eq!(
        Iso8583Message::deserialize(&data),
        Err(PayError::InvalidFieldLength)
    );
}

#[test]
fn non_utf8_payload_is_rejected() {
    let mut data = b"0200".to_vec();
    data.extend_from_slice(&[0u8; 8]);
    data.extend_from_slice(&[2, 0, 1, 0xFF]);
    assert_eq!(
        Iso8583Message::deserialize(&data),
        Err(PayError::InvalidEncoding)
    );
}

#[test]
fn non_utf8_type_indicator_is_rejected() {
    let mut data = vec![0xFF, 0xFF, 0xFF, 0xFF];
    data.extend_from_slice(&[0u8; 8]);
    assert_eq!(
        Iso8583Message::deserialize(&data),
        Err(PayError::InvalidEncoding)
    );
}

#[test]
fn short_trailing_junk_is_ignored() {
    let mut msg = Iso8583Message::new(MTI_FINANCIAL_REQUEST.to_string());
    msg.set_field(11, "000001".to_string());
    let mut encoded = msg.serialize();
    encoded.extend_from_slice(&[1, 0]);
    let decoded = Iso8583Message::deserialize(&encoded).unwrap();
    assert_eq!(decoded.get_field(11), Some(&"000001".to_string()));
}

#[test]
fn set_field_overwrites_in_place() {
    let mut msg = Iso8583Message::new(MTI_AUTH_RESPONSE.to_string());
    msg.set_field(2, "first".to_string());
    msg.set_field(4, "other".to_string());
    msg.set_field(2, "second".to_string());
    assert_eq!(msg.get_field(2), Some(&"second".to_string()));
    assert_eq!(msg.fields.len(), 2);
    // Order of first insertion is kept.
    assert_eq!(msg.fields[0].num, 2);
    assert_eq!(msg.fields[1].num, 4);
}

#[test]
fn set_field_marks_bitmap_bits() {
    let mut msg = Iso8583Message::new(MTI_FINANCIAL_RESPONSE.to_string());
    msg.set_field(2, "a".to_string());
    assert_eq!(msg.bitmap[0], 0x40);
    msg.set_field(7, "b".to_string());
    assert_eq!(msg.bitmap[0], 0x42);
    msg.set_field(64, "c".to_string());
    assert_eq!(msg.bitmap[7], 0x01);
    // Numbers past 64 have no bit in the primary bitmap.
    msg.set_field(65, "d".to_string());
    assert_eq!(msg.bitmap, vec![0x42, 0, 0, 0, 0, 0, 0, 1]);
    assert_eq!(msg.get_field(65), Some(&"d".to_string()));
}

#[test]
fn empty_message_round_trips() {
    let msg = Iso8583Message::new(MTI_AUTH_REQUEST.to_string());
    let encoded = msg.serialize();
    assert_eq!(encoded.len(), 12);
    let decoded = Iso8583Message::deserialize(&encoded).unwrap();
    assert_eq!(decoded.mti, "0100");
    assert!(decoded.fields.is_empty());
}

#[test]
fn serialize_layout_is_exact() {
    let mut msg = Iso8583Message::new(MTI_AUTH_REQUEST.to_string());
    msg.set_field(2, "41".to_string());
    let encoded = msg.serialize();
    let mut expected = b"0100".to_vec();
    expected.extend_from_slice(&[0x40, 0, 0, 0, 0, 0, 0, 0]);
    expected.extend_from_slice(&[2, 0, 2, b'4', b'1']);
    assert_eq!(encoded, expected);
}
