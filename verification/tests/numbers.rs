//! Tests of decimal-string parsing and printing, hexadecimal subtype
//! digits, and object-identifier parsing.

use bson::de::{Deserializer, Offer};
use bson::error::Error;
use bson::extjson::parse_hex_byte;
use bson::extjson::i64_to_dec_string;
use bson::numeric::{parse_i32_str, parse_i64_str, parse_u32_str, parse_u64_str};
use bson::value::{Binary, Bson, ObjectId};

#[test]
fn decimal_parsing_matches_str_parse() {
    assert_eq!(parse_i64_str("42"), Some(42));
    assert_eq!(parse_i64_str("-42"), Some(-42));
    assert_eq!(parse_i64_str("+42"), Some(42));
    assert_eq!(parse_i64_str("007"), Some(7));
    assert_eq!(parse_i64_str("9223372036854775807"), Some(i64::MAX));
    assert_eq!(parse_i64_str("-9223372036854775808"), Some(i64::MIN));
    assert_eq!(parse_i64_str("9223372036854775808"), None);
    assert_eq!(parse_i64_str(""), None);
    assert_eq!(parse_i64_str("-"), None);
    assert_eq!(parse_i64_str("1.5"), None);
    assert_eq!(parse_i64_str(" 1"), None);

    assert_eq!(parse_i32_str("2147483647"), Some(i32::MAX));
    assert_eq!(parse_i32_str("-2147483648"), Some(i32::MIN));
    assert_eq!(parse_i32_str("2147483648"), None);

    assert_eq!(parse_u32_str("4294967295"), Some(u32::MAX));
    assert_eq!(parse_u32_str("4294967296"), None);
    assert_eq!(parse_u32_str("-1"), None);
    assert_eq!(parse_u64_str("18446744073709551615"), Some(u64::MAX));
    assert_eq!(parse_u64_str("18446744073709551616"), None);
}

#[test]
fn decimal_printing_round_trips() {
    assert_eq!(i64_to_dec_string(0), "0");
    assert_eq!(i64_to_dec_string(42), "42");
    assert_eq!(i64_to_dec_string(-42), "-42");
    assert_eq!(i64_to_dec_string(i64::MIN), "-9223372036854775808");
    assert_eq!(i64_to_dec_string(i64::MAX), "9223372036854775807");
    assert_eq!(parse_i64_str(&i64_to_dec_string(-123456789)), Some(-123456789));
}

#[test]
fn hex_subtype_digits() {
    assert_eq!(parse_hex_byte("00"), Some(0));
    assert_eq!(parse_hex_byte("ff"), Some(255));
    assert_eq!(parse_hex_byte("FF"), Some(255));
    assert_eq!(parse_hex_byte("a4"), Some(0xA4));
    assert_eq!(parse_hex_byte("g1"), None);
    assert_eq!(parse_hex_byte("1"), None);
    assert_eq!(parse_hex_byte("123"), None);
}

#[test]
fn object_id_parses_24_hex_characters() {
    let oid = ObjectId::parse_str("0123456789abcdef01234567").unwrap();
    assert_eq!(
        oid.bytes,
        [0x01, 0x23, 0x45, 0x67, 0x89, 0xAB, 0xCD, 0xEF, 0x01, 0x23, 0x45, 0x67]
    );
    assert!(ObjectId::parse_str("0123").is_err());
    assert!(ObjectId::parse_str("zz23456789abcdef01234567").is_err());
}

#[test]
fn object_id_extraction_from_string_bytes_and_map() {
    let de = Deserializer::new(Bson::String("0123456789abcdef01234567".to_string()));
    let oid = ObjectId::deserialize(de).unwrap();
    assert_eq!(oid.bytes[0], 0x01);

    let de = Deserializer::new(Bson::Binary(Binary { subtype: 0, bytes: vec![9; 12] }));
    assert_eq!(ObjectId::deserialize(de).unwrap(), ObjectId::from_bytes([9; 12]));

    let de = Deserializer::new(Bson::Binary(Binary { subtype: 0, bytes: vec![9; 11] }));
    assert!(matches!(
        ObjectId::deserialize(de),
        Err(Error::InvalidLength { expected: 12, found: 11 })
    ));

    let de = Deserializer::new(Bson::Document(bson::value::Document::new()));
    match ObjectId::deserialize(de) {
        Err(Error::Custom { message }) => {
            assert!(message.contains("extended-JSON formatted ObjectId"))
        }
        other => panic!("expected a custom error, got {:?}", other),
    }

    let de = Deserializer::new(Bson::Int32(1));
    assert!(matches!(
        ObjectId::deserialize(de),
        Err(Error::InvalidType { .. })
    ));
}

#[test]
fn end_of_stream_when_no_value_is_stored() {
    let de = Deserializer { value: None, options: Default::default() };
    match de.deserialize_any() {
        Err(Error::EndOfStream) => {}
        other => panic!("expected end of stream, got {:?}", other),
    }
    let de = Deserializer { value: None, options: Default::default() };
    assert!(matches!(de.deserialize_bytes(), Err(Error::EndOfStream)));
    let de = Deserializer { value: None, options: Default::default() };
    assert!(matches!(de.deserialize_option(), Err(Error::EndOfStream)));
    let de = Deserializer { value: None, options: Default::default() };
    assert!(matches!(de.deserialize_enum(), Err(Error::EndOfStream)));
}

#[test]
fn generic_binary_offers_plain_bytes() {
    let de = Deserializer::new(Bson::Binary(Binary { subtype: 0, bytes: vec![1, 2] }));
    match de.deserialize_any().unwrap() {
        Offer::Bytes(b) => assert_eq!(b, vec![1, 2]),
        _ => panic!("expected a bytes offer"),
    }
}

#[test]
fn error_messages_render() {
    let e = Error::Custom { message: "boom".to_string() };
    assert_eq!(e.message(), "boom");
    let e = Error::InvalidType {
        expected: "a string".to_string(),
        found: "int32".to_string(),
    };
    assert!(e.message().contains("a string"));
    assert!(e.message().contains("int32"));
}

#[test]
fn decimal_printing_matches_std_rendering() {
    for n in [0i64, 1, -1, 9, 10, -10, 12345, -98765, i64::MAX, i64::MIN] {
        assert_eq!(i64_to_dec_string(n), n.to_string());
    }
}
