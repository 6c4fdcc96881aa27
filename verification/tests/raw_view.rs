//! Tests of the zero-copy raw view: eager validation, lazy element access,
//! the raw visitor, the serialize adapter, and the raw-to-owned projection.

use bson::error::Error;
use bson::raw::{
    decode_document_buffer, parse_element, ElementType, RawBinary, RawBson, RawBsonVisitor,
    RawDocument, RawMapValue, SerializedBinary, SerializedValue,
};
use bson::value::{Binary, Bson, DateTime, Decimal128, Document, Timestamp};

fn doc(entries: Vec<(&str, Bson)>) -> Document {
    Document::from_entries(
        entries.into_iter().map(|(k, v)| (k.to_string(), v)).collect(),
    )
}

/// Assemble an encoded document out of already-encoded elements.
fn buffer(elements: &[&[u8]]) -> Vec<u8> {
    let mut body: Vec<u8> = Vec::new();
    for e in elements {
        body.extend_from_slice(e);
    }
    let total = (4 + body.len() + 1) as u32;
    let mut out = total.to_le_bytes().to_vec();
    out.extend_from_slice(&body);
    out.push(0);
    out
}

#[test]
fn construction_validates_length_and_terminator() {
    // Declared length exceeds the actual size.
    let bad = vec![13, 0, 0, 0, 0x10, b'a', 0, 7, 0, 0, 0, 0];
    assert!(RawDocument::new(&bad).is_err());
    // Final byte is not zero.
    let bad = vec![12, 0, 0, 0, 0x10, b'a', 0, 7, 0, 0, 0, 1];
    assert!(RawDocument::new(&bad).is_err());
    // Too short to be a document at all.
    assert!(RawDocument::new(&[4, 0, 0, 0]).is_err());
    // A minimal, valid, empty document.
    let ok = vec![5, 0, 0, 0, 0];
    let rd = RawDocument::new(&ok).unwrap();
    assert_eq!(rd.to_document().unwrap(), Document::new());
}

#[test]
fn lazy_element_access_materializes_one_element() {
    let buf = buffer(&[
        &[0x10, b'a', 0, 7, 0, 0, 0],
        &[0x02, b's', 0, 3, 0, 0, 0, b'h', b'i', 0],
    ]);
    let rd = RawDocument::new(&buf).unwrap();
    let (name, value, next) = parse_element(rd.data, 4).unwrap();
    assert_eq!(name, "a");
    assert_eq!(value.as_i32(), Some(7));
    assert_eq!(value.element_type(), ElementType::Int32);
    let (name2, value2, _) = parse_element(rd.data, next).unwrap();
    assert_eq!(name2, "s");
    assert_eq!(value2.as_str(), Some("hi"));
}

#[test]
fn conversion_covers_every_scalar_tag() {
    let buf = buffer(&[
        &[0x01, b'f', 0, 0, 0, 0, 0, 0, 0, 0xF0, 0x3F], // 1.0 as bits
        &[0x08, b'b', 0, 1],
        &[0x0A, b'n', 0],
        &[0x09, b'd', 0, 57, 48, 0, 0, 0, 0, 0, 0], // millis 12345
        &[0x11, b't', 0, 2, 0, 0, 0, 9, 0, 0, 0],   // increment 2, time 9
        &[0x12, b'l', 0, 0xFF, 0xFF, 0xFF, 0xFF, 0xFF, 0xFF, 0xFF, 0xFF], // -1
        &[0x14, b'u', 0, 5, 0, 0, 0],
        &[0x15, b'v', 0, 6, 0, 0, 0, 0, 0, 0, 0],
        &[0x05, b'y', 0, 2, 0, 0, 0, 4, 0xAA, 0xBB],
        &[
            0x13, b'c', 0, 0, 1, 2, 3, 4, 5, 6, 7, 8, 9, 10, 11, 12, 13, 14, 15,
        ],
    ]);
    let rd = RawDocument::new(&buf).unwrap();
    let d = rd.to_document().unwrap();
    assert_eq!(d.get("f"), Some(&Bson::Double(1.0f64.to_bits())));
    assert_eq!(d.get("b"), Some(&Bson::Boolean(true)));
    assert_eq!(d.get("n"), Some(&Bson::Null));
    assert_eq!(d.get("d"), Some(&Bson::DateTime(DateTime::from_millis(12345))));
    assert_eq!(
        d.get("t"),
        Some(&Bson::Timestamp(Timestamp { time: 9, increment: 2 }))
    );
    assert_eq!(d.get("l"), Some(&Bson::Int64(-1)));
    assert_eq!(d.get("u"), Some(&Bson::UInt32(5)));
    assert_eq!(d.get("v"), Some(&Bson::UInt64(6)));
    assert_eq!(
        d.get("y"),
        Some(&Bson::Binary(Binary { subtype: 4, bytes: vec![0xAA, 0xBB] }))
    );
    assert_eq!(
        d.get("c"),
        Some(&Bson::Decimal128(Decimal128 {
            bytes: [0, 1, 2, 3, 4, 5, 6, 7, 8, 9, 10, 11, 12, 13, 14, 15]
        }))
    );
}

#[test]
fn nested_documents_and_arrays_recurse() {
    let inner = buffer(&[&[0x08, b'x', 0, 1]]);
    let arr = buffer(&[&[0x10, b'0', 0, 1, 0, 0, 0], &[0x10, b'1', 0, 2, 0, 0, 0]]);
    let mut doc_elem = vec![0x03, b'd', 0];
    doc_elem.extend_from_slice(&inner);
    let mut arr_elem = vec![0x04, b'a', 0];
    arr_elem.extend_from_slice(&arr);
    let buf = buffer(&[&doc_elem, &arr_elem]);
    let rd = RawDocument::new(&buf).unwrap();
    let d = rd.to_document().unwrap();
    assert_eq!(
        d.get("d"),
        Some(&Bson::Document(doc(vec![("x", Bson::Boolean(true))])))
    );
    assert_eq!(
        d.get("a"),
        Some(&Bson::Array(vec![Bson::Int32(1), Bson::Int32(2)]))
    );
}

#[test]
fn conversion_aborts_on_first_fault() {
    // The string element declares more bytes than the buffer holds.
    let buf = buffer(&[&[0x02, b's', 0, 200, 0, 0, 0, b'h', b'i', 0]]);
    let rd = RawDocument::new(&buf).unwrap();
    assert!(rd.to_document().is_err());
    // Invalid UTF-8 in a string payload.
    let buf = buffer(&[&[0x02, b's', 0, 3, 0, 0, 0, 0xFF, 0xFE, 0]]);
    let rd = RawDocument::new(&buf).unwrap();
    assert!(rd.to_document().is_err());
    // An unknown type tag.
    let buf = buffer(&[&[0x7E, b'q', 0, 1]]);
    let rd = RawDocument::new(&buf).unwrap();
    assert!(rd.to_document().is_err());
}

#[test]
fn raw_owned_equivalence_on_a_valid_buffer() {
    let buf = buffer(&[
        &[0x10, b'a', 0, 7, 0, 0, 0],
        &[0x02, b's', 0, 3, 0, 0, 0, b'h', b'i', 0],
    ]);
    let rd = RawDocument::new(&buf).unwrap();
    let converted = rd.to_document().unwrap();
    let through_bridge = decode_document_buffer(&buf).unwrap();
    assert_eq!(converted, through_bridge);
    assert_eq!(
        converted,
        doc(vec![("a", Bson::Int32(7)), ("s", Bson::String("hi".to_string()))])
    );
}

#[test]
fn raw_accessors_are_variant_exact() {
    let rb = RawBson::Int32(3);
    assert_eq!(rb.as_i32(), Some(3));
    assert_eq!(rb.as_i64(), None);
    assert_eq!(rb.as_str(), None);
    let rb = RawBson::String("x");
    assert_eq!(rb.as_str(), Some("x"));
    assert!(rb.as_null().is_none());
    assert_eq!(RawBson::Null.as_null(), Some(()));
    let ts = Timestamp { time: 1, increment: 2 };
    assert_eq!(RawBson::Timestamp(ts).as_timestamp(), Some(ts));
    let dt = DateTime::from_millis(5);
    assert_eq!(RawBson::DateTime(dt).as_datetime(), Some(dt));
    assert_eq!(RawBson::Double(9).as_f64_bits(), Some(9));
    let bin = RawBinary { subtype: 4, bytes: &[1, 2] };
    assert_eq!(RawBson::Binary(bin).as_binary(), Some(bin));
    assert_eq!(RawBson::Boolean(true).as_bool(), Some(true));
}

#[test]
fn raw_visitor_markers() {
    let bytes: Vec<u8> = (0..16).collect();
    match RawBsonVisitor.visit_map("$numberDecimalBytes", RawMapValue::Bytes(&bytes)) {
        Ok(RawBson::Decimal128(d)) => assert_eq!(d.bytes.to_vec(), bytes),
        other => panic!("expected a decimal, got {:?}", other),
    }
    assert!(matches!(
        RawBsonVisitor.visit_map("$numberDecimalBytes", RawMapValue::Bytes(&[1, 2])),
        Err(Error::InvalidLength { .. })
    ));
    match RawBsonVisitor.visit_map(
        "$binary",
        RawMapValue::BinaryBody { bytes: &[9, 9], subtype: 6 },
    ) {
        Ok(RawBson::Binary(b)) => {
            assert_eq!(b.subtype, 6);
            assert_eq!(b.bytes, &[9, 9]);
        }
        other => panic!("expected a binary, got {:?}", other),
    }
    match RawBsonVisitor.visit_map("$date", RawMapValue::Int64(77)) {
        Ok(RawBson::DateTime(dt)) => assert_eq!(dt.timestamp_millis(), 77),
        other => panic!("expected a datetime, got {:?}", other),
    }
    match RawBsonVisitor.visit_map("$timestamp", RawMapValue::TimestampBody(3, 4)) {
        Ok(RawBson::Timestamp(ts)) => {
            assert_eq!((ts.time, ts.increment), (3, 4));
        }
        other => panic!("expected a timestamp, got {:?}", other),
    }
    let empty = vec![5u8, 0, 0, 0, 0];
    match RawBsonVisitor.visit_map("$__private__raw_document", RawMapValue::Bytes(&empty)) {
        Ok(RawBson::Document(rd)) => assert_eq!(rd.data, &empty[..]),
        other => panic!("expected a document, got {:?}", other),
    }
    match RawBsonVisitor.visit_map("$__private__raw_array", RawMapValue::Bytes(&empty)) {
        Ok(RawBson::Array(ra)) => assert_eq!(ra.doc.data, &empty[..]),
        other => panic!("expected an array, got {:?}", other),
    }
    // Raw decoding never falls back to an ordinary map.
    match RawBsonVisitor.visit_map("anything", RawMapValue::Int64(1)) {
        Err(Error::Custom { message }) => assert!(message.contains("anything")),
        other => panic!("expected a custom error, got {:?}", other),
    }
}

#[test]
fn raw_visitor_integer_promotion() {
    assert_eq!(RawBsonVisitor.visit_u8(9), RawBson::UInt64(9));
    assert_eq!(RawBsonVisitor.visit_u16(9), RawBson::UInt64(9));
    assert_eq!(RawBsonVisitor.visit_u32(9), RawBson::UInt64(9));
    assert_eq!(RawBsonVisitor.visit_u64(9), RawBson::UInt64(9));
    assert_eq!(RawBsonVisitor.visit_i8(-9), RawBson::Int32(-9));
    assert_eq!(RawBsonVisitor.visit_i16(-9), RawBson::Int32(-9));
    assert_eq!(RawBsonVisitor.visit_i32(-9), RawBson::Int32(-9));
    assert_eq!(RawBsonVisitor.visit_i64(-9), RawBson::Int64(-9));
    assert_eq!(RawBsonVisitor.visit_bool(true), RawBson::Boolean(true));
    assert_eq!(RawBsonVisitor.visit_unit(), RawBson::Null);
    assert_eq!(RawBsonVisitor.visit_none(), RawBson::Null);
    assert_eq!(RawBsonVisitor.visit_borrowed_str("s"), RawBson::String("s"));
    assert_eq!(
        RawBsonVisitor.visit_borrowed_bytes(&[1]),
        RawBson::Binary(RawBinary { subtype: 0, bytes: &[1] })
    );
}

#[test]
fn raw_binary_serialize_adapter() {
    let generic = RawBinary { subtype: 0, bytes: &[1, 2, 3] };
    assert!(matches!(
        generic.serialize(true),
        SerializedBinary::Bytes(b) if b == &[1, 2, 3]
    ));
    let uuid = RawBinary { subtype: 4, bytes: &[1, 2, 3] };
    match uuid.serialize(true) {
        SerializedBinary::ExtendedBody { base64, subtype } => {
            assert_eq!(base64, "AQID");
            assert_eq!(subtype, "04");
        }
        _ => panic!("expected the textual structured body"),
    }
    match uuid.serialize(false) {
        SerializedBinary::RawBody { bytes, subtype } => {
            assert_eq!(bytes, &[1, 2, 3]);
            assert_eq!(subtype, 4);
        }
        _ => panic!("expected the binary structured body"),
    }
}

#[test]
fn raw_bson_serialize_adapter() {
    assert!(matches!(
        RawBson::Int32(1).serialize(true),
        SerializedValue::I32(1)
    ));
    assert!(matches!(
        RawBson::String("x").serialize(true),
        SerializedValue::Str("x")
    ));
    assert!(matches!(RawBson::Null.serialize(true), SerializedValue::Unit));
    let dt = DateTime::from_millis(3);
    assert!(matches!(
        RawBson::DateTime(dt).serialize(true),
        SerializedValue::DateTime(3)
    ));
    match RawBson::Binary(RawBinary { subtype: 7, bytes: &[5] }).serialize(false) {
        SerializedValue::Binary(SerializedBinary::RawBody { bytes, subtype }) => {
            assert_eq!((bytes, subtype), (&[5u8][..], 7));
        }
        _ => panic!("expected a binary body"),
    }
}

#[test]
fn raw_binary_deserialize_requires_binary() {
    let bin = RawBinary { subtype: 1, bytes: &[2] };
    assert_eq!(RawBinary::deserialize(RawBson::Binary(bin)).unwrap(), bin);
    assert!(RawBinary::deserialize(RawBson::Int32(1)).is_err());
}

#[test]
fn try_from_raw_projects_scalars() {
    assert_eq!(Bson::try_from_raw(RawBson::Int32(5)).unwrap(), Bson::Int32(5));
    assert_eq!(
        Bson::try_from_raw(RawBson::String("abc")).unwrap(),
        Bson::String("abc".to_string())
    );
    assert_eq!(
        Bson::try_from_raw(RawBson::Binary(RawBinary { subtype: 2, bytes: &[1] })).unwrap(),
        Bson::Binary(Binary { subtype: 2, bytes: vec![1] })
    );
    assert_eq!(Bson::try_from_raw(RawBson::UInt32(8)).unwrap(), Bson::UInt32(8));
}

#[test]
fn buffer_decode_fails_on_malformed_buffers() {
    assert!(decode_document_buffer(&[9, 0, 0, 0, 0]).is_err());
    assert!(decode_document_buffer(&[]).is_err());
}
