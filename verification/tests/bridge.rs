//! Tests of the owned-tree bridge: generic dispatch, markers, enums,
//! options, and the cursor discipline.

use bson::de::{
    convert_unsigned_to_signed, Deserializer, DeserializerOptions, MapDeserializer, NewtypeAccess,
    Offer, OptionalAccess,
};
use bson::error::Error;
use bson::value::{
    Binary, Bson, DateTime, Decimal128, Document, Timestamp, BINARY_SUBTYPE_UUID,
    DOUBLE_BITS_INFINITY, DOUBLE_BITS_NAN, DOUBLE_BITS_NEG_INFINITY,
};
use bson::visitor::BsonVisitor;

fn doc(entries: Vec<(&str, Bson)>) -> Document {
    Document::from_entries(
        entries.into_iter().map(|(k, v)| (k.to_string(), v)).collect(),
    )
}

fn decode(v: Bson) -> Result<Bson, Error> {
    Bson::deserialize(Deserializer::new(v))
}

#[test]
fn scalars_decode_to_themselves() {
    assert_eq!(decode(Bson::Int32(-7)).unwrap(), Bson::Int32(-7));
    assert_eq!(decode(Bson::Int64(1 << 40)).unwrap(), Bson::Int64(1 << 40));
    assert_eq!(decode(Bson::Boolean(true)).unwrap(), Bson::Boolean(true));
    assert_eq!(decode(Bson::Null).unwrap(), Bson::Null);
    assert_eq!(
        decode(Bson::String("hi".to_string())).unwrap(),
        Bson::String("hi".to_string())
    );
    assert_eq!(decode(Bson::Double(123)).unwrap(), Bson::Double(123));
    assert_eq!(decode(Bson::UInt64(9)).unwrap(), Bson::UInt64(9));
}

#[test]
fn unsigned_32_promotes_to_64() {
    // The value-model visitor promotes every unsigned width to UInt64.
    assert_eq!(decode(Bson::UInt32(5)).unwrap(), Bson::UInt64(5));
}

#[test]
fn integer_promotion_of_every_width() {
    assert_eq!(BsonVisitor.visit_u8(200), Bson::UInt64(200));
    assert_eq!(BsonVisitor.visit_u16(60000), Bson::UInt64(60000));
    assert_eq!(BsonVisitor.visit_u32(4000000000), Bson::UInt64(4000000000));
    assert_eq!(
        BsonVisitor.visit_u64(18446744073709551615),
        Bson::UInt64(18446744073709551615)
    );
    assert_eq!(BsonVisitor.visit_i8(-3), Bson::Int32(-3));
    assert_eq!(BsonVisitor.visit_i16(-300), Bson::Int32(-300));
    assert_eq!(BsonVisitor.visit_i32(70000), Bson::Int32(70000));
    assert_eq!(BsonVisitor.visit_i64(-5000000000), Bson::Int64(-5000000000));
    assert_eq!(convert_unsigned_to_signed(17), Bson::UInt64(17));
}

#[test]
fn arrays_and_documents_decode_elementwise() {
    let v = Bson::Array(vec![Bson::Int32(1), Bson::String("x".to_string())]);
    assert_eq!(
        decode(v).unwrap(),
        Bson::Array(vec![Bson::Int32(1), Bson::String("x".to_string())])
    );
    let d = Bson::Document(doc(vec![("a", Bson::Int32(1)), ("b", Bson::Null)]));
    assert_eq!(
        decode(d).unwrap(),
        Bson::Document(doc(vec![("a", Bson::Int32(1)), ("b", Bson::Null)]))
    );
}

#[test]
fn marker_precedence_first_key_wins() {
    let d = doc(vec![
        ("$numberLong", Bson::String("42".to_string())),
        ("anything", Bson::Boolean(true)),
    ]);
    assert_eq!(decode(Bson::Document(d)).unwrap(), Bson::Int64(42));
}

#[test]
fn marker_only_checked_on_first_key() {
    // A marker key in any later position is an ordinary entry.
    let d = doc(vec![
        ("plain", Bson::Int32(1)),
        ("$numberLong", Bson::String("42".to_string())),
    ]);
    let expected = doc(vec![
        ("plain", Bson::Int32(1)),
        ("$numberLong", Bson::String("42".to_string())),
    ]);
    assert_eq!(decode(Bson::Document(d)).unwrap(), Bson::Document(expected));
}

#[test]
fn number_markers_parse_decimal_strings() {
    let d = doc(vec![("$numberInt", Bson::String("-12".to_string()))]);
    assert_eq!(decode(Bson::Document(d)).unwrap(), Bson::Int32(-12));
    let d = doc(vec![("$numberUInt32", Bson::String("7".to_string()))]);
    assert_eq!(decode(Bson::Document(d)).unwrap(), Bson::UInt32(7));
    let d = doc(vec![(
        "$numberUInt64",
        Bson::String("18446744073709551615".to_string()),
    )]);
    assert_eq!(
        decode(Bson::Document(d)).unwrap(),
        Bson::UInt64(18446744073709551615)
    );
}

#[test]
fn number_marker_rejects_malformed_strings() {
    let d = doc(vec![("$numberInt", Bson::String("12abc".to_string()))]);
    match decode(Bson::Document(d)) {
        Err(Error::InvalidValue { found, .. }) => assert_eq!(found, "12abc"),
        other => panic!("expected an invalid-value error, got {:?}", other),
    }
}

#[test]
fn number_double_specials() {
    let d = doc(vec![("$numberDouble", Bson::String("Infinity".to_string()))]);
    assert_eq!(
        decode(Bson::Document(d)).unwrap(),
        Bson::Double(DOUBLE_BITS_INFINITY)
    );
    let d = doc(vec![(
        "$numberDouble",
        Bson::String("-Infinity".to_string()),
    )]);
    assert_eq!(
        decode(Bson::Document(d)).unwrap(),
        Bson::Double(DOUBLE_BITS_NEG_INFINITY)
    );
    let d = doc(vec![("$numberDouble", Bson::String("NaN".to_string()))]);
    assert_eq!(
        decode(Bson::Document(d)).unwrap(),
        Bson::Double(DOUBLE_BITS_NAN)
    );
    assert_eq!(f64::from_bits(DOUBLE_BITS_INFINITY), f64::INFINITY);
    assert_eq!(f64::from_bits(DOUBLE_BITS_NEG_INFINITY), f64::NEG_INFINITY);
    assert!(f64::from_bits(DOUBLE_BITS_NAN).is_nan());
}

#[test]
fn number_double_plain_string_reads_as_int64() {
    // The intentional asymmetry: "3" becomes Int64(3), not Double(3.0).
    let d = doc(vec![("$numberDouble", Bson::String("3".to_string()))]);
    assert_eq!(decode(Bson::Document(d)).unwrap(), Bson::Int64(3));
}

#[test]
fn number_decimal_is_always_rejected() {
    let d = doc(vec![("$numberDecimal", Bson::String("1.5".to_string()))]);
    match decode(Bson::Document(d)) {
        Err(Error::Custom { message }) => {
            assert!(message.contains("not currently supported"))
        }
        other => panic!("expected a custom error, got {:?}", other),
    }
}

#[test]
fn decimal_bytes_marker_needs_sixteen_bytes() {
    let d = doc(vec![(
        "$numberDecimalBytes",
        Bson::Binary(Binary { subtype: 0, bytes: vec![1, 2, 3] }),
    )]);
    match decode(Bson::Document(d)) {
        Err(Error::InvalidLength { expected, found }) => {
            assert_eq!((expected, found), (16, 3));
        }
        other => panic!("expected an invalid-length error, got {:?}", other),
    }
    let bytes: Vec<u8> = (0..16).collect();
    let d = doc(vec![(
        "$numberDecimalBytes",
        Bson::Binary(Binary { subtype: 0, bytes: bytes.clone() }),
    )]);
    let mut arr = [0u8; 16];
    arr.copy_from_slice(&bytes);
    assert_eq!(
        decode(Bson::Document(d)).unwrap(),
        Bson::Decimal128(Decimal128 { bytes: arr })
    );
}

#[test]
fn extended_round_trip_of_fallback_scalars() {
    // Each binary-only scalar survives the trip through its canonical
    // one-key extended-JSON document.
    let bin = Bson::Binary(Binary { subtype: 4, bytes: vec![1, 2, 3, 4] });
    let ext = bin.into_extended_document();
    assert_eq!(
        decode(Bson::Document(ext)).unwrap(),
        Bson::Binary(Binary { subtype: 4, bytes: vec![1, 2, 3, 4] })
    );

    let dt = Bson::DateTime(DateTime::from_millis(-12345));
    let ext = dt.into_extended_document();
    assert_eq!(
        decode(Bson::Document(ext)).unwrap(),
        Bson::DateTime(DateTime::from_millis(-12345))
    );

    let ts = Bson::Timestamp(Timestamp { time: 9, increment: 2 });
    let ext = ts.into_extended_document();
    assert_eq!(
        decode(Bson::Document(ext)).unwrap(),
        Bson::Timestamp(Timestamp { time: 9, increment: 2 })
    );

    let dec = Bson::Decimal128(Decimal128 { bytes: [7; 16] });
    let ext = dec.into_extended_document();
    assert_eq!(
        decode(Bson::Document(ext)).unwrap(),
        Bson::Decimal128(Decimal128 { bytes: [7; 16] })
    );
}

#[test]
fn binary_extended_document_uses_base64_and_hex() {
    let bin = Bson::Binary(Binary { subtype: 4, bytes: vec![1, 2, 3] });
    let ext = bin.into_extended_document();
    let body = match ext.get("$binary") {
        Some(Bson::Document(d)) => d,
        other => panic!("expected a $binary body, got {:?}", other),
    };
    assert_eq!(
        body.get("base64"),
        Some(&Bson::String(base64::encode([1u8, 2, 3])))
    );
    assert_eq!(body.get("base64"), Some(&Bson::String("AQID".to_string())));
    assert_eq!(body.get("subType"), Some(&Bson::String("04".to_string())));
}

#[test]
fn whole_tree_decode_is_identity_on_clean_values() {
    let v = Bson::Document(doc(vec![
        ("s", Bson::String("x".to_string())),
        ("n", Bson::Array(vec![Bson::Int64(1), Bson::Boolean(false)])),
        ("b", Bson::Binary(Binary { subtype: 5, bytes: vec![9, 8] })),
        ("t", Bson::Timestamp(Timestamp { time: 1, increment: 2 })),
    ]));
    let expected = Bson::Document(doc(vec![
        ("s", Bson::String("x".to_string())),
        ("n", Bson::Array(vec![Bson::Int64(1), Bson::Boolean(false)])),
        ("b", Bson::Binary(Binary { subtype: 5, bytes: vec![9, 8] })),
        ("t", Bson::Timestamp(Timestamp { time: 1, increment: 2 })),
    ]));
    assert_eq!(decode(v).unwrap(), expected);
}

#[test]
fn enum_decode_from_bare_string() {
    let de = Deserializer::new(Bson::String("Variant".to_string()));
    let ed = de.deserialize_enum().unwrap();
    let (name, variant) = ed.variant();
    assert_eq!(name, "Variant");
    assert!(variant.unit_variant().is_ok());
}

#[test]
fn enum_decode_tuple_payload_must_be_array() {
    let d = doc(vec![(
        "Variant",
        Bson::Array(vec![Bson::Int32(1), Bson::Int32(2)]),
    )]);
    let ed = Deserializer::new(Bson::Document(d)).deserialize_enum().unwrap();
    let (name, variant) = ed.variant();
    assert_eq!(name, "Variant");
    match variant.tuple_variant().unwrap() {
        Offer::Sequence(mut sd) => {
            assert_eq!(sd.size_hint(), Some(2));
            let first = sd.next_element().unwrap();
            assert_eq!(Bson::deserialize(first).unwrap(), Bson::Int32(1));
        }
        _ => panic!("expected a sequence offer"),
    }

    let d = doc(vec![("Variant", Bson::Int32(3))]);
    let ed = Deserializer::new(Bson::Document(d)).deserialize_enum().unwrap();
    let (_, variant) = ed.variant();
    match variant.tuple_variant() {
        Err(Error::InvalidType { .. }) => {}
        other => panic!("expected an invalid-type error, got {:?}", other),
    }
}

#[test]
fn enum_decode_struct_payload_must_be_document() {
    let d = doc(vec![("Variant", Bson::Document(doc(vec![("f", Bson::Int32(1))])))]);
    let ed = Deserializer::new(Bson::Document(d)).deserialize_enum().unwrap();
    let (_, variant) = ed.variant();
    assert!(matches!(variant.struct_variant().unwrap(), Offer::Mapping(_)));

    let d = doc(vec![("Variant", Bson::Int32(3))]);
    let ed = Deserializer::new(Bson::Document(d)).deserialize_enum().unwrap();
    let (_, variant) = ed.variant();
    assert!(matches!(variant.struct_variant(), Err(Error::InvalidType { .. })));
}

#[test]
fn enum_decode_rejects_extra_keys_naming_them() {
    let d = doc(vec![
        ("Variant", Bson::Document(Document::new())),
        ("Extra", Bson::Int32(1)),
    ]);
    match Deserializer::new(Bson::Document(d)).deserialize_enum() {
        Err(Error::InvalidValue { found, .. }) => assert_eq!(found, "Extra"),
        other => panic!("expected an invalid-value error, got {:?}", other),
    }
}

#[test]
fn enum_decode_rejects_empty_document_and_wrong_shapes() {
    match Deserializer::new(Bson::Document(Document::new())).deserialize_enum() {
        Err(Error::InvalidValue { .. }) => {}
        other => panic!("expected an invalid-value error, got {:?}", other),
    }
    match Deserializer::new(Bson::Int32(1)).deserialize_enum() {
        Err(Error::InvalidType { .. }) => {}
        other => panic!("expected an invalid-type error, got {:?}", other),
    }
}

#[test]
fn uuid_newtype_needs_uuid_subtype() {
    let uuid_bytes: Vec<u8> = (0..16).collect();
    let de = Deserializer::new(Bson::Binary(Binary {
        subtype: BINARY_SUBTYPE_UUID,
        bytes: uuid_bytes.clone(),
    }));
    match de.deserialize_newtype_struct(bson::de::uuid_newtype_name()).unwrap() {
        NewtypeAccess::Offered(Offer::Mapping(md)) => {
            // The UUID binary is offered through the map path; decoding it
            // restores the sixteen raw bytes.
            let decoded = BsonVisitor.visit_map(md).unwrap();
            assert_eq!(
                decoded,
                Bson::Binary(Binary { subtype: BINARY_SUBTYPE_UUID, bytes: uuid_bytes })
            );
        }
        _ => panic!("expected a map offer for the UUID binary"),
    }

    let de = Deserializer::new(Bson::Binary(Binary { subtype: 0, bytes: vec![1; 16] }));
    assert!(de.deserialize_newtype_struct(bson::de::uuid_newtype_name()).is_err());

    let de = Deserializer::new(Bson::Int32(5));
    assert!(de.deserialize_newtype_struct("$uuid").is_err());

    // Any other newtype name passes through transparently.
    let de = Deserializer::new(Bson::Int32(5));
    match de.deserialize_newtype_struct("Meters").unwrap() {
        NewtypeAccess::Inner(inner) => {
            assert_eq!(Bson::deserialize(inner).unwrap(), Bson::Int32(5));
        }
        _ => panic!("expected transparent pass-through"),
    }
}

#[test]
fn map_cursor_discipline() {
    let d = doc(vec![("a", Bson::Int32(1)), ("b", Bson::Int32(2))]);
    let mut md = MapDeserializer::new(d);

    // A value request before any key request is an end-of-stream error.
    assert_eq!(md.next_value().unwrap_err(), Error::EndOfStream);

    let k = md.next_key().unwrap();
    assert_eq!(k, "a");
    let vd = md.next_value().unwrap();
    assert_eq!(Bson::deserialize(vd).unwrap(), Bson::Int32(1));

    // Two value requests for one key: the second fails.
    assert_eq!(md.next_value().unwrap_err(), Error::EndOfStream);

    assert_eq!(md.next_key().unwrap(), "b");
    assert!(md.next_value().is_ok());

    // A key request after exhaustion reports no more entries, not an error.
    assert!(md.next_key().is_none());
    assert_eq!(md.size_hint(), Some(0));
}

#[test]
fn optional_absent_only_for_null() {
    let de = Deserializer::new(Bson::Null);
    assert!(matches!(de.deserialize_option().unwrap(), OptionalAccess::Absent));
    let de = Deserializer::new(Bson::Int32(0));
    match de.deserialize_option().unwrap() {
        OptionalAccess::Present(inner) => {
            assert_eq!(Bson::deserialize(inner).unwrap(), Bson::Int32(0));
        }
        _ => panic!("expected a present value"),
    }
}

#[test]
fn empty_array_offers_unit() {
    let de = Deserializer::new(Bson::Array(vec![]));
    match de.deserialize_any().unwrap() {
        Offer::Sequence(sd) => assert!(matches!(sd.deserialize_any(), Offer::Unit)),
        _ => panic!("expected a sequence offer"),
    }
}

#[test]
fn options_builder_and_human_readable() {
    let opts = DeserializerOptions::builder().human_readable(false).build();
    let de = Deserializer::new_with_options(Bson::Null, opts);
    assert!(!de.is_human_readable());
    let de = Deserializer::new(Bson::Null);
    assert!(de.is_human_readable());
}

#[test]
fn typed_extraction_of_leaf_types() {
    let ts = Timestamp { time: 3, increment: 4 };
    assert_eq!(
        Timestamp::deserialize(Deserializer::new(Bson::Timestamp(ts))).unwrap(),
        ts
    );
    assert!(Timestamp::deserialize(Deserializer::new(Bson::Int32(1))).is_err());

    let bin = Binary { subtype: 9, bytes: vec![1] };
    assert_eq!(
        Binary::deserialize(Deserializer::new(Bson::Binary(bin.clone()))).unwrap(),
        bin
    );

    let dt = DateTime::from_millis(55);
    assert_eq!(
        DateTime::deserialize(Deserializer::new(Bson::DateTime(dt))).unwrap(),
        dt
    );

    let dec = Decimal128 { bytes: [3; 16] };
    assert_eq!(
        Decimal128::deserialize(Deserializer::new(Bson::Decimal128(dec))).unwrap(),
        dec
    );

    let d = doc(vec![("k", Bson::Int32(1))]);
    let expected = doc(vec![("k", Bson::Int32(1))]);
    assert_eq!(
        Document::deserialize(Deserializer::new(Bson::Document(d))).unwrap(),
        expected
    );
    assert!(Document::deserialize(Deserializer::new(Bson::Int32(1))).is_err());
}

#[test]
fn document_insert_replaces_in_place() {
    let mut d = Document::new();
    d.insert("a".to_string(), Bson::Int32(1));
    d.insert("b".to_string(), Bson::Int32(2));
    d.insert("a".to_string(), Bson::Int32(3));
    assert_eq!(d.len(), 2);
    assert_eq!(d.get("a"), Some(&Bson::Int32(3)));
    assert_eq!(d.get("b"), Some(&Bson::Int32(2)));
    assert_eq!(d.get("c"), None);
    assert_eq!(
        d,
        doc(vec![("a", Bson::Int32(3)), ("b", Bson::Int32(2))])
    );
}

#[test]
fn sequence_cursor_reports_its_end() {
    let de = Deserializer::new(Bson::Array(vec![Bson::Int32(1)]));
    match de.deserialize_any().unwrap() {
        Offer::Sequence(mut sd) => {
            assert!(sd.next_element().is_some());
            assert!(sd.next_element().is_none());
            assert_eq!(sd.size_hint(), Some(0));
        }
        _ => panic!("expected a sequence offer"),
    }
}

#[test]
fn visitor_pass_through_entry_points() {
    let inner = Deserializer::new(Bson::Int32(4));
    assert_eq!(BsonVisitor.visit_some(inner).unwrap(), Bson::Int32(4));
    let inner = Deserializer::new(Bson::Boolean(false));
    assert_eq!(
        BsonVisitor.visit_newtype_struct(inner).unwrap(),
        Bson::Boolean(false)
    );
    assert_eq!(BsonVisitor.visit_str("ab"), Bson::String("ab".to_string()));
    assert_eq!(
        BsonVisitor.visit_bytes(&[1, 2]),
        Bson::Binary(Binary { subtype: 0, bytes: vec![1, 2] })
    );
    assert_eq!(BsonVisitor.visit_f64(55), Bson::Double(55));
    assert_eq!(BsonVisitor.visit_none(), Bson::Null);
    assert_eq!(BsonVisitor.visit_unit(), Bson::Null);
    assert_eq!(BsonVisitor.visit_bool(true), Bson::Boolean(true));
}
