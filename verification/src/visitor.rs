//! The value-model visitor: always requests the most general decode from
//! the bridge and reacts to whatever is offered, building an owned [`Bson`]
//! tree. Map offers go through extended-JSON marker resolution on their
//! first key. Also the typed extraction entry points of the leaf types.

use vstd::prelude::*;
use vstd::slice::slice_to_vec;
use vstd::string::StrSliceExecFns;
use vstd::string::StringExecFns;

use crate::de::spec_decode;
use crate::de::spec_decode_elems;
use crate::de::spec_decode_entries;
use crate::de::spec_map_decode;
use crate::de::spec_marker_decode;
use crate::de::stored_size;
use crate::de::ventries_size;
use crate::de::vseq_size;
use crate::de::Deserializer;
use crate::de::MapDeserializer;
use crate::de::Offer;
use crate::de::SeqDeserializer;
use crate::de::VariantDeserializer;
use crate::error::Error;
use crate::error::ErrorKind;
use crate::extjson::marker_of;
use crate::extjson::as_string_value;
use crate::extjson::parse_binary_body;
use crate::extjson::parse_datetime_body;
use crate::extjson::parse_decimal_bytes;
use crate::extjson::parse_timestamp_body;
use crate::extjson::spec_parse_hex_byte;
use crate::extjson::parse_hex_byte;
use crate::extjson::Marker;
use crate::numeric::parse_i32_str;
use crate::numeric::parse_i64_str;
use crate::numeric::parse_u32_str;
use crate::numeric::parse_u64_str;
use crate::value::bviews;
use crate::value::dview;
use crate::value::Binary;
use crate::value::Bson;
use crate::value::DateTime;
use crate::value::Decimal128;
use crate::value::Document;
use crate::value::ObjectId;
use crate::value::SpecBson;
use crate::value::Timestamp;
use crate::value::BINARY_SUBTYPE_GENERIC;
use crate::value::DOUBLE_BITS_INFINITY;
use crate::value::DOUBLE_BITS_NAN;
use crate::value::DOUBLE_BITS_NEG_INFINITY;

verus! {

/// Decode the stored value behind one marker, chosen by the first key of a
/// map offer. The error for a malformed numeric string cites the string and
/// the expected format.
pub fn marker_decode(m: Marker, v: Bson) -> (r: Result<Bson, Error>)
    requires
        m != Marker::Plain,
    ensures
        match r {
            Ok(b) => spec_marker_decode(m, v@) == Ok::<SpecBson, ErrorKind>(b@),
            Err(e) => spec_marker_decode(m, v@) matches Err(k) && k == e.kind(),
        },
{
    match m {
        Marker::NumberInt => {
            let s = match as_string_value(v) {
                Ok(s) => s,
                Err(e) => {
                    return Err(e);
                }
            };
            match parse_i32_str(s.as_str()) {
                Some(n) => Ok(Bson::Int32(n)),
                None => Err(Error::InvalidValue {
                    expected: "32-bit signed integer as a string".to_owned(),
                    found: s,
                }),
            }
        }
        Marker::NumberLong => {
            let s = match as_string_value(v) {
                Ok(s) => s,
                Err(e) => {
                    return Err(e);
                }
            };
            match parse_i64_str(s.as_str()) {
                Some(n) => Ok(Bson::Int64(n)),
                None => Err(Error::InvalidValue {
                    expected: "64-bit signed integer as a string".to_owned(),
                    found: s,
                }),
            }
        }
        Marker::NumberUInt32 => {
            let s = match as_string_value(v) {
                Ok(s) => s,
                Err(e) => {
                    return Err(e);
                }
            };
            match parse_u32_str(s.as_str()) {
                Some(n) => Ok(Bson::UInt32(n)),
                None => Err(Error::InvalidValue {
                    expected: "32-bit unsigned integer as a string".to_owned(),
                    found: s,
                }),
            }
        }
        Marker::NumberUInt64 => {
            let s = match as_string_value(v) {
                Ok(s) => s,
                Err(e) => {
                    return Err(e);
                }
            };
            match parse_u64_str(s.as_str()) {
                Some(n) => Ok(Bson::UInt64(n)),
                None => Err(Error::InvalidValue {
                    expected: "64-bit unsigned integer as a string".to_owned(),
                    found: s,
                }),
            }
        }
        Marker::NumberDouble => {
            let s = match as_string_value(v) {
                Ok(s) => s,
                Err(e) => {
                    return Err(e);
                }
            };
            if s == "Infinity".to_owned() {
                Ok(Bson::Double(DOUBLE_BITS_INFINITY))
            } else if s == "-Infinity".to_owned() {
                Ok(Bson::Double(DOUBLE_BITS_NEG_INFINITY))
            } else if s == "NaN".to_owned() {
                Ok(Bson::Double(DOUBLE_BITS_NAN))
            } else {
                match parse_i64_str(s.as_str()) {
                    Some(n) => Ok(Bson::Int64(n)),
                    None => Err(Error::InvalidValue {
                        expected: "64-bit signed integer as a string".to_owned(),
                        found: s,
                    }),
                }
            }
        }
        Marker::Binary => match parse_binary_body(v) {
            Ok(bin) => Ok(Bson::Binary(bin)),
            Err(e) => Err(e),
        },
        Marker::Timestamp => match parse_timestamp_body(v) {
            Ok(ts) => Ok(Bson::Timestamp(ts)),
            Err(e) => Err(e),
        },
        Marker::Date => match parse_datetime_body(v) {
            Ok(dt) => Ok(Bson::DateTime(dt)),
            Err(e) => Err(e),
        },
        Marker::NumberDecimal => Err(Error::Custom {
            message: "deserializing decimal128 values from strings is not currently supported".to_owned(),
        }),
        Marker::NumberDecimalBytes => match parse_decimal_bytes(v) {
            Ok(d) => Ok(Bson::Decimal128(d)),
            Err(e) => Err(e),
        },
        Marker::Plain => {
            proof {
                assert(false);
            }
            Err(Error::EndOfStream)
        }
    }
}

/// The visitor that builds the owned value model from whatever the bridge
/// offers.
pub struct BsonVisitor;

impl BsonVisitor {
    /// A boolean offer.
    pub fn visit_bool(self, v: bool) -> (r: Bson)
        ensures
            r@ == SpecBson::Boolean(v),
    {
        Bson::Boolean(v)
    }

    /// A signed 8-bit offer widens to a 32-bit signed integer.
    pub fn visit_i8(self, v: i8) -> (r: Bson)
        ensures
            r@ == SpecBson::Int32(v as i32),
    {
        Bson::Int32(v as i32)
    }

    /// An unsigned 8-bit offer promotes uniformly to 64 bits.
    pub fn visit_u8(self, v: u8) -> (r: Bson)
        ensures
            r@ == SpecBson::UInt64(v as u64),
    {
        crate::de::convert_unsigned_to_signed(v as u64)
    }

    /// A signed 16-bit offer widens to a 32-bit signed integer.
    pub fn visit_i16(self, v: i16) -> (r: Bson)
        ensures
            r@ == SpecBson::Int32(v as i32),
    {
        Bson::Int32(v as i32)
    }

    /// An unsigned 16-bit offer promotes uniformly to 64 bits.
    pub fn visit_u16(self, v: u16) -> (r: Bson)
        ensures
            r@ == SpecBson::UInt64(v as u64),
    {
        crate::de::convert_unsigned_to_signed(v as u64)
    }

    /// A signed 32-bit offer is stored directly.
    pub fn visit_i32(self, v: i32) -> (r: Bson)
        ensures
            r@ == SpecBson::Int32(v),
    {
        Bson::Int32(v)
    }

    /// An unsigned 32-bit offer promotes uniformly to 64 bits.
    pub fn visit_u32(self, v: u32) -> (r: Bson)
        ensures
            r@ == SpecBson::UInt64(v as u64),
    {
        crate::de::convert_unsigned_to_signed(v as u64)
    }

    /// A signed 64-bit offer is stored directly.
    pub fn visit_i64(self, v: i64) -> (r: Bson)
        ensures
            r@ == SpecBson::Int64(v),
    {
        Bson::Int64(v)
    }

    /// An unsigned 64-bit offer is stored with identical magnitude.
    pub fn visit_u64(self, v: u64) -> (r: Bson)
        ensures
            r@ == SpecBson::UInt64(v),
    {
        crate::de::convert_unsigned_to_signed(v)
    }

    /// A double offer, as its bit pattern.
    pub fn visit_f64(self, bits: u64) -> (r: Bson)
        ensures
            r@ == SpecBson::Double(bits),
    {
        Bson::Double(bits)
    }

    /// A borrowed string offer.
    pub fn visit_str(self, v: &str) -> (r: Bson)
        ensures
            r@ == SpecBson::String(v@),
    {
        BsonVisitor.visit_string(v.to_owned())
    }

    /// An owned string offer.
    pub fn visit_string(self, v: String) -> (r: Bson)
        ensures
            r@ == SpecBson::String(v@),
    {
        Bson::String(v)
    }

    /// An absent-value offer decodes as null.
    pub fn visit_none(self) -> (r: Bson)
        ensures
            r@ == SpecBson::Null,
    {
        Bson::Null
    }

    /// A unit offer decodes as null.
    pub fn visit_unit(self) -> (r: Bson)
        ensures
            r@ == SpecBson::Null,
    {
        Bson::Null
    }

    /// A borrowed bytes offer becomes a generic-subtype binary.
    pub fn visit_bytes(self, v: &[u8]) -> (r: Bson)
        ensures
            r@ == SpecBson::Binary(BINARY_SUBTYPE_GENERIC, v@),
    {
        Bson::Binary(Binary { subtype: BINARY_SUBTYPE_GENERIC, bytes: slice_to_vec(v) })
    }

    /// An owned bytes offer becomes a generic-subtype binary.
    pub fn visit_byte_buf(self, v: Vec<u8>) -> (r: Bson)
        ensures
            r@ == SpecBson::Binary(BINARY_SUBTYPE_GENERIC, v@),
    {
        Bson::Binary(Binary { subtype: BINARY_SUBTYPE_GENERIC, bytes: v })
    }

    /// A present-value offer is re-driven through the bridge whole.
    pub fn visit_some(self, d: Deserializer) -> (r: Result<Bson, Error>)
        ensures
            match d.stored() {
                None => r matches Err(e) && e == Error::EndOfStream,
                Some(v) => match spec_decode(v) {
                    Ok(w) => r matches Ok(b) && b@ == w,
                    Err(k) => r matches Err(e) && e.kind() == k,
                },
            },
    {
        Bson::deserialize(d)
    }

    /// A newtype offer passes through transparently to the inner bridge.
    pub fn visit_newtype_struct(self, d: Deserializer) -> (r: Result<Bson, Error>)
        ensures
            match d.stored() {
                None => r matches Err(e) && e == Error::EndOfStream,
                Some(v) => match spec_decode(v) {
                    Ok(w) => r matches Ok(b) && b@ == w,
                    Err(k) => r matches Err(e) && e.kind() == k,
                },
            },
    {
        Bson::deserialize(d)
    }

    /// A sequence offer: every element is decoded through its own
    /// sub-bridge, in order; the first error aborts.
    pub fn visit_seq(self, sd: SeqDeserializer) -> (r: Result<Bson, Error>)
        ensures
            match spec_decode_elems(sd.remaining()) {
                Ok(out) => r matches Ok(b) && b@ == SpecBson::Array(out),
                Err(k) => r matches Err(e) && e.kind() == k,
            },
        decreases vseq_size(sd.remaining()), 1int,
    {
        let acc: Vec<Bson> = Vec::new();
        let ghost av = acc@;
        match visit_seq_elems(sd, acc) {
            Ok(values) => {
                proof {
                    if spec_decode_elems(sd.remaining()) is Ok {
                        let out = spec_decode_elems(sd.remaining())->Ok_0;
                        assert(bviews(av) =~= Seq::<SpecBson>::empty());
                        assert(bviews(values@) =~= out);
                    }
                }
                Ok(Bson::Array(values))
            }
            Err(e) => Err(e),
        }
    }

    /// A map offer: resolve the first key against the reserved markers.
    /// A match returns immediately with the one decoded value, inspecting
    /// no further key; any other first key accumulates every entry into an
    /// ordinary document.
    pub fn visit_map(self, md: MapDeserializer) -> (r: Result<Bson, Error>)
        requires
            md.stash() is None,
        ensures
            match spec_map_decode(md.remaining()) {
                Ok(w) => r matches Ok(b) && b@ == w,
                Err(k) => r matches Err(e) && e.kind() == k,
            },
        decreases ventries_size(md.remaining()), 2int,
    {
        let ghost es = md.remaining();
        let mut md = md;
        let k = match md.next_key() {
            Some(k) => k,
            None => {
                return Ok(Bson::Document(Document::new()));
            }
        };
        let d = match md.next_value() {
            Ok(d) => d,
            Err(e) => {
                proof {
                    assert(false);
                }
                return Err(e);
            }
        };
        let v = match d.value {
            Some(v) => v,
            None => {
                proof {
                    assert(false);
                }
                return Err(Error::EndOfStream);
            }
        };
        proof {
            assert(v@ == es[0].1);
        }
        let m = marker_of(k.as_str());
        if let Marker::Plain = m {
            let first = match Bson::deserialize(Deserializer {
                value: Some(v),
                options: md.options,
            }) {
                Ok(b) => b,
                Err(e) => {
                    return Err(e);
                }
            };
            let mut doc = Document::new();
            doc.insert(k, first);
            visit_map_entries(md, doc)
        } else {
            marker_decode(m, v)
        }
    }
}

/// Decode the elements still to come and append them to `acc`, in order.
fn visit_seq_elems(sd: SeqDeserializer, acc: Vec<Bson>) -> (r: Result<Vec<Bson>, Error>)
    ensures
        match spec_decode_elems(sd.remaining()) {
            Ok(out) => r matches Ok(values) && bviews(values@) == bviews(acc@) + out,
            Err(k) => r matches Err(e) && e.kind() == k,
        },
    decreases vseq_size(sd.remaining()), 0int,
{
    let ghost rem = sd.remaining();
    let mut sd = sd;
    let mut acc = acc;
    let d = match sd.next_element() {
        Some(d) => d,
        None => {
            proof {
                assert(bviews(acc@) =~= bviews(acc@) + spec_decode_elems(rem)->Ok_0);
            }
            return Ok(acc);
        }
    };
    let b = match Bson::deserialize(d) {
        Ok(b) => b,
        Err(e) => {
            return Err(e);
        }
    };
    let ghost prev = acc@;
    acc.push(b);
    proof {
        assert(bviews(acc@) =~= bviews(prev).push(b@));
    }
    let r = visit_seq_elems(sd, acc);
    proof {
        if spec_decode_elems(rem) is Ok {
            let out = spec_decode_elems(rem)->Ok_0;
            let rest = spec_decode_elems(rem.drop_first())->Ok_0;
            assert(out == seq![b@] + rest);
            assert(bviews(prev).push(b@) + rest =~= bviews(prev) + out);
        }
    }
    r
}

/// Accumulate the entries still to come into `doc`, decoding each value
/// through its own sub-bridge, in order.
fn visit_map_entries(md: MapDeserializer, doc: Document) -> (r: Result<Bson, Error>)
    requires
        md.stash() is None,
    ensures
        match spec_decode_entries(md.remaining(), dview(doc)) {
            Ok(out) => r matches Ok(b) && b@ == SpecBson::Document(out),
            Err(k) => r matches Err(e) && e.kind() == k,
        },
    decreases ventries_size(md.remaining()), 1int,
{
    let ghost rem = md.remaining();
    let mut md = md;
    let mut doc = doc;
    let k = match md.next_key() {
        Some(k) => k,
        None => {
            return Ok(Bson::Document(doc));
        }
    };
    let d = match md.next_value() {
        Ok(d) => d,
        Err(e) => {
            proof {
                assert(false);
            }
            return Err(e);
        }
    };
    let b = match Bson::deserialize(d) {
        Ok(b) => b,
        Err(e) => {
            return Err(e);
        }
    };
    doc.insert(k, b);
    visit_map_entries(md, doc)
}

impl Bson {
    /// Decode through the bridge with the value-model visitor: the most
    /// general request, reacting to whatever is offered.
    pub fn deserialize(de: Deserializer) -> (r: Result<Bson, Error>)
        ensures
            match de.stored() {
                None => r matches Err(e) && e == Error::EndOfStream,
                Some(v) => match spec_decode(v) {
                    Ok(w) => r matches Ok(b) && b@ == w,
                    Err(k) => r matches Err(e) && e.kind() == k,
                },
            },
        decreases stored_size(de.stored()), 3int,
    {
        let ghost stored = de.stored();
        let ghost opts = de.options;
        let offer = match de.deserialize_any() {
            Ok(offer) => offer,
            Err(e) => {
                return Err(e);
            }
        };
        match offer {
            Offer::Double(bits) => Ok(BsonVisitor.visit_f64(bits)),
            Offer::Text(s) => Ok(BsonVisitor.visit_string(s)),
            Offer::Sequence(sd) => {
                proof {
                    crate::de::lemma_seq_offer_size(stored->Some_0, opts, Offer::Sequence(sd));
                }
                BsonVisitor.visit_seq(sd)
            }
            Offer::Mapping(md) => {
                proof {
                    crate::de::lemma_map_offer_size(stored->Some_0, opts, Offer::Mapping(md));
                }
                BsonVisitor.visit_map(md)
            }
            Offer::Bool(b) => Ok(BsonVisitor.visit_bool(b)),
            Offer::Unit => Ok(BsonVisitor.visit_unit()),
            Offer::I32(i) => Ok(BsonVisitor.visit_i32(i)),
            Offer::I64(i) => Ok(BsonVisitor.visit_i64(i)),
            Offer::U32(u) => Ok(BsonVisitor.visit_u32(u)),
            Offer::U64(u) => Ok(BsonVisitor.visit_u64(u)),
            Offer::Bytes(bytes) => Ok(BsonVisitor.visit_byte_buf(bytes)),
        }
    }
}

impl VariantDeserializer {
    /// A unit-shaped variant request: an absent payload is the unit; a
    /// present payload is decoded and discarded, its errors kept.
    pub fn unit_variant(self) -> (r: Result<(), Error>)
        ensures
            match self.stored() {
                None => r is Ok,
                Some(v) => match spec_decode(v) {
                    Ok(_) => r is Ok,
                    Err(k) => r matches Err(e) && e.kind() == k,
                },
            },
    {
        match self.val {
            None => Ok(()),
            Some(val) => {
                match Bson::deserialize(Deserializer { value: Some(val), options: self.options }) {
                    Ok(_) => Ok(()),
                    Err(e) => Err(e),
                }
            }
        }
    }
}

impl Document {
    /// Typed extraction of a document: the stored value must decode to a
    /// document; any other decoded shape is a type error.
    pub fn deserialize(de: Deserializer) -> (r: Result<Document, Error>)
        ensures
            match de.stored() {
                None => r matches Err(e) && e == Error::EndOfStream,
                Some(v) => match spec_decode(v) {
                    Ok(w) => match w {
                        SpecBson::Document(es) => r matches Ok(d) && d@ == es,
                        _ => r matches Err(e) && e.kind() == ErrorKind::InvalidType,
                    },
                    Err(k) => r matches Err(e) && e.kind() == k,
                },
            },
    {
        match Bson::deserialize(de) {
            Ok(Bson::Document(doc)) => Ok(doc),
            Ok(other) => Err(Error::InvalidType {
                expected: "expected document".to_owned(),
                found: other.kind_name(),
            }),
            Err(e) => Err(e),
        }
    }
}

impl Timestamp {
    /// Typed extraction of a timestamp.
    pub fn deserialize(de: Deserializer) -> (r: Result<Timestamp, Error>)
        ensures
            match de.stored() {
                None => r matches Err(e) && e == Error::EndOfStream,
                Some(v) => match spec_decode(v) {
                    Ok(w) => match w {
                        SpecBson::Timestamp(t, i) => r matches Ok(ts) && ts.time == t
                            && ts.increment == i,
                        _ => r matches Err(e) && e.kind() == ErrorKind::Custom,
                    },
                    Err(k) => r matches Err(e) && e.kind() == k,
                },
            },
    {
        match Bson::deserialize(de) {
            Ok(Bson::Timestamp(ts)) => Ok(ts),
            Ok(_) => Err(Error::Custom { message: "expecting Timestamp".to_owned() }),
            Err(e) => Err(e),
        }
    }
}

impl Binary {
    /// Typed extraction of a binary value.
    pub fn deserialize(de: Deserializer) -> (r: Result<Binary, Error>)
        ensures
            match de.stored() {
                None => r matches Err(e) && e == Error::EndOfStream,
                Some(v) => match spec_decode(v) {
                    Ok(w) => match w {
                        SpecBson::Binary(st, b) => r matches Ok(bin) && bin.subtype == st
                            && bin.bytes@ == b,
                        _ => r matches Err(e) && e.kind() == ErrorKind::Custom,
                    },
                    Err(k) => r matches Err(e) && e.kind() == k,
                },
            },
    {
        match Bson::deserialize(de) {
            Ok(Bson::Binary(bin)) => Ok(bin),
            Ok(other) => {
                let mut m = "expecting Binary but got ".to_owned();
                m.append(other.kind_name().as_str());
                m.append(" instead");
                Err(Error::Custom { message: m })
            }
            Err(e) => Err(e),
        }
    }
}

impl Decimal128 {
    /// Typed extraction of a 128-bit decimal.
    pub fn deserialize(de: Deserializer) -> (r: Result<Decimal128, Error>)
        ensures
            match de.stored() {
                None => r matches Err(e) && e == Error::EndOfStream,
                Some(v) => match spec_decode(v) {
                    Ok(w) => match w {
                        SpecBson::Decimal128(b) => r matches Ok(d) && d.bytes@ == b,
                        _ => r matches Err(e) && e.kind() == ErrorKind::Custom,
                    },
                    Err(k) => r matches Err(e) && e.kind() == k,
                },
            },
    {
        match Bson::deserialize(de) {
            Ok(Bson::Decimal128(d)) => Ok(d),
            Ok(other) => {
                let mut m = "expecting Decimal128, got ".to_owned();
                m.append(other.kind_name().as_str());
                Err(Error::Custom { message: m })
            }
            Err(e) => Err(e),
        }
    }
}

impl DateTime {
    /// Typed extraction of a datetime.
    pub fn deserialize(de: Deserializer) -> (r: Result<DateTime, Error>)
        ensures
            match de.stored() {
                None => r matches Err(e) && e == Error::EndOfStream,
                Some(v) => match spec_decode(v) {
                    Ok(w) => match w {
                        SpecBson::DateTime(ms) => r matches Ok(dt) && dt.millis == ms,
                        _ => r matches Err(e) && e.kind() == ErrorKind::Custom,
                    },
                    Err(k) => r matches Err(e) && e.kind() == k,
                },
            },
    {
        match Bson::deserialize(de) {
            Ok(Bson::DateTime(dt)) => Ok(dt),
            Ok(_) => Err(Error::Custom { message: "expecting DateTime".to_owned() }),
            Err(e) => Err(e),
        }
    }
}

// ---------------------------------------------------------------------------
// ObjectId parsing and extraction.
// ---------------------------------------------------------------------------

/// The twelve bytes denoted by a 24-character hexadecimal string, if it is
/// one.
pub open spec fn spec_parse_oid(s: Seq<char>) -> Option<Seq<u8>> {
    if s.len() == 24 && (forall|i: int|
        0 <= i < 12 ==> (#[trigger] spec_parse_hex_byte(s.subrange(2 * i, 2 * i + 2))) is Some) {
        Some(Seq::new(12, |i: int| spec_parse_hex_byte(s.subrange(2 * i, 2 * i + 2))->Some_0))
    } else {
        None
    }
}

impl ObjectId {
    /// Build an identifier from its twelve raw bytes.
    pub fn from_bytes(bytes: [u8; 12]) -> (r: ObjectId)
        ensures
            r.bytes@ == bytes@,
    {
        ObjectId { bytes }
    }

    /// Parse an identifier from its 24-character hexadecimal rendering; any
    /// other shape or length is an error.
    pub fn parse_str(s: &str) -> (r: Result<ObjectId, Error>)
        ensures
            match r {
                Ok(oid) => spec_parse_oid(s@) == Some(oid.bytes@),
                Err(e) => spec_parse_oid(s@) is None && e.kind() == ErrorKind::InvalidValue,
            },
    {
        if s.unicode_len() != 24 {
            return Err(Error::InvalidValue {
                expected: "24-character, big-endian hex string".to_owned(),
                found: s.to_owned(),
            });
        }
        let mut bytes: [u8; 12] = [0; 12];
        let mut i: usize = 0;
        while i < 12
        invariant
            i <= 12,
            s@.len() == 24,
            bytes@.len() == 12,
            forall|j: int|
                0 <= j < i ==> ((#[trigger] spec_parse_hex_byte(s@.subrange(2 * j, 2 * j + 2)))
                    matches Some(b) && bytes@[j] == b),
        decreases 12 - i,
        {
            let pair = s.substring_char(2 * i, 2 * i + 2);
            match parse_hex_byte(pair) {
                Some(b) => {
                    bytes[i] = b;
                }
                None => {
                    return Err(Error::InvalidValue {
                        expected: "24-character, big-endian hex string".to_owned(),
                        found: s.to_owned(),
                    });
                }
            }
            i += 1;
        }
        proof {
            assert(forall|j: int|
                0 <= j < 12 ==> (#[trigger] spec_parse_hex_byte(
                    s@.subrange(2 * j, 2 * j + 2),
                )) is Some);
            assert(spec_parse_oid(s@) is Some);
            assert(spec_parse_oid(s@)->Some_0 =~= bytes@);
        }
        Ok(ObjectId { bytes })
    }

    /// Typed extraction of an identifier. A string offer is parsed as hex;
    /// a bytes offer must hold exactly twelve bytes; a map offer is decoded
    /// and reported as unexpected extended JSON; anything else is a type
    /// error.
    pub fn deserialize(de: Deserializer) -> (r: Result<ObjectId, Error>)
        ensures
            match de.stored() {
                None => r matches Err(e) && e == Error::EndOfStream,
                Some(v) => match v {
                    SpecBson::String(s) => match spec_parse_oid(s) {
                        Some(b) => r matches Ok(oid) && oid.bytes@ == b,
                        None => r matches Err(e) && e.kind() == ErrorKind::InvalidValue,
                    },
                    SpecBson::Binary(st, b) => if st == BINARY_SUBTYPE_GENERIC {
                        if b.len() == 12 {
                            r matches Ok(oid) && oid.bytes@ == b
                        } else {
                            r matches Err(e) && e.kind() == ErrorKind::InvalidLength
                        }
                    } else {
                        match spec_map_decode(crate::extjson::spec_extended_entries(v)) {
                            Ok(_) => r matches Err(e) && e.kind() == ErrorKind::Custom,
                            Err(k) => r matches Err(e) && e.kind() == k,
                        }
                    },
                    SpecBson::Document(es) => match spec_map_decode(es) {
                        Ok(_) => r matches Err(e) && e.kind() == ErrorKind::Custom,
                        Err(k) => r matches Err(e) && e.kind() == k,
                    },
                    SpecBson::DateTime(..) => match spec_map_decode(
                        crate::extjson::spec_extended_entries(v),
                    ) {
                        Ok(_) => r matches Err(e) && e.kind() == ErrorKind::Custom,
                        Err(k) => r matches Err(e) && e.kind() == k,
                    },
                    SpecBson::Timestamp(..) => match spec_map_decode(
                        crate::extjson::spec_extended_entries(v),
                    ) {
                        Ok(_) => r matches Err(e) && e.kind() == ErrorKind::Custom,
                        Err(k) => r matches Err(e) && e.kind() == k,
                    },
                    SpecBson::Decimal128(..) => match spec_map_decode(
                        crate::extjson::spec_extended_entries(v),
                    ) {
                        Ok(_) => r matches Err(e) && e.kind() == ErrorKind::Custom,
                        Err(k) => r matches Err(e) && e.kind() == k,
                    },
                    _ => r matches Err(e) && e.kind() == ErrorKind::InvalidType,
                },
            },
    {
        let human_readable = de.is_human_readable();
        let offer = if human_readable {
            de.deserialize_any()
        } else {
            de.deserialize_bytes()
        };
        let offer = match offer {
            Ok(offer) => offer,
            Err(e) => {
                return Err(e);
            }
        };
        match offer {
            Offer::Text(s) => match ObjectId::parse_str(s.as_str()) {
                Ok(oid) => Ok(oid),
                Err(e) => Err(e),
            },
            Offer::Bytes(v) => {
                if v.len() != 12 {
                    return Err(Error::InvalidLength { expected: 12, found: v.len() });
                }
                let mut bytes: [u8; 12] = [0; 12];
                let mut i: usize = 0;
                while i < 12
                invariant
                    i <= 12,
                    v@.len() == 12,
                    bytes@.len() == 12,
                    forall|j: int| 0 <= j < i ==> bytes@[j] == v@[j],
                decreases 12 - i,
                {
                    bytes[i] = v[i];
                    i += 1;
                }
                proof {
                    assert(bytes@ =~= v@);
                }
                Ok(ObjectId::from_bytes(bytes))
            }
            Offer::Mapping(md) => {
                let decoded = BsonVisitor.visit_map(md);
                match decoded {
                    Ok(bson) => {
                        let mut m =
                            "expected map containing extended-JSON formatted ObjectId, instead found ".to_owned();
                        m.append(bson.kind_name().as_str());
                        Err(Error::Custom { message: m })
                    }
                    Err(e) => Err(e),
                }
            }
            _ => Err(Error::InvalidType {
                expected: "expecting an ObjectId".to_owned(),
                found: "another shape".to_owned(),
            }),
        }
    }
}

} // verus!
