//! The extended-JSON convention: reserved single-key documents standing for
//! binary-only types, the parsers reading their bodies, and the canonical
//! one-key fallback documents the bridge re-expresses such values as.

use vstd::prelude::*;
use vstd::string::StrSliceExecFns;
use vstd::string::StringExecFns;

use crate::error::Error;
use crate::error::ErrorKind;
use crate::numeric::dec_digit_char;
use crate::numeric::parse_i64_str;
use crate::numeric::spec_dec_digit_bytes;
use crate::numeric::lemma_dec_digit_bytes_chars;
use crate::numeric::spec_dec_digits_of;
use crate::numeric::spec_i64_to_dec;
use crate::numeric::spec_parse_i64;
use crate::value::Binary;
use crate::value::Bson;
use crate::value::DateTime;
use crate::value::Decimal128;
use crate::value::Document;
use crate::value::SpecBson;
use crate::value::Timestamp;
use crate::value::spec_doc_get;
use crate::value::BINARY_SUBTYPE_GENERIC;

verus! {

// ---------------------------------------------------------------------------
// Names for what the base64 crate computes.
// ---------------------------------------------------------------------------

/// The standard, padded base64 rendering of `b`, as `base64::encode` yields.
pub uninterp spec fn b64_of(b: Seq<u8>) -> Seq<char>;

/// What `base64::decode` yields on `s`: the decoded bytes, or nothing when
/// `s` is not valid standard base64.
pub uninterp spec fn b64_decode_of(s: Seq<char>) -> Option<Seq<u8>>;

/// Relies on `base64::encode`: the standard-alphabet, padded rendering,
/// which `base64::decode` inverts.
#[verifier::external_body]
pub(crate) fn base64_encode(bytes: &[u8]) -> (r: String)
    ensures
        r@ == b64_of(bytes@),
        b64_decode_of(r@) == Some(bytes@),
{
    base64::encode(bytes)
}

/// Relies on `base64::decode`: standard alphabet, rejecting invalid input.
#[verifier::external_body]
pub(crate) fn base64_decode(s: &str) -> (r: Option<Vec<u8>>)
    ensures
        match r {
            Some(v) => b64_decode_of(s@) == Some(v@),
            None => b64_decode_of(s@) is None,
        },
{
    base64::decode(s).ok()
}

// ---------------------------------------------------------------------------
// Hexadecimal subtype digits.
// ---------------------------------------------------------------------------

/// The lowercase hexadecimal digit character of `d < 16`.
pub open spec fn hex_digit_char(d: int) -> char {
    if d < 10 {
        dec_digit_char(d)
    } else {
        ((87 + d) as u8) as char
    }
}

/// The two lowercase hexadecimal digits of a byte, as `hex::encode` renders
/// a one-byte slice.
pub open spec fn spec_hex_byte(b: u8) -> Seq<char> {
    seq![hex_digit_char(b as int / 16), hex_digit_char(b as int % 16)]
}

/// The value of one hexadecimal digit character, either case.
pub open spec fn spec_hex_digit_val(c: char) -> Option<int> {
    if 48 <= c as int <= 57 {
        Some(c as int - 48)
    } else if 97 <= c as int <= 102 {
        Some(c as int - 87)
    } else if 65 <= c as int <= 70 {
        Some(c as int - 55)
    } else {
        None
    }
}

/// The byte denoted by a two-digit hexadecimal string, if it is one.
pub open spec fn spec_parse_hex_byte(s: Seq<char>) -> Option<u8> {
    if s.len() == 2 {
        match (spec_hex_digit_val(s[0]), spec_hex_digit_val(s[1])) {
            (Some(h), Some(l)) => Some((h * 16 + l) as u8),
            _ => None,
        }
    } else {
        None
    }
}

/// Relies on `hex::encode`: two lowercase digits for each byte.
#[verifier::external_body]
pub(crate) fn hex_encode_byte(b: u8) -> (r: String)
    ensures
        r@ == spec_hex_byte(b),
{
    hex::encode([b])
}

/// Read a byte from its two-digit hexadecimal rendering, either case.
pub fn parse_hex_byte(s: &str) -> (r: Option<u8>)
    ensures
        r == spec_parse_hex_byte(s@),
{
    if s.unicode_len() != 2 {
        return None;
    }
    let h = hex_digit_val(s.get_char(0));
    let l = hex_digit_val(s.get_char(1));
    match (h, l) {
        (Some(hv), Some(lv)) => Some(hv * 16 + lv),
        _ => None,
    }
}

/// Read the value of one hexadecimal digit character.
fn hex_digit_val(c: char) -> (r: Option<u8>)
    ensures
        match r {
            Some(v) => spec_hex_digit_val(c) == Some(v as int) && v < 16,
            None => spec_hex_digit_val(c) is None,
        },
{
    let u = c as u32;
    if 48 <= u && u <= 57 {
        Some((u - 48) as u8)
    } else if 97 <= u && u <= 102 {
        Some((u - 87) as u8)
    } else if 65 <= u && u <= 70 {
        Some((u - 55) as u8)
    } else {
        None
    }
}

/// Encoding a byte in hexadecimal and reading it back gives the byte.
pub proof fn lemma_hex_byte_roundtrip(b: u8)
    ensures
        spec_parse_hex_byte(spec_hex_byte(b)) == Some(b),
{
    let h = b as int / 16;
    let l = b as int % 16;
    assert(0 <= h < 16 && 0 <= l < 16);
    assert(spec_hex_digit_val(hex_digit_char(h)) == Some(h));
    assert(spec_hex_digit_val(hex_digit_char(l)) == Some(l));
    assert(h * 16 + l == b as int);
}

// ---------------------------------------------------------------------------
// Marker keys.
// ---------------------------------------------------------------------------

/// The classification of a document key against the reserved marker keys.
#[derive(Debug, Clone, Copy, PartialEq, Eq, Structural)]
pub enum Marker {
    /// `$numberInt`: a 32-bit signed integer as a decimal string.
    NumberInt,
    /// `$numberLong`: a 64-bit signed integer as a decimal string.
    NumberLong,
    /// `$numberUInt32`: a 32-bit unsigned integer as a decimal string.
    NumberUInt32,
    /// `$numberUInt64`: a 64-bit unsigned integer as a decimal string.
    NumberUInt64,
    /// `$numberDouble`: a named special value, else a 64-bit signed integer.
    NumberDouble,
    /// `$binary`: a structured body holding base64 bytes and a hex subtype.
    Binary,
    /// `$timestamp`: a structured `{t, i}` body.
    Timestamp,
    /// `$date`: a structured datetime body.
    Date,
    /// `$numberDecimal`: always rejected as unsupported.
    NumberDecimal,
    /// `$numberDecimalBytes`: a raw 16-byte decimal payload.
    NumberDecimalBytes,
    /// Any other key: the document is an ordinary document.
    Plain,
}

/// Classify a key against the reserved marker keys.
pub open spec fn spec_marker_of(k: Seq<char>) -> Marker {
    if k == "$numberInt"@ {
        Marker::NumberInt
    } else if k == "$numberLong"@ {
        Marker::NumberLong
    } else if k == "$numberUInt32"@ {
        Marker::NumberUInt32
    } else if k == "$numberUInt64"@ {
        Marker::NumberUInt64
    } else if k == "$numberDouble"@ {
        Marker::NumberDouble
    } else if k == "$binary"@ {
        Marker::Binary
    } else if k == "$timestamp"@ {
        Marker::Timestamp
    } else if k == "$date"@ {
        Marker::Date
    } else if k == "$numberDecimal"@ {
        Marker::NumberDecimal
    } else if k == "$numberDecimalBytes"@ {
        Marker::NumberDecimalBytes
    } else {
        Marker::Plain
    }
}

/// Whether `k` is one of the reserved marker keys.
pub open spec fn is_marker_key(k: Seq<char>) -> bool {
    spec_marker_of(k) != Marker::Plain
}

/// Classify a key against the reserved marker keys.
pub fn marker_of(k: &str) -> (m: Marker)
    ensures
        m == spec_marker_of(k@),
{
    let ks = k.to_owned();
    if ks == "$numberInt".to_owned() {
        Marker::NumberInt
    } else if ks == "$numberLong".to_owned() {
        Marker::NumberLong
    } else if ks == "$numberUInt32".to_owned() {
        Marker::NumberUInt32
    } else if ks == "$numberUInt64".to_owned() {
        Marker::NumberUInt64
    } else if ks == "$numberDouble".to_owned() {
        Marker::NumberDouble
    } else if ks == "$binary".to_owned() {
        Marker::Binary
    } else if ks == "$timestamp".to_owned() {
        Marker::Timestamp
    } else if ks == "$date".to_owned() {
        Marker::Date
    } else if ks == "$numberDecimal".to_owned() {
        Marker::NumberDecimal
    } else if ks == "$numberDecimalBytes".to_owned() {
        Marker::NumberDecimalBytes
    } else {
        Marker::Plain
    }
}

// ---------------------------------------------------------------------------
// Reading plain values out of body documents.
// ---------------------------------------------------------------------------

/// What requesting a string from a stored value yields.
pub open spec fn spec_as_string(v: SpecBson) -> Result<Seq<char>, ErrorKind> {
    match v {
        SpecBson::String(s) => Ok(s),
        _ => Err(ErrorKind::InvalidType),
    }
}

/// What requesting a `u32` from a stored value yields: any stored integer
/// variant in range qualifies, out-of-range content is an invalid value.
pub open spec fn spec_as_u32(v: SpecBson) -> Result<u32, ErrorKind> {
    match v {
        SpecBson::Int32(i) => if i >= 0 {
            Ok(i as u32)
        } else {
            Err(ErrorKind::InvalidValue)
        },
        SpecBson::Int64(i) => if 0 <= i <= u32::MAX {
            Ok(i as u32)
        } else {
            Err(ErrorKind::InvalidValue)
        },
        SpecBson::UInt32(u) => Ok(u),
        SpecBson::UInt64(u) => if u <= u32::MAX {
            Ok(u as u32)
        } else {
            Err(ErrorKind::InvalidValue)
        },
        _ => Err(ErrorKind::InvalidType),
    }
}

/// What requesting plain bytes from a stored value yields: generic binary
/// hands its bytes over, a string hands its UTF-8 bytes over.
pub open spec fn spec_as_bytes(v: SpecBson) -> Result<Seq<u8>, ErrorKind> {
    match v {
        SpecBson::Binary(st, b) => if st == BINARY_SUBTYPE_GENERIC {
            Ok(b)
        } else {
            Err(ErrorKind::InvalidType)
        },
        SpecBson::String(s) => Ok(vstd::utf8::encode_utf8(s)),
        _ => Err(ErrorKind::InvalidType),
    }
}

/// Request a string from a stored value.
pub fn as_string_value(v: Bson) -> (r: Result<String, Error>)
    ensures
        match r {
            Ok(s) => spec_as_string(v@) == Ok::<Seq<char>, ErrorKind>(s@),
            Err(e) => spec_as_string(v@) == Err::<Seq<char>, ErrorKind>(e.kind()),
        },
{
    match v {
        Bson::String(s) => Ok(s),
        other => Err(
            Error::InvalidType { expected: "a string".to_owned(), found: other.kind_name() },
        ),
    }
}

/// Request a `u32` from a stored value.
pub fn as_u32_value(v: &Bson) -> (r: Result<u32, Error>)
    ensures
        match r {
            Ok(u) => spec_as_u32(v@) == Ok::<u32, ErrorKind>(u),
            Err(e) => spec_as_u32(v@) == Err::<u32, ErrorKind>(e.kind()),
        },
{
    match v {
        Bson::Int32(i) => {
            if *i >= 0 {
                Ok(*i as u32)
            } else {
                Err(Error::InvalidValue {
                    expected: "an unsigned 32-bit integer".to_owned(),
                    found: "a negative integer".to_owned(),
                })
            }
        }
        Bson::Int64(i) => {
            if 0 <= *i && *i <= 4294967295 {
                Ok(*i as u32)
            } else {
                Err(Error::InvalidValue {
                    expected: "an unsigned 32-bit integer".to_owned(),
                    found: "an out-of-range integer".to_owned(),
                })
            }
        }
        Bson::UInt32(u) => Ok(*u),
        Bson::UInt64(u) => {
            if *u <= 4294967295 {
                Ok(*u as u32)
            } else {
                Err(Error::InvalidValue {
                    expected: "an unsigned 32-bit integer".to_owned(),
                    found: "an out-of-range integer".to_owned(),
                })
            }
        }
        other => Err(Error::InvalidType {
            expected: "an unsigned 32-bit integer".to_owned(),
            found: other.kind_name(),
        }),
    }
}

/// Request plain bytes from a stored value.
pub fn as_bytes_value(v: Bson) -> (r: Result<Vec<u8>, Error>)
    ensures
        match r {
            Ok(b) => spec_as_bytes(v@) == Ok::<Seq<u8>, ErrorKind>(b@),
            Err(e) => spec_as_bytes(v@) == Err::<Seq<u8>, ErrorKind>(e.kind()),
        },
{
    match v {
        Bson::Binary(bin) => {
            if bin.subtype == BINARY_SUBTYPE_GENERIC {
                Ok(bin.bytes)
            } else {
                Err(Error::InvalidType {
                    expected: "plain bytes".to_owned(),
                    found: "a non-generic binary".to_owned(),
                })
            }
        }
        Bson::String(s) => Ok(s.as_str().as_bytes_vec()),
        other => Err(
            Error::InvalidType { expected: "plain bytes".to_owned(), found: other.kind_name() },
        ),
    }
}

// ---------------------------------------------------------------------------
// Structured marker bodies.
// ---------------------------------------------------------------------------

/// What parsing a `$binary` body yields: the subtype and the decoded bytes.
/// The body must be a document with a `base64` string and a two-digit
/// hexadecimal `subType` string.
pub open spec fn spec_parse_binary_body(v: SpecBson) -> Result<(u8, Seq<u8>), ErrorKind> {
    match v {
        SpecBson::Document(es) => match (
            spec_doc_get(es, "base64"@),
            spec_doc_get(es, "subType"@),
        ) {
            (Some(SpecBson::String(s)), Some(SpecBson::String(h))) => match (
                b64_decode_of(s),
                spec_parse_hex_byte(h),
            ) {
                (Some(bytes), Some(st)) => Ok((st, bytes)),
                _ => Err(ErrorKind::Custom),
            },
            _ => Err(ErrorKind::Custom),
        },
        _ => Err(ErrorKind::InvalidType),
    }
}

/// What parsing a `$timestamp` body yields: the `t` and `i` fields as `u32`.
pub open spec fn spec_parse_timestamp_body(v: SpecBson) -> Result<(u32, u32), ErrorKind> {
    match v {
        SpecBson::Document(es) => match (spec_doc_get(es, "t"@), spec_doc_get(es, "i"@)) {
            (Some(tv), Some(iv)) => match (spec_as_u32(tv), spec_as_u32(iv)) {
                (Ok(t), Ok(i)) => Ok((t, i)),
                (Err(k), _) => Err(k),
                (_, Err(k)) => Err(k),
            },
            _ => Err(ErrorKind::Custom),
        },
        _ => Err(ErrorKind::InvalidType),
    }
}

/// What parsing a `$date` body yields: the millisecond count carried as a
/// `$numberLong` decimal string.
pub open spec fn spec_parse_datetime_body(v: SpecBson) -> Result<i64, ErrorKind> {
    match v {
        SpecBson::Document(es) => match spec_doc_get(es, "$numberLong"@) {
            Some(SpecBson::String(s)) => match spec_parse_i64(s) {
                Some(ms) => Ok(ms),
                None => Err(ErrorKind::InvalidValue),
            },
            Some(_) => Err(ErrorKind::InvalidType),
            None => Err(ErrorKind::Custom),
        },
        _ => Err(ErrorKind::InvalidType),
    }
}

/// What parsing a `$numberDecimalBytes` body yields: exactly 16 raw bytes.
pub open spec fn spec_parse_decimal_bytes(v: SpecBson) -> Result<Seq<u8>, ErrorKind> {
    match spec_as_bytes(v) {
        Ok(b) => if b.len() == 16 {
            Ok(b)
        } else {
            Err(ErrorKind::InvalidLength)
        },
        Err(k) => Err(k),
    }
}

/// Parse a `$binary` body document into a [`Binary`].
#[verifier::rlimit(100)]
#[verifier::spinoff_prover]
pub fn parse_binary_body(v: Bson) -> (r: Result<Binary, Error>)
    ensures
        match r {
            Ok(bin) => spec_parse_binary_body(v@) == Ok::<(u8, Seq<u8>), ErrorKind>(
                (bin.subtype, bin.bytes@),
            ),
            Err(e) => spec_parse_binary_body(v@) matches Err(k) && k == e.kind(),
        },
{
    let ghost dv = v@;
    let doc = match v {
        Bson::Document(doc) => doc,
        other => {
            return Err(Error::InvalidType {
                expected: "a binary body document".to_owned(),
                found: other.kind_name(),
            });
        }
    };
    let b64 = match doc.get("base64") {
        Some(Bson::String(s)) => s.clone(),
        _ => {
            proof {
                assert(spec_parse_binary_body(dv) == Err::<(u8, Seq<u8>), ErrorKind>(
                    ErrorKind::Custom,
                ));
            }
            return Err(Error::Custom {
                message: "binary body needs a base64 string field".to_owned(),
            });
        }
    };
    proof {
        assert(spec_doc_get(doc@, "base64"@) == Some(SpecBson::String(b64@)));
    }
    let sub = match doc.get("subType") {
        Some(Bson::String(s)) => s.clone(),
        _ => {
            proof {
                assert(spec_parse_binary_body(dv) == Err::<(u8, Seq<u8>), ErrorKind>(
                    ErrorKind::Custom,
                ));
            }
            return Err(Error::Custom {
                message: "binary body needs a subType hex string field".to_owned(),
            });
        }
    };
    proof {
        assert(spec_doc_get(doc@, "subType"@) == Some(SpecBson::String(sub@)));
    }
    let bytes = match base64_decode(b64.as_str()) {
        Some(bytes) => bytes,
        None => {
            proof {
                assert(spec_parse_binary_body(dv) == Err::<(u8, Seq<u8>), ErrorKind>(
                    ErrorKind::Custom,
                ));
            }
            let mut m = "malformed base64 in binary body: ".to_owned();
            m.append(b64.as_str());
            return Err(Error::Custom { message: m });
        }
    };
    let subtype = match parse_hex_byte(sub.as_str()) {
        Some(subtype) => subtype,
        None => {
            proof {
                assert(spec_parse_binary_body(dv) == Err::<(u8, Seq<u8>), ErrorKind>(
                    ErrorKind::Custom,
                ));
            }
            let mut m = "malformed hexadecimal subtype in binary body: ".to_owned();
            m.append(sub.as_str());
            return Err(Error::Custom { message: m });
        }
    };
    proof {
        assert(spec_parse_binary_body(dv) == Ok::<(u8, Seq<u8>), ErrorKind>((subtype, bytes@)));
    }
    Ok(Binary { subtype, bytes })
}

/// Parse a `$timestamp` body document into a [`Timestamp`].
pub fn parse_timestamp_body(v: Bson) -> (r: Result<Timestamp, Error>)
    ensures
        match r {
            Ok(ts) => spec_parse_timestamp_body(v@) == Ok::<(u32, u32), ErrorKind>(
                (ts.time, ts.increment),
            ),
            Err(e) => spec_parse_timestamp_body(v@) matches Err(k) && k == e.kind(),
        },
{
    let doc = match v {
        Bson::Document(doc) => doc,
        other => {
            return Err(Error::InvalidType {
                expected: "a timestamp body document".to_owned(),
                found: other.kind_name(),
            });
        }
    };
    let tv = match doc.get("t") {
        Some(tv) => tv,
        None => {
            return Err(Error::Custom {
                message: "timestamp body needs a t field".to_owned(),
            });
        }
    };
    let iv = match doc.get("i") {
        Some(iv) => iv,
        None => {
            return Err(Error::Custom {
                message: "timestamp body needs an i field".to_owned(),
            });
        }
    };
    let time = as_u32_value(tv)?;
    let increment = as_u32_value(iv)?;
    Ok(Timestamp { time, increment })
}

/// Parse a `$date` body document into a [`DateTime`].
pub fn parse_datetime_body(v: Bson) -> (r: Result<DateTime, Error>)
    ensures
        match r {
            Ok(dt) => spec_parse_datetime_body(v@) == Ok::<i64, ErrorKind>(dt.millis),
            Err(e) => spec_parse_datetime_body(v@) matches Err(k) && k == e.kind(),
        },
{
    let doc = match v {
        Bson::Document(doc) => doc,
        other => {
            return Err(Error::InvalidType {
                expected: "a datetime body document".to_owned(),
                found: other.kind_name(),
            });
        }
    };
    match doc.get("$numberLong") {
        Some(Bson::String(s)) => match parse_i64_str(s.as_str()) {
            Some(ms) => Ok(DateTime { millis: ms }),
            None => {
                let mut m = "malformed millisecond count: ".to_owned();
                m.append(s.as_str());
                Err(Error::InvalidValue {
                    expected: "a 64-bit signed integer as a string".to_owned(),
                    found: m,
                })
            }
        },
        Some(other) => Err(Error::InvalidType {
            expected: "a millisecond count string".to_owned(),
            found: other.kind_name(),
        }),
        None => Err(Error::Custom {
            message: "datetime body needs a $numberLong field".to_owned(),
        }),
    }
}

/// Parse a `$numberDecimalBytes` body into a [`Decimal128`].
pub fn parse_decimal_bytes(v: Bson) -> (r: Result<Decimal128, Error>)
    ensures
        match r {
            Ok(d) => spec_parse_decimal_bytes(v@) == Ok::<Seq<u8>, ErrorKind>(d.bytes@),
            Err(e) => spec_parse_decimal_bytes(v@) matches Err(k) && k == e.kind(),
        },
{
    let bytes = as_bytes_value(v)?;
    if bytes.len() != 16 {
        return Err(Error::InvalidLength { expected: 16, found: bytes.len() });
    }
    let mut arr: [u8; 16] = [0; 16];
    let mut i: usize = 0;
    while i < 16
        invariant
            i <= 16,
            bytes@.len() == 16,
            arr@.len() == 16,
            forall|j: int| 0 <= j < i ==> arr@[j] == bytes@[j],
        decreases 16 - i,
    {
        arr[i] = bytes[i];
        i += 1;
    }
    proof {
        assert(arr@ =~= bytes@);
    }
    Ok(Decimal128 { bytes: arr })
}

// ---------------------------------------------------------------------------
// Canonical one-key fallback documents.
// ---------------------------------------------------------------------------

/// Whether the bridge re-expresses this value as a one-key extended-JSON
/// document when it is not dispatched natively.
pub open spec fn spec_has_extended_form(v: SpecBson) -> bool {
    match v {
        SpecBson::Binary(..) => true,
        SpecBson::DateTime(..) => true,
        SpecBson::Timestamp(..) => true,
        SpecBson::Decimal128(..) => true,
        _ => false,
    }
}

/// The entries of the canonical one-key extended-JSON document of `v`.
pub open spec fn spec_extended_entries(v: SpecBson) -> Seq<(Seq<char>, SpecBson)> {
    match v {
        SpecBson::Binary(st, b) => seq![
            (
                "$binary"@,
                SpecBson::Document(
                    seq![
                        ("base64"@, SpecBson::String(b64_of(b))),
                        ("subType"@, SpecBson::String(spec_hex_byte(st))),
                    ],
                ),
            ),
        ],
        SpecBson::DateTime(ms) => seq![
            (
                "$date"@,
                SpecBson::Document(
                    seq![("$numberLong"@, SpecBson::String(spec_i64_to_dec(ms)))],
                ),
            ),
        ],
        SpecBson::Timestamp(t, i) => seq![
            (
                "$timestamp"@,
                SpecBson::Document(
                    seq![("t"@, SpecBson::UInt32(t)), ("i"@, SpecBson::UInt32(i))],
                ),
            ),
        ],
        SpecBson::Decimal128(b) => seq![
            ("$numberDecimalBytes"@, SpecBson::Binary(BINARY_SUBTYPE_GENERIC, b)),
        ],
        _ => Seq::empty(),
    }
}

impl Bson {
    /// Re-express a binary-only value as its canonical one-key extended-JSON
    /// fallback document.
    pub fn into_extended_document(self) -> (r: Document)
        requires
            spec_has_extended_form(self@),
        ensures
            r@ == spec_extended_entries(self@),
    {
        match self {
            Bson::Binary(bin) => {
                let ghost st = bin.subtype;
                let ghost bb = bin.bytes@;
                let b64 = base64_encode(bin.bytes.as_slice());
                let sub = hex_encode_byte(bin.subtype);
                let mut body: Vec<(String, Bson)> = Vec::new();
                body.push(("base64".to_owned(), Bson::String(b64)));
                body.push(("subType".to_owned(), Bson::String(sub)));
                let inner = Document::from_entries(body);
                proof {
                    assert(inner@ =~= seq![
                        ("base64"@, SpecBson::String(b64_of(bb))),
                        ("subType"@, SpecBson::String(spec_hex_byte(st))),
                    ]);
                }
                let ghost iv = inner@;
                let mut outer: Vec<(String, Bson)> = Vec::new();
                outer.push(("$binary".to_owned(), Bson::Document(inner)));
                let r = Document::from_entries(outer);
                proof {
                    assert(r@[0].1 == SpecBson::Document(iv));
                    assert(r@ =~= spec_extended_entries(SpecBson::Binary(st, bb)));
                }
                r
            }
            Bson::DateTime(dt) => {
                let ms = i64_to_dec_string(dt.millis);
                let mut body: Vec<(String, Bson)> = Vec::new();
                body.push(("$numberLong".to_owned(), Bson::String(ms)));
                let inner = Document::from_entries(body);
                proof {
                    assert(inner@ =~= seq![
                        ("$numberLong"@, SpecBson::String(spec_i64_to_dec(dt.millis))),
                    ]);
                }
                let ghost iv = inner@;
                let mut outer: Vec<(String, Bson)> = Vec::new();
                outer.push(("$date".to_owned(), Bson::Document(inner)));
                let r = Document::from_entries(outer);
                proof {
                    assert(r@[0].1 == SpecBson::Document(iv));
                    assert(r@ =~= spec_extended_entries(SpecBson::DateTime(dt.millis)));
                }
                r
            }
            Bson::Timestamp(ts) => {
                let mut body: Vec<(String, Bson)> = Vec::new();
                body.push(("t".to_owned(), Bson::UInt32(ts.time)));
                body.push(("i".to_owned(), Bson::UInt32(ts.increment)));
                let inner = Document::from_entries(body);
                proof {
                    assert(inner@ =~= seq![
                        ("t"@, SpecBson::UInt32(ts.time)),
                        ("i"@, SpecBson::UInt32(ts.increment)),
                    ]);
                }
                let ghost iv = inner@;
                let mut outer: Vec<(String, Bson)> = Vec::new();
                outer.push(("$timestamp".to_owned(), Bson::Document(inner)));
                let r = Document::from_entries(outer);
                proof {
                    assert(r@[0].1 == SpecBson::Document(iv));
                    assert(r@ =~= spec_extended_entries(
                        SpecBson::Timestamp(ts.time, ts.increment),
                    ));
                }
                r
            }
            Bson::Decimal128(d) => {
                let mut bytes: Vec<u8> = Vec::new();
                let mut i: usize = 0;
                while i < 16
                    invariant
                        i <= 16,
                        bytes@.len() == i,
                        forall|j: int| 0 <= j < i ==> bytes@[j] == d.bytes@[j],
                    decreases 16 - i,
                {
                    bytes.push(d.bytes[i]);
                    i += 1;
                }
                let mut outer: Vec<(String, Bson)> = Vec::new();
                outer.push((
                    "$numberDecimalBytes".to_owned(),
                    Bson::Binary(Binary { subtype: BINARY_SUBTYPE_GENERIC, bytes }),
                ));
                let r = Document::from_entries(outer);
                proof {
                    assert(bytes@ =~= d.bytes@);
                    assert(r@ =~= spec_extended_entries(SpecBson::Decimal128(d.bytes@)));
                }
                r
            }
            _ => {
                proof {
                    assert(false);
                }
                Document::new()
            }
        }
    }
}

// ---------------------------------------------------------------------------
// Rendering an integer as a decimal string.
// ---------------------------------------------------------------------------

/// Relies on `String::from_utf8`: ASCII bytes decode to themselves.
#[verifier::external_body]
fn ascii_to_string(v: Vec<u8>) -> (r: String)
    requires
        forall|i: int| 0 <= i < v@.len() ==> v@[i] < 128,
    ensures
        r@.len() == v@.len(),
        forall|i: int| 0 <= i < v@.len() ==> r@[i] == v@[i] as char,
{
    match String::from_utf8(v) {
        Ok(s) => s,
        Err(_) => String::new(),
    }
}

/// Append the ASCII digits of `n` to `v`, most significant first.
fn push_digits(v: &mut Vec<u8>, n: u64)
    ensures
        final(v)@ == old(v)@ + spec_dec_digit_bytes(n as int),
    decreases n,
{
    if n >= 10 {
        push_digits(v, n / 10);
    }
    v.push(48 + (n % 10) as u8);
    proof {
        let digits = spec_dec_digit_bytes(n as int);
        if n < 10 {
            assert(digits =~= seq![(48 + n as int) as u8]);
        } else {
            assert(digits == spec_dec_digit_bytes(n as int / 10).push((48 + n as int % 10) as u8));
        }
        assert(final(v)@ =~= old(v)@ + digits);
    }
}

/// Render an `i64` in decimal, as its canonical extended-JSON string.
pub fn i64_to_dec_string(n: i64) -> (r: String)
    ensures
        r@ == spec_i64_to_dec(n),
{
    let mut bytes: Vec<u8> = Vec::new();
    let mag: u64 = if n < 0 {
        bytes.push(45);
        (-(n as i128)) as u64
    } else {
        n as u64
    };
    let ghost sign: Seq<u8> = bytes@;
    push_digits(&mut bytes, mag);
    proof {
        lemma_dec_digit_bytes_chars(mag as int);
        let dbytes = spec_dec_digit_bytes(mag as int);
        assert(bytes@ == sign + dbytes);
        assert forall|i: int| 0 <= i < bytes@.len() implies bytes@[i] < 128 by {
            if i < sign.len() {
                assert(bytes@[i] == 45);
            } else {
                assert(bytes@[i] == dbytes[i - sign.len()]);
            }
        }
    }
    let r = ascii_to_string(bytes);
    proof {
        let s = spec_i64_to_dec(n);
        let dbytes = spec_dec_digit_bytes(mag as int);
        let digits = spec_dec_digits_of(mag as int);
        lemma_dec_digit_bytes_chars(mag as int);
        assert forall|i: int| 0 <= i < s.len() implies r@[i] == s[i] by {
            assert(r@[i] == bytes@[i] as char);
            if n < 0 {
                assert(s == seq!['-'] + digits);
                if i == 0 {
                    assert(bytes@[0] == 45);
                    assert(s[0] == '-');
                    assert((45 as u8) as char == '-');
                } else {
                    assert(bytes@[i] == dbytes[i - 1]);
                    assert(s[i] == digits[i - 1]);
                    assert(dbytes[i - 1] as char == digits[i - 1]);
                }
            } else {
                assert(s == digits);
                assert(bytes@[i] == dbytes[i]);
                assert(dbytes[i] as char == digits[i]);
            }
        }
        assert(r@ =~= s);
    }
    r
}

} // verus!
