//! The zero-copy raw view: lifetime-bound borrows over an encoded buffer
//! shaped `<4-byte little-endian length><element*><0x00 terminator>`, each
//! element `<type-tag byte><NUL-terminated name><value bytes>`.
//!
//! Construction validates the outer length and the trailing terminator
//! eagerly; elements are parsed lazily, one at a time. The total recursive
//! projection to the owned tree aborts at the first structural fault.

use vstd::bytes::spec_u32_from_le_bytes;
use vstd::bytes::spec_u64_from_le_bytes;
use vstd::bytes::u32_from_le_bytes;
use vstd::bytes::u64_from_le_bytes;
use vstd::prelude::*;
use vstd::slice::slice_index_get;
use vstd::slice::slice_subrange;
use vstd::slice::slice_to_vec;
use vstd::string::StringExecFns;

use crate::error::Error;
use crate::error::ErrorKind;
use crate::extjson::b64_of;
use crate::extjson::spec_hex_byte;
use crate::value::bviews;
use crate::value::eviews;
use crate::value::Binary;
use crate::value::Bson;
use crate::value::DateTime;
use crate::value::Decimal128;
use crate::value::Document;
use crate::value::SpecBson;
use crate::value::Timestamp;
use crate::value::BINARY_SUBTYPE_GENERIC;

verus! {

// ---------------------------------------------------------------------------
// The wire format, mathematically.
// ---------------------------------------------------------------------------

/// What `core::str::from_utf8` yields on `b`: the decoded characters, or
/// nothing when `b` is not valid UTF-8.
pub uninterp spec fn utf8_decode_of(b: Seq<u8>) -> Option<Seq<char>>;

/// Relies on `core::str::from_utf8`: strict UTF-8 validation of the bytes.
#[verifier::external_body]
fn bytes_to_str(b: &[u8]) -> (r: Option<&str>)
    ensures
        match r {
            Some(s) => utf8_decode_of(b@) == Some(s@),
            None => utf8_decode_of(b@) is None,
        },
{
    core::str::from_utf8(b).ok()
}

/// The eager header validation: at least five bytes, the leading 4-byte
/// little-endian length equal to the buffer length, and a trailing zero.
pub open spec fn doc_header_ok(d: Seq<u8>) -> bool {
    &&& d.len() >= 5
    &&& d.len() <= 0x7FFFFFFF
    &&& spec_u32_from_le_bytes(d.subrange(0, 4)) as int == d.len()
    &&& d[d.len() - 1] == 0
}

/// The first position at or after `pos` holding a zero byte, if any.
pub open spec fn spec_find_nul(d: Seq<u8>, pos: int) -> Option<int>
    decreases d.len() - pos,
{
    if pos < 0 || pos >= d.len() {
        None
    } else if d[pos] == 0 {
        Some(pos)
    } else {
        spec_find_nul(d, pos + 1)
    }
}

/// The shallow view of one raw value: embedded documents and arrays stay
/// as their (header-validated) byte slices.
pub enum SpecRawBson {
    /// 64-bit binary floating point, as its bit pattern.
    Double(u64),
    /// UTF-8 string.
    String(Seq<char>),
    /// Array, as the bytes of its encoded document.
    Array(Seq<u8>),
    /// Embedded document, as its encoded bytes.
    Document(Seq<u8>),
    /// Boolean value.
    Boolean(bool),
    /// Null value.
    Null,
    /// 32-bit signed integer.
    Int32(i32),
    /// 64-bit signed integer.
    Int64(i64),
    /// 32-bit unsigned integer.
    UInt32(u32),
    /// 64-bit unsigned integer.
    UInt64(u64),
    /// Timestamp: time and increment.
    Timestamp(u32, u32),
    /// Binary data: subtype and bytes.
    Binary(u8, Seq<u8>),
    /// Point in time, as milliseconds since the epoch.
    DateTime(i64),
    /// 128-bit decimal, as its 16 bytes.
    Decimal128(Seq<u8>),
}

/// The bytes a shallow value still carries unparsed.
pub open spec fn srb_size(srb: SpecRawBson) -> nat {
    match srb {
        SpecRawBson::Array(b) => b.len(),
        SpecRawBson::Document(b) => b.len(),
        _ => 0,
    }
}

/// Parse the value bytes of one element, given its type tag: the shallow
/// value and the position just past it. Documents and arrays are only
/// header-validated here, never walked.
pub open spec fn spec_parse_value_shallow(tag: u8, d: Seq<u8>, start: int) -> Option<
    (SpecRawBson, int),
> {
    if tag == 1 {
        if start + 8 <= d.len() {
            Some(
                (
                    SpecRawBson::Double(spec_u64_from_le_bytes(d.subrange(start, start + 8))),
                    start + 8,
                ),
            )
        } else {
            None
        }
    } else if tag == 2 {
        if start + 4 <= d.len() {
            let l = spec_u32_from_le_bytes(d.subrange(start, start + 4)) as int;
            if 1 <= l <= d.len() - start - 4 && d[start + 4 + l - 1] == 0 {
                match utf8_decode_of(d.subrange(start + 4, start + 4 + l - 1)) {
                    Some(s) => Some((SpecRawBson::String(s), start + 4 + l)),
                    None => None,
                }
            } else {
                None
            }
        } else {
            None
        }
    } else if tag == 3 || tag == 4 {
        if 1 <= start && start + 4 <= d.len() {
            let l = spec_u32_from_le_bytes(d.subrange(start, start + 4)) as int;
            if 5 <= l <= d.len() - start && doc_header_ok(d.subrange(start, start + l)) {
                if tag == 3 {
                    Some((SpecRawBson::Document(d.subrange(start, start + l)), start + l))
                } else {
                    Some((SpecRawBson::Array(d.subrange(start, start + l)), start + l))
                }
            } else {
                None
            }
        } else {
            None
        }
    } else if tag == 5 {
        if start + 5 <= d.len() {
            let l = spec_u32_from_le_bytes(d.subrange(start, start + 4)) as int;
            if l <= d.len() - start - 5 {
                Some(
                    (
                        SpecRawBson::Binary(
                            d[start + 4],
                            d.subrange(start + 5, start + 5 + l),
                        ),
                        start + 5 + l,
                    ),
                )
            } else {
                None
            }
        } else {
            None
        }
    } else if tag == 8 {
        if start + 1 <= d.len() {
            if d[start] == 0 {
                Some((SpecRawBson::Boolean(false), start + 1))
            } else if d[start] == 1 {
                Some((SpecRawBson::Boolean(true), start + 1))
            } else {
                None
            }
        } else {
            None
        }
    } else if tag == 9 {
        if start + 8 <= d.len() {
            Some(
                (
                    SpecRawBson::DateTime(
                        spec_u64_from_le_bytes(d.subrange(start, start + 8)) as i64,
                    ),
                    start + 8,
                ),
            )
        } else {
            None
        }
    } else if tag == 10 {
        Some((SpecRawBson::Null, start))
    } else if tag == 16 {
        if start + 4 <= d.len() {
            Some(
                (
                    SpecRawBson::Int32(spec_u32_from_le_bytes(d.subrange(start, start + 4)) as i32),
                    start + 4,
                ),
            )
        } else {
            None
        }
    } else if tag == 17 {
        if start + 8 <= d.len() {
            Some(
                (
                    SpecRawBson::Timestamp(
                        spec_u32_from_le_bytes(d.subrange(start + 4, start + 8)),
                        spec_u32_from_le_bytes(d.subrange(start, start + 4)),
                    ),
                    start + 8,
                ),
            )
        } else {
            None
        }
    } else if tag == 18 {
        if start + 8 <= d.len() {
            Some(
                (
                    SpecRawBson::Int64(spec_u64_from_le_bytes(d.subrange(start, start + 8)) as i64),
                    start + 8,
                ),
            )
        } else {
            None
        }
    } else if tag == 19 {
        if start + 16 <= d.len() {
            Some((SpecRawBson::Decimal128(d.subrange(start, start + 16)), start + 16))
        } else {
            None
        }
    } else if tag == 20 {
        if start + 4 <= d.len() {
            Some(
                (
                    SpecRawBson::UInt32(spec_u32_from_le_bytes(d.subrange(start, start + 4))),
                    start + 4,
                ),
            )
        } else {
            None
        }
    } else if tag == 21 {
        if start + 8 <= d.len() {
            Some(
                (
                    SpecRawBson::UInt64(spec_u64_from_le_bytes(d.subrange(start, start + 8))),
                    start + 8,
                ),
            )
        } else {
            None
        }
    } else {
        None
    }
}

/// Parse one element at `pos`: the name, the shallow value, and the
/// position of the next element.
pub open spec fn spec_parse_element_shallow(d: Seq<u8>, pos: int) -> Option<
    (Seq<char>, SpecRawBson, int),
> {
    if 0 <= pos < d.len() && d[pos] != 0 {
        match spec_find_nul(d, pos + 1) {
            Some(nend) => match utf8_decode_of(d.subrange(pos + 1, nend)) {
                Some(name) => match spec_parse_value_shallow(d[pos], d, nend + 1) {
                    Some((v, next)) => Some((name, v, next)),
                    None => None,
                },
                None => None,
            },
            None => None,
        }
    } else {
        None
    }
}

/// The nul found lies at or past `pos`, inside the buffer.
proof fn lemma_find_nul_bounds(d: Seq<u8>, pos: int)
    ensures
        spec_find_nul(d, pos) matches Some(n) ==> pos <= n < d.len() && d[n] == 0,
    decreases d.len() - pos,
{
    if 0 <= pos < d.len() && d[pos] != 0 {
        lemma_find_nul_bounds(d, pos + 1);
    }
}

/// A parsed value ends within the buffer, past its start; embedded
/// documents and arrays are shorter than the whole buffer.
proof fn lemma_value_shallow_bounds(tag: u8, d: Seq<u8>, start: int)
    requires
        0 <= start <= d.len(),
        d.len() >= 1,
    ensures
        spec_parse_value_shallow(tag, d, start) matches Some((srb, next)) ==> start <= next
            <= d.len() && srb_size(srb) < d.len(),
{
}

/// A parsed element ends within the buffer, strictly past its start.
proof fn lemma_element_shallow_bounds(d: Seq<u8>, pos: int)
    ensures
        spec_parse_element_shallow(d, pos) matches Some((name, srb, next)) ==> pos + 2 <= next
            <= d.len() && srb_size(srb) < d.len(),
{
    if 0 <= pos < d.len() && d[pos] != 0 {
        lemma_find_nul_bounds(d, pos + 1);
        if spec_find_nul(d, pos + 1) is Some {
            let nend = spec_find_nul(d, pos + 1)->Some_0;
            lemma_value_shallow_bounds(d[pos], d, nend + 1);
        }
    }
}

/// The deep projection of a shallow value to the owned model: embedded
/// documents and arrays are walked recursively; the first fault aborts.
pub open spec fn spec_raw_deep(srb: SpecRawBson) -> Option<SpecBson>
    decreases srb_size(srb), 1int, 0int,
{
    match srb {
        SpecRawBson::Double(bits) => Some(SpecBson::Double(bits)),
        SpecRawBson::String(s) => Some(SpecBson::String(s)),
        SpecRawBson::Array(b) => if doc_header_ok(b) {
            match spec_parse_elements_deep(b, 4) {
                Some(es) => Some(SpecBson::Array(spec_entry_values(es))),
                None => None,
            }
        } else {
            None
        },
        SpecRawBson::Document(b) => if doc_header_ok(b) {
            match spec_parse_elements_deep(b, 4) {
                Some(es) => Some(SpecBson::Document(es)),
                None => None,
            }
        } else {
            None
        },
        SpecRawBson::Boolean(v) => Some(SpecBson::Boolean(v)),
        SpecRawBson::Null => Some(SpecBson::Null),
        SpecRawBson::Int32(v) => Some(SpecBson::Int32(v)),
        SpecRawBson::Int64(v) => Some(SpecBson::Int64(v)),
        SpecRawBson::UInt32(v) => Some(SpecBson::UInt32(v)),
        SpecRawBson::UInt64(v) => Some(SpecBson::UInt64(v)),
        SpecRawBson::Timestamp(t, i) => Some(SpecBson::Timestamp(t, i)),
        SpecRawBson::Binary(st, b) => Some(SpecBson::Binary(st, b)),
        SpecRawBson::DateTime(ms) => Some(SpecBson::DateTime(ms)),
        SpecRawBson::Decimal128(b) => Some(SpecBson::Decimal128(b)),
    }
}

/// The values of a sequence of entries, keys dropped.
pub open spec fn spec_entry_values(es: Seq<(Seq<char>, SpecBson)>) -> Seq<SpecBson> {
    Seq::new(es.len(), |i: int| es[i].1)
}

/// Walk the elements from `pos` to the terminator, projecting each value
/// deeply; the first structural fault yields nothing.
pub open spec fn spec_parse_elements_deep(d: Seq<u8>, pos: int) -> Option<
    Seq<(Seq<char>, SpecBson)>,
>
    decreases d.len(), 0int, d.len() - pos,
        via spec_parse_elements_deep_dec
{
    if pos < 0 || pos >= d.len() {
        None
    } else if d[pos] == 0 {
        if pos == d.len() - 1 {
            Some(Seq::empty())
        } else {
            None
        }
    } else {
        match spec_parse_element_shallow(d, pos) {
            Some((name, srb, next)) => match spec_raw_deep(srb) {
                Some(v) => match spec_parse_elements_deep(d, next) {
                    Some(rest) => Some(seq![(name, v)] + rest),
                    None => None,
                },
                None => None,
            },
            None => None,
        }
    }
}

#[via_fn]
proof fn spec_parse_elements_deep_dec(d: Seq<u8>, pos: int) {
    lemma_element_shallow_bounds(d, pos);
}

/// The entries of a whole encoded document: eager header validation, then
/// the element walk.
pub open spec fn spec_doc_entries(d: Seq<u8>) -> Option<Seq<(Seq<char>, SpecBson)>> {
    if doc_header_ok(d) {
        spec_parse_elements_deep(d, 4)
    } else {
        None
    }
}

// ---------------------------------------------------------------------------
// The borrowed view types.
// ---------------------------------------------------------------------------

/// The type tag of a raw value.
#[derive(Debug, Clone, Copy, PartialEq, Eq, Structural)]
pub enum ElementType {
    /// 64-bit binary floating point.
    Double,
    /// UTF-8 string.
    String,
    /// Embedded document.
    EmbeddedDocument,
    /// Array.
    Array,
    /// Binary data.
    Binary,
    /// Boolean value.
    Boolean,
    /// Null value.
    Null,
    /// 32-bit signed integer.
    Int32,
    /// Timestamp.
    Timestamp,
    /// 64-bit signed integer.
    Int64,
    /// 32-bit unsigned integer.
    UInt32,
    /// 64-bit unsigned integer.
    UInt64,
    /// UTC datetime.
    DateTime,
    /// 128-bit decimal floating point.
    Decimal128,
}

/// An immutable borrow over one encoded document.
#[derive(Debug, Clone, Copy, PartialEq)]
pub struct RawDocument<'a> {
    /// The encoded bytes, header-validated at construction.
    pub data: &'a [u8],
}

/// An immutable borrow over one encoded array (a document whose keys are
/// the decimal indices).
#[derive(Debug, Clone, Copy, PartialEq)]
pub struct RawArray<'a> {
    /// The underlying document view.
    pub doc: RawDocument<'a>,
}

/// A binary value referencing raw bytes stored elsewhere.
#[derive(Debug, Clone, Copy, PartialEq)]
pub struct RawBinary<'a> {
    /// The subtype of the binary value.
    pub subtype: u8,
    /// The binary bytes.
    pub bytes: &'a [u8],
}

/// A value referencing raw bytes stored elsewhere.
#[derive(Debug, Clone, Copy, PartialEq)]
pub enum RawBson<'a> {
    /// 64-bit binary floating point, carried as its bit pattern.
    Double(u64),
    /// UTF-8 string.
    String(&'a str),
    /// Array.
    Array(RawArray<'a>),
    /// Embedded document.
    Document(RawDocument<'a>),
    /// Boolean value.
    Boolean(bool),
    /// Null value.
    Null,
    /// 32-bit signed integer.
    Int32(i32),
    /// 64-bit signed integer.
    Int64(i64),
    /// 32-bit unsigned integer.
    UInt32(u32),
    /// 64-bit unsigned integer.
    UInt64(u64),
    /// Timestamp.
    Timestamp(Timestamp),
    /// Binary data.
    Binary(RawBinary<'a>),
    /// UTC datetime.
    DateTime(DateTime),
    /// 128-bit decimal floating point.
    Decimal128(Decimal128),
}

/// The shallow view of a borrowed raw value.
pub open spec fn rbview(rb: RawBson) -> SpecRawBson {
    match rb {
        RawBson::Double(bits) => SpecRawBson::Double(bits),
        RawBson::String(s) => SpecRawBson::String(s@),
        RawBson::Array(a) => SpecRawBson::Array(a.doc.data@),
        RawBson::Document(doc) => SpecRawBson::Document(doc.data@),
        RawBson::Boolean(v) => SpecRawBson::Boolean(v),
        RawBson::Null => SpecRawBson::Null,
        RawBson::Int32(v) => SpecRawBson::Int32(v),
        RawBson::Int64(v) => SpecRawBson::Int64(v),
        RawBson::UInt32(v) => SpecRawBson::UInt32(v),
        RawBson::UInt64(v) => SpecRawBson::UInt64(v),
        RawBson::Timestamp(ts) => SpecRawBson::Timestamp(ts.time, ts.increment),
        RawBson::Binary(b) => SpecRawBson::Binary(b.subtype, b.bytes@),
        RawBson::DateTime(dt) => SpecRawBson::DateTime(dt.millis),
        RawBson::Decimal128(d) => SpecRawBson::Decimal128(d.bytes@),
    }
}

/// The type tag of a shallow value.
pub open spec fn spec_element_type(srb: SpecRawBson) -> ElementType {
    match srb {
        SpecRawBson::Double(..) => ElementType::Double,
        SpecRawBson::String(..) => ElementType::String,
        SpecRawBson::Array(..) => ElementType::Array,
        SpecRawBson::Document(..) => ElementType::EmbeddedDocument,
        SpecRawBson::Boolean(..) => ElementType::Boolean,
        SpecRawBson::Null => ElementType::Null,
        SpecRawBson::Int32(..) => ElementType::Int32,
        SpecRawBson::Int64(..) => ElementType::Int64,
        SpecRawBson::UInt32(..) => ElementType::UInt32,
        SpecRawBson::UInt64(..) => ElementType::UInt64,
        SpecRawBson::Timestamp(..) => ElementType::Timestamp,
        SpecRawBson::Binary(..) => ElementType::Binary,
        SpecRawBson::DateTime(..) => ElementType::DateTime,
        SpecRawBson::Decimal128(..) => ElementType::Decimal128,
    }
}

impl<'a> RawBson<'a> {
    /// Get the [`ElementType`] of this value.
    pub fn element_type(&self) -> (r: ElementType)
        ensures
            r == spec_element_type(rbview(*self)),
    {
        match *self {
            RawBson::Double(..) => ElementType::Double,
            RawBson::String(..) => ElementType::String,
            RawBson::Array(..) => ElementType::Array,
            RawBson::Document(..) => ElementType::EmbeddedDocument,
            RawBson::Boolean(..) => ElementType::Boolean,
            RawBson::Null => ElementType::Null,
            RawBson::Int32(..) => ElementType::Int32,
            RawBson::Int64(..) => ElementType::Int64,
            RawBson::UInt32(..) => ElementType::UInt32,
            RawBson::UInt64(..) => ElementType::UInt64,
            RawBson::Timestamp(..) => ElementType::Timestamp,
            RawBson::Binary(..) => ElementType::Binary,
            RawBson::DateTime(..) => ElementType::DateTime,
            RawBson::Decimal128(..) => ElementType::Decimal128,
        }
    }

    /// The referenced double's bit pattern, if this is a double.
    pub fn as_f64_bits(self) -> (r: Option<u64>)
        ensures
            match rbview(self) {
                SpecRawBson::Double(bits) => r == Some(bits),
                _ => r is None,
            },
    {
        match self {
            RawBson::Double(d) => Some(d),
            _ => None,
        }
    }

    /// The referenced string, if this is a string.
    pub fn as_str(self) -> (r: Option<&'a str>)
        ensures
            match rbview(self) {
                SpecRawBson::String(s) => r matches Some(t) && t@ == s,
                _ => r is None,
            },
    {
        match self {
            RawBson::String(s) => Some(s),
            _ => None,
        }
    }

    /// The referenced array view, if this is an array.
    pub fn as_array(self) -> (r: Option<RawArray<'a>>)
        ensures
            match rbview(self) {
                SpecRawBson::Array(b) => r matches Some(a) && a.doc.data@ == b,
                _ => r is None,
            },
    {
        match self {
            RawBson::Array(v) => Some(v),
            _ => None,
        }
    }

    /// The referenced document view, if this is a document.
    pub fn as_document(self) -> (r: Option<RawDocument<'a>>)
        ensures
            match rbview(self) {
                SpecRawBson::Document(b) => r matches Some(doc) && doc.data@ == b,
                _ => r is None,
            },
    {
        match self {
            RawBson::Document(v) => Some(v),
            _ => None,
        }
    }

    /// The referenced boolean, if this is a boolean.
    pub fn as_bool(self) -> (r: Option<bool>)
        ensures
            match rbview(self) {
                SpecRawBson::Boolean(v) => r == Some(v),
                _ => r is None,
            },
    {
        match self {
            RawBson::Boolean(v) => Some(v),
            _ => None,
        }
    }

    /// The referenced 32-bit signed integer, if this is one.
    pub fn as_i32(self) -> (r: Option<i32>)
        ensures
            match rbview(self) {
                SpecRawBson::Int32(v) => r == Some(v),
                _ => r is None,
            },
    {
        match self {
            RawBson::Int32(v) => Some(v),
            _ => None,
        }
    }

    /// The referenced 64-bit signed integer, if this is one.
    pub fn as_i64(self) -> (r: Option<i64>)
        ensures
            match rbview(self) {
                SpecRawBson::Int64(v) => r == Some(v),
                _ => r is None,
            },
    {
        match self {
            RawBson::Int64(v) => Some(v),
            _ => None,
        }
    }

    /// The referenced binary, if this is a binary.
    pub fn as_binary(self) -> (r: Option<RawBinary<'a>>)
        ensures
            match rbview(self) {
                SpecRawBson::Binary(st, b) => r matches Some(bin) && bin.subtype == st
                    && bin.bytes@ == b,
                _ => r is None,
            },
    {
        match self {
            RawBson::Binary(v) => Some(v),
            _ => None,
        }
    }

    /// The referenced datetime, if this is a datetime.
    pub fn as_datetime(self) -> (r: Option<DateTime>)
        ensures
            match rbview(self) {
                SpecRawBson::DateTime(ms) => r matches Some(dt) && dt.millis == ms,
                _ => r is None,
            },
    {
        match self {
            RawBson::DateTime(v) => Some(v),
            _ => None,
        }
    }

    /// The referenced timestamp, if this is a timestamp.
    pub fn as_timestamp(self) -> (r: Option<Timestamp>)
        ensures
            match rbview(self) {
                SpecRawBson::Timestamp(t, i) => r matches Some(ts) && ts.time == t
                    && ts.increment == i,
                _ => r is None,
            },
    {
        match self {
            RawBson::Timestamp(ts) => Some(ts),
            _ => None,
        }
    }

    /// The null value, if this is null.
    pub fn as_null(self) -> (r: Option<()>)
        ensures
            match rbview(self) {
                SpecRawBson::Null => r is Some,
                _ => r is None,
            },
    {
        match self {
            RawBson::Null => Some(()),
            _ => None,
        }
    }
}

// ---------------------------------------------------------------------------
// Construction and lazy element access.
// ---------------------------------------------------------------------------

impl<'a> RawDocument<'a> {
    /// Validate the outer length and the trailing terminator eagerly and
    /// wrap the bytes; elements are left to lazy per-element parsing. A
    /// declared length different from the actual size, or a final byte
    /// other than zero, is a structural fault and yields no view.
    pub fn new(data: &'a [u8]) -> (r: Result<RawDocument<'a>, Error>)
        ensures
            match r {
                Ok(rd) => doc_header_ok(data@) && rd.data@ == data@,
                Err(e) => !doc_header_ok(data@) && e.kind() == ErrorKind::Custom,
            },
    {
        let n = data.len();
        if n < 5 {
            return Err(Error::Custom { message: "buffer too short for a document".to_owned() });
        }
        if n > 0x7FFFFFFF {
            return Err(Error::Custom { message: "buffer too long for a document".to_owned() });
        }
        let declared = u32_from_le_bytes(slice_subrange(data, 0, 4));
        if declared as usize != n {
            return Err(Error::Custom {
                message: "declared document length does not match the buffer".to_owned(),
            });
        }
        if *slice_index_get(data, n - 1) != 0 {
            return Err(Error::Custom {
                message: "document is not terminated by a zero byte".to_owned(),
            });
        }
        Ok(RawDocument { data })
    }

    /// Convert to the owned tree: total, recursive and fallible; the first
    /// structural fault aborts the whole conversion with no partial tree.
    pub fn to_document(&self) -> (r: Result<Document, Error>)
        ensures
            match spec_doc_entries(self.data@) {
                Some(es) => r matches Ok(doc) && doc@ == es,
                None => r matches Err(e) && e.kind() == ErrorKind::Custom,
            },
    {
        match convert_document(self) {
            Ok(doc) => Ok(doc),
            Err(e) => Err(e),
        }
    }
}

impl<'a> RawArray<'a> {
    /// View a document as an array: the keys are its decimal indices.
    pub fn from_doc(doc: RawDocument<'a>) -> (r: RawArray<'a>)
        ensures
            r.doc == doc,
    {
        RawArray { doc }
    }
}

/// Find the first zero byte at or after `start`.
fn find_nul(data: &[u8], start: usize) -> (r: Option<usize>)
    requires
        start <= data@.len(),
    ensures
        match r {
            Some(n) => spec_find_nul(data@, start as int) == Some(n as int),
            None => spec_find_nul(data@, start as int) is None,
        },
{
    let mut i = start;
    while i < data.len()
        invariant
            start <= i <= data@.len(),
            spec_find_nul(data@, start as int) == spec_find_nul(data@, i as int),
        decreases data@.len() - i,
    {
        if *slice_index_get(data, i) == 0 {
            return Some(i);
        }
        i += 1;
    }
    None
}

/// Parse the value bytes of one element at `start`, given its type tag.
/// Only the offered slice is touched; an embedded document or array is
/// revalidated as a header and handed out unwalked.
pub fn parse_value<'a>(tag: u8, data: &'a [u8], start: usize) -> (r: Result<
    (RawBson<'a>, usize),
    Error,
>)
    requires
        start <= data@.len(),
        data@.len() <= 0x7FFFFFFF,
    ensures
        match spec_parse_value_shallow(tag, data@, start as int) {
            Some((srb, next)) => r matches Ok((rb, n)) && rbview(rb) == srb && n == next,
            None => r matches Err(e) && e.kind() == ErrorKind::Custom,
        },
{
    let n = data.len();
    if tag == 1 {
        if start + 8 <= n {
            let bits = u64_from_le_bytes(slice_subrange(data, start, start + 8));
            Ok((RawBson::Double(bits), start + 8))
        } else {
            Err(Error::Custom { message: "truncated double".to_owned() })
        }
    } else if tag == 2 {
        if start + 4 <= n {
            let l = u32_from_le_bytes(slice_subrange(data, start, start + 4)) as usize;
            if 1 <= l && l <= n - start - 4 && *slice_index_get(data, start + 4 + l - 1) == 0 {
                let sb = slice_subrange(data, start + 4, start + 4 + l - 1);
                match bytes_to_str(sb) {
                    Some(s) => Ok((RawBson::String(s), start + 4 + l)),
                    None => Err(Error::Custom {
                        message: "string bytes are not valid UTF-8".to_owned(),
                    }),
                }
            } else {
                Err(Error::Custom { message: "malformed string length".to_owned() })
            }
        } else {
            Err(Error::Custom { message: "truncated string".to_owned() })
        }
    } else if tag == 3 || tag == 4 {
        if 1 <= start && start + 4 <= n {
            let l = u32_from_le_bytes(slice_subrange(data, start, start + 4)) as usize;
            if 5 <= l && l <= n - start {
                let sub = slice_subrange(data, start, start + l);
                match RawDocument::new(sub) {
                    Ok(doc) => {
                        if tag == 3 {
                            Ok((RawBson::Document(doc), start + l))
                        } else {
                            Ok((RawBson::Array(RawArray::from_doc(doc)), start + l))
                        }
                    }
                    Err(e) => Err(e),
                }
            } else {
                Err(Error::Custom { message: "malformed embedded document length".to_owned() })
            }
        } else {
            Err(Error::Custom { message: "truncated embedded document".to_owned() })
        }
    } else if tag == 5 {
        if start + 5 <= n {
            let l = u32_from_le_bytes(slice_subrange(data, start, start + 4)) as usize;
            if l <= n - start - 5 {
                let subtype = *slice_index_get(data, start + 4);
                let bytes = slice_subrange(data, start + 5, start + 5 + l);
                Ok((RawBson::Binary(RawBinary { subtype, bytes }), start + 5 + l))
            } else {
                Err(Error::Custom { message: "malformed binary length".to_owned() })
            }
        } else {
            Err(Error::Custom { message: "truncated binary".to_owned() })
        }
    } else if tag == 8 {
        if start + 1 <= n {
            let b = *slice_index_get(data, start);
            if b == 0 {
                Ok((RawBson::Boolean(false), start + 1))
            } else if b == 1 {
                Ok((RawBson::Boolean(true), start + 1))
            } else {
                Err(Error::Custom { message: "malformed boolean byte".to_owned() })
            }
        } else {
            Err(Error::Custom { message: "truncated boolean".to_owned() })
        }
    } else if tag == 9 {
        if start + 8 <= n {
            let bits = u64_from_le_bytes(slice_subrange(data, start, start + 8));
            Ok((RawBson::DateTime(DateTime { millis: bits as i64 }), start + 8))
        } else {
            Err(Error::Custom { message: "truncated datetime".to_owned() })
        }
    } else if tag == 10 {
        Ok((RawBson::Null, start))
    } else if tag == 16 {
        if start + 4 <= n {
            let u = u32_from_le_bytes(slice_subrange(data, start, start + 4));
            Ok((RawBson::Int32(u as i32), start + 4))
        } else {
            Err(Error::Custom { message: "truncated 32-bit integer".to_owned() })
        }
    } else if tag == 17 {
        if start + 8 <= n {
            let increment = u32_from_le_bytes(slice_subrange(data, start, start + 4));
            let time = u32_from_le_bytes(slice_subrange(data, start + 4, start + 8));
            Ok((RawBson::Timestamp(Timestamp { time, increment }), start + 8))
        } else {
            Err(Error::Custom { message: "truncated timestamp".to_owned() })
        }
    } else if tag == 18 {
        if start + 8 <= n {
            let bits = u64_from_le_bytes(slice_subrange(data, start, start + 8));
            Ok((RawBson::Int64(bits as i64), start + 8))
        } else {
            Err(Error::Custom { message: "truncated 64-bit integer".to_owned() })
        }
    } else if tag == 19 {
        if start + 16 <= n {
            let sub = slice_subrange(data, start, start + 16);
            let mut bytes: [u8; 16] = [0; 16];
            let mut i: usize = 0;
            while i < 16
                invariant
                    i <= 16,
                    sub@.len() == 16,
                    bytes@.len() == 16,
                    forall|j: int| 0 <= j < i ==> bytes@[j] == sub@[j],
                decreases 16 - i,
            {
                bytes[i] = *slice_index_get(sub, i);
                i += 1;
            }
            proof {
                assert(bytes@ =~= sub@);
            }
            Ok((RawBson::Decimal128(Decimal128 { bytes }), start + 16))
        } else {
            Err(Error::Custom { message: "truncated decimal".to_owned() })
        }
    } else if tag == 20 {
        if start + 4 <= n {
            let u = u32_from_le_bytes(slice_subrange(data, start, start + 4));
            Ok((RawBson::UInt32(u), start + 4))
        } else {
            Err(Error::Custom { message: "truncated 32-bit unsigned integer".to_owned() })
        }
    } else if tag == 21 {
        if start + 8 <= n {
            let u = u64_from_le_bytes(slice_subrange(data, start, start + 8));
            Ok((RawBson::UInt64(u), start + 8))
        } else {
            Err(Error::Custom { message: "truncated 64-bit unsigned integer".to_owned() })
        }
    } else {
        Err(Error::Custom { message: "unsupported element type tag".to_owned() })
    }
}

/// Parse one element at `pos`: its name, its shallow value, and the
/// position of the next element. This is the lazy access: exactly one
/// element is materialized, never its siblings.
pub fn parse_element<'a>(data: &'a [u8], pos: usize) -> (r: Result<
    (&'a str, RawBson<'a>, usize),
    Error,
>)
    requires
        pos < data@.len(),
        data@[pos as int] != 0,
        data@.len() <= 0x7FFFFFFF,
    ensures
        match spec_parse_element_shallow(data@, pos as int) {
            Some((name, srb, next)) => r matches Ok((s, rb, n)) && s@ == name && rbview(rb) == srb
                && n == next,
            None => r matches Err(e) && e.kind() == ErrorKind::Custom,
        },
{
    let tag = *slice_index_get(data, pos);
    let nend = match find_nul(data, pos + 1) {
        Some(nend) => nend,
        None => {
            return Err(Error::Custom {
                message: "element name is not terminated".to_owned(),
            });
        }
    };
    proof {
        lemma_find_nul_bounds(data@, pos + 1);
    }
    let name_bytes = slice_subrange(data, pos + 1, nend);
    let name = match bytes_to_str(name_bytes) {
        Some(name) => name,
        None => {
            return Err(Error::Custom {
                message: "element name is not valid UTF-8".to_owned(),
            });
        }
    };
    match parse_value(tag, data, nend + 1) {
        Ok((rb, next)) => Ok((name, rb, next)),
        Err(e) => Err(e),
    }
}

// ---------------------------------------------------------------------------
// The total raw-to-owned projection.
// ---------------------------------------------------------------------------

/// Convert a borrowed raw value to the owned tree; embedded documents and
/// arrays recurse element by element, the first fault aborting the whole
/// conversion.
impl Bson {
    /// The raw-to-owned projection of one value.
    pub fn try_from_raw(rb: RawBson<'_>) -> (r: Result<Bson, Error>)
        ensures
            match spec_raw_deep(rbview(rb)) {
                Some(w) => r matches Ok(b) && b@ == w,
                None => r matches Err(e) && e.kind() == ErrorKind::Custom,
            },
        decreases srb_size(rbview(rb)), 3int, 0int,
    {
        match rb {
            RawBson::Double(bits) => Ok(Bson::Double(bits)),
            RawBson::String(s) => Ok(Bson::String(s.to_owned())),
            RawBson::Array(a) => {
                let data = a.doc.data;
                if let Err(e) = check_header(data) {
                    return Err(e);
                }
                match convert_entries(data, 4, Vec::new()) {
                    Ok(entries) => {
                        let ghost es = spec_parse_elements_deep(data@, 4)->Some_0;
                        let mut values: Vec<Bson> = Vec::new();
                        let mut entries = entries;
                        let ghost evs = eviews(entries@);
                        proof {
                            assert(evs =~= es);
                        }
                        while entries.len() > 0
                            invariant
                                evs == es,
                                bviews(values@) =~= spec_entry_values(es).take(
                                    values@.len() as int,
                                ),
                                values@.len() + entries@.len() == es.len(),
                                forall|i: int|
                                    0 <= i < entries@.len() ==> (#[trigger] entries@[i].1)@
                                        == es[values@.len() + i].1,
                            decreases entries@.len(),
                        {
                            let (_, v) = entries.remove(0);
                            values.push(v);
                            proof {
                                assert(bviews(values@) =~= spec_entry_values(es).take(
                                    values@.len() as int,
                                ));
                            }
                        }
                        proof {
                            assert(spec_entry_values(es).take(es.len() as int) =~= spec_entry_values(
                                es,
                            ));
                        }
                        Ok(Bson::Array(values))
                    }
                    Err(e) => Err(e),
                }
            }
            RawBson::Document(doc) => {
                let data = doc.data;
                if let Err(e) = check_header(data) {
                    return Err(e);
                }
                match convert_entries(data, 4, Vec::new()) {
                    Ok(entries) => {
                        let ghost es = spec_parse_elements_deep(data@, 4)->Some_0;
                        let d = Document::from_entries(entries);
                        proof {
                            assert(d@ =~= es);
                        }
                        Ok(Bson::Document(d))
                    }
                    Err(e) => Err(e),
                }
            }
            RawBson::Boolean(v) => Ok(Bson::Boolean(v)),
            RawBson::Null => Ok(Bson::Null),
            RawBson::Int32(v) => Ok(Bson::Int32(v)),
            RawBson::Int64(v) => Ok(Bson::Int64(v)),
            RawBson::UInt32(v) => Ok(Bson::UInt32(v)),
            RawBson::UInt64(v) => Ok(Bson::UInt64(v)),
            RawBson::Timestamp(ts) => Ok(Bson::Timestamp(ts)),
            RawBson::Binary(bin) => Ok(Bson::Binary(Binary {
                subtype: bin.subtype,
                bytes: slice_to_vec(bin.bytes),
            })),
            RawBson::DateTime(dt) => Ok(Bson::DateTime(dt)),
            RawBson::Decimal128(d) => Ok(Bson::Decimal128(d)),
        }
    }
}

/// Re-check the eager header of an embedded slice.
fn check_header(data: &[u8]) -> (r: Result<(), Error>)
    ensures
        match r {
            Ok(_) => doc_header_ok(data@),
            Err(e) => !doc_header_ok(data@) && e.kind() == ErrorKind::Custom,
        },
{
    match RawDocument::new(data) {
        Ok(_) => Ok(()),
        Err(e) => Err(e),
    }
}

/// Walk the elements from `pos`, converting each value deeply and
/// appending the entries to `acc`, in order.
fn convert_entries(data: &[u8], pos: usize, acc: Vec<(String, Bson)>) -> (r: Result<
    Vec<(String, Bson)>,
    Error,
>)
    requires
        pos <= data@.len(),
        data@.len() <= 0x7FFFFFFF,
    ensures
        match spec_parse_elements_deep(data@, pos as int) {
            Some(es) => r matches Ok(v) && eviews(v@) == eviews(acc@) + es,
            None => r matches Err(e) && e.kind() == ErrorKind::Custom,
        },
    decreases data@.len(), 2int, data@.len() - pos,
{
    let ghost d = data@;
    if pos >= data.len() {
        return Err(Error::Custom { message: "element walk ran past the buffer".to_owned() });
    }
    let tag = *slice_index_get(data, pos);
    if tag == 0 {
        if pos == data.len() - 1 {
            proof {
                assert(eviews(acc@) + Seq::<(Seq<char>, SpecBson)>::empty() =~= eviews(acc@));
            }
            return Ok(acc);
        }
        return Err(Error::Custom {
            message: "terminator byte before the end of the document".to_owned(),
        });
    }
    let (name, rb, next) = match parse_element(data, pos) {
        Ok(t) => t,
        Err(e) => {
            return Err(e);
        }
    };
    proof {
        lemma_element_shallow_bounds(d, pos as int);
    }
    let b = match Bson::try_from_raw(rb) {
        Ok(b) => b,
        Err(e) => {
            return Err(e);
        }
    };
    let mut acc = acc;
    let ghost prev = acc@;
    acc.push((name.to_owned(), b));
    proof {
        assert(eviews(acc@) =~= eviews(prev).push((name@, b@)));
    }
    let r = convert_entries(data, next, acc);
    proof {
        if spec_parse_elements_deep(d, pos as int) is Some {
            let es = spec_parse_elements_deep(d, pos as int)->Some_0;
            let rest = spec_parse_elements_deep(d, next as int)->Some_0;
            assert(es == seq![(name@, b@)] + rest);
            assert(eviews(prev).push((name@, b@)) + rest =~= eviews(prev) + es);
        }
    }
    r
}

/// Build an owned document from a validly encoded buffer through the
/// generic path: validate, convert to the owned tree, and re-drive the
/// tree through the bridge with the value-model visitor.
pub fn decode_document_buffer(data: &[u8]) -> (r: Result<Document, Error>)
    ensures
        match spec_doc_entries(data@) {
            Some(es) => match crate::de::spec_decode(SpecBson::Document(es)) {
                Ok(w) => match w {
                    SpecBson::Document(out) => r matches Ok(doc) && doc@ == out,
                    _ => r is Err,
                },
                Err(k) => r matches Err(e) && e.kind() == k,
            },
            None => r matches Err(e) && e.kind() == ErrorKind::Custom,
        },
{
    let rd = match RawDocument::new(data) {
        Ok(rd) => rd,
        Err(e) => {
            return Err(e);
        }
    };
    let doc = match rd.to_document() {
        Ok(doc) => doc,
        Err(e) => {
            return Err(e);
        }
    };
    match Document::deserialize(crate::de::Deserializer::new(Bson::Document(doc))) {
        Ok(out) => Ok(out),
        Err(e) => Err(e),
    }
}

// ---------------------------------------------------------------------------
// The raw-input visitor.
// ---------------------------------------------------------------------------

/// The uniform promotion of every unsigned source width on the raw path:
/// a 64-bit unsigned value with identical magnitude.
pub fn convert_unsigned_to_signed_raw<'a>(value: u64) -> (r: RawBson<'a>)
    ensures
        rbview(r) == SpecRawBson::UInt64(value),
{
    RawBson::UInt64(value)
}

/// What a raw map access offers as the value under a reserved key.
pub enum RawMapValue<'a> {
    /// A borrowed byte slice.
    Bytes(&'a [u8]),
    /// A 64-bit signed integer.
    Int64(i64),
    /// A structured `{t, i}` timestamp body.
    TimestampBody(u32, u32),
    /// A structured binary body: borrowed bytes and a numeric subtype.
    BinaryBody {
        /// The binary bytes.
        bytes: &'a [u8],
        /// The numeric subtype.
        subtype: u8,
    },
}

/// The visitor building borrowed raw values from what a raw producer
/// offers. Its map handling supports only the restricted marker set a
/// borrowed view can represent; any other key is a hard error, never a
/// fallback to an ordinary map.
pub struct RawBsonVisitor;

impl RawBsonVisitor {
    /// A borrowed string offer.
    pub fn visit_borrowed_str<'a>(self, v: &'a str) -> (r: RawBson<'a>)
        ensures
            rbview(r) == SpecRawBson::String(v@),
    {
        RawBson::String(v)
    }

    /// A borrowed bytes offer becomes a generic-subtype binary.
    pub fn visit_borrowed_bytes<'a>(self, bytes: &'a [u8]) -> (r: RawBson<'a>)
        ensures
            rbview(r) == SpecRawBson::Binary(BINARY_SUBTYPE_GENERIC, bytes@),
    {
        RawBson::Binary(RawBinary { subtype: BINARY_SUBTYPE_GENERIC, bytes })
    }

    /// A signed 8-bit offer widens to a 32-bit signed integer.
    pub fn visit_i8<'a>(self, v: i8) -> (r: RawBson<'a>)
        ensures
            rbview(r) == SpecRawBson::Int32(v as i32),
    {
        RawBson::Int32(v as i32)
    }

    /// A signed 16-bit offer widens to a 32-bit signed integer.
    pub fn visit_i16<'a>(self, v: i16) -> (r: RawBson<'a>)
        ensures
            rbview(r) == SpecRawBson::Int32(v as i32),
    {
        RawBson::Int32(v as i32)
    }

    /// A signed 32-bit offer is kept directly.
    pub fn visit_i32<'a>(self, v: i32) -> (r: RawBson<'a>)
        ensures
            rbview(r) == SpecRawBson::Int32(v),
    {
        RawBson::Int32(v)
    }

    /// A signed 64-bit offer is kept directly.
    pub fn visit_i64<'a>(self, v: i64) -> (r: RawBson<'a>)
        ensures
            rbview(r) == SpecRawBson::Int64(v),
    {
        RawBson::Int64(v)
    }

    /// An unsigned 8-bit offer promotes uniformly to 64 bits.
    pub fn visit_u8<'a>(self, v: u8) -> (r: RawBson<'a>)
        ensures
            rbview(r) == SpecRawBson::UInt64(v as u64),
    {
        convert_unsigned_to_signed_raw(v as u64)
    }

    /// An unsigned 16-bit offer promotes uniformly to 64 bits.
    pub fn visit_u16<'a>(self, v: u16) -> (r: RawBson<'a>)
        ensures
            rbview(r) == SpecRawBson::UInt64(v as u64),
    {
        convert_unsigned_to_signed_raw(v as u64)
    }

    /// An unsigned 32-bit offer promotes uniformly to 64 bits.
    pub fn visit_u32<'a>(self, v: u32) -> (r: RawBson<'a>)
        ensures
            rbview(r) == SpecRawBson::UInt64(v as u64),
    {
        convert_unsigned_to_signed_raw(v as u64)
    }

    /// An unsigned 64-bit offer is kept with identical magnitude.
    pub fn visit_u64<'a>(self, v: u64) -> (r: RawBson<'a>)
        ensures
            rbview(r) == SpecRawBson::UInt64(v),
    {
        convert_unsigned_to_signed_raw(v)
    }

    /// A boolean offer.
    pub fn visit_bool<'a>(self, v: bool) -> (r: RawBson<'a>)
        ensures
            rbview(r) == SpecRawBson::Boolean(v),
    {
        RawBson::Boolean(v)
    }

    /// A double offer, as its bit pattern.
    pub fn visit_f64<'a>(self, bits: u64) -> (r: RawBson<'a>)
        ensures
            rbview(r) == SpecRawBson::Double(bits),
    {
        RawBson::Double(bits)
    }

    /// An absent-value offer decodes as null.
    pub fn visit_none<'a>(self) -> (r: RawBson<'a>)
        ensures
            rbview(r) == SpecRawBson::Null,
    {
        RawBson::Null
    }

    /// A unit offer decodes as null.
    pub fn visit_unit<'a>(self) -> (r: RawBson<'a>)
        ensures
            rbview(r) == SpecRawBson::Null,
    {
        RawBson::Null
    }

    /// A map offer: the restricted raw marker set, resolved on the first
    /// key. `$numberDecimalBytes` takes 16 raw bytes; `$binary` takes a
    /// borrowed structured body; `$date` takes a millisecond integer;
    /// `$timestamp` takes a `{t, i}` body; the two internal raw-newtype
    /// keys revalidate a byte slice as a nested document or array. Any
    /// other key is a hard error naming the key.
    pub fn visit_map<'a>(self, key: &str, value: RawMapValue<'a>) -> (r: Result<
        RawBson<'a>,
        Error,
    >)
        ensures
            key@ == "$numberDecimalBytes"@ ==> match value {
                RawMapValue::Bytes(b) => if b@.len() == 16 {
                    r matches Ok(rb) && rbview(rb) == SpecRawBson::Decimal128(b@)
                } else {
                    r matches Err(e) && e.kind() == ErrorKind::InvalidLength
                },
                _ => r matches Err(e) && e.kind() == ErrorKind::InvalidType,
            },
            key@ == "$binary"@ ==> match value {
                RawMapValue::BinaryBody { bytes, subtype } => r matches Ok(rb) && rbview(rb)
                    == SpecRawBson::Binary(subtype, bytes@),
                _ => r matches Err(e) && e.kind() == ErrorKind::InvalidType,
            },
            key@ == "$date"@ ==> match value {
                RawMapValue::Int64(ms) => r matches Ok(rb) && rbview(rb)
                    == SpecRawBson::DateTime(ms),
                _ => r matches Err(e) && e.kind() == ErrorKind::InvalidType,
            },
            key@ == "$timestamp"@ ==> match value {
                RawMapValue::TimestampBody(t, i) => r matches Ok(rb) && rbview(rb)
                    == SpecRawBson::Timestamp(t, i),
                _ => r matches Err(e) && e.kind() == ErrorKind::InvalidType,
            },
            key@ == "$__private__raw_document"@ ==> match value {
                RawMapValue::Bytes(b) => if doc_header_ok(b@) {
                    r matches Ok(rb) && rbview(rb) == SpecRawBson::Document(b@)
                } else {
                    r matches Err(e) && e.kind() == ErrorKind::Custom
                },
                _ => r matches Err(e) && e.kind() == ErrorKind::InvalidType,
            },
            key@ == "$__private__raw_array"@ ==> match value {
                RawMapValue::Bytes(b) => if doc_header_ok(b@) {
                    r matches Ok(rb) && rbview(rb) == SpecRawBson::Array(b@)
                } else {
                    r matches Err(e) && e.kind() == ErrorKind::Custom
                },
                _ => r matches Err(e) && e.kind() == ErrorKind::InvalidType,
            },
            key@ != "$numberDecimalBytes"@ && key@ != "$binary"@ && key@ != "$date"@ && key@
                != "$timestamp"@ && key@ != "$__private__raw_document"@ && key@
                != "$__private__raw_array"@ ==> (r matches Err(e) && e.kind()
                == ErrorKind::Custom),
    {
        proof {
            reveal_strlit("$numberDecimalBytes");
            reveal_strlit("$binary");
            reveal_strlit("$date");
            reveal_strlit("$timestamp");
            reveal_strlit("$__private__raw_document");
            reveal_strlit("$__private__raw_array");
            assert(("$numberDecimalBytes"@).len() == 19);
            assert(("$binary"@).len() == 7);
            assert(("$date"@).len() == 5);
            assert(("$timestamp"@).len() == 10);
            assert(("$__private__raw_document"@).len() == 24);
            assert(("$__private__raw_array"@).len() == 21);
        }
        let k = key.to_owned();
        if k == "$numberDecimalBytes".to_owned() {
            match value {
                RawMapValue::Bytes(b) => {
                    if b.len() != 16 {
                        return Err(Error::InvalidLength { expected: 16, found: b.len() });
                    }
                    let mut bytes: [u8; 16] = [0; 16];
                    let mut i: usize = 0;
                    while i < 16
                        invariant
                            i <= 16,
                            b@.len() == 16,
                            bytes@.len() == 16,
                            forall|j: int| 0 <= j < i ==> bytes@[j] == b@[j],
                        decreases 16 - i,
                    {
                        bytes[i] = *slice_index_get(b, i);
                        i += 1;
                    }
                    proof {
                        assert(bytes@ =~= b@);
                    }
                    Ok(RawBson::Decimal128(Decimal128 { bytes }))
                }
                _ => Err(Error::InvalidType {
                    expected: "a raw 16-byte decimal payload".to_owned(),
                    found: "another offer".to_owned(),
                }),
            }
        } else if k == "$binary".to_owned() {
            match value {
                RawMapValue::BinaryBody { bytes, subtype } => Ok(
                    RawBson::Binary(RawBinary { subtype, bytes }),
                ),
                _ => Err(Error::InvalidType {
                    expected: "a borrowed binary body".to_owned(),
                    found: "another offer".to_owned(),
                }),
            }
        } else if k == "$date".to_owned() {
            match value {
                RawMapValue::Int64(ms) => Ok(RawBson::DateTime(DateTime::from_millis(ms))),
                _ => Err(Error::InvalidType {
                    expected: "a millisecond integer".to_owned(),
                    found: "another offer".to_owned(),
                }),
            }
        } else if k == "$timestamp".to_owned() {
            match value {
                RawMapValue::TimestampBody(t, i) => Ok(
                    RawBson::Timestamp(Timestamp { time: t, increment: i }),
                ),
                _ => Err(Error::InvalidType {
                    expected: "a timestamp body".to_owned(),
                    found: "another offer".to_owned(),
                }),
            }
        } else if k == "$__private__raw_document".to_owned() {
            match value {
                RawMapValue::Bytes(b) => match RawDocument::new(b) {
                    Ok(doc) => Ok(RawBson::Document(doc)),
                    Err(e) => Err(e),
                },
                _ => Err(Error::InvalidType {
                    expected: "raw document bytes".to_owned(),
                    found: "another offer".to_owned(),
                }),
            }
        } else if k == "$__private__raw_array".to_owned() {
            match value {
                RawMapValue::Bytes(b) => match RawDocument::new(b) {
                    Ok(doc) => Ok(RawBson::Array(RawArray::from_doc(doc))),
                    Err(e) => Err(e),
                },
                _ => Err(Error::InvalidType {
                    expected: "raw array bytes".to_owned(),
                    found: "another offer".to_owned(),
                }),
            }
        } else {
            let mut m = "can't deserialize a raw value from map, key=".to_owned();
            m.append(key);
            Err(Error::Custom { message: m })
        }
    }
}

// ---------------------------------------------------------------------------
// The re-encoding adapter shape.
// ---------------------------------------------------------------------------

/// What the raw-binary serialize adapter emits.
pub enum SerializedBinary<'a> {
    /// Raw bytes: the generic subtype serializes as plain bytes.
    Bytes(&'a [u8]),
    /// The textual structured body: base64 bytes and a hex subtype.
    ExtendedBody {
        /// The base64 rendering of the bytes.
        base64: String,
        /// The two-digit hexadecimal rendering of the subtype.
        subtype: String,
    },
    /// The binary structured body: borrowed bytes and a numeric subtype.
    RawBody {
        /// The binary bytes.
        bytes: &'a [u8],
        /// The numeric subtype.
        subtype: u8,
    },
}

impl<'a> RawBinary<'a> {
    /// Extract the binary out of a raw value; anything else is an error.
    pub fn deserialize(rb: RawBson<'a>) -> (r: Result<RawBinary<'a>, Error>)
        ensures
            match rbview(rb) {
                SpecRawBson::Binary(st, b) => r matches Ok(bin) && bin.subtype == st
                    && bin.bytes@ == b,
                _ => r matches Err(e) && e.kind() == ErrorKind::Custom,
            },
    {
        match rb {
            RawBson::Binary(b) => Ok(b),
            _ => Err(Error::Custom {
                message: "expected binary, but got another raw value instead".to_owned(),
            }),
        }
    }

    /// The serialize adapter: the generic subtype emits raw bytes; any
    /// other subtype emits a structured body, base64 plus hex subtype in
    /// textual mode, raw bytes plus numeric subtype in binary mode.
    pub fn serialize(&self, human_readable: bool) -> (r: SerializedBinary<'a>)
        ensures
            self.subtype == BINARY_SUBTYPE_GENERIC ==> (r matches SerializedBinary::Bytes(b) && b@
                == self.bytes@),
            self.subtype != BINARY_SUBTYPE_GENERIC && human_readable ==> (r matches
                SerializedBinary::ExtendedBody { base64, subtype } && base64@ == b64_of(
                self.bytes@,
            ) && subtype@ == spec_hex_byte(self.subtype)),
            self.subtype != BINARY_SUBTYPE_GENERIC && !human_readable ==> (r matches
                SerializedBinary::RawBody { bytes, subtype } && bytes@ == self.bytes@ && subtype
                == self.subtype),
    {
        if self.subtype == BINARY_SUBTYPE_GENERIC {
            SerializedBinary::Bytes(self.bytes)
        } else if !human_readable {
            SerializedBinary::RawBody { bytes: self.bytes, subtype: self.subtype }
        } else {
            SerializedBinary::ExtendedBody {
                base64: crate::extjson::base64_encode(self.bytes),
                subtype: crate::extjson::hex_encode_byte(self.subtype),
            }
        }
    }
}

/// What the raw-value serialize adapter emits, one shape per variant.
pub enum SerializedValue<'a> {
    /// A double, as its bit pattern.
    Double(u64),
    /// A borrowed string.
    Str(&'a str),
    /// The encoded bytes of an array.
    ArrayBytes(&'a [u8]),
    /// The encoded bytes of a document.
    DocumentBytes(&'a [u8]),
    /// A boolean.
    Bool(bool),
    /// A unit, standing for null.
    Unit,
    /// A 32-bit signed integer.
    I32(i32),
    /// A 64-bit signed integer.
    I64(i64),
    /// A 32-bit unsigned integer.
    U32(u32),
    /// A 64-bit unsigned integer.
    U64(u64),
    /// A millisecond-since-epoch datetime.
    DateTime(i64),
    /// A binary, as the binary adapter emits it.
    Binary(SerializedBinary<'a>),
    /// A timestamp: time and increment.
    Timestamp(u32, u32),
    /// A 128-bit decimal payload.
    Decimal128([u8; 16]),
}

impl<'a> RawBson<'a> {
    /// The serialize adapter: each variant is emitted in its own shape;
    /// binaries defer to the raw-binary adapter.
    pub fn serialize(&self, human_readable: bool) -> (r: SerializedValue<'a>)
        ensures
            match rbview(*self) {
                SpecRawBson::Double(bits) => r == SerializedValue::Double(bits),
                SpecRawBson::String(s) => r matches SerializedValue::Str(t) && t@ == s,
                SpecRawBson::Array(b) => r matches SerializedValue::ArrayBytes(d) && d@ == b,
                SpecRawBson::Document(b) => r matches SerializedValue::DocumentBytes(d) && d@ == b,
                SpecRawBson::Boolean(v) => r == SerializedValue::Bool(v),
                SpecRawBson::Null => r == SerializedValue::Unit,
                SpecRawBson::Int32(v) => r == SerializedValue::I32(v),
                SpecRawBson::Int64(v) => r == SerializedValue::I64(v),
                SpecRawBson::UInt32(v) => r == SerializedValue::U32(v),
                SpecRawBson::UInt64(v) => r == SerializedValue::U64(v),
                SpecRawBson::Timestamp(t, i) => r == SerializedValue::Timestamp(t, i),
                SpecRawBson::Binary(st, b) => {
                    &&& r matches SerializedValue::Binary(sb)
                    &&& st == BINARY_SUBTYPE_GENERIC ==> (sb matches SerializedBinary::Bytes(d)
                        && d@ == b)
                    &&& st != BINARY_SUBTYPE_GENERIC && human_readable ==> (sb matches
                        SerializedBinary::ExtendedBody { base64, subtype } && base64@ == b64_of(b)
                        && subtype@ == spec_hex_byte(st))
                    &&& st != BINARY_SUBTYPE_GENERIC && !human_readable ==> (sb matches
                        SerializedBinary::RawBody { bytes, subtype } && bytes@ == b && subtype
                        == st)
                },
                SpecRawBson::DateTime(ms) => r == SerializedValue::DateTime(ms),
                SpecRawBson::Decimal128(b) => r matches SerializedValue::Decimal128(d) && d@ == b,
            },
    {
        match *self {
            RawBson::Double(v) => SerializedValue::Double(v),
            RawBson::String(v) => SerializedValue::Str(v),
            RawBson::Array(v) => SerializedValue::ArrayBytes(v.doc.data),
            RawBson::Document(v) => SerializedValue::DocumentBytes(v.data),
            RawBson::Boolean(v) => SerializedValue::Bool(v),
            RawBson::Null => SerializedValue::Unit,
            RawBson::Int32(v) => SerializedValue::I32(v),
            RawBson::Int64(v) => SerializedValue::I64(v),
            RawBson::UInt32(v) => SerializedValue::U32(v),
            RawBson::UInt64(v) => SerializedValue::U64(v),
            RawBson::DateTime(dt) => SerializedValue::DateTime(dt.timestamp_millis()),
            RawBson::Binary(b) => SerializedValue::Binary(b.serialize(human_readable)),
            RawBson::Timestamp(t) => SerializedValue::Timestamp(t.time, t.increment),
            RawBson::Decimal128(d) => SerializedValue::Decimal128(d.bytes),
        }
    }
}

/// The worker behind [`RawDocument::to_document`].
fn convert_document(rd: &RawDocument<'_>) -> (r: Result<Document, Error>)
    ensures
        match spec_doc_entries(rd.data@) {
            Some(es) => r matches Ok(doc) && doc@ == es,
            None => r matches Err(e) && e.kind() == ErrorKind::Custom,
        },
{
    let data = rd.data;
    if let Err(e) = check_header(data) {
        return Err(e);
    }
    match convert_entries(data, 4, Vec::new()) {
        Ok(entries) => {
            let ghost es = spec_parse_elements_deep(data@, 4)->Some_0;
            let d = Document::from_entries(entries);
            proof {
                assert(d@ =~= es);
            }
            Ok(d)
        }
        Err(e) => Err(e),
    }
}

} // verus!
