//! The deserialization bridge: a pull-based protocol that drives typed
//! extraction out of an owned [`Bson`] tree.
//!
//! The double-dispatch of a visitor interface is expressed here as data: a
//! [`Deserializer`] classifies its stored value into an [`Offer`], and a
//! consumer reacts to whatever was offered. The sequence and map sub-bridges
//! are forward-only cursors consumed exactly once.
//!
//! The module also carries the mathematical model of the whole decode (the
//! `spec_decode` family): what the value-model visitor yields when the
//! bridge drives it over a stored value.

use vstd::prelude::*;

use crate::error::Error;
use crate::error::ErrorKind;
use crate::extjson::spec_as_string;
use crate::extjson::spec_extended_entries;
use crate::extjson::spec_has_extended_form;
use crate::extjson::spec_marker_of;
use crate::extjson::spec_parse_binary_body;
use crate::extjson::spec_parse_datetime_body;
use crate::extjson::spec_parse_decimal_bytes;
use crate::extjson::spec_parse_timestamp_body;
use crate::extjson::Marker;
use crate::numeric::spec_parse_i32;
use crate::numeric::spec_parse_i64;
use crate::numeric::spec_parse_u32;
use crate::numeric::spec_parse_u64;
use crate::value::bview;
use crate::value::bviews;
use crate::value::dview;
use crate::value::eviews;
use crate::value::spec_doc_insert;
use crate::value::Bson;
use crate::value::Document;
use crate::value::SpecBson;
use crate::value::BINARY_SUBTYPE_GENERIC;
use crate::value::BINARY_SUBTYPE_UUID;
use crate::value::DOUBLE_BITS_INFINITY;
use crate::value::DOUBLE_BITS_NAN;
use crate::value::DOUBLE_BITS_NEG_INFINITY;

verus! {

// ---------------------------------------------------------------------------
// A measure on values, for termination of the decode.
// ---------------------------------------------------------------------------

/// The size of a value. The binary-only scalars get a weight larger than
/// their extended-JSON fallback documents, so that re-driving those
/// documents through the map path shrinks the measure.
pub open spec fn vsize(v: SpecBson) -> nat
    decreases v,
{
    match v {
        SpecBson::Array(a) => 1 + vseq_size(a),
        SpecBson::Document(es) => 1 + ventries_size(es),
        SpecBson::Binary(..) => 16,
        SpecBson::DateTime(..) => 16,
        SpecBson::Timestamp(..) => 16,
        SpecBson::Decimal128(..) => 32,
        _ => 1,
    }
}

/// The summed size of a sequence of values.
pub open spec fn vseq_size(a: Seq<SpecBson>) -> nat
    decreases a,
{
    if a.len() == 0 {
        0
    } else {
        1 + vsize(a[0]) + vseq_size(a.drop_first())
    }
}

/// The summed size of a sequence of entries.
pub open spec fn ventries_size(es: Seq<(Seq<char>, SpecBson)>) -> nat
    decreases es,
{
    if es.len() == 0 {
        0
    } else {
        1 + vsize(es[0].1) + ventries_size(es.drop_first())
    }
}

/// The canonical fallback document of a binary-only scalar is smaller than
/// the scalar itself.
pub proof fn lemma_extended_entries_size(v: SpecBson)
    requires
        spec_has_extended_form(v),
    ensures
        ventries_size(spec_extended_entries(v)) < vsize(v),
{
    let es = spec_extended_entries(v);
    let empty = Seq::<(Seq<char>, SpecBson)>::empty();
    assert(ventries_size(empty) == 0);
    match v {
        SpecBson::Binary(st, b) => {
            let inner = es[0].1->Document_0;
            let tail = inner.drop_first();
            assert(inner.len() == 2);
            assert(tail[0] == inner[1]);
            assert(tail.drop_first() =~= empty);
            assert(vsize(tail[0].1) == 1);
            assert(ventries_size(tail) == 2);
            assert(vsize(inner[0].1) == 1);
            assert(ventries_size(inner) == 4);
            assert(vsize(es[0].1) == 5);
            assert(es.drop_first() =~= empty);
            assert(ventries_size(es) == 6);
        }
        SpecBson::DateTime(ms) => {
            let inner = es[0].1->Document_0;
            assert(inner.len() == 1);
            assert(inner.drop_first() =~= empty);
            assert(vsize(inner[0].1) == 1);
            assert(ventries_size(inner) == 2);
            assert(vsize(es[0].1) == 3);
            assert(es.drop_first() =~= empty);
            assert(ventries_size(es) == 4);
        }
        SpecBson::Timestamp(t, i) => {
            let inner = es[0].1->Document_0;
            let tail = inner.drop_first();
            assert(inner.len() == 2);
            assert(tail[0] == inner[1]);
            assert(tail.drop_first() =~= empty);
            assert(vsize(tail[0].1) == 1);
            assert(ventries_size(tail) == 2);
            assert(vsize(inner[0].1) == 1);
            assert(ventries_size(inner) == 4);
            assert(vsize(es[0].1) == 5);
            assert(es.drop_first() =~= empty);
            assert(ventries_size(es) == 6);
        }
        SpecBson::Decimal128(b) => {
            assert(vsize(es[0].1) == 16);
            assert(es.drop_first() =~= empty);
            assert(ventries_size(es) == 17);
        }
        _ => {}
    }
}

/// The size of an optional stored value.
pub open spec fn stored_size(o: Option<SpecBson>) -> nat {
    match o {
        Some(v) => vsize(v),
        None => 0,
    }
}

// ---------------------------------------------------------------------------
// The mathematical model of the decode.
// ---------------------------------------------------------------------------

/// What the `$numberInt` marker path yields from the stored value.
pub open spec fn spec_marker_i32(v: SpecBson) -> Result<SpecBson, ErrorKind> {
    match spec_as_string(v) {
        Ok(s) => match spec_parse_i32(s) {
            Some(n) => Ok(SpecBson::Int32(n)),
            None => Err(ErrorKind::InvalidValue),
        },
        Err(k) => Err(k),
    }
}

/// What the `$numberLong` marker path yields from the stored value.
pub open spec fn spec_marker_i64(v: SpecBson) -> Result<SpecBson, ErrorKind> {
    match spec_as_string(v) {
        Ok(s) => match spec_parse_i64(s) {
            Some(n) => Ok(SpecBson::Int64(n)),
            None => Err(ErrorKind::InvalidValue),
        },
        Err(k) => Err(k),
    }
}

/// What the `$numberUInt32` marker path yields from the stored value.
pub open spec fn spec_marker_u32(v: SpecBson) -> Result<SpecBson, ErrorKind> {
    match spec_as_string(v) {
        Ok(s) => match spec_parse_u32(s) {
            Some(n) => Ok(SpecBson::UInt32(n)),
            None => Err(ErrorKind::InvalidValue),
        },
        Err(k) => Err(k),
    }
}

/// What the `$numberUInt64` marker path yields from the stored value.
pub open spec fn spec_marker_u64(v: SpecBson) -> Result<SpecBson, ErrorKind> {
    match spec_as_string(v) {
        Ok(s) => match spec_parse_u64(s) {
            Some(n) => Ok(SpecBson::UInt64(n)),
            None => Err(ErrorKind::InvalidValue),
        },
        Err(k) => Err(k),
    }
}

/// What the `$numberDouble` marker path yields: the three named special
/// values become doubles; any other string is read as a 64-bit signed
/// integer, not as a float.
pub open spec fn spec_marker_double(v: SpecBson) -> Result<SpecBson, ErrorKind> {
    match spec_as_string(v) {
        Ok(s) => if s == "Infinity"@ {
            Ok(SpecBson::Double(DOUBLE_BITS_INFINITY))
        } else if s == "-Infinity"@ {
            Ok(SpecBson::Double(DOUBLE_BITS_NEG_INFINITY))
        } else if s == "NaN"@ {
            Ok(SpecBson::Double(DOUBLE_BITS_NAN))
        } else {
            match spec_parse_i64(s) {
                Some(n) => Ok(SpecBson::Int64(n)),
                None => Err(ErrorKind::InvalidValue),
            }
        },
        Err(k) => Err(k),
    }
}

/// What the marker path chosen by the first key yields from the stored
/// value. `Plain` never reaches this function.
pub open spec fn spec_marker_decode(m: Marker, v: SpecBson) -> Result<SpecBson, ErrorKind> {
    match m {
        Marker::NumberInt => spec_marker_i32(v),
        Marker::NumberLong => spec_marker_i64(v),
        Marker::NumberUInt32 => spec_marker_u32(v),
        Marker::NumberUInt64 => spec_marker_u64(v),
        Marker::NumberDouble => spec_marker_double(v),
        Marker::Binary => match spec_parse_binary_body(v) {
            Ok((st, b)) => Ok(SpecBson::Binary(st, b)),
            Err(k) => Err(k),
        },
        Marker::Timestamp => match spec_parse_timestamp_body(v) {
            Ok((t, i)) => Ok(SpecBson::Timestamp(t, i)),
            Err(k) => Err(k),
        },
        Marker::Date => match spec_parse_datetime_body(v) {
            Ok(ms) => Ok(SpecBson::DateTime(ms)),
            Err(k) => Err(k),
        },
        Marker::NumberDecimal => Err(ErrorKind::Custom),
        Marker::NumberDecimalBytes => match spec_parse_decimal_bytes(v) {
            Ok(b) => Ok(SpecBson::Decimal128(b)),
            Err(k) => Err(k),
        },
        Marker::Plain => Err(ErrorKind::Custom),
    }
}

/// What decoding a stored value through the bridge with the value-model
/// visitor yields. Maps go through marker resolution on their first key;
/// binary-only scalars that the bridge does not dispatch natively are
/// re-driven through the map path as their fallback documents.
pub open spec fn spec_decode(v: SpecBson) -> Result<SpecBson, ErrorKind>
    decreases vsize(v), 0int,
        via spec_decode_dec
{
    match v {
        SpecBson::Double(bits) => Ok(SpecBson::Double(bits)),
        SpecBson::String(s) => Ok(SpecBson::String(s)),
        SpecBson::Array(a) => match spec_decode_elems(a) {
            Ok(out) => Ok(SpecBson::Array(out)),
            Err(k) => Err(k),
        },
        SpecBson::Document(es) => spec_map_decode(es),
        SpecBson::Boolean(b) => Ok(SpecBson::Boolean(b)),
        SpecBson::Null => Ok(SpecBson::Null),
        SpecBson::Int32(i) => Ok(SpecBson::Int32(i)),
        SpecBson::Int64(i) => Ok(SpecBson::Int64(i)),
        SpecBson::UInt32(u) => Ok(SpecBson::UInt64(u as u64)),
        SpecBson::UInt64(u) => Ok(SpecBson::UInt64(u)),
        SpecBson::Binary(st, b) => if st == BINARY_SUBTYPE_GENERIC {
            Ok(SpecBson::Binary(st, b))
        } else {
            spec_map_decode(spec_extended_entries(v))
        },
        SpecBson::DateTime(..) => spec_map_decode(spec_extended_entries(v)),
        SpecBson::Timestamp(..) => spec_map_decode(spec_extended_entries(v)),
        SpecBson::Decimal128(..) => spec_map_decode(spec_extended_entries(v)),
    }
}

#[via_fn]
proof fn spec_decode_dec(v: SpecBson) {
    match v {
        SpecBson::Binary(st, b) => {
            if st != BINARY_SUBTYPE_GENERIC {
                lemma_extended_entries_size(v);
            }
        }
        SpecBson::DateTime(..) => lemma_extended_entries_size(v),
        SpecBson::Timestamp(..) => lemma_extended_entries_size(v),
        SpecBson::Decimal128(..) => lemma_extended_entries_size(v),
        _ => {}
    }
}

/// What decoding each element of an array yields: the first error aborts.
pub open spec fn spec_decode_elems(a: Seq<SpecBson>) -> Result<Seq<SpecBson>, ErrorKind>
    decreases vseq_size(a), 0int,
{
    if a.len() == 0 {
        Ok(Seq::empty())
    } else {
        match spec_decode(a[0]) {
            Ok(w) => match spec_decode_elems(a.drop_first()) {
                Ok(rest) => Ok(seq![w] + rest),
                Err(k) => Err(k),
            },
            Err(k) => Err(k),
        }
    }
}

/// What the map path yields: marker resolution looks only at the first key;
/// once a marker matches, the one decoded value is returned and no further
/// key is inspected. Any other first key makes the map an ordinary
/// document, every entry accumulated in iteration order.
pub open spec fn spec_map_decode(es: Seq<(Seq<char>, SpecBson)>) -> Result<SpecBson, ErrorKind>
    decreases ventries_size(es), 1int,
{
    if es.len() == 0 {
        Ok(SpecBson::Document(Seq::empty()))
    } else {
        let m = spec_marker_of(es[0].0);
        if m is Plain {
            match spec_decode_entries(es, Seq::empty()) {
                Ok(out) => Ok(SpecBson::Document(out)),
                Err(k) => Err(k),
            }
        } else {
            spec_marker_decode(m, es[0].1)
        }
    }
}

/// What accumulating the entries of an ordinary document yields: each value
/// is decoded through the bridge and inserted under its key, in order.
pub open spec fn spec_decode_entries(
    es: Seq<(Seq<char>, SpecBson)>,
    acc: Seq<(Seq<char>, SpecBson)>,
) -> Result<Seq<(Seq<char>, SpecBson)>, ErrorKind>
    decreases ventries_size(es), 0int,
{
    if es.len() == 0 {
        Ok(acc)
    } else {
        match spec_decode(es[0].1) {
            Ok(w) => spec_decode_entries(es.drop_first(), spec_doc_insert(acc, es[0].0, w)),
            Err(k) => Err(k),
        }
    }
}

// ---------------------------------------------------------------------------
// Options.
// ---------------------------------------------------------------------------

/// Options used to configure a [`Deserializer`].
#[derive(Debug, Clone, Copy)]
#[non_exhaustive]
pub struct DeserializerOptions {
    /// Whether the [`Deserializer`] should present itself as human readable.
    /// The default is true.
    pub human_readable: Option<bool>,
}

impl Default for DeserializerOptions {
    /// The default options: human-readable presentation left unset.
    fn default() -> (r: DeserializerOptions)
        ensures
            r.human_readable is None,
    {
        DeserializerOptions { human_readable: None }
    }
}

impl DeserializerOptions {
    /// Create a builder used to construct a [`DeserializerOptions`].
    pub fn builder() -> (r: DeserializerOptionsBuilder)
        ensures
            r.options.human_readable is None,
    {
        DeserializerOptionsBuilder { options: DeserializerOptions { human_readable: None } }
    }
}

/// Builder used to construct a [`DeserializerOptions`].
#[derive(Debug)]
pub struct DeserializerOptionsBuilder {
    /// The options built so far.
    pub options: DeserializerOptions,
}

impl DeserializerOptionsBuilder {
    /// Set the value for [`DeserializerOptions::human_readable`].
    pub fn human_readable(self, val: bool) -> (r: Self)
        ensures
            r.options.human_readable == Some(val),
    {
        DeserializerOptionsBuilder {
            options: DeserializerOptions { human_readable: Some(val) },
        }
    }

    /// Consume this builder and produce a [`DeserializerOptions`].
    pub fn build(self) -> (r: DeserializerOptions)
        ensures
            r == self.options,
    {
        self.options
    }
}

// ---------------------------------------------------------------------------
// The deserializer and its sub-bridges.
// ---------------------------------------------------------------------------

/// The bridge: holds exactly one value, consumed at most once.
#[derive(Debug)]
pub struct Deserializer {
    /// The held value; taken by the consuming request.
    pub value: Option<Bson>,
    /// The configuration of this decode session.
    pub options: DeserializerOptions,
}

/// The forward-only cursor over the elements of an array.
#[derive(Debug)]
pub struct SeqDeserializer {
    /// The elements not yet handed out.
    pub elems: Vec<Bson>,
    /// The configuration handed to each element's sub-bridge.
    pub options: DeserializerOptions,
}

/// The forward-only cursor over the entries of a document. The protocol is
/// strictly two-phase per entry: request a key, then request its value.
#[derive(Debug)]
pub struct MapDeserializer {
    /// The entries not yet started.
    pub entries: Vec<(String, Bson)>,
    /// The value whose key was requested but which was not yet requested.
    pub value: Option<Bson>,
    /// The configuration handed to each value's sub-bridge.
    pub options: DeserializerOptions,
}

impl Deserializer {
    /// The stored value, viewed.
    pub open spec fn stored(&self) -> Option<SpecBson> {
        match self.value {
            Some(b) => Some(bview(b)),
            None => None,
        }
    }

    /// Construct a new [`Deserializer`] using the default options.
    pub fn new(value: Bson) -> (r: Deserializer)
        ensures
            r.value == Some(value),
            r.options.human_readable is None,
    {
        Deserializer::new_with_options(value, DeserializerOptions { human_readable: None })
    }

    /// Create a new [`Deserializer`] using the provided options.
    pub fn new_with_options(value: Bson, options: DeserializerOptions) -> (r: Deserializer)
        ensures
            r.value == Some(value),
            r.options == options,
    {
        Deserializer { value: Some(value), options }
    }

    /// Whether this session presents itself as human readable: the
    /// configured flag, true when unset.
    pub fn is_human_readable(&self) -> (r: bool)
        ensures
            r == self.options.human_readable.unwrap_or(true),
    {
        match self.options.human_readable {
            Some(b) => b,
            None => true,
        }
    }
}

impl SeqDeserializer {
    /// The elements not yet handed out, viewed.
    pub open spec fn remaining(&self) -> Seq<SpecBson> {
        bviews(self.elems@)
    }

    /// Hand out the next element as a fully formed sub-bridge, or report the
    /// end of the sequence.
    pub fn next_element(&mut self) -> (r: Option<Deserializer>)
        ensures
            final(self).options == old(self).options,
            match r {
                Some(d) => {
                    &&& old(self).remaining().len() > 0
                    &&& d.options == old(self).options
                    &&& d.stored() == Some(old(self).remaining()[0])
                    &&& final(self).remaining() == old(self).remaining().drop_first()
                },
                None => {
                    &&& old(self).remaining().len() == 0
                    &&& *final(self) == *old(self)
                },
            },
    {
        if self.elems.len() > 0 {
            let ghost rem = self.remaining();
            let head = self.elems.remove(0);
            let d = Deserializer { value: Some(head), options: self.options };
            proof {
                assert(rem[0] == bview(head));
                assert(final(self).remaining() =~= rem.drop_first());
            }
            Some(d)
        } else {
            proof {
                assert(self.remaining().len() == 0);
            }
            None
        }
    }

    /// The number of elements still to come.
    pub fn size_hint(&self) -> (r: Option<usize>)
        ensures
            r == Some((self.remaining().len()) as usize),
    {
        Some(self.elems.len())
    }

    /// Offer this cursor as a whole: a zero-length array additionally
    /// satisfies a unit-shaped target.
    pub fn deserialize_any(self) -> (r: Offer)
        ensures
            self.remaining().len() == 0 ==> r == Offer::Unit,
            self.remaining().len() > 0 ==> (r matches Offer::Sequence(sd) && sd == self),
    {
        if self.elems.len() == 0 {
            Offer::Unit
        } else {
            Offer::Sequence(self)
        }
    }
}

impl MapDeserializer {
    /// The entries not yet started, viewed.
    pub open spec fn remaining(&self) -> Seq<(Seq<char>, SpecBson)> {
        eviews(self.entries@)
    }

    /// The stashed value whose key was already handed out, viewed.
    pub open spec fn stash(&self) -> Option<SpecBson> {
        match self.value {
            Some(b) => Some(bview(b)),
            None => None,
        }
    }

    /// A fresh cursor over the entries of `doc`, with default options.
    pub fn new(doc: Document) -> (r: MapDeserializer)
        ensures
            r.remaining() == dview(doc),
            r.stash() is None,
            r.options.human_readable is None,
    {
        let ghost dv = dview(doc);
        let entries = doc.into_entries();
        let r = MapDeserializer {
            entries,
            value: None,
            options: DeserializerOptions { human_readable: None },
        };
        proof {
            assert(r.remaining() =~= dv);
        }
        r
    }

    /// Request the next key. Exhaustion yields `None`, never an error; a
    /// successful request stashes the entry's value for [`Self::next_value`].
    pub fn next_key(&mut self) -> (r: Option<String>)
        ensures
            final(self).options == old(self).options,
            match r {
                Some(k) => {
                    &&& old(self).remaining().len() > 0
                    &&& k@ == old(self).remaining()[0].0
                    &&& final(self).stash() == Some(old(self).remaining()[0].1)
                    &&& final(self).remaining() == old(self).remaining().drop_first()
                },
                None => {
                    &&& old(self).remaining().len() == 0
                    &&& *final(self) == *old(self)
                },
            },
    {
        if self.entries.len() > 0 {
            let ghost rem = self.remaining();
            let (k, v) = self.entries.remove(0);
            self.value = Some(v);
            proof {
                assert(rem[0] == (k@, bview(v)));
                assert(final(self).remaining() =~= rem.drop_first());
            }
            Some(k)
        } else {
            proof {
                assert(self.remaining().len() == 0);
            }
            None
        }
    }

    /// Request the value stashed by the last key request. Requesting a value
    /// before any key, or twice for one key, fails with an end-of-stream
    /// error.
    pub fn next_value(&mut self) -> (r: Result<Deserializer, Error>)
        ensures
            final(self).options == old(self).options,
            final(self).remaining() == old(self).remaining(),
            match r {
                Ok(d) => {
                    &&& old(self).stash() matches Some(v)
                    &&& d.stored() == Some(v)
                    &&& d.options == old(self).options
                    &&& final(self).stash() is None
                },
                Err(e) => {
                    &&& old(self).stash() is None
                    &&& e == Error::EndOfStream
                    &&& *final(self) == *old(self)
                },
            },
    {
        match self.value.take() {
            Some(v) => Ok(Deserializer { value: Some(v), options: self.options }),
            None => Err(Error::EndOfStream),
        }
    }

    /// The number of entries still to come.
    pub fn size_hint(&self) -> (r: Option<usize>)
        ensures
            r == Some((self.remaining().len()) as usize),
    {
        Some(self.entries.len())
    }

    /// Offer this cursor as a whole.
    pub fn deserialize_any(self) -> (r: Offer)
        ensures
            r == Offer::Mapping(self),
    {
        Offer::Mapping(self)
    }
}

// ---------------------------------------------------------------------------
// The offer: the capability interface of the visitor protocol, as data.
// ---------------------------------------------------------------------------

/// What the bridge offers a consumer when asked to decode as anything: the
/// defunctionalized visitor call.
#[derive(Debug)]
pub enum Offer {
    /// A double, as its bit pattern.
    Double(u64),
    /// A string.
    Text(String),
    /// A sequence: one sub-bridge per element.
    Sequence(SeqDeserializer),
    /// A map: keys and values in strict alternation.
    Mapping(MapDeserializer),
    /// A boolean.
    Bool(bool),
    /// A unit (stored null, or an empty array against a unit target).
    Unit,
    /// A 32-bit signed integer.
    I32(i32),
    /// A 64-bit signed integer.
    I64(i64),
    /// A 32-bit unsigned integer.
    U32(u32),
    /// A 64-bit unsigned integer.
    U64(u64),
    /// Plain bytes: a generic-subtype binary.
    Bytes(Vec<u8>),
}

/// Whether `o` is the offer that the generic dispatch makes for a stored
/// value `v` under options `opts`.
pub open spec fn spec_offer_ok(v: SpecBson, opts: DeserializerOptions, o: Offer) -> bool {
    match v {
        SpecBson::Double(bits) => o == Offer::Double(bits),
        SpecBson::String(s) => o matches Offer::Text(t) && t@ == s,
        SpecBson::Array(a) => {
            &&& o matches Offer::Sequence(sd)
            &&& sd.remaining() == a
            &&& sd.options == opts
        },
        SpecBson::Document(es) => {
            &&& o matches Offer::Mapping(md)
            &&& md.remaining() == es
            &&& md.stash() is None
            &&& md.options == opts
        },
        SpecBson::Boolean(b) => o == Offer::Bool(b),
        SpecBson::Null => o == Offer::Unit,
        SpecBson::Int32(i) => o == Offer::I32(i),
        SpecBson::Int64(i) => o == Offer::I64(i),
        SpecBson::UInt32(u) => o == Offer::U32(u),
        SpecBson::UInt64(u) => o == Offer::U64(u),
        SpecBson::Binary(st, b) => if st == BINARY_SUBTYPE_GENERIC {
            o matches Offer::Bytes(bb) && bb@ == b
        } else {
            &&& o matches Offer::Mapping(md)
            &&& md.remaining() == spec_extended_entries(v)
            &&& md.stash() is None
            &&& md.options == opts
        },
        _ => {
            &&& o matches Offer::Mapping(md)
            &&& md.remaining() == spec_extended_entries(v)
            &&& md.stash() is None
            &&& md.options == opts
        },
    }
}

impl Deserializer {
    /// The generic dispatch: classify the stored value and offer it. Every
    /// natively dispatched variant is offered directly; a non-generic
    /// binary, a decimal and every other binary-only scalar are re-expressed
    /// as their canonical one-key extended-JSON documents and offered
    /// through the map path.
    pub fn deserialize_any(self) -> (r: Result<Offer, Error>)
        ensures
            match self.stored() {
                None => r == Err::<Offer, Error>(Error::EndOfStream),
                Some(v) => r matches Ok(o) && spec_offer_ok(v, self.options, o),
            },
    {
        let options = self.options;
        let value = match self.value {
            Some(value) => value,
            None => {
                return Err(Error::EndOfStream);
            }
        };
        match value {
            Bson::Double(bits) => Ok(Offer::Double(bits)),
            Bson::String(s) => Ok(Offer::Text(s)),
            Bson::Array(v) => {
                let sd = SeqDeserializer { elems: v, options };
                proof {
                    assert(sd.remaining() =~= bviews(sd.elems@));
                }
                Ok(Offer::Sequence(sd))
            }
            Bson::Document(d) => {
                let ghost dv = dview(d);
                let md = MapDeserializer { entries: d.into_entries(), value: None, options };
                proof {
                    assert(md.remaining() =~= dv);
                }
                Ok(Offer::Mapping(md))
            }
            Bson::Boolean(b) => Ok(Offer::Bool(b)),
            Bson::Null => Ok(Offer::Unit),
            Bson::Int32(i) => Ok(Offer::I32(i)),
            Bson::Int64(i) => Ok(Offer::I64(i)),
            Bson::UInt32(u) => Ok(Offer::U32(u)),
            Bson::UInt64(u) => Ok(Offer::U64(u)),
            Bson::Binary(bin) => {
                if bin.subtype == BINARY_SUBTYPE_GENERIC {
                    Ok(Offer::Bytes(bin.bytes))
                } else {
                    let doc = Bson::Binary(bin).into_extended_document();
                    let ghost dv = dview(doc);
                    let md = MapDeserializer {
                        entries: doc.into_entries(),
                        value: None,
                        options,
                    };
                    proof {
                        assert(md.remaining() =~= dv);
                    }
                    Ok(Offer::Mapping(md))
                }
            }
            Bson::DateTime(dt) => {
                let doc = Bson::DateTime(dt).into_extended_document();
                let ghost dv = dview(doc);
                let md = MapDeserializer { entries: doc.into_entries(), value: None, options };
                proof {
                    assert(md.remaining() =~= dv);
                }
                Ok(Offer::Mapping(md))
            }
            Bson::Timestamp(ts) => {
                let doc = Bson::Timestamp(ts).into_extended_document();
                let ghost dv = dview(doc);
                let md = MapDeserializer { entries: doc.into_entries(), value: None, options };
                proof {
                    assert(md.remaining() =~= dv);
                }
                Ok(Offer::Mapping(md))
            }
            Bson::Decimal128(d) => {
                let doc = Bson::Decimal128(d).into_extended_document();
                let ghost dv = dview(doc);
                let md = MapDeserializer { entries: doc.into_entries(), value: None, options };
                proof {
                    assert(md.remaining() =~= dv);
                }
                Ok(Offer::Mapping(md))
            }
        }
    }

    /// A bytes request falls back to the generic dispatch: the bridge never
    /// coerces a stored value into a differently-requested shape.
    pub fn deserialize_bytes(self) -> (r: Result<Offer, Error>)
        ensures
            match self.stored() {
                None => r == Err::<Offer, Error>(Error::EndOfStream),
                Some(v) => r matches Ok(o) && spec_offer_ok(v, self.options, o),
            },
    {
        self.deserialize_any()
    }
}

/// What an optional-shaped request hands back.
#[derive(Debug)]
pub enum OptionalAccess {
    /// The stored value was null: the option is absent.
    Absent,
    /// Any other stored value is present and is re-driven whole.
    Present(Deserializer),
}

/// The two-field access produced by an enum-shaped request.
#[derive(Debug)]
pub struct EnumDeserializer {
    /// The variant name.
    pub variant: String,
    /// The sub-bridge for the variant's payload.
    pub deserializer: VariantDeserializer,
}

/// The sub-bridge for an enum variant's payload.
#[derive(Debug)]
pub struct VariantDeserializer {
    /// The payload: nothing for a bare-string unit variant.
    pub val: Option<Bson>,
    /// The configuration of this decode session.
    pub options: DeserializerOptions,
}

impl Deserializer {
    /// An optional-shaped request: absence is signaled only by a stored
    /// null; every other value is present.
    pub fn deserialize_option(self) -> (r: Result<OptionalAccess, Error>)
        ensures
            match self.stored() {
                None => r == Err::<OptionalAccess, Error>(Error::EndOfStream),
                Some(v) => if v is Null {
                    r matches Ok(a) && a is Absent
                } else {
                    r matches Ok(a) && a matches OptionalAccess::Present(d) && d.stored()
                        == Some(v) && d.options == self.options
                },
            },
    {
        match self.value {
            Some(Bson::Null) => Ok(OptionalAccess::Absent),
            Some(v) => Ok(OptionalAccess::Present(
                Deserializer { value: Some(v), options: self.options },
            )),
            None => Err(Error::EndOfStream),
        }
    }

    /// An enum-shaped request. A bare string names a unit variant with no
    /// payload. A document must hold exactly one entry, the externally
    /// tagged variant and its payload: zero entries or more than one entry
    /// is an error, the latter naming the first extra key.
    pub fn deserialize_enum(self) -> (r: Result<EnumDeserializer, Error>)
        ensures
            match self.stored() {
                None => r == Err::<EnumDeserializer, Error>(Error::EndOfStream),
                Some(v) => match v {
                    SpecBson::String(s) => {
                        &&& r matches Ok(ed)
                        &&& ed.variant@ == s
                        &&& ed.deserializer.val is None
                        &&& ed.deserializer.options == self.options
                    },
                    SpecBson::Document(es) => if es.len() == 0 {
                        r matches Err(e) && e.kind() == ErrorKind::InvalidValue
                    } else if es.len() == 1 {
                        &&& r matches Ok(ed)
                        &&& ed.variant@ == es[0].0
                        &&& ed.deserializer.val matches Some(p) && p@ == es[0].1
                        &&& ed.deserializer.options == self.options
                    } else {
                        &&& r matches Err(e)
                        &&& e matches Error::InvalidValue { found, .. }
                        &&& found@ == es[1].0
                    },
                    _ => r matches Err(e) && e.kind() == ErrorKind::InvalidType,
                },
            },
    {
        let options = self.options;
        let value = match self.value {
            Some(value) => value,
            None => {
                return Err(Error::EndOfStream);
            }
        };
        let doc = match value {
            Bson::Document(doc) => doc,
            Bson::String(variant) => {
                return Ok(EnumDeserializer {
                    variant,
                    deserializer: VariantDeserializer { val: None, options },
                });
            }
            other => {
                return Err(Error::InvalidType {
                    expected: "expected an enum".to_owned(),
                    found: other.kind_name(),
                });
            }
        };
        let mut entries = doc.into_entries();
        if entries.len() == 0 {
            return Err(Error::InvalidValue {
                expected: "variant name".to_owned(),
                found: "empty document".to_owned(),
            });
        }
        if entries.len() > 1 {
            let (extra, _) = entries.remove(1);
            return Err(Error::InvalidValue {
                expected: "a map with a single key".to_owned(),
                found: extra,
            });
        }
        let (variant, payload) = entries.remove(0);
        Ok(EnumDeserializer {
            variant,
            deserializer: VariantDeserializer { val: Some(payload), options },
        })
    }
}

impl EnumDeserializer {
    /// Hand out the variant name and the payload sub-bridge.
    pub fn variant(self) -> (r: (String, VariantDeserializer))
        ensures
            r.0 == self.variant,
            r.1 == self.deserializer,
    {
        (self.variant, self.deserializer)
    }
}

impl VariantDeserializer {
    /// The payload, viewed.
    pub open spec fn stored(&self) -> Option<SpecBson> {
        match self.val {
            Some(b) => Some(bview(b)),
            None => None,
        }
    }

    /// A newtype-shaped variant request: the payload is re-driven whole.
    pub fn newtype_variant(self) -> (r: Result<Deserializer, Error>)
        ensures
            match self.stored() {
                None => r == Err::<Deserializer, Error>(Error::EndOfStream),
                Some(v) => r matches Ok(d) && d.stored() == Some(v) && d.options == self.options,
            },
    {
        match self.val {
            Some(v) => Ok(Deserializer { value: Some(v), options: self.options }),
            None => Err(Error::EndOfStream),
        }
    }

    /// A tuple-shaped variant request: the payload must be an array, which
    /// is offered as a sequence (a unit when empty).
    pub fn tuple_variant(self) -> (r: Result<Offer, Error>)
        ensures
            match self.stored() {
                None => r == Err::<Offer, Error>(Error::EndOfStream),
                Some(v) => match v {
                    SpecBson::Array(a) => if a.len() == 0 {
                        r == Ok::<Offer, Error>(Offer::Unit)
                    } else {
                        &&& r matches Ok(o)
                        &&& o matches Offer::Sequence(sd)
                        &&& sd.remaining() == a
                        &&& sd.options == self.options
                    },
                    _ => r matches Err(e) && e.kind() == ErrorKind::InvalidType,
                },
            },
    {
        let options = self.options;
        match self.val {
            Some(Bson::Array(fields)) => {
                let sd = SeqDeserializer { elems: fields, options };
                proof {
                    assert(sd.remaining() =~= bviews(sd.elems@));
                }
                Ok(sd.deserialize_any())
            }
            Some(other) => Err(Error::InvalidType {
                expected: "expected a tuple".to_owned(),
                found: other.kind_name(),
            }),
            None => Err(Error::EndOfStream),
        }
    }

    /// A struct-shaped variant request: the payload must be a document,
    /// which is offered as a map.
    pub fn struct_variant(self) -> (r: Result<Offer, Error>)
        ensures
            match self.stored() {
                None => r == Err::<Offer, Error>(Error::EndOfStream),
                Some(v) => match v {
                    SpecBson::Document(es) => {
                        &&& r matches Ok(o)
                        &&& o matches Offer::Mapping(md)
                        &&& md.remaining() == es
                        &&& md.stash() is None
                        &&& md.options == self.options
                    },
                    _ => r matches Err(e) && e.kind() == ErrorKind::InvalidType,
                },
            },
    {
        let options = self.options;
        match self.val {
            Some(Bson::Document(fields)) => {
                let ghost dv = dview(fields);
                let md = MapDeserializer {
                    entries: fields.into_entries(),
                    value: None,
                    options,
                };
                proof {
                    assert(md.remaining() =~= dv);
                }
                Ok(md.deserialize_any())
            }
            Some(other) => Err(Error::InvalidType {
                expected: "expected a struct".to_owned(),
                found: other.kind_name(),
            }),
            None => Err(Error::EndOfStream),
        }
    }
}

/// The reserved newtype name that requests UUID validation.
pub fn uuid_newtype_name() -> (r: &'static str)
    ensures
        r@ == "$uuid"@,
{
    "$uuid"
}

/// What a newtype-shaped request hands back.
#[derive(Debug)]
pub enum NewtypeAccess {
    /// The UUID-named wrapper was satisfied: the binary is offered.
    Offered(Offer),
    /// Any other wrapper name passes through transparently.
    Inner(Deserializer),
}

impl Deserializer {
    /// A newtype-shaped request. The reserved UUID name requires the stored
    /// value to be a binary with the UUID subtype, which is then offered
    /// through the generic dispatch; any other value is an error. Every
    /// other name passes the bridge through transparently.
    pub fn deserialize_newtype_struct(self, name: &str) -> (r: Result<NewtypeAccess, Error>)
        ensures
            name@ != "$uuid"@ ==> (r matches Ok(a) && a matches NewtypeAccess::Inner(d) && d
                == self),
            name@ == "$uuid"@ ==> match self.stored() {
                Some(v) => if v matches SpecBson::Binary(st, b) && st == BINARY_SUBTYPE_UUID {
                    r matches Ok(a) && a matches NewtypeAccess::Offered(o) && spec_offer_ok(
                        v,
                        self.options,
                        o,
                    )
                } else {
                    r matches Err(e) && e.kind() == ErrorKind::Custom
                },
                None => r matches Err(e) && e.kind() == ErrorKind::Custom,
            },
    {
        let named_uuid = name.to_owned() == uuid_newtype_name().to_owned();
        if named_uuid {
            let is_uuid_binary = match &self.value {
                Some(Bson::Binary(b)) => b.subtype == BINARY_SUBTYPE_UUID,
                _ => false,
            };
            if is_uuid_binary {
                match self.deserialize_any() {
                    Ok(o) => Ok(NewtypeAccess::Offered(o)),
                    Err(_) => Err(Error::Custom {
                        message: "expected Binary with the UUID subtype".to_owned(),
                    }),
                }
            } else {
                Err(Error::Custom {
                    message: "expected Binary with the UUID subtype".to_owned(),
                })
            }
        } else {
            Ok(NewtypeAccess::Inner(self))
        }
    }
}

/// A sequence offer carries strictly less measure than the value offered.
pub proof fn lemma_seq_offer_size(v: SpecBson, opts: DeserializerOptions, o: Offer)
    requires
        spec_offer_ok(v, opts, o),
        o matches Offer::Sequence(..),
    ensures
        o matches Offer::Sequence(sd) && vseq_size(sd.remaining()) < vsize(v),
{
    match v {
        SpecBson::Array(a) => {}
        _ => {
            assert(false);
        }
    }
}

/// A map offer carries strictly less measure than the value offered, and a
/// fresh stash.
pub proof fn lemma_map_offer_size(v: SpecBson, opts: DeserializerOptions, o: Offer)
    requires
        spec_offer_ok(v, opts, o),
        o matches Offer::Mapping(..),
    ensures
        o matches Offer::Mapping(md) && ventries_size(md.remaining()) < vsize(v) && md.stash()
            is None,
{
    match v {
        SpecBson::Document(es) => {}
        SpecBson::Binary(st, b) => {
            lemma_extended_entries_size(v);
        }
        SpecBson::DateTime(..) => lemma_extended_entries_size(v),
        SpecBson::Timestamp(..) => lemma_extended_entries_size(v),
        SpecBson::Decimal128(..) => lemma_extended_entries_size(v),
        _ => {
            assert(false);
        }
    }
}

/// The uniform promotion of every unsigned source width: the value model
/// stores it as a 64-bit unsigned integer with identical magnitude.
pub fn convert_unsigned_to_signed(value: u64) -> (r: Bson)
    ensures
        r@ == SpecBson::UInt64(value),
{
    Bson::UInt64(value)
}

} // verus!
