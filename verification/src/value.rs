//! The owned value model: a closed tagged union `Bson` and an ordered
//! string-keyed mapping `Document`, together with their mathematical views.
//!
//! A double is carried as its IEEE-754 bit pattern so that the model stays
//! within exact integer arithmetic; the bit patterns of the three special
//! values the extended-JSON decoder produces are named constants.

use vstd::prelude::*;
use vstd::string::StringExecFns;

verus! {

broadcast use vstd::std_specs::vec::axiom_vec_index_decreases;

/// Subtype tag of a generic (default) binary value.
pub const BINARY_SUBTYPE_GENERIC: u8 = 0;
/// Subtype tag of a UUID binary value.
pub const BINARY_SUBTYPE_UUID: u8 = 4;

/// IEEE-754 bit pattern of positive infinity.
pub const DOUBLE_BITS_INFINITY: u64 = 0x7FF0000000000000;
/// IEEE-754 bit pattern of negative infinity.
pub const DOUBLE_BITS_NEG_INFINITY: u64 = 0xFFF0000000000000;
/// IEEE-754 bit pattern of the quiet NaN produced when decoding `"NaN"`.
pub const DOUBLE_BITS_NAN: u64 = 0x7FF8000000000000;

/// Binary data: a subtype tag plus owned bytes.
#[derive(Debug, Clone, PartialEq)]
pub struct Binary {
    /// The subtype of the binary value.
    pub subtype: u8,
    /// The binary bytes.
    pub bytes: Vec<u8>,
}

/// A timestamp: seconds since the epoch plus an ordinal increment.
#[derive(Debug, Clone, Copy, PartialEq, Eq, Structural)]
pub struct Timestamp {
    /// The number of seconds since the epoch.
    pub time: u32,
    /// The increment ordering timestamps within one second.
    pub increment: u32,
}

/// A point in time, carried as milliseconds since the epoch.
#[derive(Debug, Clone, Copy, PartialEq, Eq, Structural)]
pub struct DateTime {
    /// Milliseconds since the epoch.
    pub millis: i64,
}

impl DateTime {
    /// Build a datetime from a millisecond-since-epoch count.
    pub fn from_millis(millis: i64) -> (r: DateTime)
        ensures
            r.millis == millis,
    {
        DateTime { millis }
    }

    /// The millisecond-since-epoch count of this datetime.
    pub fn timestamp_millis(&self) -> (r: i64)
        ensures
            r == self.millis,
    {
        self.millis
    }
}

/// An opaque 128-bit decimal payload, carried as its 16 raw bytes.
#[derive(Debug, Clone, Copy, PartialEq, Eq)]
pub struct Decimal128 {
    /// The 16-byte payload.
    pub bytes: [u8; 16],
}

/// A 12-byte object identifier.
#[derive(Debug, Clone, Copy, PartialEq, Eq)]
pub struct ObjectId {
    /// The 12 raw bytes of the identifier.
    pub bytes: [u8; 12],
}

/// The owned tagged-union value.
#[derive(Debug, PartialEq)]
pub enum Bson {
    /// 64-bit binary floating point, carried as its bit pattern.
    Double(u64),
    /// UTF-8 string.
    String(String),
    /// Array of values.
    Array(Vec<Bson>),
    /// Embedded document.
    Document(Document),
    /// Boolean value.
    Boolean(bool),
    /// Null value.
    Null,
    /// 32-bit signed integer.
    Int32(i32),
    /// 64-bit signed integer.
    Int64(i64),
    /// 32-bit unsigned integer.
    UInt32(u32),
    /// 64-bit unsigned integer.
    UInt64(u64),
    /// Binary data.
    Binary(Binary),
    /// Point in time.
    DateTime(DateTime),
    /// Timestamp.
    Timestamp(Timestamp),
    /// 128-bit decimal.
    Decimal128(Decimal128),
}

/// An ordered string-keyed mapping. Insertion order is preserved and is
/// semantically significant: the bridge consumes entries in this order.
#[derive(Debug, PartialEq)]
pub struct Document {
    /// The entries, in insertion order.
    pub entries: Vec<(String, Bson)>,
}

/// The mathematical mirror of [`Bson`]: sequences in place of vectors,
/// character sequences in place of strings.
#[verifier::ext_equal]
pub enum SpecBson {
    /// 64-bit binary floating point, as its bit pattern.
    Double(u64),
    /// UTF-8 string.
    String(Seq<char>),
    /// Array of values.
    Array(Seq<SpecBson>),
    /// Embedded document: its entries in order.
    Document(Seq<(Seq<char>, SpecBson)>),
    /// Boolean value.
    Boolean(bool),
    /// Null value.
    Null,
    /// 32-bit signed integer.
    Int32(i32),
    /// 64-bit signed integer.
    Int64(i64),
    /// 32-bit unsigned integer.
    UInt32(u32),
    /// 64-bit unsigned integer.
    UInt64(u64),
    /// Binary data: subtype and bytes.
    Binary(u8, Seq<u8>),
    /// Point in time, as milliseconds since the epoch.
    DateTime(i64),
    /// Timestamp: time and increment.
    Timestamp(u32, u32),
    /// 128-bit decimal, as its 16 bytes.
    Decimal128(Seq<u8>),
}

/// The view of an owned value.
pub open spec fn bview(b: Bson) -> SpecBson
    decreases b,
{
    match b {
        Bson::Double(bits) => SpecBson::Double(bits),
        Bson::String(s) => SpecBson::String(s@),
        Bson::Array(v) => SpecBson::Array(bviews(v@)),
        Bson::Document(d) => SpecBson::Document(eviews(d.entries@)),
        Bson::Boolean(v) => SpecBson::Boolean(v),
        Bson::Null => SpecBson::Null,
        Bson::Int32(v) => SpecBson::Int32(v),
        Bson::Int64(v) => SpecBson::Int64(v),
        Bson::UInt32(v) => SpecBson::UInt32(v),
        Bson::UInt64(v) => SpecBson::UInt64(v),
        Bson::Binary(bin) => SpecBson::Binary(bin.subtype, bin.bytes@),
        Bson::DateTime(dt) => SpecBson::DateTime(dt.millis),
        Bson::Timestamp(ts) => SpecBson::Timestamp(ts.time, ts.increment),
        Bson::Decimal128(d) => SpecBson::Decimal128(d.bytes@),
    }
}

/// The views of a sequence of owned values, elementwise.
pub open spec fn bviews(s: Seq<Bson>) -> Seq<SpecBson>
    decreases s,
{
    Seq::new(s.len(), |i: int| if 0 <= i < s.len() { bview(s[i]) } else { SpecBson::Null })
}

/// The views of a sequence of owned entries, elementwise.
pub open spec fn eviews(s: Seq<(String, Bson)>) -> Seq<(Seq<char>, SpecBson)>
    decreases s,
{
    Seq::new(
        s.len(),
        |i: int| if 0 <= i < s.len() {
            (s[i].0@, bview(s[i].1))
        } else {
            (Seq::<char>::empty(), SpecBson::Null)
        },
    )
}

/// The view of a document: its entries in order.
pub open spec fn dview(d: Document) -> Seq<(Seq<char>, SpecBson)> {
    eviews(d.entries@)
}

impl View for Bson {
    type V = SpecBson;

    open spec fn view(&self) -> SpecBson {
        bview(*self)
    }
}

impl View for Document {
    type V = Seq<(Seq<char>, SpecBson)>;

    open spec fn view(&self) -> Seq<(Seq<char>, SpecBson)> {
        dview(*self)
    }
}

/// Whether some entry of `es` carries the key `k`.
pub open spec fn spec_doc_contains(es: Seq<(Seq<char>, SpecBson)>, k: Seq<char>) -> bool
    decreases es.len(),
{
    if es.len() == 0 {
        false
    } else if es[0].0 == k {
        true
    } else {
        spec_doc_contains(es.drop_first(), k)
    }
}

/// The value of the first entry carrying the key `k`, if any.
pub open spec fn spec_doc_get(es: Seq<(Seq<char>, SpecBson)>, k: Seq<char>) -> Option<SpecBson>
    decreases es.len(),
{
    if es.len() == 0 {
        None
    } else if es[0].0 == k {
        Some(es[0].1)
    } else {
        spec_doc_get(es.drop_first(), k)
    }
}

/// Entries after inserting `(k, v)`: the first entry keyed `k` is replaced in
/// place, otherwise the pair is appended.
pub open spec fn spec_doc_insert(
    es: Seq<(Seq<char>, SpecBson)>,
    k: Seq<char>,
    v: SpecBson,
) -> Seq<(Seq<char>, SpecBson)>
    decreases es.len(),
{
    if es.len() == 0 {
        seq![(k, v)]
    } else if es[0].0 == k {
        seq![(k, v)] + es.drop_first()
    } else {
        seq![es[0]] + spec_doc_insert(es.drop_first(), k, v)
    }
}

/// Skipping entries that do not carry `k` does not change a lookup.
pub proof fn lemma_doc_get_skip(es: Seq<(Seq<char>, SpecBson)>, k: Seq<char>, i: int)
    requires
        0 <= i <= es.len(),
        forall|j: int| 0 <= j < i ==> es[j].0 != k,
    ensures
        spec_doc_get(es, k) == spec_doc_get(es.skip(i), k),
    decreases i,
{
    if i > 0 {
        assert(es[0].0 != k);
        assert(es.drop_first() =~= es.skip(1));
        lemma_doc_get_skip(es.drop_first(), k, i - 1);
        assert(es.drop_first().skip(i - 1) =~= es.skip(i));
    } else {
        assert(es.skip(0) =~= es);
    }
}

/// Skipping entries that do not carry `k` splits an insertion.
pub proof fn lemma_doc_insert_skip(
    es: Seq<(Seq<char>, SpecBson)>,
    k: Seq<char>,
    v: SpecBson,
    i: int,
)
    requires
        0 <= i <= es.len(),
        forall|j: int| 0 <= j < i ==> es[j].0 != k,
    ensures
        spec_doc_insert(es, k, v) == es.take(i) + spec_doc_insert(es.skip(i), k, v),
    decreases i,
{
    if i > 0 {
        assert(es[0].0 != k);
        assert(es.drop_first() =~= es.skip(1));
        lemma_doc_insert_skip(es.drop_first(), k, v, i - 1);
        assert(es.drop_first().skip(i - 1) =~= es.skip(i));
        assert(es.drop_first().take(i - 1) =~= es.skip(1).take(i - 1));
        assert(seq![es[0]] + (es.drop_first().take(i - 1) + spec_doc_insert(es.skip(i), k, v))
            =~= es.take(i) + spec_doc_insert(es.skip(i), k, v));
    } else {
        assert(es.take(0) =~= Seq::<(Seq<char>, SpecBson)>::empty());
        assert(es.skip(0) =~= es);
        assert(es.take(0) + spec_doc_insert(es, k, v) =~= spec_doc_insert(es, k, v));
    }
}

impl Document {
    /// A new, empty document.
    pub fn new() -> (r: Document)
        ensures
            r@ == Seq::<(Seq<char>, SpecBson)>::empty(),
    {
        let r = Document { entries: Vec::new() };
        proof {
            assert(r@ =~= Seq::<(Seq<char>, SpecBson)>::empty());
        }
        r
    }

    /// The number of entries.
    pub fn len(&self) -> (r: usize)
        ensures
            r == self@.len(),
    {
        self.entries.len()
    }

    /// Whether the document has no entries.
    pub fn is_empty(&self) -> (r: bool)
        ensures
            r == (self@.len() == 0),
    {
        self.entries.len() == 0
    }

    /// Insert `(key, value)`: replaces the value of the first entry already
    /// keyed `key`, preserving its position, otherwise appends the pair.
    pub fn insert(&mut self, key: String, value: Bson)
        ensures
            final(self)@ == spec_doc_insert(old(self)@, key@, value@),
    {
        let ghost es = self@;
        let mut i: usize = 0;
        while i < self.entries.len()
            invariant
                i <= self.entries@.len(),
                *self == *old(self),
                es == self@,
                forall|j: int| 0 <= j < i ==> es[j].0 != key@,
            decreases self.entries@.len() - i,
        {
            if self.entries[i].0 == key {
                proof {
                    lemma_doc_insert_skip(es, key@, value@, i as int);
                }
                self.entries[i] = (key, value);
                proof {
                    assert(es.skip(i as int)[0].0 == key@);
                    assert(spec_doc_insert(es.skip(i as int), key@, value@) =~= seq![
                        (key@, value@),
                    ] + es.skip(i as int).drop_first());
                    assert(es.skip(i as int).drop_first() =~= es.skip(i + 1));
                    assert(self@ =~= es.take(i as int) + (seq![(key@, value@)] + es.skip(i + 1)));
                }
                return;
            }
            i += 1;
        }
        proof {
            lemma_doc_insert_skip(es, key@, value@, es.len() as int);
            assert(es.skip(es.len() as int).len() == 0);
            assert(spec_doc_insert(es.skip(es.len() as int), key@, value@) =~= seq![
                (key@, value@),
            ]);
        }
        self.entries.push((key, value));
        proof {
            assert(self@ =~= es.take(es.len() as int) + seq![(key@, value@)]);
        }
    }

    /// The value of the first entry keyed `key`, if any.
    pub fn get(&self, key: &str) -> (r: Option<&Bson>)
        ensures
            match r {
                Some(v) => spec_doc_get(self@, key@) == Some(v@),
                None => spec_doc_get(self@, key@) is None,
            },
    {
        let k = String::from_str(key);
        let mut i: usize = 0;
        while i < self.entries.len()
            invariant
                i <= self.entries@.len(),
                k@ == key@,
                forall|j: int| 0 <= j < i ==> self@[j].0 != key@,
            decreases self.entries@.len() - i,
        {
            if self.entries[i].0 == k {
                proof {
                    lemma_doc_get_skip(self@, key@, i as int);
                    assert(self@.skip(i as int)[0].0 == key@);
                    assert(spec_doc_get(self@.skip(i as int), key@) == Some(self@[i as int].1));
                }
                return Some(&self.entries[i].1);
            }
            i += 1;
        }
        proof {
            lemma_doc_get_skip(self@, key@, self@.len() as int);
            assert(self@.skip(self@.len() as int).len() == 0);
        }
        None
    }

    /// Hand the entries out in order, consuming the document.
    pub fn into_entries(self) -> (r: Vec<(String, Bson)>)
        ensures
            r@.len() == self@.len(),
            forall|i: int| 0 <= i < r@.len() ==> (r@[i].0@, r@[i].1@) == self@[i],
    {
        self.entries
    }

    /// Build a document from entries, in order.
    pub fn from_entries(entries: Vec<(String, Bson)>) -> (r: Document)
        ensures
            r@.len() == entries@.len(),
            forall|i: int| 0 <= i < entries@.len() ==> r@[i] == (entries@[i].0@, entries@[i].1@),
    {
        Document { entries }
    }
}

impl Bson {
    /// A short rendering of this value's type tag, used in error messages.
    pub fn kind_name(&self) -> (r: String)
        ensures
            r@ == spec_kind_name(self@),
    {
        match self {
            Bson::Double(..) => "double".to_owned(),
            Bson::String(..) => "string".to_owned(),
            Bson::Array(..) => "array".to_owned(),
            Bson::Document(..) => "document".to_owned(),
            Bson::Boolean(..) => "boolean".to_owned(),
            Bson::Null => "null".to_owned(),
            Bson::Int32(..) => "int32".to_owned(),
            Bson::Int64(..) => "int64".to_owned(),
            Bson::UInt32(..) => "uint32".to_owned(),
            Bson::UInt64(..) => "uint64".to_owned(),
            Bson::Binary(..) => "binary".to_owned(),
            Bson::DateTime(..) => "datetime".to_owned(),
            Bson::Timestamp(..) => "timestamp".to_owned(),
            Bson::Decimal128(..) => "decimal128".to_owned(),
        }
    }
}

/// The type-tag rendering of a value, used in error messages.
pub open spec fn spec_kind_name(v: SpecBson) -> Seq<char> {
    match v {
        SpecBson::Double(..) => "double"@,
        SpecBson::String(..) => "string"@,
        SpecBson::Array(..) => "array"@,
        SpecBson::Document(..) => "document"@,
        SpecBson::Boolean(..) => "boolean"@,
        SpecBson::Null => "null"@,
        SpecBson::Int32(..) => "int32"@,
        SpecBson::Int64(..) => "int64"@,
        SpecBson::UInt32(..) => "uint32"@,
        SpecBson::UInt64(..) => "uint64"@,
        SpecBson::Binary(..) => "binary"@,
        SpecBson::DateTime(..) => "datetime"@,
        SpecBson::Timestamp(..) => "timestamp"@,
        SpecBson::Decimal128(..) => "decimal128"@,
    }
}

} // verus!
