//! Laws of the decoding bridge, proved over its mathematical model.
//!
//! The base64 inversion that the encode wrapper guarantees at each call
//! appears here as an explicit hypothesis (`b64_inverts`), so every law is
//! conditional on exactly what is trusted and nothing more.

use vstd::prelude::*;

use crate::de::spec_decode;
use crate::de::spec_decode_elems;
use crate::de::spec_decode_entries;
use crate::de::spec_map_decode;
use crate::de::ventries_size;
use crate::de::vseq_size;
use crate::de::vsize;
use crate::error::ErrorKind;
use crate::extjson::b64_decode_of;
use crate::extjson::b64_of;
use crate::extjson::is_marker_key;
use crate::extjson::lemma_hex_byte_roundtrip;
use crate::extjson::spec_extended_entries;
use crate::extjson::spec_has_extended_form;
use crate::extjson::spec_marker_of;
use crate::extjson::Marker;
use crate::numeric::lemma_parse_i64_of_dec;
use crate::numeric::spec_parse_i64;
use crate::value::spec_doc_insert;
use crate::value::SpecBson;

verus! {

/// The hypothesis that decoding inverts encoding in the base64 crate, as
/// the trusted encode wrapper states of each call it makes.
pub open spec fn b64_inverts() -> bool {
    forall|b: Seq<u8>| #[trigger] b64_decode_of(b64_of(b)) == Some(b)
}

/// A value the bridge decodes back to itself: no document may lead with a
/// reserved marker key or repeat a key, no 32-bit unsigned integer occurs
/// (the bridge promotes it to 64 bits), and a decimal payload holds its
/// exact 16 bytes.
pub open spec fn clean(v: SpecBson) -> bool
    decreases v,
{
    match v {
        SpecBson::Array(a) => forall|i: int| 0 <= i < a.len() ==> clean(#[trigger] a[i]),
        SpecBson::Document(es) => {
            &&& es.len() > 0 ==> !is_marker_key(es[0].0)
            &&& forall|i: int, j: int| 0 <= i < j < es.len() ==> es[i].0 != es[j].0
            &&& forall|i: int| 0 <= i < es.len() ==> clean((#[trigger] es[i]).1)
        },
        SpecBson::UInt32(..) => false,
        SpecBson::Decimal128(b) => b.len() == 16,
        _ => true,
    }
}

/// The reserved marker keys are classified as themselves and the body
/// field names are pairwise distinct.
proof fn lemma_marker_literal_facts()
    ensures
        spec_marker_of("$binary"@) == Marker::Binary,
        spec_marker_of("$timestamp"@) == Marker::Timestamp,
        spec_marker_of("$date"@) == Marker::Date,
        spec_marker_of("$numberDecimalBytes"@) == Marker::NumberDecimalBytes,
        "base64"@ != "subType"@,
        "t"@ != "i"@,
{
    reveal_strlit("$numberInt");
    reveal_strlit("$numberLong");
    reveal_strlit("$numberUInt32");
    reveal_strlit("$numberUInt64");
    reveal_strlit("$numberDouble");
    reveal_strlit("$binary");
    reveal_strlit("$timestamp");
    reveal_strlit("$date");
    reveal_strlit("$numberDecimal");
    reveal_strlit("$numberDecimalBytes");
    reveal_strlit("base64");
    reveal_strlit("subType");
    reveal_strlit("t");
    reveal_strlit("i");
    assert(("$numberInt"@).len() == 10);
    assert(("$numberLong"@).len() == 11);
    assert(("$numberUInt32"@).len() == 13);
    assert(("$numberUInt64"@).len() == 13);
    assert(("$numberDouble"@).len() == 13);
    assert(("$binary"@).len() == 7);
    assert(("$timestamp"@).len() == 10);
    assert(("$date"@).len() == 5);
    assert(("$numberDecimal"@).len() == 14);
    assert(("$numberDecimalBytes"@).len() == 19);
    assert(("$numberInt"@)[1] == 'n');
    assert(("$timestamp"@)[1] == 't');
    assert(("base64"@).len() == 6);
    assert(("subType"@).len() == 7);
    assert(("t"@)[0] == 't');
    assert(("i"@)[0] == 'i');
}

/// Inserting a key no entry of `acc` carries appends the pair.
proof fn lemma_doc_insert_fresh(acc: Seq<(Seq<char>, SpecBson)>, k: Seq<char>, v: SpecBson)
    requires
        forall|i: int| 0 <= i < acc.len() ==> (#[trigger] acc[i]).0 != k,
    ensures
        spec_doc_insert(acc, k, v) == acc.push((k, v)),
    decreases acc.len(),
{
    if acc.len() == 0 {
        assert(spec_doc_insert(acc, k, v) =~= acc.push((k, v)));
    } else {
        assert(acc[0].0 != k);
        lemma_doc_insert_fresh(acc.drop_first(), k, v);
        assert(seq![acc[0]] + acc.drop_first().push((k, v)) =~= acc.push((k, v)));
    }
}

/// Round trip of the canonical one-key extended-JSON fallback document:
/// decoding it through the generic bridge restores the value it stands
/// for, under the base64-inversion hypothesis.
pub proof fn lemma_extended_round_trip(v: SpecBson)
    requires
        spec_has_extended_form(v),
        v matches SpecBson::Decimal128(b) ==> b.len() == 16,
        b64_inverts(),
    ensures
        spec_decode(SpecBson::Document(spec_extended_entries(v))) == Ok::<
            SpecBson,
            ErrorKind,
        >(v),
{
    lemma_marker_literal_facts();
    let es = spec_extended_entries(v);
    assert(spec_decode(SpecBson::Document(es)) == spec_map_decode(es));
    match v {
        SpecBson::Binary(st, b) => {
            assert(b64_decode_of(b64_of(b)) == Some(b));
            lemma_hex_byte_roundtrip(st);
            let inner = es[0].1->Document_0;
            assert(inner[0].0 == "base64"@);
            assert(inner.drop_first()[0] == inner[1]);
            assert(crate::value::spec_doc_get(inner, "base64"@) == Some(inner[0].1));
            assert(crate::value::spec_doc_get(inner.drop_first(), "subType"@) == Some(
                inner[1].1,
            ));
            assert(crate::value::spec_doc_get(inner, "subType"@) == Some(inner[1].1));
            assert(crate::extjson::spec_parse_binary_body(es[0].1) == Ok::<(u8, Seq<u8>), ErrorKind>((st, b)));
            assert(spec_marker_of(es[0].0) == Marker::Binary);
            assert(spec_map_decode(es) == Ok::<SpecBson, ErrorKind>(v));
        }
        SpecBson::DateTime(ms) => {
            lemma_parse_i64_of_dec(ms);
            let inner = es[0].1->Document_0;
            assert(crate::value::spec_doc_get(inner, "$numberLong"@) == Some(inner[0].1));
            assert(crate::extjson::spec_parse_datetime_body(es[0].1) == Ok::<i64, ErrorKind>(ms));
            assert(spec_marker_of(es[0].0) == Marker::Date);
            assert(spec_map_decode(es) == Ok::<SpecBson, ErrorKind>(v));
        }
        SpecBson::Timestamp(t, i) => {
            let inner = es[0].1->Document_0;
            assert(inner[0].0 == "t"@);
            assert(inner.drop_first()[0] == inner[1]);
            assert(crate::value::spec_doc_get(inner, "t"@) == Some(inner[0].1));
            assert(crate::value::spec_doc_get(inner.drop_first(), "i"@) == Some(inner[1].1));
            assert(crate::value::spec_doc_get(inner, "i"@) == Some(inner[1].1));
            assert(crate::extjson::spec_parse_timestamp_body(es[0].1) == Ok::<(u32, u32), ErrorKind>((t, i)));
            assert(spec_marker_of(es[0].0) == Marker::Timestamp);
            assert(spec_map_decode(es) == Ok::<SpecBson, ErrorKind>(v));
        }
        SpecBson::Decimal128(b) => {
            assert(crate::extjson::spec_parse_decimal_bytes(es[0].1) == Ok::<Seq<u8>, ErrorKind>(b));
            assert(spec_marker_of(es[0].0) == Marker::NumberDecimalBytes);
            assert(spec_map_decode(es) == Ok::<SpecBson, ErrorKind>(v));
        }
        _ => {}
    }
}

/// Marker precedence: a map whose first key is `$numberLong` with a value
/// that reads as a 64-bit signed integer decodes to that integer, whatever
/// further keys the map holds.
pub proof fn lemma_marker_precedence(es: Seq<(Seq<char>, SpecBson)>, s: Seq<char>, n: i64)
    requires
        es.len() > 0,
        es[0].0 == "$numberLong"@,
        es[0].1 == SpecBson::String(s),
        spec_parse_i64(s) == Some(n),
    ensures
        spec_map_decode(es) == Ok::<SpecBson, ErrorKind>(SpecBson::Int64(n)),
{
    reveal_strlit("$numberInt");
    reveal_strlit("$numberLong");
    assert(("$numberInt"@).len() == 10);
    assert(("$numberLong"@).len() == 11);
}

/// The `$numberDouble` quirk, first half: the three named special values
/// decode to the corresponding double bit patterns.
pub proof fn lemma_number_double_special(es: Seq<(Seq<char>, SpecBson)>)
    requires
        es.len() > 0,
        es[0].0 == "$numberDouble"@,
    ensures
        es[0].1 == SpecBson::String("Infinity"@) ==> spec_map_decode(es) == Ok::<
            SpecBson,
            ErrorKind,
        >(SpecBson::Double(crate::value::DOUBLE_BITS_INFINITY)),
        es[0].1 == SpecBson::String("-Infinity"@) ==> spec_map_decode(es) == Ok::<
            SpecBson,
            ErrorKind,
        >(SpecBson::Double(crate::value::DOUBLE_BITS_NEG_INFINITY)),
        es[0].1 == SpecBson::String("NaN"@) ==> spec_map_decode(es) == Ok::<
            SpecBson,
            ErrorKind,
        >(SpecBson::Double(crate::value::DOUBLE_BITS_NAN)),
{
    reveal_strlit("Infinity");
    reveal_strlit("-Infinity");
    reveal_strlit("NaN");
    assert(("Infinity"@).len() == 8);
    assert(("-Infinity"@).len() == 9);
    assert(("NaN"@).len() == 3);
    reveal_strlit("$numberInt");
    reveal_strlit("$numberLong");
    reveal_strlit("$numberUInt32");
    reveal_strlit("$numberUInt64");
    reveal_strlit("$numberDouble");
    assert(("$numberInt"@).len() == 10);
    assert(("$numberLong"@).len() == 11);
    assert(("$numberUInt32"@).len() == 13);
    assert(("$numberUInt64"@).len() == 13);
    assert(("$numberDouble"@).len() == 13);
    assert(("$numberUInt32"@)[7] == 'U');
    assert(("$numberUInt64"@)[7] == 'U');
    assert(("$numberDouble"@)[7] == 'D');
}

/// The `$numberDouble` quirk, second half: any other string is read as a
/// 64-bit signed integer, not as a float.
pub proof fn lemma_number_double_integer(es: Seq<(Seq<char>, SpecBson)>, s: Seq<char>, n: i64)
    requires
        es.len() > 0,
        es[0].0 == "$numberDouble"@,
        es[0].1 == SpecBson::String(s),
        s != "Infinity"@,
        s != "-Infinity"@,
        s != "NaN"@,
        spec_parse_i64(s) == Some(n),
    ensures
        spec_map_decode(es) == Ok::<SpecBson, ErrorKind>(SpecBson::Int64(n)),
{
    reveal_strlit("$numberInt");
    reveal_strlit("$numberLong");
    reveal_strlit("$numberUInt32");
    reveal_strlit("$numberUInt64");
    reveal_strlit("$numberDouble");
    assert(("$numberInt"@).len() == 10);
    assert(("$numberLong"@).len() == 11);
    assert(("$numberUInt32"@).len() == 13);
    assert(("$numberUInt64"@).len() == 13);
    assert(("$numberDouble"@).len() == 13);
    assert(("$numberUInt32"@)[7] == 'U');
    assert(("$numberUInt64"@)[7] == 'U');
    assert(("$numberDouble"@)[7] == 'D');
}

/// The bridge is the identity on clean values: decoding a clean value
/// yields the value itself, under the base64-inversion hypothesis.
pub proof fn lemma_decode_clean_identity(v: SpecBson)
    requires
        clean(v),
        b64_inverts(),
    ensures
        spec_decode(v) == Ok::<SpecBson, ErrorKind>(v),
    decreases vsize(v),
{
    match v {
        SpecBson::Array(a) => {
            lemma_decode_elems_identity(a);
        }
        SpecBson::Document(es) => {
            if es.len() == 0 {
                assert(es =~= Seq::<(Seq<char>, SpecBson)>::empty());
            } else {
                lemma_decode_entries_identity(es, Seq::empty());
                assert(Seq::empty() + es =~= es);
            }
        }
        SpecBson::Binary(st, b) => {
            if st != crate::value::BINARY_SUBTYPE_GENERIC {
                lemma_extended_round_trip(v);
            }
        }
        SpecBson::DateTime(..) => lemma_extended_round_trip(v),
        SpecBson::Timestamp(..) => lemma_extended_round_trip(v),
        SpecBson::Decimal128(..) => lemma_extended_round_trip(v),
        _ => {}
    }
}

/// Element-wise identity over a sequence of clean values.
proof fn lemma_decode_elems_identity(a: Seq<SpecBson>)
    requires
        forall|i: int| 0 <= i < a.len() ==> clean(#[trigger] a[i]),
        b64_inverts(),
    ensures
        spec_decode_elems(a) == Ok::<Seq<SpecBson>, ErrorKind>(a),
    decreases vseq_size(a),
{
    if a.len() > 0 {
        lemma_decode_clean_identity(a[0]);
        lemma_decode_elems_identity(a.drop_first());
        assert(seq![a[0]] + a.drop_first() =~= a);
    } else {
        assert(a =~= Seq::<SpecBson>::empty());
    }
}

/// Accumulating clean entries with fresh, pairwise distinct keys appends
/// them in order.
proof fn lemma_decode_entries_identity(
    es: Seq<(Seq<char>, SpecBson)>,
    acc: Seq<(Seq<char>, SpecBson)>,
)
    requires
        forall|i: int, j: int| 0 <= i < j < es.len() ==> es[i].0 != es[j].0,
        forall|i: int| 0 <= i < es.len() ==> clean((#[trigger] es[i]).1),
        forall|i: int, j: int|
            0 <= i < acc.len() && 0 <= j < es.len() ==> (#[trigger] acc[i]).0 != (
            #[trigger] es[j]).0,
        b64_inverts(),
    ensures
        spec_decode_entries(es, acc) == Ok::<Seq<(Seq<char>, SpecBson)>, ErrorKind>(acc + es),
    decreases ventries_size(es),
{
    if es.len() == 0 {
        assert(acc + es =~= acc);
    } else {
        lemma_decode_clean_identity(es[0].1);
        assert(forall|i: int| 0 <= i < acc.len() ==> (#[trigger] acc[i]).0 != es[0].0);
        lemma_doc_insert_fresh(acc, es[0].0, es[0].1);
        let acc2 = acc.push((es[0].0, es[0].1));
        assert(acc2 == acc.push(es[0]));
        lemma_decode_entries_identity(es.drop_first(), acc2);
        assert(acc.push(es[0]) + es.drop_first() =~= acc + es);
    }
}

/// Raw and owned paths agree: the entries a validly encoded buffer
/// converts to are exactly what the generic bridge yields when the same
/// tree is decoded, whenever the converted document is clean.
pub proof fn lemma_raw_owned_equivalence(es: Seq<(Seq<char>, SpecBson)>)
    requires
        clean(SpecBson::Document(es)),
        b64_inverts(),
    ensures
        spec_decode(SpecBson::Document(es)) == Ok::<SpecBson, ErrorKind>(
            SpecBson::Document(es),
        ),
{
    lemma_decode_clean_identity(SpecBson::Document(es));
}

} // verus!
