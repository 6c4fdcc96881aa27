//! Decimal strings: the exact model of the integer parsing and printing the
//! extended-JSON markers rely on, with verified executable counterparts.

use vstd::prelude::*;
use vstd::string::StrSliceExecFns;

verus! {

/// Whether `c` is a decimal digit.
pub open spec fn is_dec_digit(c: char) -> bool {
    48 <= c as int <= 57
}

/// The numeric value of a digit character.
pub open spec fn dec_digit_val(c: char) -> int {
    c as int - 48
}

/// Whether `s` is one or more decimal digits.
pub open spec fn is_dec_digits(s: Seq<char>) -> bool {
    s.len() > 0 && forall|i: int| 0 <= i < s.len() ==> is_dec_digit(#[trigger] s[i])
}

/// The value of a digit string read most-significant first.
pub open spec fn dec_digits_val(s: Seq<char>) -> int
    decreases s.len(),
{
    if s.len() == 0 {
        0
    } else {
        dec_digits_val(s.drop_last()) * 10 + dec_digit_val(s.last())
    }
}

/// The integer denoted by `s`: an optional sign followed by digits, as
/// `str::parse` reads signed integers (before any range check).
pub open spec fn spec_parse_int(s: Seq<char>) -> Option<int> {
    if s.len() >= 1 && (s[0] == '-' || s[0] == '+') {
        if is_dec_digits(s.drop_first()) {
            if s[0] == '-' {
                Some(-dec_digits_val(s.drop_first()))
            } else {
                Some(dec_digits_val(s.drop_first()))
            }
        } else {
            None
        }
    } else {
        if is_dec_digits(s) {
            Some(dec_digits_val(s))
        } else {
            None
        }
    }
}

/// The integer denoted by `s` when read as unsigned: a leading `-` is
/// rejected outright, as `str::parse` reads unsigned integers.
pub open spec fn spec_parse_uint(s: Seq<char>) -> Option<int> {
    if s.len() >= 1 && s[0] == '-' {
        None
    } else {
        spec_parse_int(s)
    }
}

/// What parsing `s` as an `i32` yields.
pub open spec fn spec_parse_i32(s: Seq<char>) -> Option<i32> {
    match spec_parse_int(s) {
        Some(n) => if i32::MIN <= n <= i32::MAX {
            Some(n as i32)
        } else {
            None
        },
        None => None,
    }
}

/// What parsing `s` as an `i64` yields.
pub open spec fn spec_parse_i64(s: Seq<char>) -> Option<i64> {
    match spec_parse_int(s) {
        Some(n) => if i64::MIN <= n <= i64::MAX {
            Some(n as i64)
        } else {
            None
        },
        None => None,
    }
}

/// What parsing `s` as a `u32` yields.
pub open spec fn spec_parse_u32(s: Seq<char>) -> Option<u32> {
    match spec_parse_uint(s) {
        Some(n) => if 0 <= n <= u32::MAX {
            Some(n as u32)
        } else {
            None
        },
        None => None,
    }
}

/// What parsing `s` as a `u64` yields.
pub open spec fn spec_parse_u64(s: Seq<char>) -> Option<u64> {
    match spec_parse_uint(s) {
        Some(n) => if 0 <= n <= u64::MAX {
            Some(n as u64)
        } else {
            None
        },
        None => None,
    }
}

/// A digit string denotes a value of at least zero.
pub proof fn lemma_dec_digits_val_nonneg(s: Seq<char>)
    requires
        forall|i: int| 0 <= i < s.len() ==> is_dec_digit(#[trigger] s[i]),
    ensures
        dec_digits_val(s) >= 0,
    decreases s.len(),
{
    if s.len() > 0 {
        lemma_dec_digits_val_nonneg(s.drop_last());
    }
}

/// Extending a digit string to the right can only grow its value.
pub proof fn lemma_dec_digits_val_prefix(s: Seq<char>, i: int)
    requires
        forall|j: int| 0 <= j < s.len() ==> is_dec_digit(#[trigger] s[j]),
        0 <= i <= s.len(),
    ensures
        dec_digits_val(s.subrange(0, i)) <= dec_digits_val(s),
    decreases s.len() - i,
{
    if i < s.len() {
        let t = s.subrange(0, i + 1);
        assert(t.drop_last() =~= s.subrange(0, i));
        lemma_dec_digits_val_nonneg(s.subrange(0, i));
        lemma_dec_digits_val_prefix(s, i + 1);
    } else {
        assert(s.subrange(0, i) =~= s);
    }
}

/// Parse the digits of `s` from position `start` to its end, accepting a
/// value of at most `bound`. `None` means the text is not all digits (or is
/// empty), or its value exceeds `bound`.
pub fn parse_digits_bounded(s: &str, start: usize, bound: u64) -> (r: Option<u64>)
    requires
        start as int <= s@.len(),
    ensures
        match r {
            Some(v) => {
                &&& is_dec_digits(s@.subrange(start as int, s@.len() as int))
                &&& dec_digits_val(s@.subrange(start as int, s@.len() as int)) == v as int
                &&& v <= bound
            },
            None => {
                ||| !is_dec_digits(s@.subrange(start as int, s@.len() as int))
                ||| dec_digits_val(s@.subrange(start as int, s@.len() as int)) > bound
            },
        },
{
    let len = s.unicode_len();
    if start == len {
        return None;
    }
    let ghost whole = s@.subrange(start as int, s@.len() as int);
    let mut acc: u64 = 0;
    let mut i: usize = start;
    while i < len
        invariant
            start <= i <= len,
            len == s@.len(),
            whole == s@.subrange(start as int, s@.len() as int),
            acc <= bound,
            forall|j: int| start <= j < i ==> is_dec_digit(#[trigger] s@[j]),
            acc as int == dec_digits_val(s@.subrange(start as int, i as int)),
        decreases len - i,
    {
        let c = s.get_char(i);
        let u = c as u32;
        if u < 48 || u > 57 {
            proof {
                assert(!is_dec_digit(s@[i as int]));
                assert(whole[i - start] == s@[i as int]);
            }
            return None;
        }
        let d = (u - 48) as u64;
        proof {
            let pre = s@.subrange(start as int, i as int);
            let post = s@.subrange(start as int, i + 1);
            assert(post.drop_last() =~= pre);
            assert(post.last() == s@[i as int]);
        }
        if acc > bound / 10 {
            proof {
                let post = s@.subrange(start as int, i + 1);
                assert(dec_digits_val(post) == acc as int * 10 + d);
                assert(acc as int * 10 > bound) by {
                    assert(acc as int >= bound as int / 10 + 1);
                };
                assert(forall|j: int| 0 <= j < post.len() ==> is_dec_digit(#[trigger] post[j]));
                if is_dec_digits(whole) {
                    assert(whole.subrange(0, i + 1 - start) =~= post);
                    lemma_dec_digits_val_prefix(whole, i + 1 - start);
                    lemma_dec_digits_val_nonneg(post);
                }
            }
            return None;
        }
        let next = acc * 10;
        if d > bound - next {
            proof {
                let post = s@.subrange(start as int, i + 1);
                assert(dec_digits_val(post) == acc as int * 10 + d);
                if is_dec_digits(whole) {
                    assert(whole.subrange(0, i + 1 - start) =~= post);
                    lemma_dec_digits_val_prefix(whole, i + 1 - start);
                }
            }
            return None;
        }
        acc = next + d;
        i += 1;
    }
    proof {
        assert(s@.subrange(start as int, i as int) =~= whole);
        assert(is_dec_digits(whole));
    }
    Some(acc)
}

/// Parse `s` as an `i64`, as `str::parse` would.
pub fn parse_i64_str(s: &str) -> (r: Option<i64>)
    ensures
        r == spec_parse_i64(s@),
{
    let len = s.unicode_len();
    if len == 0 {
        return None;
    }
    let c0 = s.get_char(0);
    let neg = c0 == '-';
    let signed = neg || c0 == '+';
    let start: usize = if signed {
        1
    } else {
        0
    };
    let bound: u64 = if neg {
        9223372036854775808
    } else {
        9223372036854775807
    };
    proof {
        if signed {
            assert(s@.drop_first() =~= s@.subrange(1, s@.len() as int));
        } else {
            assert(s@ =~= s@.subrange(0, s@.len() as int));
        }
    }
    match parse_digits_bounded(s, start, bound) {
        None => None,
        Some(mag) => {
            if neg {
                Some((-(mag as i128)) as i64)
            } else {
                Some(mag as i64)
            }
        }
    }
}

/// Parse `s` as an `i32`, as `str::parse` would.
pub fn parse_i32_str(s: &str) -> (r: Option<i32>)
    ensures
        r == spec_parse_i32(s@),
{
    let len = s.unicode_len();
    if len == 0 {
        return None;
    }
    let c0 = s.get_char(0);
    let neg = c0 == '-';
    let signed = neg || c0 == '+';
    let start: usize = if signed {
        1
    } else {
        0
    };
    let bound: u64 = if neg {
        2147483648
    } else {
        2147483647
    };
    proof {
        if signed {
            assert(s@.drop_first() =~= s@.subrange(1, s@.len() as int));
        } else {
            assert(s@ =~= s@.subrange(0, s@.len() as int));
        }
    }
    match parse_digits_bounded(s, start, bound) {
        None => None,
        Some(mag) => {
            if neg {
                Some((-(mag as i64)) as i32)
            } else {
                Some(mag as i32)
            }
        }
    }
}

/// Parse `s` as a `u64`, as `str::parse` would (no `-` sign accepted).
pub fn parse_u64_str(s: &str) -> (r: Option<u64>)
    ensures
        r == spec_parse_u64(s@),
{
    let len = s.unicode_len();
    if len == 0 {
        return None;
    }
    let c0 = s.get_char(0);
    if c0 == '-' {
        return None;
    }
    let start: usize = if c0 == '+' {
        1
    } else {
        0
    };
    proof {
        if c0 == '+' {
            assert(s@.drop_first() =~= s@.subrange(1, s@.len() as int));
        } else {
            assert(s@ =~= s@.subrange(0, s@.len() as int));
        }
    }
    parse_digits_bounded(s, start, 18446744073709551615)
}

/// Parse `s` as a `u32`, as `str::parse` would (no `-` sign accepted).
pub fn parse_u32_str(s: &str) -> (r: Option<u32>)
    ensures
        r == spec_parse_u32(s@),
{
    let len = s.unicode_len();
    if len == 0 {
        return None;
    }
    let c0 = s.get_char(0);
    if c0 == '-' {
        return None;
    }
    let start: usize = if c0 == '+' {
        1
    } else {
        0
    };
    proof {
        if c0 == '+' {
            assert(s@.drop_first() =~= s@.subrange(1, s@.len() as int));
        } else {
            assert(s@ =~= s@.subrange(0, s@.len() as int));
        }
    }
    match parse_digits_bounded(s, start, 4294967295) {
        None => None,
        Some(mag) => Some(mag as u32),
    }
}

/// The digit character of a value below ten.
pub open spec fn dec_digit_char(d: int) -> char {
    ((48 + d) as u8) as char
}

/// The digit string of `n >= 0`, most significant first, no sign and no
/// leading zeros (a lone zero for zero).
pub open spec fn spec_dec_digits_of(n: int) -> Seq<char>
    decreases n,
{
    if n < 10 {
        seq![dec_digit_char(if n < 0 { 0 } else { n })]
    } else {
        spec_dec_digits_of(n / 10).push(dec_digit_char(n % 10))
    }
}

/// The decimal rendering of an `i64`: a `-` sign for negatives, then digits.
pub open spec fn spec_i64_to_dec(n: i64) -> Seq<char> {
    if n < 0 {
        seq!['-'] + spec_dec_digits_of(-(n as int))
    } else {
        spec_dec_digits_of(n as int)
    }
}

/// The digit string of `n` is digits and denotes `n`.
pub proof fn lemma_dec_digits_of_val(n: int)
    requires
        n >= 0,
    ensures
        is_dec_digits(spec_dec_digits_of(n)),
        dec_digits_val(spec_dec_digits_of(n)) == n,
    decreases n,
{
    if n < 10 {
        let s = spec_dec_digits_of(n);
        assert(s.len() == 1);
        assert(s[0] == dec_digit_char(n));
        assert(dec_digit_char(n) as int == 48 + n);
        assert(s.drop_last() =~= Seq::<char>::empty());
        assert(s.last() == s[0]);
        assert(dec_digits_val(s) == dec_digits_val(s.drop_last()) * 10 + dec_digit_val(s.last()));
        assert(dec_digits_val(Seq::<char>::empty()) == 0);
    } else {
        lemma_dec_digits_of_val(n / 10);
        let s = spec_dec_digits_of(n);
        let p = spec_dec_digits_of(n / 10);
        assert(s == p.push(dec_digit_char(n % 10)));
        assert(s.drop_last() =~= p);
        assert(dec_digit_char(n % 10) as int == 48 + n % 10) by {
            assert(0 <= n % 10 < 10);
        };
        assert(forall|i: int| 0 <= i < p.len() ==> is_dec_digit(#[trigger] p[i]));
        assert(forall|i: int| 0 <= i < s.len() ==> is_dec_digit(#[trigger] s[i])) by {
            assert(forall|i: int| 0 <= i < p.len() ==> s[i] == p[i]);
        };
    }
}

/// Printing then parsing an `i64` gives the value back.
pub proof fn lemma_parse_i64_of_dec(n: i64)
    ensures
        spec_parse_i64(spec_i64_to_dec(n)) == Some(n),
{
    let s = spec_i64_to_dec(n);
    if n < 0 {
        lemma_dec_digits_of_val(-(n as int));
        assert(s[0] == '-');
        assert(s.drop_first() =~= spec_dec_digits_of(-(n as int)));
        assert(('-') as int != 48 + 0);
    } else {
        lemma_dec_digits_of_val(n as int);
        assert(is_dec_digits(s));
        assert(s[0] != '-' && s[0] != '+') by {
            assert(is_dec_digit(s[0]));
            assert(('-') as int == 45 && ('+') as int == 43);
        };
    }
}

/// The ASCII digit bytes of `n >= 0`, most significant first: the byte
/// rendering of [`spec_dec_digits_of`].
pub open spec fn spec_dec_digit_bytes(n: int) -> Seq<u8>
    decreases n,
{
    if n < 10 {
        seq![(48 + (if n < 0 { 0 } else { n })) as u8]
    } else {
        spec_dec_digit_bytes(n / 10).push((48 + n % 10) as u8)
    }
}

/// The digit bytes are the digit characters, byte for byte, and each lies
/// in the ASCII digit range.
pub proof fn lemma_dec_digit_bytes_chars(n: int)
    requires
        n >= 0,
    ensures
        spec_dec_digit_bytes(n).len() == spec_dec_digits_of(n).len(),
        forall|i: int|
            0 <= i < spec_dec_digit_bytes(n).len() ==> 48 <= #[trigger] spec_dec_digit_bytes(n)[i] <= 57,
        forall|i: int|
            0 <= i < spec_dec_digit_bytes(n).len() ==> (#[trigger] spec_dec_digit_bytes(n)[i]) as char
                == spec_dec_digits_of(n)[i],
    decreases n,
{
    if n < 10 {
        assert(spec_dec_digit_bytes(n) =~= seq![(48 + n) as u8]);
        assert(spec_dec_digits_of(n) =~= seq![dec_digit_char(n)]);
    } else {
        lemma_dec_digit_bytes_chars(n / 10);
        let b = spec_dec_digit_bytes(n);
        let c = spec_dec_digits_of(n);
        let pb = spec_dec_digit_bytes(n / 10);
        assert(b == pb.push((48 + n % 10) as u8));
        assert(c == spec_dec_digits_of(n / 10).push(dec_digit_char(n % 10)));
        assert(forall|i: int| 0 <= i < pb.len() ==> b[i] == pb[i]);
        assert(b[b.len() - 1] == (48 + n % 10) as u8);
        assert(c[c.len() - 1] == dec_digit_char(n % 10));
    }
}

} // verus!
