//! The parsed count specification: a signed number of lines or bytes, with a
//! distinct sentinel for a literal `+0` argument, and the parser that turns a
//! textual argument into it.

use vstd::prelude::*;
use vstd::string::StrSliceExecFns;
use vstd::string::StringExecFns;

verus! {

/// A count specification, as given on the command line.
///
/// `TakeNum(n)` with `n > 0` selects items starting at the `n`-th one,
/// counting from 1 at the start of the file; `n < 0` selects the last `|n|`
/// items; `n == 0` selects nothing.  `PlusZero` records a literal `+0`
/// argument, which selects the whole file unless it is empty — it is never
/// interchangeable with `TakeNum(0)`.
#[derive(Debug, Clone, PartialEq, Eq, Structural)]
pub enum TakeValue {
    PlusZero,
    TakeNum(i64),
}

/// An ASCII decimal digit.
pub open spec fn is_count_digit(c: char) -> bool {
    48 <= c as int && c as int <= 57
}

/// The numeric value of an ASCII decimal digit.
pub open spec fn digit_val(c: char) -> nat {
    (c as int - 48) as nat
}

/// A non-empty sequence of ASCII decimal digits.
pub open spec fn is_digit_seq(s: Seq<char>) -> bool {
    s.len() > 0 && forall|j: int| 0 <= j < s.len() ==> is_count_digit(s[j])
}

/// The non-negative integer denoted by a digit sequence, most significant
/// digit first.
pub open spec fn digits_val(s: Seq<char>) -> nat
    decreases s.len(),
{
    if s.len() == 0 {
        0
    } else {
        digits_val(s.drop_last()) * 10 + digit_val(s.last())
    }
}

/// What parsing a count argument yields: `None` is a parse failure.
///
/// The text is classified by its first character as explicit-plus,
/// explicit-minus, or unsigned; after stripping the one optional sign, the
/// rest must be a non-empty digit string whose signed value is representable
/// as an `i64`.  An explicit plus keeps the magnitude (with `+0` yielding the
/// `PlusZero` sentinel); an unsigned or explicit-minus argument denotes the
/// negated magnitude, since a plain `3` and `-3` both mean "the last 3 items".
pub open spec fn parse_spec(s: Seq<char>) -> Option<TakeValue> {
    if s.len() > 0 && s[0] == '+' {
        let m = s.drop_first();
        if is_digit_seq(m) && digits_val(m) <= i64::MAX {
            if digits_val(m) == 0 {
                Some(TakeValue::PlusZero)
            } else {
                Some(TakeValue::TakeNum(digits_val(m) as i64))
            }
        } else {
            None
        }
    } else if s.len() > 0 && s[0] == '-' {
        let m = s.drop_first();
        if is_digit_seq(m) && digits_val(m) <= 0x8000_0000_0000_0000 {
            Some(TakeValue::TakeNum((-(digits_val(m) as int)) as i64))
        } else {
            None
        }
    } else {
        if is_digit_seq(s) && digits_val(s) <= i64::MAX {
            Some(TakeValue::TakeNum((-(digits_val(s) as int)) as i64))
        } else {
            None
        }
    }
}

/// The diagnostic for a count argument that does not parse.
pub open spec fn illegal_msg(field: Seq<char>, text: Seq<char>) -> Seq<char> {
    "illegal "@ + field + " count -- "@ + text
}

/// Build the diagnostic string for an unparsable count argument.
fn illegal_count_msg(field_name: &str, text: &str) -> (r: String)
    ensures
        r@ == illegal_msg(field_name@, text@),
{
    let mut msg = String::from_str("illegal ");
    msg.append(field_name);
    msg.append(" count -- ");
    msg.append(text);
    proof {
        assert(msg@ =~= illegal_msg(field_name@, text@));
    }
    msg
}

/// Read the digit string `s[start..]` as a magnitude: `Some` of its value
/// when it is a non-empty digit string with value at most `2^63`, `None`
/// otherwise.
fn parse_magnitude(s: &str, start: usize) -> (r: Option<u64>)
    requires
        start as int <= s@.len(),
    ensures
        ({
            let m = s@.skip(start as int);
            if is_digit_seq(m) && digits_val(m) <= 0x8000_0000_0000_0000 {
                r == Some(digits_val(m) as u64)
            } else {
                r is None
            }
        }),
{
    let ghost m = s@.skip(start as int);
    let n = s.unicode_len();
    if start == n {
        assert(m.len() == 0);
        return None;
    }
    let mut i: usize = start;
    let mut mag: u64 = 0;
    // Once the accumulated value is known to exceed 2^63, `mag` stops
    // tracking it and this flag records the overflow instead.
    let mut over: bool = false;
    while i < n
        invariant
            n == s@.len(),
            start <= i <= n,
            forall|j: int| start <= j < i ==> is_count_digit(s@[j]),
            !over ==> mag as nat == digits_val(s@.subrange(start as int, i as int)),
            over ==> digits_val(s@.subrange(start as int, i as int)) > 0x8000_0000_0000_0000,
        decreases n - i,
    {
        let c = s.get_char(i);
        let cu = c as u32;
        if cu < 48 || cu > 57 {
            proof {
                assert(s@.skip(start as int)[i - start] == s@[i as int]);
                assert(!is_count_digit(s@[i as int]));
            }
            return None;
        }
        let d = (cu - 48) as u64;
        proof {
            let pre = s@.subrange(start as int, i as int);
            let post = s@.subrange(start as int, i + 1 as int);
            assert(post.drop_last() =~= pre);
            assert(post.last() == s@[i as int]);
            assert(digits_val(post) == digits_val(pre) * 10 + digit_val(s@[i as int]));
        }
        if over || mag > 1844674407370955160u64 {
            proof {
                let pre = s@.subrange(start as int, i as int);
                assert(digits_val(pre) > 1844674407370955160);
                assert(digits_val(pre) * 10 > 0x8000_0000_0000_0000);
            }
            over = true;
        } else {
            mag = mag * 10 + d;
        }
        i += 1;
    }
    proof {
        assert(s@.subrange(start as int, n as int) =~= m);
    }
    if over {
        None
    } else if mag > 9223372036854775808u64 {
        None
    } else {
        Some(mag)
    }
}

/// Parse a textual count argument into a [`TakeValue`].
///
/// On failure the error string is exactly
/// `"illegal {field_name} count -- {s}"`.
pub fn parse_take_value(s: &str, field_name: &str) -> (r: Result<TakeValue, String>)
    ensures
        (match parse_spec(s@) {
            Some(tv) => r == Ok::<TakeValue, String>(tv),
            None => r is Err && r->Err_0@ == illegal_msg(field_name@, s@),
        }),
{
    let n = s.unicode_len();
    if n == 0 {
        return Err(illegal_count_msg(field_name, s));
    }
    let c0 = s.get_char(0);
    if c0 == '+' {
        proof {
            assert(s@.skip(1) =~= s@.drop_first());
        }
        match parse_magnitude(s, 1) {
            Some(v) => {
                if v > 0x7fff_ffff_ffff_ffffu64 {
                    Err(illegal_count_msg(field_name, s))
                } else if v == 0 {
                    Ok(TakeValue::PlusZero)
                } else {
                    Ok(TakeValue::TakeNum(v as i64))
                }
            },
            None => Err(illegal_count_msg(field_name, s)),
        }
    } else if c0 == '-' {
        proof {
            assert(s@.skip(1) =~= s@.drop_first());
        }
        match parse_magnitude(s, 1) {
            Some(v) => {
                if v == 9223372036854775808u64 {
                    Ok(TakeValue::TakeNum(i64::MIN))
                } else {
                    Ok(TakeValue::TakeNum(-(v as i64)))
                }
            },
            None => Err(illegal_count_msg(field_name, s)),
        }
    } else {
        proof {
            assert(s@.skip(0) =~= s@);
        }
        match parse_magnitude(s, 0) {
            Some(v) => {
                if v > 0x7fff_ffff_ffff_ffffu64 {
                    Err(illegal_count_msg(field_name, s))
                } else {
                    Ok(TakeValue::TakeNum(-(v as i64)))
                }
            },
            None => Err(illegal_count_msg(field_name, s)),
        }
    }
}

/// Parse the line-count option; its diagnostics name the `line` field.
pub fn parse_lines(s: &str) -> (r: Result<TakeValue, String>)
    ensures
        (match parse_spec(s@) {
            Some(tv) => r == Ok::<TakeValue, String>(tv),
            None => r is Err && r->Err_0@ == illegal_msg("line"@, s@),
        }),
{
    parse_take_value(s, "line")
}

/// Parse the byte-count option; its diagnostics name the `byte` field.
pub fn parse_bytes(s: &str) -> (r: Result<TakeValue, String>)
    ensures
        (match parse_spec(s@) {
            Some(tv) => r == Ok::<TakeValue, String>(tv),
            None => r is Err && r->Err_0@ == illegal_msg("byte"@, s@),
        }),
{
    parse_take_value(s, "byte")
}

/// Law: for a non-negative integer written as the digit string `m` (with
/// value representable as an `i64`), parsing `"+{m}"` yields `PlusZero`
/// exactly when the value is zero, and `TakeNum(value)` otherwise.
pub proof fn lemma_parse_explicit_plus(m: Seq<char>)
    requires
        is_digit_seq(m),
        digits_val(m) <= i64::MAX,
    ensures
        digits_val(m) == 0 ==> parse_spec(seq!['+'] + m) == Some(TakeValue::PlusZero),
        digits_val(m) != 0 ==> parse_spec(seq!['+'] + m) == Some(
            TakeValue::TakeNum(digits_val(m) as i64),
        ),
{
    let s = seq!['+'] + m;
    assert(s[0] == '+');
    assert(s.drop_first() =~= m);
}

/// Law: for a non-negative integer written as the digit string `m` (with
/// value representable as an `i64`), parsing `"{m}"` and parsing `"-{m}"`
/// both yield `TakeNum(-value)`: a plain count and an explicit-minus count
/// mean the same thing.
pub proof fn lemma_parse_negative_forms(m: Seq<char>)
    requires
        is_digit_seq(m),
        digits_val(m) <= i64::MAX,
    ensures
        parse_spec(m) == Some(TakeValue::TakeNum((-(digits_val(m) as int)) as i64)),
        parse_spec(seq!['-'] + m) == Some(TakeValue::TakeNum((-(digits_val(m) as int)) as i64)),
{
    assert(is_count_digit(m[0]));
    assert(m[0] != '+');
    assert(m[0] != '-');
    let s = seq!['-'] + m;
    assert(s[0] == '-');
    assert(s.drop_first() =~= m);
}

} // verus!
