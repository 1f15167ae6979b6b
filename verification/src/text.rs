//! Small verified text utilities: string equality, decimal rendering of
//! counters for display names, and the shapes and values of numeric
//! literals.

use vstd::prelude::*;
use vstd::string::*;

verus! {

/// Character-for-character equality of two string slices.
pub fn str_eq(a: &str, b: &str) -> (r: bool)
    ensures
        r == (a@ == b@),
{
    let alen = a.unicode_len();
    let blen = b.unicode_len();
    if alen != blen {
        return false;
    }
    let mut i: usize = 0;
    while i < alen
        invariant
            i <= alen,
            alen == a@.len(),
            alen == b@.len(),
            forall|j: int| 0 <= j < i ==> a@[j] == b@[j],
        decreases alen - i,
    {
        if a.get_char(i) != b.get_char(i) {
            return false;
        }
        i += 1;
    }
    proof {
        assert(a@ =~= b@);
    }
    true
}

/// Whether `c` is a decimal digit.
pub open spec fn is_digit(c: char) -> bool {
    '0' <= c && c <= '9'
}

/// Numeric value of a digit character.
pub open spec fn digit_val(c: char) -> int {
    c as int - '0' as int
}

/// Whether `s` is one or more decimal digits.
pub open spec fn all_digits(s: Seq<char>) -> bool {
    s.len() > 0 && forall|i: int| 0 <= i < s.len() ==> is_digit(#[trigger] s[i])
}

/// The value of a digit string, most significant digit first.
pub open spec fn digits_val(s: Seq<char>) -> int
    decreases s.len(),
{
    if s.len() == 0 {
        0
    } else {
        digits_val(s.drop_last()) * 10 + digit_val(s.last())
    }
}

/// The digit character for a value below ten.
pub open spec fn digit_char(d: int) -> char {
    if d == 0 {
        '0'
    } else if d == 1 {
        '1'
    } else if d == 2 {
        '2'
    } else if d == 3 {
        '3'
    } else if d == 4 {
        '4'
    } else if d == 5 {
        '5'
    } else if d == 6 {
        '6'
    } else if d == 7 {
        '7'
    } else if d == 8 {
        '8'
    } else {
        '9'
    }
}

/// The decimal rendering of a nonnegative value, without leading zeros
/// (a lone `0` for zero).
pub open spec fn dec_chars(n: int) -> Seq<char>
    decreases n,
{
    if n < 10 {
        seq![digit_char(n)]
    } else {
        dec_chars(n / 10).push(digit_char(n % 10))
    }
}

/// A one-character slice holding the digit `d`.
fn digit_str(d: u64) -> (s: &'static str)
    requires
        d < 10,
    ensures
        s@ =~= seq![digit_char(d as int)],
{
    if d == 0 {
        proof { reveal_strlit("0"); }
        "0"
    } else if d == 1 {
        proof { reveal_strlit("1"); }
        "1"
    } else if d == 2 {
        proof { reveal_strlit("2"); }
        "2"
    } else if d == 3 {
        proof { reveal_strlit("3"); }
        "3"
    } else if d == 4 {
        proof { reveal_strlit("4"); }
        "4"
    } else if d == 5 {
        proof { reveal_strlit("5"); }
        "5"
    } else if d == 6 {
        proof { reveal_strlit("6"); }
        "6"
    } else if d == 7 {
        proof { reveal_strlit("7"); }
        "7"
    } else if d == 8 {
        proof { reveal_strlit("8"); }
        "8"
    } else {
        proof { reveal_strlit("9"); }
        "9"
    }
}

/// The decimal rendering of `n` as an owned string.
pub fn decimal_string(n: u64) -> (s: String)
    ensures
        s@ == dec_chars(n as int),
    decreases n,
{
    if n < 10 {
        String::from_str(digit_str(n))
    } else {
        let mut s = decimal_string(n / 10);
        s.append(digit_str(n % 10));
        proof {
            assert(s@ =~= dec_chars(n as int / 10).push(digit_char(n as int % 10)));
        }
        s
    }
}

/// A string made of `prefix` followed by the decimal rendering of `n`;
/// the translator names temporaries and parameter slots this way.
pub fn counted_name(prefix: &str, n: u64) -> (s: String)
    ensures
        s@ == prefix@ + dec_chars(n as int),
{
    let mut s = String::from_str(prefix);
    let digits = decimal_string(n);
    s.append(digits.as_str());
    s
}

proof fn lemma_digits_val_nonneg(s: Seq<char>)
    requires
        forall|i: int| 0 <= i < s.len() ==> is_digit(#[trigger] s[i]),
    ensures
        digits_val(s) >= 0,
    decreases s.len(),
{
    if s.len() > 0 {
        lemma_digits_val_nonneg(s.drop_last());
    }
}

/// Appending further digits never shrinks the value of a digit string.
proof fn lemma_digits_val_prefix(s: Seq<char>, i: int)
    requires
        0 <= i <= s.len(),
        forall|j: int| 0 <= j < s.len() ==> is_digit(#[trigger] s[j]),
    ensures
        digits_val(s.take(i)) <= digits_val(s),
    decreases s.len() - i,
{
    if i < s.len() {
        lemma_digits_val_prefix(s, i + 1);
        let t = s.take(i + 1);
        assert(t.drop_last() =~= s.take(i));
        assert(digits_val(t) == digits_val(s.take(i)) * 10 + digit_val(t.last()));
        lemma_digits_val_nonneg(s.take(i));
        assert(digit_val(t.last()) >= 0);
        assert(digits_val(s.take(i)) <= digits_val(s.take(i)) * 10);
    } else {
        assert(s.take(i) =~= s);
    }
}

/// Parses an unsigned decimal integer literal. Returns the value exactly
/// when the text is all digits and the value fits an `i32`.
pub fn parse_int_const(s: &str) -> (r: Option<i32>)
    ensures
        match r {
            Some(v) => all_digits(s@) && v as int == digits_val(s@) && digits_val(s@) <= i32::MAX,
            None => !all_digits(s@) || digits_val(s@) > i32::MAX,
        },
{
    let len = s.unicode_len();
    if len == 0 {
        return None;
    }
    let mut acc: i64 = 0;
    let mut i: usize = 0;
    while i < len
        invariant
            0 < len == s@.len(),
            i <= len,
            forall|j: int| 0 <= j < i ==> is_digit(#[trigger] s@[j]),
            acc as int == digits_val(s@.take(i as int)),
            0 <= acc <= i32::MAX,
        decreases len - i,
    {
        let c = s.get_char(i);
        if c < '0' || c > '9' {
            assert(!is_digit(s@[i as int]));
            return None;
        }
        let d: i64 = (c as u32 as i64) - ('0' as u32 as i64);
        let next: i64 = acc * 10 + d;
        proof {
            assert(s@.take(i + 1).drop_last() =~= s@.take(i as int));
            assert(s@.take(i + 1).last() == s@[i as int]);
        }
        if next > i32::MAX as i64 {
            proof {
                if all_digits(s@) {
                    lemma_digits_val_prefix(s@, i + 1);
                }
            }
            return None;
        }
        acc = next;
        i += 1;
    }
    proof {
        assert(s@.take(len as int) =~= s@);
    }
    Some(acc as i32)
}

/// Whether `s` has the textual shape of a float literal: one or more
/// digits, a point, one or more digits.
pub open spec fn is_float_literal(s: Seq<char>) -> bool {
    exists|k: int|
        0 < k < s.len() && s[k] == '.' && all_digits(s.take(k)) && all_digits(s.skip(k + 1))
}

/// When some position known not to hold a digit lies beside the candidate
/// point, the candidate fails.
proof fn lemma_not_float_at(s: Seq<char>, k: int, bad: int)
    requires
        0 < k < s.len(),
        0 <= bad < s.len(),
        bad != k,
        !is_digit(s[bad]),
    ensures
        !(all_digits(s.take(k)) && all_digits(s.skip(k + 1))),
{
    if bad < k {
        assert(s.take(k)[bad] == s[bad]);
    } else {
        assert(s.skip(k + 1)[bad - k - 1] == s[bad]);
    }
}

/// Checks the textual shape of a float literal.
pub fn check_float_literal(s: &str) -> (r: bool)
    ensures
        r == is_float_literal(s@),
{
    let len = s.unicode_len();
    let mut dot: usize = 0;
    let mut seen_dot = false;
    let mut i: usize = 0;
    while i < len
        invariant
            i <= len,
            len == s@.len(),
            seen_dot ==> dot < i && s@[dot as int] == '.',
            seen_dot ==> forall|j: int| 0 <= j < i && j != dot ==> is_digit(#[trigger] s@[j]),
            !seen_dot ==> forall|j: int| 0 <= j < i ==> is_digit(#[trigger] s@[j]),
        decreases len - i,
    {
        let c = s.get_char(i);
        if c == '.' {
            if seen_dot {
                // a second point: no single point can have digits on both
                // sides, because the other point lies on one side of it
                assert(!is_float_literal(s@)) by {
                    assert forall|k: int|
                        !(0 < k < s@.len() && s@[k] == '.' && all_digits(s@.take(k)) && all_digits(
                            s@.skip(k + 1),
                        )) by {
                        if 0 < k < s@.len() && s@[k] == '.' {
                            if k != dot {
                                lemma_not_float_at(s@, k, dot as int);
                            } else {
                                lemma_not_float_at(s@, k, i as int);
                            }
                        }
                    }
                }
                return false;
            }
            dot = i;
            seen_dot = true;
        } else if c < '0' || c > '9' {
            // neither a digit nor a point
            assert(!is_float_literal(s@)) by {
                assert forall|k: int|
                    !(0 < k < s@.len() && s@[k] == '.' && all_digits(s@.take(k)) && all_digits(
                        s@.skip(k + 1),
                    )) by {
                    if 0 < k < s@.len() && s@[k] == '.' {
                        assert(k != i as int);
                        lemma_not_float_at(s@, k, i as int);
                    }
                }
            }
            return false;
        }
        i += 1;
    }
    if !seen_dot {
        // all digits, no point
        assert(!is_float_literal(s@)) by {
            assert forall|k: int| !(0 < k < s@.len() && s@[k] == '.') by {
                if 0 <= k < s@.len() {
                    assert(is_digit(s@[k]));
                }
            }
        }
        return false;
    }
    if dot == 0 {
        assert(!is_float_literal(s@)) by {
            assert forall|k: int|
                !(0 < k < s@.len() && s@[k] == '.' && all_digits(s@.take(k)) && all_digits(
                    s@.skip(k + 1),
                )) by {
                if 0 < k < s@.len() && s@[k] == '.' {
                    lemma_not_float_at(s@, k, 0);
                }
            }
        }
        return false;
    }
    if dot + 1 >= len {
        // the point is the last character: nothing follows it
        assert(!is_float_literal(s@)) by {
            assert forall|k: int|
                !(0 < k < s@.len() && s@[k] == '.' && all_digits(s@.take(k)) && all_digits(
                    s@.skip(k + 1),
                )) by {
                if 0 < k < s@.len() && s@[k] == '.' {
                    if k != dot {
                        lemma_not_float_at(s@, k, dot as int);
                    } else {
                        assert(s@.skip(k + 1).len() == 0);
                    }
                }
            }
        }
        return false;
    }
    assert(is_float_literal(s@)) by {
        let k = dot as int;
        assert(all_digits(s@.take(k))) by {
            assert(forall|j: int| 0 <= j < k ==> #[trigger] s@.take(k)[j] == s@[j]);
        }
        assert(all_digits(s@.skip(k + 1))) by {
            assert(forall|j: int|
                0 <= j < s@.len() - k - 1 ==> #[trigger] s@.skip(k + 1)[j] == s@[j + k + 1]);
        }
    }
    true
}

/// The text of a string literal with its surrounding quote characters
/// removed, as interned into the constant pool.
pub open spec fn spec_strip_quotes(s: Seq<char>) -> Seq<char> {
    if s.len() >= 2 && s.first() == '"' && s.last() == '"' {
        s.subrange(1, s.len() - 1)
    } else {
        s
    }
}

/// Strips one pair of surrounding quote characters, if present.
pub fn strip_quotes(s: &str) -> (r: String)
    ensures
        r@ == spec_strip_quotes(s@),
{
    let len = s.unicode_len();
    if len >= 2 && s.get_char(0) == '"' && s.get_char(len - 1) == '"' {
        let inner = s.substring_char(1, len - 1);
        String::from_str(inner)
    } else {
        String::from_str(s)
    }
}

} // verus!
