//! Parsing of the grid-size argument: a decimal string for a positive
//! integer, with an exact contract for acceptance and rejection.

use vstd::prelude::*;
use vstd::string::StrSliceExecFns;

verus! {

/// A decimal digit character.
pub open spec fn is_digit(c: char) -> bool {
    48 <= c as u32 <= 57
}

/// Numeric value of a digit character.
pub open spec fn digit_value(c: char) -> int {
    c as u32 - 48
}

/// Every character of the string is a decimal digit.
pub open spec fn all_digits(s: Seq<char>) -> bool {
    forall|i: int| 0 <= i < s.len() ==> is_digit(#[trigger] s[i])
}

/// Numeric value of a string of decimal digits, most significant first.
pub open spec fn decimal_value(s: Seq<char>) -> int
    decreases s.len(),
{
    if s.len() == 0 {
        0
    } else {
        decimal_value(s.drop_last()) * 10 + digit_value(s.last())
    }
}

/// A string the estimator accepts as its grid-size argument: a non-empty
/// run of decimal digits whose value is positive and fits in 32 bits.
pub open spec fn valid_size_arg(s: Seq<char>) -> bool {
    &&& s.len() >= 1
    &&& all_digits(s)
    &&& 1 <= decimal_value(s) <= u32::MAX
}

/// The value of a digit string is never negative.
proof fn lemma_decimal_value_nonneg(s: Seq<char>)
    requires
        all_digits(s),
    ensures
        decimal_value(s) >= 0,
    decreases s.len(),
{
    if s.len() > 0 {
        assert(all_digits(s.drop_last())) by {
            assert forall|i: int| 0 <= i < s.drop_last().len() implies is_digit(
                #[trigger] s.drop_last()[i],
            ) by {
                assert(s.drop_last()[i] == s[i]);
            }
        }
        lemma_decimal_value_nonneg(s.drop_last());
        assert(decimal_value(s.drop_last()) * 10 >= 0) by (nonlinear_arith)
            requires
                decimal_value(s.drop_last()) >= 0,
        ;
    }
}

/// Appending digits never shrinks the value: a digit string's value bounds
/// the value of every prefix of it.
proof fn lemma_decimal_value_prefix_le(s: Seq<char>, k: int)
    requires
        all_digits(s),
        0 <= k <= s.len(),
    ensures
        decimal_value(s.take(k)) <= decimal_value(s),
    decreases s.len() - k,
{
    if k < s.len() {
        lemma_decimal_value_prefix_le(s, k + 1);
        let t = s.take(k + 1);
        assert(t.drop_last() =~= s.take(k));
        assert(all_digits(t)) by {
            assert forall|i: int| 0 <= i < t.len() implies is_digit(#[trigger] t[i]) by {
                assert(t[i] == s[i]);
            }
        }
        assert(all_digits(s.take(k))) by {
            assert forall|i: int| 0 <= i < s.take(k).len() implies is_digit(
                #[trigger] s.take(k)[i],
            ) by {
                assert(s.take(k)[i] == s[i]);
            }
        }
        lemma_decimal_value_nonneg(s.take(k));
        assert(decimal_value(s.take(k)) * 10 >= decimal_value(s.take(k))) by (nonlinear_arith)
            requires
                decimal_value(s.take(k)) >= 0,
        ;
        assert(decimal_value(t) == decimal_value(s.take(k)) * 10 + digit_value(t.last()));
        assert(is_digit(t.last()) && digit_value(t.last()) >= 0) by {
            assert(t[k] == s[k]);
        }
    } else {
        assert(s.take(k) =~= s);
    }
}

/// Parses the grid-size argument. Returns the numeric value for a non-empty
/// all-digit string whose value is positive and fits in 32 bits, and
/// nothing for every other string.
pub fn parse_size(s: &str) -> (parsed: Option<u32>)
    ensures
        parsed is Some <==> valid_size_arg(s@),
        parsed is Some ==> parsed->0 == decimal_value(s@),
{
    let len: usize = s.unicode_len();
    if len == 0 {
        return None;
    }
    let mut value: u32 = 0;
    let mut i: usize = 0;
    while i < len
        invariant
            0 < len == s@.len(),
            0 <= i <= len,
            all_digits(s@.take(i as int)),
            value == decimal_value(s@.take(i as int)),
        decreases len - i,
    {
        let c: char = s.get_char(i);
        let d: u32 = c as u32;
        if d < 48 || d > 57 {
            proof {
                assert(!is_digit(s@[i as int]));
            }
            return None;
        }
        let digit: u32 = d - 48;
        if value > (u32::MAX - digit) / 10 {
            proof {
                let t = s@.take(i as int + 1);
                assert(t.drop_last() =~= s@.take(i as int));
                assert(t.last() == s@[i as int]);
                assert(all_digits(t)) by {
                    assert forall|j: int| 0 <= j < t.len() implies is_digit(#[trigger] t[j]) by {
                        assert(t[j] == s@[j]);
                        if j < i as int {
                            assert(s@.take(i as int)[j] == s@[j]);
                        }
                    }
                }
                assert(decimal_value(t) == value * 10 + digit);
                assert(value * 10 + digit > u32::MAX) by (nonlinear_arith)
                    requires
                        value > (u32::MAX - digit) / 10,
                        0 <= digit <= 9,
                        0 <= value,
                ;
                if valid_size_arg(s@) {
                    lemma_decimal_value_prefix_le(s@, i as int + 1);
                    assert(decimal_value(s@) > u32::MAX);
                }
            }
            return None;
        }
        proof {
            assert(value * 10 + digit <= u32::MAX) by (nonlinear_arith)
                requires
                    value <= (u32::MAX - digit) / 10,
                    0 <= digit <= 9,
                    0 <= value,
            ;
            let t = s@.take(i as int + 1);
            assert(t.drop_last() =~= s@.take(i as int));
            assert(t.last() == s@[i as int]);
            assert(all_digits(t)) by {
                assert forall|j: int| 0 <= j < t.len() implies is_digit(#[trigger] t[j]) by {
                    assert(t[j] == s@[j]);
                    if j < i as int {
                        assert(s@.take(i as int)[j] == s@[j]);
                    }
                }
            }
        }
        value = value * 10 + digit;
        i = i + 1;
    }
    proof {
        assert(s@.take(len as int) =~= s@);
    }
    if value == 0 {
        proof {
            if valid_size_arg(s@) {
                assert(decimal_value(s@) >= 1);
            }
        }
        return None;
    }
    Some(value)
}

} // verus!
