//! Validation of the declared upload size.
//!
//! An inbound request must carry a `content-length` header whose value is a
//! decimal number fitting a `u64`; a missing or non-numeric value rejects
//! the request before the stream adapter is ever constructed.

use vstd::prelude::*;

verus! {

/// Why the declared upload size was rejected.
#[derive(PartialEq, Eq, Structural, Clone, Copy, Debug)]
pub enum ContentLengthError {
    /// No `content-length` header was present.
    Missing,
    /// The header's value is not a decimal number fitting a `u64`.
    NotANumber,
}

/// Whether `c` is a decimal digit.
pub open spec fn is_dec_digit(c: char) -> bool {
    '0' <= c && c <= '9'
}

/// The numeric value of a decimal digit.
pub open spec fn digit_val(c: char) -> int {
    c as int - '0' as int
}

/// Whether every character of `s` is a decimal digit.
pub open spec fn all_dec_digits(s: Seq<char>) -> bool {
    forall|i: int| 0 <= i < s.len() ==> is_dec_digit(#[trigger] s[i])
}

/// The number a sequence of decimal digits denotes, most significant digit
/// first.
pub open spec fn dec_value(s: Seq<char>) -> int
    decreases s.len(),
{
    if s.len() == 0 {
        0
    } else {
        dec_value(s.drop_last()) * 10 + digit_val(s.last())
    }
}

/// The digits of a declared size: the whole value, less one optional
/// leading `'+'`.
pub open spec fn size_digits(s: Seq<char>) -> Seq<char> {
    if s.len() > 0 && s[0] == '+' {
        s.skip(1)
    } else {
        s
    }
}

/// Whether `s` is a well-formed declared size: at least one digit after the
/// optional sign, nothing but digits, and a value that fits a `u64`.
pub open spec fn is_valid_size(s: Seq<char>) -> bool {
    let d = size_digits(s);
    d.len() > 0 && all_dec_digits(d) && dec_value(d) <= u64::MAX
}

/// A sequence of digits denotes a non-negative number.
proof fn lemma_dec_value_nonneg(s: Seq<char>)
    requires
        all_dec_digits(s),
    ensures
        dec_value(s) >= 0,
    decreases s.len(),
{
    if s.len() > 0 {
        assert(all_dec_digits(s.drop_last())) by {
            assert(forall|i: int|
                0 <= i < s.len() - 1 ==> s.drop_last()[i] == #[trigger] s[i]);
        }
        lemma_dec_value_nonneg(s.drop_last());
    }
}

/// Extending a digit string to the right never lowers its value.
proof fn lemma_dec_value_prefix_le(s: Seq<char>, k: int)
    requires
        all_dec_digits(s),
        0 <= k <= s.len(),
    ensures
        dec_value(s.take(k)) <= dec_value(s),
    decreases s.len() - k,
{
    if k < s.len() {
        lemma_dec_value_prefix_le(s, k + 1);
        assert(s.take(k + 1).drop_last() =~= s.take(k));
        assert(all_dec_digits(s.take(k))) by {
            assert(forall|i: int| 0 <= i < k ==> s.take(k)[i] == #[trigger] s[i]);
        }
        lemma_dec_value_nonneg(s.take(k));
        assert(dec_value(s.take(k + 1)) == dec_value(s.take(k)) * 10 + digit_val(s[k]));
        assert(dec_value(s.take(k)) * 10 >= dec_value(s.take(k))) by {
            lemma_dec_value_nonneg(s.take(k));
        }
    } else {
        assert(s.take(k) =~= s);
    }
}

/// Parse a declared size as `u64::from_str` would: an optional leading
/// `'+'`, then decimal digits.  Returns the denoted number exactly when the
/// value is well formed, and nothing otherwise.
pub fn parse_u64_decimal(s: &str) -> (r: Option<u64>)
    ensures
        is_valid_size(s@) ==> (r matches Some(n) && n as int == dec_value(size_digits(s@))),
        !is_valid_size(s@) ==> r is None,
{
    let n: usize = s.unicode_len();
    let start: usize = if n > 0 && s.get_char(0) == '+' {
        1
    } else {
        0
    };
    proof {
        assert(size_digits(s@) =~= s@.subrange(start as int, n as int));
    }
    let ghost digits = s@.subrange(start as int, n as int);
    if start >= n {
        return None;
    }
    let mut acc: u64 = 0;
    let mut i: usize = start;
    while i < n
        invariant
            start <= i <= n,
            n == s@.len(),
            start < n,
            digits == s@.subrange(start as int, n as int),
            digits == size_digits(s@),
            forall|j: int| start <= j < i ==> is_dec_digit(#[trigger] s@[j]),
            acc as int == dec_value(s@.subrange(start as int, i as int)),
        decreases n - i,
    {
        let c = s.get_char(i);
        let code: u32 = c as u32;
        if code < 48 || code > 57 {
            proof {
                assert(digits[i - start] == s@[i as int]);
                assert(!is_dec_digit(s@[i as int]));
            }
            return None;
        }
        let d: u64 = (code - 48) as u64;
        proof {
            assert(d as int == digit_val(s@[i as int]));
        }
        let next = match acc.checked_mul(10) {
            Some(m) => m.checked_add(d),
            None => None,
        };
        match next {
            Some(v) => {
                proof {
                    assert(s@.subrange(start as int, i + 1).drop_last()
                        =~= s@.subrange(start as int, i as int));
                    assert(s@.subrange(start as int, i + 1).last() == s@[i as int]);
                }
                acc = v;
                i = i + 1;
            },
            None => {
                // The running value already exceeds `u64::MAX`, so the whole
                // digit string cannot denote a `u64`.
                proof {
                    assert(s@.subrange(start as int, i + 1).drop_last()
                        =~= s@.subrange(start as int, i as int));
                    assert(s@.subrange(start as int, i + 1).last() == s@[i as int]);
                    assert(dec_value(s@.subrange(start as int, i + 1)) > u64::MAX);
                    if all_dec_digits(digits) {
                        assert(digits.take(i + 1 - start)
                            =~= s@.subrange(start as int, i + 1));
                        lemma_dec_value_prefix_le(digits, i + 1 - start);
                    }
                }
                return None;
            },
        }
    }
    proof {
        assert(digits =~= s@.subrange(start as int, n as int));
        assert(all_dec_digits(digits)) by {
            assert(forall|j: int|
                0 <= j < digits.len() ==> digits[j] == #[trigger] s@[j + start]);
        }
    }
    Some(acc)
}

/// Validate the declared upload size of an inbound request.  A missing
/// header is rejected as [`ContentLengthError::Missing`]; a value that is
/// not a decimal number fitting a `u64` as
/// [`ContentLengthError::NotANumber`]; otherwise the declared size is
/// returned exactly.
pub fn parse_content_length(header: Option<&String>) -> (r: Result<u64, ContentLengthError>)
    ensures
        match header {
            None => r == Err::<u64, ContentLengthError>(ContentLengthError::Missing),
            Some(s) => if is_valid_size(s@) {
                r matches Ok(v) && v as int == dec_value(size_digits(s@))
            } else {
                r == Err::<u64, ContentLengthError>(ContentLengthError::NotANumber)
            },
        },
{
    match header {
        None => Err(ContentLengthError::Missing),
        Some(s) => match parse_u64_decimal(s.as_str()) {
            Some(v) => Ok(v),
            None => Err(ContentLengthError::NotANumber),
        },
    }
}

} // verus!
