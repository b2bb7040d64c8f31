use vstd::prelude::*;

use crate::error::ClientError;

verus! {

/// A status of success: 200 to 299.
pub open spec fn is_success(status: u16) -> bool {
    200 <= status <= 299
}

/// Turns a status outside 200..=299 into `HttpStatus`.
pub fn check_status(status: u16) -> (r: Result<(), ClientError>)
    ensures
        r is Ok <==> is_success(status),
        r matches Err(e) ==> e == ClientError::HttpStatus(status),
{
    if 200 <= status && status <= 299 {
        Ok(())
    } else {
        Err(ClientError::HttpStatus(status))
    }
}

/// The body of a response whose status must be checked before it is decoded:
/// the body only on success, else the status as an error.
pub fn checked_body(status: u16, body: Vec<u8>) -> (r: Result<Vec<u8>, ClientError>)
    ensures
        is_success(status) ==> r == Ok::<Vec<u8>, ClientError>(body),
        !is_success(status) ==> r == Err::<Vec<u8>, ClientError>(ClientError::HttpStatus(status)),
{
    match check_status(status) {
        Ok(()) => Ok(body),
        Err(e) => Err(e),
    }
}

pub open spec fn is_digit(c: char) -> bool {
    48 <= c as u32 <= 57
}

/// A non-empty run of ASCII digits.
pub open spec fn all_digits(s: Seq<char>) -> bool {
    s.len() > 0 && forall|i: int| 0 <= i < s.len() ==> is_digit(#[trigger] s[i])
}

/// The value of a run of ASCII digits, in base 10.
pub open spec fn digits_value(s: Seq<char>) -> int
    decreases s.len(),
{
    if s.len() == 0 {
        0
    } else {
        digits_value(s.drop_last()) * 10 + (s.last() as u32 - 48)
    }
}

/// The integer that a text writes: an optional `+` or `-`, then one or more digits.
pub open spec fn signed_value(s: Seq<char>) -> Option<int> {
    if s.len() > 0 && s[0] == '-' && all_digits(s.drop_first()) {
        Some(-digits_value(s.drop_first()))
    } else if s.len() > 0 && s[0] == '+' && all_digits(s.drop_first()) {
        Some(digits_value(s.drop_first()))
    } else if all_digits(s) {
        Some(digits_value(s))
    } else {
        None
    }
}

/// The count that a text writes, when it is an integer that fits in `i64`.
pub open spec fn count_of(s: Seq<char>) -> Option<int> {
    match signed_value(s) {
        Some(v) => if i64::MIN <= v <= i64::MAX {
            Some(v)
        } else {
            None
        },
        None => None,
    }
}

proof fn lemma_digits_value_grows(s: Seq<char>, k: int)
    requires
        all_digits(s),
        0 <= k <= s.len(),
    ensures
        0 <= digits_value(s.subrange(0, k)) <= digits_value(s),
    decreases s.len(),
{
    if k == s.len() {
        assert(s.subrange(0, k) =~= s);
        lemma_digits_value_nonneg(s);
    } else {
        let t = s.drop_last();
        if t.len() > 0 {
            assert(all_digits(t));
            lemma_digits_value_grows(t, k);
            assert(t.subrange(0, k) =~= s.subrange(0, k));
        } else {
            assert(s.subrange(0, k) =~= Seq::<char>::empty());
        }
        lemma_digits_value_nonneg(s);
        lemma_digits_value_nonneg(t);
    }
}

proof fn lemma_digits_value_nonneg(s: Seq<char>)
    requires
        forall|i: int| 0 <= i < s.len() ==> is_digit(#[trigger] s[i]),
    ensures
        digits_value(s) >= 0,
    decreases s.len(),
{
    if s.len() > 0 {
        lemma_digits_value_nonneg(s.drop_last());
    }
}

const LIMIT: u128 = 9223372036854775808;

/// Reads a count: an optional `+` or `-` and base-10 digits, nothing else,
/// with a value that fits in `i64`; anything else is `MalformedCount`.
pub fn parse_count(text: &str) -> (r: Result<i64, ClientError>)
    ensures
        r == (match count_of(text@) {
            Some(n) => Ok::<i64, ClientError>(n as i64),
            None => Err::<i64, ClientError>(ClientError::MalformedCount),
        }),
{
    let n = text.unicode_len();
    if n == 0 {
        return Err(ClientError::MalformedCount);
    }
    let c0 = text.get_char(0);
    let negative = c0 == '-';
    assert(text@[0] == c0);
    let start: usize = if c0 == '-' || c0 == '+' {
        1
    } else {
        0
    };
    if start == n {
        assert(text@.drop_first().len() == 0);
        return Err(ClientError::MalformedCount);
    }
    let ghost digits = text@.subrange(start as int, n as int);
    assert(start == 1 ==> digits =~= text@.drop_first());
    assert(start == 0 ==> digits =~= text@);
    let mut acc: u128 = 0;
    let mut i: usize = start;
    while i < n
        invariant
            n == text@.len(),
            n > 0,
            text@[0] == c0,
            negative == (c0 == '-'),
            start == 1 <==> (c0 == '-' || c0 == '+'),
            start == 0 || start == 1,
            start == 1 ==> digits == text@.drop_first(),
            start == 0 ==> digits == text@,
            start <= i <= n,
            digits == text@.subrange(start as int, n as int),
            acc <= LIMIT,
            acc == digits_value(text@.subrange(start as int, i as int)),
            forall|j: int| start <= j < i ==> is_digit(#[trigger] text@[j]),
        decreases n - i,
    {
        let c = text.get_char(i);
        if !((c as u32) >= 48 && (c as u32) <= 57) {
            proof {
                assert(digits[i - start] == text@[i as int]);
                assert(!all_digits(digits));
                assert(!all_digits(text@)) by {
                    if start == 0 {
                        assert(digits =~= text@);
                    } else {
                        assert(!is_digit(text@[0]));
                    }
                };
            }
            return Err(ClientError::MalformedCount);
        }
        proof {
            let next = text@.subrange(start as int, i + 1);
            assert(next.drop_last() =~= text@.subrange(start as int, i as int));
            assert(next.last() == c);
        }
        acc = acc * 10 + ((c as u32) - 48) as u128;
        if acc > LIMIT {
            proof {
                let k = i + 1 - start;
                assert(text@.subrange(start as int, i + 1) =~= digits.subrange(0, k));
                if all_digits(digits) {
                    lemma_digits_value_grows(digits, k);
                    assert(digits_value(text@.subrange(start as int, i + 1)) == acc);
                    assert(digits_value(digits) > LIMIT);
                }
                if start == 1 {
                    assert(!is_digit(text@[0]));
                    assert(!all_digits(text@));
                }
            }
            return Err(ClientError::MalformedCount);
        }
        i = i + 1;
    }
    assert(text@.subrange(start as int, n as int) =~= digits);
    assert(all_digits(digits));
    if negative {
        if acc == LIMIT {
            Ok(i64::MIN)
        } else {
            Ok(-(acc as i64))
        }
    } else if acc > 9223372036854775807 {
        Err(ClientError::MalformedCount)
    } else {
        Ok(acc as i64)
    }
}

/// The text with leading and trailing white space removed, as `str::trim` gives it.
pub uninterp spec fn trimmed_of(s: Seq<char>) -> Seq<char>;

/// Relies on `str::trim`: it removes leading and trailing white space, so the
/// result depends on the text alone.
#[verifier::external_body]
fn trim(s: &str) -> (r: &str)
    ensures
        r@ == trimmed_of(s@),
{
    s.trim()
}

/// The count in a response to an event-count request: the status is checked
/// first, then the body, without surrounding white space, is read as an integer.
pub fn event_count(status: u16, body: &str) -> (r: Result<i64, ClientError>)
    ensures
        !is_success(status) ==> r == Err::<i64, ClientError>(ClientError::HttpStatus(status)),
        is_success(status) ==> r == (match count_of(trimmed_of(body@)) {
            Some(n) => Ok::<i64, ClientError>(n as i64),
            None => Err::<i64, ClientError>(ClientError::MalformedCount),
        }),
{
    match check_status(status) {
        Ok(()) => parse_count(trim(body)),
        Err(e) => Err(e),
    }
}

} // verus!
