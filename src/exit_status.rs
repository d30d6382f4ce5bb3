//! Reading the status argument of `exit` as a decimal `i32`.
use vstd::prelude::*;
use vstd::string::StrSliceExecFns;

verus! {

/// Whether `c` is an ASCII decimal digit.
pub open spec fn is_digit(c: char) -> bool {
    '0' <= c && c <= '9'
}

/// The value of the digit `c`.
pub open spec fn digit_value(c: char) -> int {
    c as int - '0' as int
}

/// Whether `s` is one or more decimal digits.
pub open spec fn is_numeral(s: Seq<char>) -> bool {
    s.len() > 0 && forall|i: int| 0 <= i < s.len() ==> is_digit(s[i])
}

/// The value of the decimal digits `s`, most significant first.
pub open spec fn numeral_value(s: Seq<char>) -> int
    decreases s.len(),
{
    if s.len() == 0 {
        0
    } else {
        numeral_value(s.drop_last()) * 10 + digit_value(s.last())
    }
}

/// The integer that `s` writes: an optional `+` or `-`, then one or more
/// decimal digits, and nothing else.
pub open spec fn integer_written(s: Seq<char>) -> Option<int> {
    if s.len() > 0 && s[0] == '-' && is_numeral(s.drop_first()) {
        Some(-numeral_value(s.drop_first()))
    } else if s.len() > 0 && s[0] == '+' && is_numeral(s.drop_first()) {
        Some(numeral_value(s.drop_first()))
    } else if is_numeral(s) {
        Some(numeral_value(s))
    } else {
        None
    }
}

/// The exit status that `s` writes, where it writes an integer that fits `i32`.
pub open spec fn status_written(s: Seq<char>) -> Option<i32> {
    match integer_written(s) {
        Some(v) => if i32::MIN <= v <= i32::MAX {
            Some(v as i32)
        } else {
            None
        },
        None => None,
    }
}

/// One more than the largest magnitude an `i32` can have; larger values are
/// held at this bound while reading.
pub const MAGNITUDE_CAP: i64 = 2147483649;

/// Reads `s` from `from` on as decimal digits: the value, held at
/// `MAGNITUDE_CAP`, or `None` where there is no digit or a non-digit.
fn read_magnitude(s: &str, from: usize) -> (r: Option<i64>)
    requires
        from <= s@.len(),
    ensures
        match r {
            Some(m) => is_numeral(s@.subrange(from as int, s@.len() as int)) && 0 <= numeral_value(
                s@.subrange(from as int, s@.len() as int),
            ) && m == if numeral_value(
                s@.subrange(from as int, s@.len() as int),
            ) < MAGNITUDE_CAP {
                numeral_value(s@.subrange(from as int, s@.len() as int))
            } else {
                MAGNITUDE_CAP as int
            },
            None => !is_numeral(s@.subrange(from as int, s@.len() as int)),
        },
{
    let n = s.unicode_len();
    if from == n {
        return None;
    }
    let mut acc: i64 = 0;
    let mut i: usize = from;
    while i < n
        invariant
            n == s@.len(),
            from <= i <= n,
            forall|j: int| from <= j < i ==> is_digit(s@[j]),
            acc == if numeral_value(s@.subrange(from as int, i as int)) < MAGNITUDE_CAP {
                numeral_value(s@.subrange(from as int, i as int))
            } else {
                MAGNITUDE_CAP as int
            },
            0 <= numeral_value(s@.subrange(from as int, i as int)),
        decreases n - i,
    {
        let c = s.get_char(i);
        let ghost pre = s@.subrange(from as int, i as int);
        let ghost cur = s@.subrange(from as int, i + 1);
        assert(cur.drop_last() == pre);
        assert(cur.last() == c);
        if !('0' <= c && c <= '9') {
            assert(!is_digit(s@.subrange(from as int, n as int)[i - from]));
            return None;
        }
        let d = (c as u32 - '0' as u32) as i64;
        let next = acc * 10 + d;
        acc = if next < MAGNITUDE_CAP {
            next
        } else {
            MAGNITUDE_CAP
        };
        i = i + 1;
    }
    assert(s@.subrange(from as int, n as int).len() > 0);
    Some(acc)
}

/// Reads an exit status: an optional sign and decimal digits that fit `i32`.
pub fn parse_status(s: &str) -> (r: Option<i32>)
    ensures
        r == status_written(s@),
{
    let n = s.unicode_len();
    if n == 0 {
        return None;
    }
    let first = s.get_char(0);
    let negative = first == '-';
    let from: usize = if first == '-' || first == '+' {
        1
    } else {
        0
    };
    assert(s@.subrange(1, n as int) == s@.drop_first());
    assert(s@.subrange(0, n as int) == s@);
    let ghost digits = s@.subrange(from as int, n as int);
    proof {
        if from == 1 {
            assert(!is_digit(s@[0]));
        }
    }
    match read_magnitude(s, from) {
        None => {
            assert(from == 0 ==> !is_numeral(s@));
            None
        },
        Some(m) => {
            assert(is_numeral(digits));
            assert(from == 1 ==> digits == s@.drop_first());
            assert(from == 0 ==> digits == s@);
            if negative {
                if m <= 2147483648 {
                    assert(integer_written(s@) == Some(-numeral_value(digits)));
                    Some((-m) as i32)
                } else {
                    None
                }
            } else {
                if m <= 2147483647 {
                    assert(integer_written(s@) == Some(numeral_value(digits)));
                    Some(m as i32)
                } else {
                    None
                }
            }
        },
    }
}

} // verus!
