use vstd::prelude::*;
use crate::text::{is_ascii_digit};

verus! {

/// Texts of ASCII digits with at most one dot and at least one digit: among
/// texts made of digits and dots, exactly those that `f64::from_str` accepts.
pub open spec fn is_plain_decimal(t: Seq<char>) -> bool {
    &&& forall|i: int| 0 <= i < t.len() ==> is_ascii_digit(#[trigger] t[i]) || t[i] == '.'
    &&& forall|i: int, j: int| 0 <= i < j < t.len() && #[trigger] t[i] == '.' ==> #[trigger] t[j] != '.'
    &&& exists|i: int| 0 <= i < t.len() && is_ascii_digit(#[trigger] t[i])
}

pub fn plain_decimal(t: &Vec<char>) -> (r: bool)
    ensures
        r == is_plain_decimal(t@),
{
    let mut seen_dot = false;
    let mut seen_digit = false;
    let mut i: usize = 0;
    while i < t.len()
        invariant
            i <= t.len(),
            forall|k: int| 0 <= k < i ==> is_ascii_digit(#[trigger] t@[k]) || t@[k] == '.',
            forall|k: int, m: int| 0 <= k < m < i && #[trigger] t@[k] == '.' ==> #[trigger] t@[m] != '.',
            seen_dot <==> exists|k: int| 0 <= k < i && #[trigger] t@[k] == '.',
            seen_digit <==> exists|k: int| 0 <= k < i && is_ascii_digit(#[trigger] t@[k]),
        decreases t.len() - i,
    {
        let c = t[i];
        if '0' <= c && c <= '9' {
            seen_digit = true;
            assert(is_ascii_digit(t@[i as int]));
        } else if c == '.' {
            if seen_dot {
                let ghost k = choose|k: int| 0 <= k < i && #[trigger] t@[k] == '.';
                assert(t@[k] == '.' && t@[i as int] == '.');
                return false;
            }
            seen_dot = true;
        } else {
            assert(!(is_ascii_digit(t@[i as int]) || t@[i as int] == '.'));
            return false;
        }
        i += 1;
        assert forall|k: int, m: int| 0 <= k < m < i && #[trigger] t@[k] == '.' implies #[trigger] t@[m] != '.' by {
            if m == i - 1 && t@[m] == '.' {
                assert(exists|k2: int| 0 <= k2 < i - 1 && #[trigger] t@[k2] == '.');
            }
        }
    }
    seen_digit
}

} // verus!

verus! {

pub open spec fn all_ascii_digits(t: Seq<char>) -> bool {
    forall|i: int| 0 <= i < t.len() ==> is_ascii_digit(#[trigger] t[i])
}

/// The value of a numeral of ASCII digits.
pub open spec fn digits_value(t: Seq<char>) -> int
    decreases t.len(),
{
    if t.len() == 0 {
        0
    } else {
        digits_value(t.drop_last()) * 10 + (t.last() as int - '0' as int)
    }
}

pub proof fn lemma_digits_value_nonneg(t: Seq<char>)
    requires
        all_ascii_digits(t),
    ensures
        digits_value(t) >= 0,
    decreases t.len(),
{
    if t.len() > 0 {
        assert(all_ascii_digits(t.drop_last()));
        lemma_digits_value_nonneg(t.drop_last());
        assert(is_ascii_digit(t[t.len() - 1]));
    }
}

/// `str::parse::<i64>`: an optional `+` or `-`, then ASCII digits, with a
/// value that fits in `i64`.
pub open spec fn parse_i64_spec(t: Seq<char>) -> Option<int> {
    let signed = t.len() > 0 && (t[0] == '-' || t[0] == '+');
    let body = if signed {
        t.drop_first()
    } else {
        t
    };
    if body.len() > 0 && all_ascii_digits(body) {
        let v = if t[0] == '-' {
            -digits_value(body)
        } else {
            digits_value(body)
        };
        if i64::MIN <= v && v <= i64::MAX {
            Some(v)
        } else {
            None
        }
    } else {
        None
    }
}

pub fn parse_i64(t: &Vec<char>) -> (r: Option<i64>)
    ensures
        match r {
            Some(v) => parse_i64_spec(t@) == Some(v as int),
            None => parse_i64_spec(t@) is None,
        },
{
    let signed = t.len() > 0 && (t[0] == '-' || t[0] == '+');
    let neg = t.len() > 0 && t[0] == '-';
    let start: usize = if signed {
        1
    } else {
        0
    };
    if t.len() <= start {
        assert(signed ==> t@.drop_first().len() == 0);
        return None;
    }
    let ghost body = if signed {
        t@.drop_first()
    } else {
        t@
    };
    let cap: u128 = 9223372036854775809;
    let mut acc: u128 = 0;
    let mut i = start;
    while i < t.len()
        invariant
            start <= i <= t.len(),
            start < t.len(),
            body == t@.subrange(start as int, t.len() as int),
            body == (if t@.len() > 0 && (t@[0] == '-' || t@[0] == '+') {
                t@.drop_first()
            } else {
                t@
            }),
            neg == (t@.len() > 0 && t@[0] == '-'),
            cap == 9223372036854775809,
            all_ascii_digits(t@.subrange(start as int, i as int)),
            acc as int == if digits_value(t@.subrange(start as int, i as int)) < cap {
                digits_value(t@.subrange(start as int, i as int))
            } else {
                cap as int
            },
        decreases t.len() - i,
    {
        let c = t[i];
        if !('0' <= c && c <= '9') {
            assert(body[i - start] == c);
            assert(!is_ascii_digit(body[i - start]));
            assert(!all_ascii_digits(body));
            return None;
        }
        let d: u128 = (c as u32 - '0' as u32) as u128;
        let ghost pre = t@.subrange(start as int, i as int);
        let ghost post = t@.subrange(start as int, i + 1);
        assert(post.drop_last() =~= pre);
        assert(post.last() == c);
        proof {
            lemma_digits_value_nonneg(pre);
        }
        if acc >= cap {
            acc = cap;
        } else {
            let next = acc * 10 + d;
            acc = if next >= cap {
                cap
            } else {
                next
            };
        }
        i += 1;
    }
    assert(t@.subrange(start as int, t.len() as int) == body);
    if neg {
        if acc > 9223372036854775808 {
            None
        } else if acc == 9223372036854775808 {
            Some(i64::MIN)
        } else {
            Some(-(acc as i64))
        }
    } else {
        if acc > 9223372036854775807 {
            None
        } else {
            Some(acc as i64)
        }
    }
}


/// `str::parse::<u64>`: an optional `+`, then ASCII digits, with a value
/// that fits in `u64`.
pub open spec fn parse_u64_spec(t: Seq<char>) -> Option<int> {
    let body = if t.len() > 0 && t[0] == '+' {
        t.drop_first()
    } else {
        t
    };
    if body.len() > 0 && all_ascii_digits(body) && digits_value(body) <= u64::MAX {
        Some(digits_value(body))
    } else {
        None
    }
}

pub fn parse_u64(t: &Vec<char>) -> (r: Option<u64>)
    ensures
        match r {
            Some(v) => parse_u64_spec(t@) == Some(v as int),
            None => parse_u64_spec(t@) is None,
        },
{
    let start: usize = if t.len() > 0 && t[0] == '+' {
        1
    } else {
        0
    };
    let ghost body = if t@.len() > 0 && t@[0] == '+' {
        t@.drop_first()
    } else {
        t@
    };
    if t.len() <= start {
        assert(body.len() == 0);
        return None;
    }
    let cap: u128 = 18446744073709551616;
    let mut acc: u128 = 0;
    let mut i = start;
    while i < t.len()
        invariant
            start <= i <= t.len(),
            start < t.len(),
            body == t@.subrange(start as int, t.len() as int),
            body == (if t@.len() > 0 && t@[0] == '+' {
                t@.drop_first()
            } else {
                t@
            }),
            cap == 18446744073709551616,
            all_ascii_digits(t@.subrange(start as int, i as int)),
            acc as int == if digits_value(t@.subrange(start as int, i as int)) < cap {
                digits_value(t@.subrange(start as int, i as int))
            } else {
                cap as int
            },
        decreases t.len() - i,
    {
        let c = t[i];
        if !('0' <= c && c <= '9') {
            assert(body[i - start] == c);
            assert(!is_ascii_digit(body[i - start]));
            assert(!all_ascii_digits(body));
            return None;
        }
        let d: u128 = (c as u32 - '0' as u32) as u128;
        let ghost pre = t@.subrange(start as int, i as int);
        let ghost post = t@.subrange(start as int, i + 1);
        assert(post.drop_last() =~= pre);
        assert(post.last() == c);
        proof {
            lemma_digits_value_nonneg(pre);
        }
        if acc >= cap {
            acc = cap;
        } else {
            let next = acc * 10 + d;
            acc = if next >= cap {
                cap
            } else {
                next
            };
        }
        i += 1;
    }
    assert(t@.subrange(start as int, t.len() as int) == body);
    if acc >= cap {
        None
    } else {
        Some(acc as u64)
    }
}

} // verus!
