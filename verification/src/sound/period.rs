//! Durations as written in configuration: `"none"`, or a count of
//! milliseconds (`"1500ms"`) or of seconds (`"3s"`).

use crate::text::chars_of;
use vstd::prelude::*;

verus! {

pub open spec fn is_digit(c: char) -> bool {
    48 <= (c as u32) <= 57
}

pub open spec fn all_digits(s: Seq<char>) -> bool {
    s.len() > 0 && forall|i: int| 0 <= i < s.len() ==> is_digit(#[trigger] s[i])
}

/// The number written in decimal by the digits of `s`.
pub open spec fn decimal_value(s: Seq<char>) -> nat
    decreases s.len(),
{
    if s.len() == 0 {
        0
    } else {
        decimal_value(s.drop_last()) * 10 + ((s.last() as u32) - 48) as nat
    }
}

/// The milliseconds of a duration written as `none`, `<digits>ms` or
/// `<digits>s`.
pub open spec fn period_millis(s: Seq<char>) -> Option<nat> {
    let n = s.len();
    if s =~= seq!['n', 'o', 'n', 'e'] {
        Some(0)
    } else if n > 2 && s[n - 2] == 'm' && s[n - 1] == 's' && all_digits(s.take(n - 2)) {
        Some(decimal_value(s.take(n - 2)))
    } else if n > 1 && s[n - 1] == 's' && all_digits(s.take(n - 1)) {
        Some(decimal_value(s.take(n - 1)) * 1000)
    } else {
        None
    }
}

/// The value of the decimal digits `chars[..end]`, if it fits in a `u64`.
fn decimal_prefix(chars: &Vec<char>, end: usize) -> (r: Option<u64>)
    requires
        end <= chars@.len(),
    ensures
        match r {
            Some(v) => all_digits(chars@.take(end as int)) && v == decimal_value(chars@.take(end as int)),
            None => !all_digits(chars@.take(end as int)) || decimal_value(chars@.take(end as int)) > u64::MAX,
        },
{
    if end == 0 {
        return None;
    }
    let mut value: u64 = 0;
    let mut i: usize = 0;
    while i < end
        invariant
            i <= end <= chars@.len(),
            forall|j: int| 0 <= j < i ==> is_digit(#[trigger] chars@[j]),
            value == decimal_value(chars@.take(i as int)),
        decreases end - i,
    {
        assert(chars@.take(i + 1).drop_last() =~= chars@.take(i as int));
        let c = chars[i];
        let code = c as u32;
        if !(48 <= code && code <= 57) {
            assert(chars@.take(end as int)[i as int] == c);
            return None;
        }
        let d: u64 = (code - 48) as u64;
        match value.checked_mul(10) {
            Some(tens) => match tens.checked_add(d) {
                Some(v) => {
                    value = v;
                },
                None => {
                    proof { lemma_decimal_value_grows(chars@.take(end as int), i as int + 1); }
                    assert(chars@.take(end as int).take(i + 1) =~= chars@.take(i + 1));
                    return None;
                },
            },
            None => {
                proof { lemma_decimal_value_grows(chars@.take(end as int), i as int + 1); }
                assert(chars@.take(end as int).take(i + 1) =~= chars@.take(i + 1));
                return None;
            },
        }
        i = i + 1;
    }
    Some(value)
}

/// The value of digits is at least the value of any of their prefixes.
proof fn lemma_decimal_value_grows(s: Seq<char>, k: int)
    requires
        0 <= k <= s.len(),
    ensures
        decimal_value(s.take(k)) <= decimal_value(s),
    decreases s.len() - k,
{
    if k < s.len() {
        lemma_decimal_value_grows(s, k + 1);
        assert(s.take(k + 1).drop_last() =~= s.take(k));
    } else {
        assert(s.take(k) =~= s);
    }
}

/// The milliseconds of a duration written as `none`, `<digits>ms` or
/// `<digits>s`; `None` when it is written otherwise or doesn't fit in a `u64`
pub fn parse_period_millis(s: &str) -> (r: Option<u64>)
    ensures
        match period_millis(s@) {
            Some(ms) => if ms <= u64::MAX {
                r == Some(ms as u64)
            } else {
                r is None
            },
            None => r is None,
        },
{
    let chars = chars_of(s);
    let n = chars.len();
    if n == 4 && chars[0] == 'n' && chars[1] == 'o' && chars[2] == 'n' && chars[3] == 'e' {
        assert(s@ =~= seq!['n', 'o', 'n', 'e']);
        return Some(0);
    }
    assert(!(s@ =~= seq!['n', 'o', 'n', 'e']));
    if n > 2 && chars[n - 2] == 'm' && chars[n - 1] == 's' {
        if let Some(v) = decimal_prefix(&chars, n - 2) {
            return Some(v);
        }
        assert(!all_digits(chars@.take(n - 1))) by {
            assert(chars@.take(n - 1)[n - 2] == 'm');
        }
        return None;
    }
    if n > 1 && chars[n - 1] == 's' {
        match decimal_prefix(&chars, n - 1) {
            Some(v) => {
                return v.checked_mul(1000);
            },
            None => {
                return None;
            },
        }
    }
    None
}

} // verus!
