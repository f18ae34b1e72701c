//! Parsing of the `delay` field of a latency rule: a run of decimal digits
//! followed by a unit, for example `200ms`, valued in nanoseconds.

use vstd::prelude::*;
use crate::filter::str_chars;

verus! {

/// Whether a character is a decimal digit.
pub open spec fn is_digit(c: char) -> bool {
    48 <= c as u32 && c as u32 <= 57
}

/// The value of one decimal digit.
pub open spec fn digit_val(c: char) -> nat {
    ((c as u32) - 48) as nat
}

/// The value of a run of decimal digits, most significant first.
pub open spec fn digits_value(s: Seq<char>) -> nat
    decreases s.len(),
{
    if s.len() == 0 {
        0
    } else {
        digits_value(s.drop_last()) * 10 + digit_val(s.last())
    }
}

/// The length of the leading run of digits.
pub open spec fn digit_prefix_len(s: Seq<char>) -> nat
    decreases s.len(),
{
    if s.len() == 0 || !is_digit(s[0]) {
        0
    } else {
        1 + digit_prefix_len(s.drop_first())
    }
}

/// The nanoseconds per unit, for the recognised unit spellings.
pub open spec fn spec_unit_scale(u: Seq<char>) -> Option<nat> {
    if u == "ns"@ {
        Some(1nat)
    } else if u == "us"@ {
        Some(1000nat)
    } else if u == "ms"@ {
        Some(1000000nat)
    } else if u == "s"@ {
        Some(1000000000nat)
    } else if u == "m"@ {
        Some(60000000000nat)
    } else if u == "h"@ {
        Some(3600000000000nat)
    } else {
        None
    }
}

/// What a duration string parses to: the digit run scaled by the unit,
/// in nanoseconds; nothing when there is no digit, the unit is unknown,
/// or the value does not fit 64 bits.
pub open spec fn spec_parse_duration(s: Seq<char>) -> Option<u64> {
    let n = digit_prefix_len(s) as int;
    if n == 0 {
        None
    } else if spec_unit_scale(s.skip(n)) is Some {
        let v = digits_value(s.take(n)) * spec_unit_scale(s.skip(n))->0;
        if v <= u64::MAX {
            Some(v as u64)
        } else {
            None
        }
    } else {
        None
    }
}

proof fn lemma_digit_prefix_len_from_scan(s: Seq<char>, i: int)
    requires
        0 <= i <= s.len(),
        forall|k: int| 0 <= k < i ==> is_digit(s[k]),
        i == s.len() || !is_digit(s[i]),
    ensures
        digit_prefix_len(s) == i,
    decreases s.len(),
{
    if i == 0 {
    } else {
        assert(is_digit(s[0]));
        let t = s.drop_first();
        assert forall|k: int| 0 <= k < i - 1 implies is_digit(t[k]) by {
            assert(t[k] == s[k + 1]);
        }
        if i - 1 < t.len() {
            assert(t[i - 1] == s[i]);
        }
        lemma_digit_prefix_len_from_scan(t, i - 1);
    }
}

proof fn lemma_digits_value_monotone(s: Seq<char>, k: int, n: int)
    requires
        0 <= k <= n <= s.len(),
    ensures
        digits_value(s.take(k)) <= digits_value(s.take(n)),
    decreases n - k,
{
    if k < n {
        lemma_digits_value_monotone(s, k, n - 1);
        assert(s.take(n).drop_last() =~= s.take(n - 1));
        assert(digits_value(s.take(n)) == digits_value(s.take(n - 1)) * 10 + digit_val(
            s.take(n).last(),
        ));
    }
}

fn tail_is(s: &[char], from: usize, lit: &str) -> (r: bool)
    requires
        from <= s@.len(),
    ensures
        r == (s@.skip(from as int) == lit@),
{
    let v = str_chars(lit);
    let n = s.len();
    if n - from != v.len() {
        assert(s@.skip(from as int).len() != lit@.len());
        return false;
    }
    let mut k: usize = 0;
    while k < v.len()
        invariant
            from + v.len() == s@.len(),
            s@.len() <= usize::MAX,
            k <= v@.len(),
            v@ == lit@,
            forall|j: int| 0 <= j < k ==> s@[from + j] == v@[j],
        decreases v@.len() - k,
    {
        if s[from + k] != v[k] {
            assert(s@.skip(from as int)[k as int] != lit@[k as int]);
            return false;
        }
        k += 1;
    }
    assert(s@.skip(from as int) =~= lit@);
    true
}

fn unit_scale(s: &[char], from: usize) -> (r: Option<u64>)
    requires
        from <= s@.len(),
    ensures
        r is Some ==> spec_unit_scale(s@.skip(from as int)) == Some(r->0 as nat) && r->0 >= 1,
        r is None ==> spec_unit_scale(s@.skip(from as int)) is None,
{
    if tail_is(s, from, "ns") {
        Some(1)
    } else if tail_is(s, from, "us") {
        Some(1000)
    } else if tail_is(s, from, "ms") {
        Some(1000000)
    } else if tail_is(s, from, "s") {
        Some(1000000000)
    } else if tail_is(s, from, "m") {
        Some(60000000000)
    } else if tail_is(s, from, "h") {
        Some(3600000000000)
    } else {
        None
    }
}

fn is_digit_at(s: &[char], i: usize) -> (r: bool)
    requires
        i < s@.len(),
    ensures
        r == is_digit(s@[i as int]),
{
    let u = s[i] as u32;
    48 <= u && u <= 57
}

/// Parse a duration string to nanoseconds. Returns nothing exactly when the
/// string has no leading digit, carries an unknown unit, or names a duration
/// beyond 64 bits of nanoseconds.
pub fn parse_duration(s: &[char]) -> (r: Option<u64>)
    ensures
        r == spec_parse_duration(s@),
{
    let n = s.len();
    let mut i: usize = 0;
    while i < n && is_digit_at(s, i)
        invariant
            i <= n,
            n == s@.len(),
            forall|k: int| 0 <= k < i ==> is_digit(s@[k]),
        decreases n - i,
    {
        i += 1;
    }
    proof {
        lemma_digit_prefix_len_from_scan(s@, i as int);
    }
    if i == 0 {
        return None;
    }
    let scale = match unit_scale(s, i) {
        Some(sc) => sc,
        None => {
            return None;
        },
    };
    let ghost v = digits_value(s@.take(i as int));
    let mut acc: u64 = 0;
    let mut k: usize = 0;
    while k < i
        invariant
            k <= i <= n,
            n == s@.len(),
            forall|j: int| 0 <= j < i ==> is_digit(s@[j]),
            acc as nat == digits_value(s@.take(k as int)),
            v == digits_value(s@.take(i as int)),
            digit_prefix_len(s@) == i,
            spec_unit_scale(s@.skip(i as int)) == Some(scale as nat),
            scale >= 1,
        decreases i - k,
    {
        let d = (s[k] as u32 - 48) as u64;
        proof {
            assert(is_digit(s@[k as int]));
            assert(s@.take(k as int + 1).drop_last() =~= s@.take(k as int));
            assert(s@.take(k as int + 1).last() == s@[k as int]);
        }
        let stepped = match acc.checked_mul(10) {
            Some(t) => t.checked_add(d),
            None => None,
        };
        match stepped {
            Some(nacc) => {
                acc = nacc;
            },
            None => {
                proof {
                    assert(digits_value(s@.take(k as int + 1)) > u64::MAX);
                    lemma_digits_value_monotone(s@, k as int + 1, i as int);
                    assert(v > u64::MAX);
                    assert(v * scale >= v * 1) by (nonlinear_arith)
                        requires
                            scale >= 1,
                    ;
                }
                return None;
            },
        }
        k += 1;
    }
    match acc.checked_mul(scale) {
        Some(total) => {
            assert(v * scale == total);
            Some(total)
        },
        None => {
            assert(v * scale > u64::MAX);
            None
        },
    }
}

} // verus!
