//! A byte-level scanner for the JSON subset that the two remote endpoints
//! return: objects, arrays, strings without escape sequences, decimal numbers
//! without an exponent, and the three literals.
//!
//! Each executable function computes exactly what its `spec_` twin defines
//! over the byte sequence, so the typed decoders in `parse` can state their
//! results precisely. Numbers are read to hundredths (the precision the
//! display uses), rounding half-up on the third fractional digit.

use vstd::prelude::*;
use crate::ipv4::{is_digit, spec_digits_value};

verus! {

/// JSON insignificant whitespace.
pub open spec fn is_ws(b: u8) -> bool {
    b == 32 || b == 9 || b == 10 || b == 13
}

/// The first position at or after `i` that does not hold whitespace.
pub open spec fn spec_skip_ws(s: Seq<u8>, i: int) -> int
    decreases s.len() - i,
{
    if 0 <= i < s.len() && is_ws(s[i]) {
        spec_skip_ws(s, i + 1)
    } else {
        i
    }
}

fn is_ws_byte(b: u8) -> (r: bool)
    ensures
        r == is_ws(b),
{
    b == 32 || b == 9 || b == 10 || b == 13
}

pub fn skip_ws(s: &Vec<u8>, i: usize) -> (j: usize)
    requires
        i <= s.len(),
    ensures
        i <= j <= s.len(),
        j as int == spec_skip_ws(s@, i as int),
    decreases s.len() - i,
{
    if i < s.len() && is_ws_byte(s[i]) {
        skip_ws(s, i + 1)
    } else {
        i
    }
}

/// Scans string content from `i` (just after the opening quote) to the
/// closing quote and returns its position. Escape sequences and control
/// bytes are not accepted.
pub open spec fn spec_scan_string(s: Seq<u8>, i: int) -> Option<int>
    decreases s.len() - i,
{
    if !(0 <= i < s.len()) {
        None
    } else if s[i] == 34 {
        Some(i)
    } else if s[i] == 92 || s[i] < 32 {
        None
    } else {
        spec_scan_string(s, i + 1)
    }
}

pub fn scan_string(s: &Vec<u8>, i: usize) -> (r: Option<usize>)
    requires
        i <= s.len(),
    ensures
        r matches Some(q) ==> i <= q < s.len() && spec_scan_string(s@, i as int) == Some(q as int),
        r is None ==> spec_scan_string(s@, i as int) is None,
    decreases s.len() - i,
{
    if i >= s.len() {
        None
    } else if s[i] == 34 {
        Some(i)
    } else if s[i] == 92 || s[i] < 32 {
        None
    } else {
        scan_string(s, i + 1)
    }
}

/// The first position at or after `i` that does not hold a decimal digit.
pub open spec fn spec_digit_run_end(s: Seq<u8>, i: int) -> int
    decreases s.len() - i,
{
    if 0 <= i < s.len() && is_digit(s[i]) {
        spec_digit_run_end(s, i + 1)
    } else {
        i
    }
}

pub fn digit_run_end(s: &Vec<u8>, i: usize) -> (j: usize)
    requires
        i <= s.len(),
    ensures
        i <= j <= s.len(),
        j as int == spec_digit_run_end(s@, i as int),
        forall|k: int| i <= k < j ==> is_digit(s@[k]),
        j == s.len() || !is_digit(s@[j as int]),
    decreases s.len() - i,
{
    if i < s.len() && 48 <= s[i] && s[i] <= 57 {
        digit_run_end(s, i + 1)
    } else {
        i
    }
}

/// Ten to the `n`.
pub open spec fn pow10(n: nat) -> int
    decreases n,
{
    if n == 0 {
        1
    } else {
        10 * pow10((n - 1) as nat)
    }
}

/// The value of the digit run `[i, j)`, bounded by the run's length.
fn digits_value(s: &Vec<u8>, i: usize, j: usize) -> (v: u64)
    requires
        i <= j <= s.len(),
        j - i <= 13,
        forall|k: int| i <= k < j ==> is_digit(s@[k]),
    ensures
        v as int == spec_digits_value(s@.subrange(i as int, j as int)),
        v < 10000000000000u64,
{
    proof {
        lemma_pow10_13();
    }
    let mut k = i;
    let mut acc: u64 = 0;
    proof {
        assert(s@.subrange(i as int, i as int) =~= Seq::<u8>::empty());
    }
    while k < j
        invariant
            i <= k <= j <= s.len(),
            j - i <= 13,
            forall|t: int| i <= t < j ==> is_digit(s@[t]),
            acc as int == spec_digits_value(s@.subrange(i as int, k as int)),
            (acc as int) < pow10((k - i) as nat),
            pow10(13) == 10000000000000,
        decreases j - k,
    {
        let d = s[k] - 48;
        proof {
            assert(s@.subrange(i as int, k + 1).drop_last() =~= s@.subrange(i as int, k as int));
            assert(s@.subrange(i as int, k + 1).last() == s@[k as int]);
            assert(pow10(((k + 1) - i) as nat) == 10 * pow10((k - i) as nat));
            assert(pow10((k - i) as nat) <= pow10(13)) by {
                lemma_pow10_mono((k - i + 1) as nat, 13);
            }
            assert(10 * pow10((k - i) as nat) <= pow10(13) || (k + 1) - i <= 13);
            lemma_pow10_mono(((k + 1) - i) as nat, 13);
        }
        acc = acc * 10 + (d as u64);
        k = k + 1;
    }
    proof {
        lemma_pow10_mono(((k) - i) as nat, 13);
    }
    acc
}

proof fn lemma_pow10_13()
    ensures
        pow10(13) == 10000000000000,
{
    assert(pow10(0) == 1);
    assert(pow10(1) == 10);
    assert(pow10(2) == 100);
    assert(pow10(3) == 1000);
    assert(pow10(4) == 10000);
    assert(pow10(5) == 100000);
    assert(pow10(6) == 1000000);
    assert(pow10(7) == 10000000);
    assert(pow10(8) == 100000000);
    assert(pow10(9) == 1000000000);
    assert(pow10(10) == 10000000000);
    assert(pow10(11) == 100000000000);
    assert(pow10(12) == 1000000000000);
    assert(pow10(13) == 10000000000000);
}

proof fn lemma_pow10_mono(a: nat, b: nat)
    requires
        a <= b,
    ensures
        pow10(a) <= pow10(b),
        pow10(a) >= 1,
    decreases b,
{
    if b == 0 {
    } else if a == b {
        lemma_pow10_mono((a - 1) as nat, (b - 1) as nat);
        assert(pow10(b) == 10 * pow10((b - 1) as nat));
    } else {
        lemma_pow10_mono(a, (b - 1) as nat);
        assert(pow10(b) == 10 * pow10((b - 1) as nat));
    }
}

/// Hundredths read from the fraction digits `[a, b)`: the first two digits,
/// rounded half-up by the third.
pub open spec fn spec_frac_centi(s: Seq<u8>, a: int, b: int) -> int {
    (s[a] - 48) * 10 + (if a + 1 < b {
        (s[a + 1] - 48) as int
    } else {
        0int
    }) + (if a + 2 < b && s[a + 2] >= 53 {
        1int
    } else {
        0int
    })
}

/// Reads a JSON number at `i` as a count of hundredths: an optional minus,
/// an integer part of at most thirteen digits without leading zeros, an
/// optional fraction read to hundredths (rounding half-up on the third
/// digit), no exponent.
pub open spec fn spec_parse_number(s: Seq<u8>, i: int) -> Option<(int, int)> {
    let neg = 0 <= i < s.len() && s[i] == 45;
    let i0 = if neg {
        i + 1
    } else {
        i
    };
    if !(0 <= i0 < s.len() && is_digit(s[i0])) {
        None
    } else {
        let j = spec_digit_run_end(s, i0);
        if j - i0 > 13 || (s[i0] == 48 && j - i0 > 1) {
            None
        } else {
            let ip = spec_digits_value(s.subrange(i0, j));
            if j < s.len() && s[j] == 46 {
                if !(j + 1 < s.len() && is_digit(s[j + 1])) {
                    None
                } else {
                    let k = spec_digit_run_end(s, j + 1);
                    if k < s.len() && (s[k] == 101 || s[k] == 69) {
                        None
                    } else {
                        let centi = ip * 100 + spec_frac_centi(s, j + 1, k);
                        Some(((if neg { -centi } else { centi }), k))
                    }
                }
            } else if j < s.len() && (s[j] == 101 || s[j] == 69) {
                None
            } else {
                let centi = ip * 100;
                Some(((if neg { -centi } else { centi }), j))
            }
        }
    }
}

pub fn parse_number(s: &Vec<u8>, i: usize) -> (r: Option<(i64, usize)>)
    requires
        i <= s.len(),
    ensures
        r matches Some((v, j)) ==> i < j <= s.len()
            && spec_parse_number(s@, i as int) == Some((v as int, j as int)),
        r is None ==> spec_parse_number(s@, i as int) is None,
{
    let neg = i < s.len() && s[i] == 45;
    let i0 = if neg {
        i + 1
    } else {
        i
    };
    if i0 >= s.len() || !(48 <= s[i0] && s[i0] <= 57) {
        return None;
    }
    let j = digit_run_end(s, i0);
    if j - i0 > 13 || (s[i0] == 48 && j - i0 > 1) {
        return None;
    }
    let ip = digits_value(s, i0, j);
    if j < s.len() && s[j] == 46 {
        if j + 1 >= s.len() || !(48 <= s[j + 1] && s[j + 1] <= 57) {
            return None;
        }
        let k = digit_run_end(s, j + 1);
        if k < s.len() && (s[k] == 101 || s[k] == 69) {
            return None;
        }
        let d1 = (s[j + 1] - 48) as u64;
        let d2: u64 = if k - j > 2 {
            (s[j + 2] - 48) as u64
        } else {
            0
        };
        let rup: u64 = if k - j > 3 && s[j + 3] >= 53 {
            1
        } else {
            0
        };
        let centi: u64 = ip * 100 + d1 * 10 + d2 + rup;
        let v: i64 = if neg {
            -(centi as i64)
        } else {
            centi as i64
        };
        Some((v, k))
    } else if j < s.len() && (s[j] == 101 || s[j] == 69) {
        None
    } else {
        let centi: u64 = ip * 100;
        let v: i64 = if neg {
            -(centi as i64)
        } else {
            centi as i64
        };
        Some((v, j))
    }
}

/// Skips one JSON value starting at `i` and returns the position just after
/// it: a string, object, array, number, or `true`/`false`/`null`.
pub open spec fn spec_skip_value(s: Seq<u8>, i: int) -> Option<int>
    decreases s.len() - i, 0int,
{
    if !(0 <= i < s.len()) {
        None
    } else if s[i] == 34 {
        match spec_scan_string(s, i + 1) {
            Some(q) => Some(q + 1),
            None => None,
        }
    } else if s[i] == 123 {
        spec_skip_object_rest(s, i + 1)
    } else if s[i] == 91 {
        spec_skip_array_rest(s, i + 1)
    } else if s[i] == 116 {
        if i + 4 <= s.len() && s[i + 1] == 114 && s[i + 2] == 117 && s[i + 3] == 101 {
            Some(i + 4)
        } else {
            None
        }
    } else if s[i] == 102 {
        if i + 5 <= s.len() && s[i + 1] == 97 && s[i + 2] == 108 && s[i + 3] == 115
            && s[i + 4] == 101 {
            Some(i + 5)
        } else {
            None
        }
    } else if s[i] == 110 {
        if i + 4 <= s.len() && s[i + 1] == 117 && s[i + 2] == 108 && s[i + 3] == 108 {
            Some(i + 4)
        } else {
            None
        }
    } else if s[i] == 45 || is_digit(s[i]) {
        match spec_parse_number(s, i) {
            Some((v, j)) => Some(j),
            None => None,
        }
    } else {
        None
    }
}

/// Skips the remainder of an object whose `{` stands just before `i`.
pub open spec fn spec_skip_object_rest(s: Seq<u8>, i: int) -> Option<int>
    decreases s.len() - i, 3int,
{
    if !(0 <= i <= s.len()) {
        None
    } else {
        let j = spec_skip_ws(s, i);
        if i <= j <= s.len() {
            if j < s.len() && s[j] == 125 {
                Some(j + 1)
            } else {
                spec_skip_member_list(s, j)
            }
        } else {
            None
        }
    }
}

/// Skips members from the first key, then the closing `}`.
pub open spec fn spec_skip_member_list(s: Seq<u8>, i: int) -> Option<int>
    decreases s.len() - i, 2int,
{
    if !(0 <= i < s.len() && s[i] == 34) {
        None
    } else {
        match spec_scan_string(s, i + 1) {
            None => None,
            Some(q) => {
                let j = spec_skip_ws(s, q + 1);
                if q + 1 <= j <= s.len() && j < s.len() && s[j] == 58 {
                    let k = spec_skip_ws(s, j + 1);
                    if i < k <= s.len() {
                        match spec_skip_value(s, k) {
                            None => None,
                            Some(ve) => {
                                let m = spec_skip_ws(s, ve);
                                if i < m <= s.len() {
                                    if m < s.len() && s[m] == 44 {
                                        let n = spec_skip_ws(s, m + 1);
                                        if i < n <= s.len() {
                                            spec_skip_member_list(s, n)
                                        } else {
                                            None
                                        }
                                    } else if m < s.len() && s[m] == 125 {
                                        Some(m + 1)
                                    } else {
                                        None
                                    }
                                } else {
                                    None
                                }
                            },
                        }
                    } else {
                        None
                    }
                } else {
                    None
                }
            },
        }
    }
}

/// Skips the remainder of an array whose `[` stands just before `i`.
pub open spec fn spec_skip_array_rest(s: Seq<u8>, i: int) -> Option<int>
    decreases s.len() - i, 3int,
{
    if !(0 <= i <= s.len()) {
        None
    } else {
        let j = spec_skip_ws(s, i);
        if i <= j <= s.len() {
            if j < s.len() && s[j] == 93 {
                Some(j + 1)
            } else {
                spec_skip_elem_list(s, j)
            }
        } else {
            None
        }
    }
}

/// Skips elements from the first one, then the closing `]`.
pub open spec fn spec_skip_elem_list(s: Seq<u8>, i: int) -> Option<int>
    decreases s.len() - i, 2int,
{
    if !(0 <= i <= s.len()) {
        None
    } else {
        match spec_skip_value(s, i) {
            None => None,
            Some(ve) => {
                let m = spec_skip_ws(s, ve);
                if i < m <= s.len() {
                    if m < s.len() && s[m] == 44 {
                        let n = spec_skip_ws(s, m + 1);
                        if i < n <= s.len() {
                            spec_skip_elem_list(s, n)
                        } else {
                            None
                        }
                    } else if m < s.len() && s[m] == 93 {
                        Some(m + 1)
                    } else {
                        None
                    }
                } else {
                    None
                }
            },
        }
    }
}

pub fn skip_value(s: &Vec<u8>, i: usize) -> (r: Option<usize>)
    requires
        i <= s.len(),
    ensures
        r matches Some(j) ==> i < j <= s.len() && spec_skip_value(s@, i as int) == Some(j as int),
        r is None ==> spec_skip_value(s@, i as int) is None,
    decreases s.len() - i, 0int,
{
    if i >= s.len() {
        None
    } else if s[i] == 34 {
        match scan_string(s, i + 1) {
            Some(q) => Some(q + 1),
            None => None,
        }
    } else if s[i] == 123 {
        skip_object_rest(s, i + 1)
    } else if s[i] == 91 {
        skip_array_rest(s, i + 1)
    } else if s[i] == 116 {
        if s.len() - i >= 4 && s[i + 1] == 114 && s[i + 2] == 117 && s[i + 3] == 101 {
            Some(i + 4)
        } else {
            None
        }
    } else if s[i] == 102 {
        if s.len() - i >= 5 && s[i + 1] == 97 && s[i + 2] == 108 && s[i + 3] == 115
            && s[i + 4] == 101 {
            Some(i + 5)
        } else {
            None
        }
    } else if s[i] == 110 {
        if s.len() - i >= 4 && s[i + 1] == 117 && s[i + 2] == 108 && s[i + 3] == 108 {
            Some(i + 4)
        } else {
            None
        }
    } else if s[i] == 45 || (48 <= s[i] && s[i] <= 57) {
        match parse_number(s, i) {
            Some((_v, j)) => Some(j),
            None => None,
        }
    } else {
        None
    }
}

fn skip_object_rest(s: &Vec<u8>, i: usize) -> (r: Option<usize>)
    requires
        i <= s.len(),
        i >= 1,
    ensures
        r matches Some(j) ==> i <= j <= s.len()
            && spec_skip_object_rest(s@, i as int) == Some(j as int),
        r is None ==> spec_skip_object_rest(s@, i as int) is None,
    decreases s.len() - i, 3int,
{
    let j = skip_ws(s, i);
    if j < s.len() && s[j] == 125 {
        Some(j + 1)
    } else {
        skip_member_list(s, j)
    }
}

fn skip_member_list(s: &Vec<u8>, i: usize) -> (r: Option<usize>)
    requires
        i <= s.len(),
    ensures
        r matches Some(j) ==> i < j <= s.len()
            && spec_skip_member_list(s@, i as int) == Some(j as int),
        r is None ==> spec_skip_member_list(s@, i as int) is None,
    decreases s.len() - i, 2int,
{
    if i >= s.len() || s[i] != 34 {
        return None;
    }
    let q = match scan_string(s, i + 1) {
        Some(q) => q,
        None => {
            return None;
        },
    };
    let j = skip_ws(s, q + 1);
    if !(j < s.len() && s[j] == 58) {
        return None;
    }
    let k = skip_ws(s, j + 1);
    let ve = match skip_value(s, k) {
        Some(ve) => ve,
        None => {
            return None;
        },
    };
    let m = skip_ws(s, ve);
    if m < s.len() && s[m] == 44 {
        let n = skip_ws(s, m + 1);
        skip_member_list(s, n)
    } else if m < s.len() && s[m] == 125 {
        Some(m + 1)
    } else {
        None
    }
}

fn skip_array_rest(s: &Vec<u8>, i: usize) -> (r: Option<usize>)
    requires
        i <= s.len(),
        i >= 1,
    ensures
        r matches Some(j) ==> i <= j <= s.len()
            && spec_skip_array_rest(s@, i as int) == Some(j as int),
        r is None ==> spec_skip_array_rest(s@, i as int) is None,
    decreases s.len() - i, 3int,
{
    let j = skip_ws(s, i);
    if j < s.len() && s[j] == 93 {
        Some(j + 1)
    } else {
        skip_elem_list(s, j)
    }
}

fn skip_elem_list(s: &Vec<u8>, i: usize) -> (r: Option<usize>)
    requires
        i <= s.len(),
    ensures
        r matches Some(j) ==> i < j <= s.len()
            && spec_skip_elem_list(s@, i as int) == Some(j as int),
        r is None ==> spec_skip_elem_list(s@, i as int) is None,
    decreases s.len() - i, 2int,
{
    let ve = match skip_value(s, i) {
        Some(ve) => ve,
        None => {
            return None;
        },
    };
    let m = skip_ws(s, ve);
    if m < s.len() && s[m] == 44 {
        let n = skip_ws(s, m + 1);
        skip_elem_list(s, n)
    } else if m < s.len() && s[m] == 93 {
        Some(m + 1)
    } else {
        None
    }
}

/// Copies the bytes `[a, b)` of `s`.
pub fn copy_range(s: &Vec<u8>, a: usize, b: usize) -> (v: Vec<u8>)
    requires
        a <= b <= s.len(),
    ensures
        v@ == s@.subrange(a as int, b as int),
{
    let mut v: Vec<u8> = Vec::new();
    let mut k = a;
    while k < b
        invariant
            a <= k <= b <= s.len(),
            v@ == s@.subrange(a as int, k as int),
        decreases b - k,
    {
        v.push(s[k]);
        proof {
            assert(v@ =~= s@.subrange(a as int, (k + 1) as int));
        }
        k = k + 1;
    }
    v
}

} // verus!
