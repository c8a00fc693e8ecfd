//! The caller's public IPv4 address, read from the plain-text body that the
//! IP-echo endpoint returns.
//!
//! A body is accepted exactly when it is a canonical IPv4 literal: four
//! decimal octets without leading zeros, separated by dots, nothing else.

use vstd::prelude::*;
use vstd::arithmetic::div_mod::{lemma_fundamental_div_mod, lemma_fundamental_div_mod_converse};

verus! {

/// An IPv4 address as four plain octets.
#[derive(Clone, Copy, PartialEq, Eq, Structural, Debug)]
pub struct Ipv4Address {
    pub a: u8,
    pub b: u8,
    pub c: u8,
    pub d: u8,
}

/// A decimal digit byte (`'0'` to `'9'`).
pub open spec fn is_digit(b: u8) -> bool {
    48 <= b <= 57
}

/// The canonical decimal digits of `n` as bytes: most significant first, no
/// leading zeros (`0` itself is the single byte `'0'`).
pub open spec fn spec_dec_bytes(n: nat) -> Seq<u8>
    decreases n,
{
    if n < 10 {
        seq![(n + 48) as u8]
    } else {
        spec_dec_bytes(n / 10).push((n % 10 + 48) as u8)
    }
}

/// The numeric value of a run of digit bytes, most significant first.
pub open spec fn spec_digits_value(ds: Seq<u8>) -> int
    decreases ds.len(),
{
    if ds.len() == 0 {
        0
    } else {
        spec_digits_value(ds.drop_last()) * 10 + (ds.last() - 48)
    }
}

/// The canonical literal of an IPv4 address, as bytes.
pub open spec fn spec_ipv4_bytes(a: u8, b: u8, c: u8, d: u8) -> Seq<u8> {
    spec_dec_bytes(a as nat) + seq![46u8] + spec_dec_bytes(b as nat) + seq![46u8]
        + spec_dec_bytes(c as nat) + seq![46u8] + spec_dec_bytes(d as nat)
}

/// `s` is the canonical literal of some IPv4 address.
pub open spec fn is_ipv4_literal(s: Seq<u8>) -> bool {
    exists|a: u8, b: u8, c: u8, d: u8| s == spec_ipv4_bytes(a, b, c, d)
}

proof fn lemma_value_single(x: u8)
    ensures
        spec_digits_value(seq![x]) == x - 48,
{
    assert(seq![x].drop_last() =~= Seq::<u8>::empty());
    assert(spec_digits_value(Seq::<u8>::empty()) == 0);
}

proof fn lemma_dec_bytes_props(n: nat)
    ensures
        spec_dec_bytes(n).len() >= 1,
        forall|k: int| 0 <= k < spec_dec_bytes(n).len() ==> is_digit(#[trigger] spec_dec_bytes(n)[k]),
        spec_digits_value(spec_dec_bytes(n)) == n,
        n < 10 ==> spec_dec_bytes(n).len() == 1,
        n < 100 ==> spec_dec_bytes(n).len() <= 2,
        n < 1000 ==> spec_dec_bytes(n).len() <= 3,
        n >= 10 ==> spec_dec_bytes(n)[0] != 48,
    decreases n,
{
    if n < 10 {
        lemma_value_single((n + 48) as u8);
    } else {
        lemma_dec_bytes_props(n / 10);
        let p = spec_dec_bytes(n / 10);
        let ds = spec_dec_bytes(n);
        assert(ds == p.push((n % 10 + 48) as u8));
        assert(ds.drop_last() =~= p);
        assert(ds.last() == (n % 10 + 48) as u8);
        lemma_fundamental_div_mod(n as int, 10);
        assert(spec_digits_value(ds) == (n / 10) * 10 + (n % 10));
        assert(n < 100 ==> n / 10 < 10);
        assert(n < 1000 ==> n / 10 < 100);
        assert(n / 10 >= 1);
        if n / 10 < 10 {
            assert(p[0] == (n / 10 + 48) as u8);
            assert(p[0] != 48);
        }
        assert(ds[0] == p[0]);
        assert(forall|k: int| 0 <= k < ds.len() ==> is_digit(#[trigger] ds[k])) by {
            assert(forall|k: int| 0 <= k < p.len() ==> ds[k] == #[trigger] p[k]);
            assert(is_digit(ds[ds.len() - 1]));
        }
    }
}

/// A run of at most three digit bytes without a leading zero is the canonical
/// rendering of its value.
proof fn lemma_digits_canonical(ds: Seq<u8>)
    requires
        1 <= ds.len() <= 3,
        forall|k: int| 0 <= k < ds.len() ==> is_digit(#[trigger] ds[k]),
        ds.len() > 1 ==> ds[0] != 48,
    ensures
        0 <= spec_digits_value(ds),
        ds == spec_dec_bytes(spec_digits_value(ds) as nat),
{
    if ds.len() == 1 {
        let d0 = ds[0] - 48;
        assert(ds =~= seq![ds[0]]);
        lemma_value_single(ds[0]);
        assert(spec_digits_value(ds) == d0);
        assert(spec_dec_bytes(d0 as nat) =~= ds);
    } else if ds.len() == 2 {
        let d0 = ds[0] - 48;
        let d1 = ds[1] - 48;
        let v = d0 * 10 + d1;
        assert(ds.drop_last() =~= seq![ds[0]]);
        lemma_value_single(ds[0]);
        assert(spec_digits_value(ds) == v);
        assert(1 <= d0 <= 9 && 0 <= d1 <= 9);
        lemma_fundamental_div_mod_converse(v, 10, d0, d1);
        assert(v >= 10);
        assert(spec_dec_bytes(v as nat) == spec_dec_bytes((v / 10) as nat).push((v % 10 + 48) as u8));
        assert(spec_dec_bytes(d0 as nat) =~= seq![ds[0]]);
        assert(spec_dec_bytes(v as nat) =~= ds);
    } else {
        let d0 = ds[0] - 48;
        let d1 = ds[1] - 48;
        let d2 = ds[2] - 48;
        let h = d0 * 10 + d1;
        let v = h * 10 + d2;
        assert(ds.drop_last() =~= seq![ds[0], ds[1]]);
        assert(seq![ds[0], ds[1]].drop_last() =~= seq![ds[0]]);
        lemma_value_single(ds[0]);
        assert(spec_digits_value(seq![ds[0], ds[1]]) == d0 * 10 + d1);
        assert(spec_digits_value(ds) == v);
        assert(1 <= d0 <= 9 && 0 <= d1 <= 9 && 0 <= d2 <= 9);
        lemma_fundamental_div_mod_converse(v, 10, h, d2);
        lemma_fundamental_div_mod_converse(h, 10, d0, d1);
        assert(v >= 100);
        assert(spec_dec_bytes(v as nat) == spec_dec_bytes((v / 10) as nat).push((v % 10 + 48) as u8));
        assert(spec_dec_bytes(h as nat) == spec_dec_bytes((h / 10) as nat).push((h % 10 + 48) as u8));
        assert(spec_dec_bytes(d0 as nat) =~= seq![ds[0]]);
        assert(spec_dec_bytes(h as nat) =~= seq![ds[0], ds[1]]);
        assert(spec_dec_bytes(v as nat) =~= ds);
    }
}

/// Two canonical digit runs that start at the same place and both end at a
/// non-digit (or at the end of `s`) are the same run of the same value.
proof fn lemma_digit_run_unique(s: Seq<u8>, i: int, j1: int, j2: int, v1: nat, v2: nat)
    requires
        0 <= i <= j1 <= s.len(),
        0 <= i <= j2 <= s.len(),
        s.subrange(i, j1) == spec_dec_bytes(v1),
        s.subrange(i, j2) == spec_dec_bytes(v2),
        j1 == s.len() || !is_digit(s[j1]),
        j2 == s.len() || !is_digit(s[j2]),
    ensures
        j1 == j2,
        v1 == v2,
{
    lemma_dec_bytes_props(v1);
    lemma_dec_bytes_props(v2);
    if j1 < j2 {
        assert(s[j1] == s.subrange(i, j2)[j1 - i]);
        assert(is_digit(s[j1]));
        assert(false);
    }
    if j2 < j1 {
        assert(s[j2] == s.subrange(i, j1)[j2 - i]);
        assert(is_digit(s[j2]));
        assert(false);
    }
    assert(spec_dec_bytes(v1) == spec_dec_bytes(v2));
    assert(spec_digits_value(spec_dec_bytes(v1)) == v1);
}

/// Distinct addresses have distinct canonical literals: a valid body pins
/// the address exactly.
pub proof fn lemma_ipv4_bytes_injective(
    a1: u8, b1: u8, c1: u8, d1: u8,
    a2: u8, b2: u8, c2: u8, d2: u8,
)
    requires
        spec_ipv4_bytes(a1, b1, c1, d1) == spec_ipv4_bytes(a2, b2, c2, d2),
    ensures
        a1 == a2 && b1 == b2 && c1 == c2 && d1 == d2,
{
    let s = spec_ipv4_bytes(a1, b1, c1, d1);
    lemma_ipv4_field(s, a1, b1, c1, d1);
    lemma_ipv4_field(s, a2, b2, c2, d2);
    let la1 = spec_dec_bytes(a1 as nat).len() as int;
    let la2 = spec_dec_bytes(a2 as nat).len() as int;
    lemma_digit_run_unique(s, 0, la1, la2, a1 as nat, a2 as nat);
    let i = la1 + 1;
    let lb1 = spec_dec_bytes(b1 as nat).len() as int;
    let lb2 = spec_dec_bytes(b2 as nat).len() as int;
    lemma_digit_run_unique(s, i, i + lb1, i + lb2, b1 as nat, b2 as nat);
    let i2 = i + lb1 + 1;
    let lc1 = spec_dec_bytes(c1 as nat).len() as int;
    let lc2 = spec_dec_bytes(c2 as nat).len() as int;
    lemma_digit_run_unique(s, i2, i2 + lc1, i2 + lc2, c1 as nat, c2 as nat);
    let i3 = i2 + lc1 + 1;
    let ld1 = spec_dec_bytes(d1 as nat).len() as int;
    let ld2 = spec_dec_bytes(d2 as nat).len() as int;
    lemma_digit_run_unique(s, i3, i3 + ld1, i3 + ld2, d1 as nat, d2 as nat);
}

/// Where each piece of the canonical literal stands in the whole.
proof fn lemma_ipv4_field(s: Seq<u8>, a: u8, b: u8, c: u8, d: u8)
    requires
        s == spec_ipv4_bytes(a, b, c, d),
    ensures
        ({
            let la = spec_dec_bytes(a as nat).len() as int;
            let lb = spec_dec_bytes(b as nat).len() as int;
            let lc = spec_dec_bytes(c as nat).len() as int;
            let ld = spec_dec_bytes(d as nat).len() as int;
            &&& s.len() == la + 1 + lb + 1 + lc + 1 + ld
            &&& s.subrange(0, la) == spec_dec_bytes(a as nat)
            &&& s[la] == 46u8
            &&& s.subrange(la + 1, la + 1 + lb) == spec_dec_bytes(b as nat)
            &&& s[la + 1 + lb] == 46u8
            &&& s.subrange(la + 1 + lb + 1, la + 1 + lb + 1 + lc) == spec_dec_bytes(c as nat)
            &&& s[la + 1 + lb + 1 + lc] == 46u8
            &&& s.subrange(la + 1 + lb + 1 + lc + 1, s.len() as int) == spec_dec_bytes(d as nat)
        }),
{
    let sa = spec_dec_bytes(a as nat);
    let sb = spec_dec_bytes(b as nat);
    let sc = spec_dec_bytes(c as nat);
    let sd = spec_dec_bytes(d as nat);
    let la = sa.len() as int;
    let lb = sb.len() as int;
    let lc = sc.len() as int;
    assert(s.subrange(0, la) =~= sa);
    assert(s.subrange(la + 1, la + 1 + lb) =~= sb);
    assert(s.subrange(la + 1 + lb + 1, la + 1 + lb + 1 + lc) =~= sc);
    assert(s.subrange(la + 1 + lb + 1 + lc + 1, s.len() as int) =~= sd);
}

/// Reads one octet as a maximal digit run at `i`: at most three digits, no
/// leading zero, value at most 255. On success the run is the canonical
/// rendering of the octet and ends at a non-digit or at the end of the body;
/// on failure no octet has a canonical run starting at `i` that ends at a
/// non-digit or at the end.
fn parse_octet(s: &Vec<u8>, i: usize) -> (r: Option<(u8, usize)>)
    requires
        i <= s.len(),
    ensures
        r matches Some((v, j)) ==> {
            &&& i < j <= s.len()
            &&& s@.subrange(i as int, j as int) == spec_dec_bytes(v as nat)
            &&& (j == s.len() || !is_digit(s@[j as int]))
        },
        r is None ==> forall|v: u8, j: int|
            i < j <= s@.len() && (j == s@.len() || !is_digit(s@[j]))
                ==> s@.subrange(i as int, j) != spec_dec_bytes(v as nat),
{
    if i >= s.len() || !(48 <= s[i] && s[i] <= 57) {
        proof {
            assert forall|v: u8, j: int|
                i < j <= s@.len() && (j == s@.len() || !is_digit(s@[j]))
                    implies s@.subrange(i as int, j) != spec_dec_bytes(v as nat) by {
                lemma_dec_bytes_props(v as nat);
                if i < s@.len() && s@.subrange(i as int, j) == spec_dec_bytes(v as nat) {
                    assert(s@[i as int] == s@.subrange(i as int, j)[0]);
                    assert(is_digit(s@[i as int]));
                }
            }
        }
        return None;
    }
    let d0 = s[i] - 48;
    let j1 = i + 1;
    if j1 == s.len() || !(48 <= s[j1] && s[j1] <= 57) {
        proof {
            let ds = s@.subrange(i as int, j1 as int);
            assert(ds =~= seq![s@[i as int]]);
            lemma_value_single(s@[i as int]);
            assert(spec_digits_value(ds) == d0);
            lemma_digits_canonical(ds);
        }
        return Some((d0, j1));
    }
    // a second digit follows; a leading zero then matches no canonical run
    if d0 == 0 {
        proof {
            assert forall|v: u8, j: int|
                i < j <= s@.len() && (j == s@.len() || !is_digit(s@[j]))
                    implies s@.subrange(i as int, j) != spec_dec_bytes(v as nat) by {
                lemma_dec_bytes_props(v as nat);
                if s@.subrange(i as int, j) == spec_dec_bytes(v as nat) {
                    if v < 10 {
                        // the run is one digit, so it ends right before s[j1], a digit
                        assert(spec_dec_bytes(v as nat).len() == 1);
                        assert(j == j1);
                    } else {
                        assert(spec_dec_bytes(v as nat)[0] != 48);
                        assert(s@[i as int] == s@.subrange(i as int, j)[0]);
                    }
                }
            }
        }
        return None;
    }
    let d1 = s[j1] - 48;
    let j2 = j1 + 1;
    if j2 == s.len() || !(48 <= s[j2] && s[j2] <= 57) {
        let v = d0 * 10 + d1;
        proof {
            let ds = s@.subrange(i as int, j2 as int);
            assert(ds =~= seq![s@[i as int], s@[j1 as int]]);
            assert(ds.drop_last() =~= seq![s@[i as int]]);
            lemma_value_single(s@[i as int]);
            assert(spec_digits_value(ds) == d0 * 10 + d1);
            lemma_digits_canonical(ds);
        }
        return Some((v, j2));
    }
    let d2 = s[j2] - 48;
    let j3 = j2 + 1;
    proof {
        let ds = s@.subrange(i as int, j3 as int);
        assert(ds =~= seq![s@[i as int], s@[j1 as int], s@[j2 as int]]);
        assert(ds.drop_last() =~= seq![s@[i as int], s@[j1 as int]]);
        assert(seq![s@[i as int], s@[j1 as int]].drop_last() =~= seq![s@[i as int]]);
        lemma_value_single(s@[i as int]);
        assert(spec_digits_value(seq![s@[i as int], s@[j1 as int]]) == d0 * 10 + d1);
        assert(spec_digits_value(ds) == (d0 * 10 + d1) * 10 + d2);
    }
    if j3 < s.len() && 48 <= s[j3] && s[j3] <= 57 {
        // four digits in a row: longer than any canonical octet run
        proof {
            assert forall|v: u8, j: int|
                i < j <= s@.len() && (j == s@.len() || !is_digit(s@[j]))
                    implies s@.subrange(i as int, j) != spec_dec_bytes(v as nat) by {
                lemma_dec_bytes_props(v as nat);
                if s@.subrange(i as int, j) == spec_dec_bytes(v as nat) {
                    assert(s@.subrange(i as int, j).len() == j - i);
                    assert(j - i <= 3);
                    assert(j == j1 || j == j2 || j == j3);
                    assert(is_digit(s@[j]));
                }
            }
        }
        return None;
    }
    if d0 > 2 || (d0 == 2 && (d1 > 5 || (d1 == 5 && d2 > 5))) {
        // three digits above 255: the run matches no octet
        proof {
            let ds = s@.subrange(i as int, j3 as int);
            assert(spec_digits_value(ds) > 255);
            assert forall|v: u8, j: int|
                i < j <= s@.len() && (j == s@.len() || !is_digit(s@[j]))
                    implies s@.subrange(i as int, j) != spec_dec_bytes(v as nat) by {
                lemma_dec_bytes_props(v as nat);
                if s@.subrange(i as int, j) == spec_dec_bytes(v as nat) {
                    assert(s@.subrange(i as int, j).len() == j - i);
                    assert(j - i <= 3);
                    assert(j == j1 || j == j2 || j == j3);
                    if j == j3 {
                        assert(s@.subrange(i as int, j) == ds);
                        assert(spec_digits_value(spec_dec_bytes(v as nat)) == v);
                    } else {
                        assert(is_digit(s@[j]));
                    }
                }
            }
        }
        return None;
    }
    let v = d0 * 100 + d1 * 10 + d2;
    proof {
        let ds = s@.subrange(i as int, j3 as int);
        assert((d0 * 10 + d1) * 10 + d2 == d0 * 100 + d1 * 10 + d2) by (nonlinear_arith);
        lemma_digits_canonical(ds);
    }
    Some((v, j3))
}

/// Reads the whole body as a canonical IPv4 literal.
///
/// Returns the four octets exactly when the body is `a.b.c.d` in canonical
/// decimal, and `None` for every other body.
pub fn parse_ipv4(body: &Vec<u8>) -> (r: Option<Ipv4Address>)
    ensures
        r matches Some(ip) ==> body@ == spec_ipv4_bytes(ip.a, ip.b, ip.c, ip.d),
        r is None ==> !is_ipv4_literal(body@),
{
    let s = body;
    let ghost valid = is_ipv4_literal(body@);
    proof {
        if valid {
            let (a, b, c, d) = choose|a: u8, b: u8, c: u8, d: u8|
                body@ == spec_ipv4_bytes(a, b, c, d);
            lemma_ipv4_field(body@, a, b, c, d);
            lemma_dec_bytes_props(a as nat);
            lemma_dec_bytes_props(b as nat);
            lemma_dec_bytes_props(c as nat);
            lemma_dec_bytes_props(d as nat);
        }
    }
    let ghost gw = choose|a: u8, b: u8, c: u8, d: u8| body@ == spec_ipv4_bytes(a, b, c, d);

    let r0 = parse_octet(s, 0);
    let (a, i0) = match r0 {
        Some(p) => p,
        None => {
            proof {
                if valid {
                    let la = spec_dec_bytes(gw.0 as nat).len() as int;
                    assert(s@.subrange(0, la) == spec_dec_bytes(gw.0 as nat));
                    assert(!is_digit(s@[la]));
                }
            }
            return None;
        },
    };
    proof {
        if valid {
            let la = spec_dec_bytes(gw.0 as nat).len() as int;
            lemma_digit_run_unique(s@, 0, i0 as int, la, a as nat, gw.0 as nat);
        }
    }
    if i0 >= s.len() || s[i0] != 46 {
        proof {
            if valid {
                assert(false);
            }
        }
        return None;
    }

    let r1 = parse_octet(s, i0 + 1);
    let (b, i1) = match r1 {
        Some(p) => p,
        None => {
            proof {
                if valid {
                    let la = spec_dec_bytes(gw.0 as nat).len() as int;
                    let lb = spec_dec_bytes(gw.1 as nat).len() as int;
                    assert(s@.subrange(la + 1, la + 1 + lb) == spec_dec_bytes(gw.1 as nat));
                    assert(!is_digit(s@[la + 1 + lb]));
                }
            }
            return None;
        },
    };
    proof {
        if valid {
            let la = spec_dec_bytes(gw.0 as nat).len() as int;
            let lb = spec_dec_bytes(gw.1 as nat).len() as int;
            lemma_digit_run_unique(s@, la + 1, i1 as int, la + 1 + lb, b as nat, gw.1 as nat);
        }
    }
    if i1 >= s.len() || s[i1] != 46 {
        proof {
            if valid {
                assert(false);
            }
        }
        return None;
    }

    let r2 = parse_octet(s, i1 + 1);
    let (c, i2) = match r2 {
        Some(p) => p,
        None => {
            proof {
                if valid {
                    let la = spec_dec_bytes(gw.0 as nat).len() as int;
                    let lb = spec_dec_bytes(gw.1 as nat).len() as int;
                    let lc = spec_dec_bytes(gw.2 as nat).len() as int;
                    assert(s@.subrange(la + 1 + lb + 1, la + 1 + lb + 1 + lc)
                        == spec_dec_bytes(gw.2 as nat));
                    assert(!is_digit(s@[la + 1 + lb + 1 + lc]));
                }
            }
            return None;
        },
    };
    proof {
        if valid {
            let la = spec_dec_bytes(gw.0 as nat).len() as int;
            let lb = spec_dec_bytes(gw.1 as nat).len() as int;
            let lc = spec_dec_bytes(gw.2 as nat).len() as int;
            lemma_digit_run_unique(
                s@, la + 1 + lb + 1, i2 as int, la + 1 + lb + 1 + lc, c as nat, gw.2 as nat);
        }
    }
    if i2 >= s.len() || s[i2] != 46 {
        proof {
            if valid {
                assert(false);
            }
        }
        return None;
    }

    let r3 = parse_octet(s, i2 + 1);
    let (d, i3) = match r3 {
        Some(p) => p,
        None => {
            proof {
                if valid {
                    let la = spec_dec_bytes(gw.0 as nat).len() as int;
                    let lb = spec_dec_bytes(gw.1 as nat).len() as int;
                    let lc = spec_dec_bytes(gw.2 as nat).len() as int;
                    assert(s@.subrange(la + 1 + lb + 1 + lc + 1, s@.len() as int)
                        == spec_dec_bytes(gw.3 as nat));
                }
            }
            return None;
        },
    };
    proof {
        if valid {
            let la = spec_dec_bytes(gw.0 as nat).len() as int;
            let lb = spec_dec_bytes(gw.1 as nat).len() as int;
            let lc = spec_dec_bytes(gw.2 as nat).len() as int;
            let ld = spec_dec_bytes(gw.3 as nat).len() as int;
            lemma_digit_run_unique(
                s@, la + 1 + lb + 1 + lc + 1, i3 as int, la + 1 + lb + 1 + lc + 1 + ld,
                d as nat, gw.3 as nat);
        }
    }
    if i3 != s.len() {
        proof {
            if valid {
                assert(false);
            }
        }
        return None;
    }

    proof {
        assert(s@ =~= spec_ipv4_bytes(a, b, c, d)) by {
            lemma_dec_bytes_props(a as nat);
            lemma_dec_bytes_props(b as nat);
            lemma_dec_bytes_props(c as nat);
            let sa = spec_dec_bytes(a as nat);
            let sb = spec_dec_bytes(b as nat);
            let sc = spec_dec_bytes(c as nat);
            assert(s@.subrange(0, i0 as int) == sa);
            assert(s@.subrange(i0 + 1, i1 as int) == sb);
            assert(s@.subrange(i1 + 1, i2 as int) == sc);
            assert(s@.subrange(i2 + 1, i3 as int) == spec_dec_bytes(d as nat));
        }
    }
    Some(Ipv4Address { a, b, c, d })
}

} // verus!
