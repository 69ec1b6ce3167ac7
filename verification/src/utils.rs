//! Human-readable formatting of byte counts.
//!
//! Sizes under 1024 bytes render as an exact integer with unit `B`; larger
//! sizes are scaled by powers of 1024 and rendered with one decimal digit
//! and a unit prefix (`K`, `M`, `G`, `T`, `P`, `E`).  The decimal digit is
//! obtained by rounding the true scaled value to the nearest tenth, ties
//! to the even digit.

use vstd::prelude::*;

verus! {

use vstd::arithmetic::div_mod::lemma_fundamental_div_mod;
use vstd::arithmetic::div_mod::lemma_fundamental_div_mod_converse;
use vstd::arithmetic::div_mod::lemma_div_is_ordered;
use vstd::string::StringExecFns;

/// The character for a single decimal digit.
pub open spec fn spec_digit_char(d: nat) -> char {
    if d == 0 {
        '0'
    } else if d == 1 {
        '1'
    } else if d == 2 {
        '2'
    } else if d == 3 {
        '3'
    } else if d == 4 {
        '4'
    } else if d == 5 {
        '5'
    } else if d == 6 {
        '6'
    } else if d == 7 {
        '7'
    } else if d == 8 {
        '8'
    } else {
        '9'
    }
}

/// The decimal rendering of `n`, most significant digit first.
pub open spec fn spec_decimal(n: nat) -> Seq<char>
    decreases n,
{
    if n < 10 {
        seq![spec_digit_char(n)]
    } else {
        spec_decimal(n / 10).push(spec_digit_char(n % 10))
    }
}

/// `1024^i`.
pub open spec fn pow1024(i: nat) -> nat
    decreases i,
{
    if i == 0 {
        1
    } else {
        1024 * pow1024((i - 1) as nat)
    }
}

/// The scale exponent used for a size `n >= 1024`: the largest `i` with
/// `1024^i <= n`, which for a 64-bit size is between 1 and 6.
pub open spec fn spec_size_exponent(n: nat) -> nat {
    if n < 1024 {
        0
    } else if n < 1048576 {
        1
    } else if n < 1073741824 {
        2
    } else if n < 1099511627776 {
        3
    } else if n < 1125899906842624 {
        4
    } else if n < 1152921504606846976 {
        5
    } else {
        6
    }
}

/// The unit prefix for scale exponent `i` (1 through 6).
pub open spec fn spec_unit_char(i: nat) -> char {
    if i == 1 {
        'K'
    } else if i == 2 {
        'M'
    } else if i == 3 {
        'G'
    } else if i == 4 {
        'T'
    } else if i == 5 {
        'P'
    } else {
        'E'
    }
}

/// The whole part and tenths digit of `n / 1024^i`, with the tenths digit
/// rounded to nearest, ties to the even digit.  Returns `(whole, digit)`.
pub open spec fn spec_scaled_parts(n: nat, p: nat) -> (nat, nat) {
    let whole = n / p;
    let frac = n % p;
    let q = (frac * 10) / p;
    let r = (frac * 10) % p;
    let t = if 2 * r > p || (2 * r == p && q % 2 == 1) {
        q + 1
    } else {
        q
    };
    if t == 10 {
        ((whole + 1) as nat, 0)
    } else {
        (whole, t)
    }
}

/// The full rendering of a byte count, as the tool reports it.
pub open spec fn spec_format_size(n: nat) -> Seq<char> {
    if n < 1024 {
        spec_decimal(n) + (" B ")@
    } else {
        let i = spec_size_exponent(n);
        let p = pow1024(i);
        let parts = spec_scaled_parts(n, p);
        spec_decimal(parts.0) + (".")@ + seq![spec_digit_char(parts.1)] + (" ")@
            + seq![spec_unit_char(i)] + ("B")@
    }
}

/// The string for a single decimal digit.
fn digit_str(d: u64) -> (s: &'static str)
    requires
        d < 10,
    ensures
        s@ == seq![spec_digit_char(d as nat)],
{
    proof {
        reveal_strlit("0");
        reveal_strlit("1");
        reveal_strlit("2");
        reveal_strlit("3");
        reveal_strlit("4");
        reveal_strlit("5");
        reveal_strlit("6");
        reveal_strlit("7");
        reveal_strlit("8");
        reveal_strlit("9");
    }
    let s: &'static str = match d {
        0 => "0",
        1 => "1",
        2 => "2",
        3 => "3",
        4 => "4",
        5 => "5",
        6 => "6",
        7 => "7",
        8 => "8",
        _ => "9",
    };
    proof {
        assert(s@ =~= seq![spec_digit_char(d as nat)]);
    }
    s
}

/// Appends the decimal rendering of `n` to `out`.
pub fn push_decimal(out: &mut String, n: u128)
    ensures
        final(out)@ == old(out)@ + spec_decimal(n as nat),
    decreases n,
{
    if n < 10 {
        out.append(digit_str(n as u64));
        proof {
            assert(out@ =~= old(out)@ + spec_decimal(n as nat));
        }
    } else {
        push_decimal(out, n / 10);
        out.append(digit_str((n % 10) as u64));
        proof {
            assert(out@ =~= old(out)@ + spec_decimal(n as nat));
        }
    }
}

/// The decimal rendering of `n` as an owned string.
pub fn u64_to_string(n: u64) -> (s: String)
    ensures
        s@ == spec_decimal(n as nat),
{
    let mut s = String::new();
    push_decimal(&mut s, n as u128);
    proof {
        assert(s@ =~= spec_decimal(n as nat));
    }
    s
}

/// The scale exponent of `n` and the matching power of 1024.
fn size_exponent(n: u64) -> (r: (u64, u64))
    requires
        n >= 1024,
    ensures
        r.0 as nat == spec_size_exponent(n as nat),
        r.1 as nat == pow1024(r.0 as nat),
        1 <= r.0 <= 6,
        1024 <= r.1 <= 1152921504606846976,
        r.1 <= n,
{
    proof {
        reveal_with_fuel(pow1024, 7);
        assert(pow1024(1) == 1024 && pow1024(2) == 1048576 && pow1024(3) == 1073741824
            && pow1024(4) == 1099511627776 && pow1024(5) == 1125899906842624 && pow1024(6)
            == 1152921504606846976);
    }
    if n < 1048576 {
        (1, 1024)
    } else if n < 1073741824 {
        (2, 1048576)
    } else if n < 1099511627776 {
        (3, 1073741824)
    } else if n < 1125899906842624 {
        (4, 1099511627776)
    } else if n < 1152921504606846976 {
        (5, 1125899906842624)
    } else {
        (6, 1152921504606846976)
    }
}

/// The unit prefix for scale exponent `i`.
fn unit_str(i: u64) -> (s: &'static str)
    requires
        1 <= i <= 6,
    ensures
        s@ == seq![spec_unit_char(i as nat)],
{
    proof {
        reveal_strlit("K");
        reveal_strlit("M");
        reveal_strlit("G");
        reveal_strlit("T");
        reveal_strlit("P");
        reveal_strlit("E");
    }
    let s: &'static str = match i {
        1 => "K",
        2 => "M",
        3 => "G",
        4 => "T",
        5 => "P",
        _ => "E",
    };
    proof {
        assert(s@ =~= seq![spec_unit_char(i as nat)]);
    }
    s
}

/// Renders a byte count for display: an exact count under 1024 bytes,
/// otherwise one decimal digit at the largest base-1024 scale not above
/// the value.
pub fn format_size(n: u64) -> (s: String)
    ensures
        s@ == spec_format_size(n as nat),
{
    if n < 1024 {
        let mut s = u64_to_string(n);
        s.append(" B ");
        proof {
            assert(s@ =~= spec_format_size(n as nat));
        }
        return s;
    }
    let ip = size_exponent(n);
    let i: u64 = ip.0;
    let p: u64 = ip.1;
    let whole: u64 = n / p;
    let frac: u64 = n % p;
    proof {
        lemma_fundamental_div_mod(n as int, p as int);
        assert(whole * p <= n) by (nonlinear_arith)
            requires
                n as int == (p as int) * (whole as int) + (frac as int),
                frac >= 0,
                p >= 1,
        ;
        assert(whole < 18014398509481984) by (nonlinear_arith)
            requires
                whole * p <= n,
                p >= 1024,
                n <= 0xFFFF_FFFF_FFFF_FFFFu64,
        ;
    }
    let num: u64 = frac * 10;
    let q: u64 = num / p;
    let r: u64 = num % p;
    proof {
        // frac * 10 <= 10 * p - 10, so q <= 9.
        lemma_fundamental_div_mod_converse(10 * (p as int) - 10, p as int, 9, p as int - 10);
        lemma_div_is_ordered(num as int, 10 * (p as int) - 10, p as int);
        assert(q <= 9);
    }
    let t: u64 = if 2 * r > p || (2 * r == p && q % 2 == 1) {
        q + 1
    } else {
        q
    };
    let mut w2: u64 = whole;
    let mut digit: u64 = t;
    if t == 10 {
        w2 = whole + 1;
        digit = 0;
    }
    let mut s = u64_to_string(w2);
    s.append(".");
    s.append(digit_str(digit));
    s.append(" ");
    s.append(unit_str(i));
    s.append("B");
    proof {
        assert(s@ =~= spec_format_size(n as nat));
    }
    s
}

} // verus!
