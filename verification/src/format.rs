//! Text formatting helpers shared by the snapshot and the renderer:
//! decimal rendering of integers, human-readable byte counts, and the
//! uptime string.

use vstd::prelude::*;

verus! {

/// The character for one decimal digit.
pub open spec fn digit_char(d: nat) -> char {
    if d == 0 {
        '0'
    } else if d == 1 {
        '1'
    } else if d == 2 {
        '2'
    } else if d == 3 {
        '3'
    } else if d == 4 {
        '4'
    } else if d == 5 {
        '5'
    } else if d == 6 {
        '6'
    } else if d == 7 {
        '7'
    } else if d == 8 {
        '8'
    } else {
        '9'
    }
}

/// The decimal digits of `n`, most significant first, with no leading
/// zeros (except for `n == 0`, which is the single digit `0`).
pub open spec fn dec_digits(n: nat) -> Seq<char>
    decreases n,
{
    if n < 10 {
        seq![digit_char(n)]
    } else {
        dec_digits(n / 10) + seq![digit_char(n % 10)]
    }
}

fn digit_str(d: u64) -> (r: &'static str)
    requires
        d < 10,
    ensures
        r@ == seq![digit_char(d as nat)],
{
    let r: &'static str = if d == 0 {
        "0"
    } else if d == 1 {
        "1"
    } else if d == 2 {
        "2"
    } else if d == 3 {
        "3"
    } else if d == 4 {
        "4"
    } else if d == 5 {
        "5"
    } else if d == 6 {
        "6"
    } else if d == 7 {
        "7"
    } else if d == 8 {
        "8"
    } else {
        "9"
    };
    proof {
        reveal_strlit("0");
        reveal_strlit("1");
        reveal_strlit("2");
        reveal_strlit("3");
        reveal_strlit("4");
        reveal_strlit("5");
        reveal_strlit("6");
        reveal_strlit("7");
        reveal_strlit("8");
        reveal_strlit("9");
        assert(r@ =~= seq![digit_char(d as nat)]);
    }
    r
}

/// Renders `n` in decimal.
pub fn decimal_string(n: u64) -> (r: String)
    ensures
        r@ == dec_digits(n as nat),
    decreases n,
{
    if n < 10 {
        String::from_str(digit_str(n))
    } else {
        let prefix = decimal_string(n / 10);
        let r = prefix.concat(digit_str(n % 10));
        proof {
            assert(r@ =~= dec_digits(n as nat));
        }
        r
    }
}

/// What `format_uptime` returns: the largest non-zero unit decides the
/// shape, and seconds are always dropped.
pub open spec fn spec_format_uptime(s: nat) -> Seq<char> {
    let days = s / 86400;
    let hours = (s % 86400) / 3600;
    let minutes = (s % 3600) / 60;
    if days > 0 {
        dec_digits(days) + "d "@ + dec_digits(hours) + "h "@ + dec_digits(minutes) + "m"@
    } else if hours > 0 {
        dec_digits(hours) + "h "@ + dec_digits(minutes) + "m"@
    } else {
        dec_digits(minutes) + "m"@
    }
}

/// Formats a seconds count as an uptime string: `"{d}d {h}h {m}m"` when
/// at least one full day has passed, `"{h}h {m}m"` when at least one full
/// hour, and `"{m}m"` otherwise.
pub fn format_uptime(seconds: u64) -> (r: String)
    ensures
        r@ == spec_format_uptime(seconds as nat),
{
    let days: u64 = seconds / 86400;
    let hours: u64 = (seconds % 86400) / 3600;
    let minutes: u64 = (seconds % 3600) / 60;
    if days > 0 {
        let mut r = decimal_string(days);
        r.append("d ");
        let h = decimal_string(hours);
        r.append(h.as_str());
        r.append("h ");
        let m = decimal_string(minutes);
        r.append(m.as_str());
        r.append("m");
        proof {
            assert(r@ =~= spec_format_uptime(seconds as nat));
        }
        r
    } else if hours > 0 {
        let mut r = decimal_string(hours);
        r.append("h ");
        let m = decimal_string(minutes);
        r.append(m.as_str());
        r.append("m");
        proof {
            assert(r@ =~= spec_format_uptime(seconds as nat));
        }
        r
    } else {
        let mut r = decimal_string(minutes);
        r.append("m");
        proof {
            assert(r@ =~= spec_format_uptime(seconds as nat));
        }
        r
    }
}

/// Law: in the uptime format, the hour field is the total-hour count
/// modulo 24 and the minute field is the total-minute count modulo 60,
/// for every seconds count.
pub proof fn lemma_uptime_units(s: nat)
    ensures
        (s % 86400) / 3600 == (s / 3600) % 24,
        (s % 3600) / 60 == (s / 60) % 60,
{
    vstd::arithmetic::div_mod::lemma_mod_breakdown(s as int, 3600, 24);
    vstd::arithmetic::div_mod::lemma_mod_bound(s as int, 3600);
    vstd::arithmetic::div_mod::lemma_fundamental_div_mod_converse(
        s as int % 86400,
        3600,
        (s as int / 3600) % 24,
        s as int % 3600,
    );
    vstd::arithmetic::div_mod::lemma_mod_breakdown(s as int, 60, 60);
    vstd::arithmetic::div_mod::lemma_mod_bound(s as int, 60);
    vstd::arithmetic::div_mod::lemma_fundamental_div_mod_converse(
        s as int % 3600,
        60,
        (s as int / 60) % 60,
        s as int % 60,
    );
}

/// Index of the unit a byte count is shown in: 0 for bytes, 1 for KB,
/// 2 for MB, 3 for GB, 4 for TB (the largest defined unit).
pub open spec fn unit_index(b: nat) -> nat {
    if b < 1024 {
        0
    } else if b < 1048576 {
        1
    } else if b < 1073741824 {
        2
    } else if b < 1099511627776 {
        3
    } else {
        4
    }
}

/// The divisor that scales a byte count into unit `k`.
pub open spec fn unit_divisor(k: nat) -> nat {
    if k == 0 {
        1
    } else if k == 1 {
        1024
    } else if k == 2 {
        1048576
    } else if k == 3 {
        1073741824
    } else {
        1099511627776
    }
}

/// The unit suffix, including its separating space.
pub open spec fn unit_suffix(k: nat) -> Seq<char> {
    if k == 0 {
        " B"@
    } else if k == 1 {
        " KB"@
    } else if k == 2 {
        " MB"@
    } else if k == 3 {
        " GB"@
    } else {
        " TB"@
    }
}

/// `num / den` rounded to the nearest integer, ties to the even
/// neighbour (the rounding a one-decimal display uses).
pub open spec fn round_nearest_even(num: nat, den: nat) -> nat
    recommends
        den > 0,
{
    let q = num / den;
    let r = num % den;
    if 2 * r > den {
        q + 1
    } else if 2 * r < den {
        q
    } else if q % 2 == 0 {
        q
    } else {
        q + 1
    }
}

/// What `format_bytes` returns. Below 1024 the count is shown as a plain
/// integer of bytes; otherwise it is scaled by the unit's divisor and
/// shown with exactly one decimal digit.
pub open spec fn spec_format_bytes(b: nat) -> Seq<char> {
    let k = unit_index(b);
    if k == 0 {
        dec_digits(b) + " B"@
    } else {
        let t = round_nearest_even(b * 10, unit_divisor(k));
        dec_digits(t / 10) + "."@ + seq![digit_char(t % 10)] + unit_suffix(k)
    }
}

/// Formats a byte count with the largest unit (B, KB, MB, GB or TB) that
/// keeps the scaled value at least 1; the byte tier prints an integer,
/// every other tier exactly one decimal digit.
pub fn format_bytes(bytes: u64) -> (r: String)
    ensures
        r@ == spec_format_bytes(bytes as nat),
{
    if bytes < 1024 {
        let mut r = decimal_string(bytes);
        r.append(" B");
        proof {
            assert(r@ =~= spec_format_bytes(bytes as nat));
        }
        r
    } else {
        let den: u64 = if bytes < 1048576 {
            1024
        } else if bytes < 1073741824 {
            1048576
        } else if bytes < 1099511627776 {
            1073741824
        } else {
            1099511627776
        };
        let suffix: &'static str = if bytes < 1048576 {
            " KB"
        } else if bytes < 1073741824 {
            " MB"
        } else if bytes < 1099511627776 {
            " GB"
        } else {
            " TB"
        };
        let num: u128 = (bytes as u128) * 10;
        let d: u128 = den as u128;
        let q: u128 = num / d;
        let rem: u128 = num % d;
        let t: u128 = if 2 * rem > d {
            q + 1
        } else if 2 * rem < d {
            q
        } else if q % 2 == 0 {
            q
        } else {
            q + 1
        };
        proof {
            assert(t == round_nearest_even((bytes as nat) * 10, unit_divisor(unit_index(bytes as nat))));
            assert(q * d + rem == num) by {
                vstd::arithmetic::div_mod::lemma_fundamental_div_mod(num as int, d as int);
            }
            assert(q <= num) by (nonlinear_arith)
                requires
                    q * d + rem == num,
                    d >= 1024,
                    rem >= 0,
                    q >= 0,
            ;
        }
        let t64: u64 = t as u64;
        let mut r = decimal_string(t64 / 10);
        r.append(".");
        r.append(digit_str(t64 % 10));
        r.append(suffix);
        proof {
            assert(r@ =~= spec_format_bytes(bytes as nat));
        }
        r
    }
}

/// Law: every byte count below 1024 formats as its decimal digits
/// followed by the plain byte suffix, with no decimal point.
pub proof fn lemma_format_bytes_small(b: nat)
    requires
        b < 1024,
    ensures
        spec_format_bytes(b) == dec_digits(b) + " B"@,
{
}

/// Law: every byte count in [1024, 1048576) formats in the KB unit with
/// exactly one digit after the decimal point.
pub proof fn lemma_format_bytes_kb(b: nat)
    requires
        1024 <= b < 1048576,
    ensures
        spec_format_bytes(b) == dec_digits(round_nearest_even(b * 10, 1024) / 10) + "."@ + seq![
            digit_char(round_nearest_even(b * 10, 1024) % 10),
        ] + " KB"@,
{
}

} // verus!
