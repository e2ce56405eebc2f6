//! Human-readable formatting of byte counts, transfer speeds and remaining
//! times, defined over exact integer arithmetic.
//!
//! Fractional parts are written with one decimal digit, rounding the exact
//! rational value to the nearest tenth and breaking ties to the even digit.

use vstd::prelude::*;
use vstd::string::StrSliceExecFns;
use vstd::string::StringExecFns;

verus! {

/// The digit character for a value below ten.
pub open spec fn digit_char(d: nat) -> char {
    if d == 0 {
        '0'
    } else if d == 1 {
        '1'
    } else if d == 2 {
        '2'
    } else if d == 3 {
        '3'
    } else if d == 4 {
        '4'
    } else if d == 5 {
        '5'
    } else if d == 6 {
        '6'
    } else if d == 7 {
        '7'
    } else if d == 8 {
        '8'
    } else {
        '9'
    }
}

/// The decimal digit characters of a number, most significant first.
pub open spec fn dec_digits(n: nat) -> Seq<char>
    decreases n,
{
    if n < 10 {
        seq![digit_char(n)]
    } else {
        dec_digits(n / 10).push(digit_char(n % 10))
    }
}

/// `num / den` rounded to the nearest integer, ties to the even value.
pub open spec fn round_half_even(num: nat, den: nat) -> nat
    recommends
        den > 0,
{
    let q = num / den;
    let r = num % den;
    if 2 * r > den {
        q + 1
    } else if 2 * r < den {
        q
    } else if q % 2 == 0 {
        q
    } else {
        q + 1
    }
}

/// Unit index for a byte count: 0 for B, 1 for KB, 2 for MB, 3 for GB.
pub open spec fn size_unit_index(bytes: u64) -> int {
    if bytes < 1024 {
        0
    } else if bytes < 1048576 {
        1
    } else if bytes < 1073741824 {
        2
    } else {
        3
    }
}

/// Bytes per unit at the given unit index.
pub open spec fn unit_divisor(k: int) -> nat {
    if k <= 0 {
        1
    } else if k == 1 {
        1024
    } else if k == 2 {
        1048576
    } else {
        1073741824
    }
}

/// The suffix printed for each size unit.
pub open spec fn size_unit_suffix(k: int) -> Seq<char> {
    if k <= 0 {
        seq![' ', 'B']
    } else if k == 1 {
        seq![' ', 'K', 'B']
    } else if k == 2 {
        seq![' ', 'M', 'B']
    } else {
        seq![' ', 'G', 'B']
    }
}

/// A number scaled by `den` and printed with one decimal digit.
pub open spec fn one_decimal_digits(value: nat, den: nat) -> Seq<char>
    recommends
        den > 0,
{
    let tenths = round_half_even(value * 10, den);
    dec_digits(tenths / 10) + seq!['.', digit_char(tenths % 10)]
}

/// The formatted rendering of a byte count: a bare count below one KB, and
/// one decimal digit in the largest unit it reaches otherwise.
pub open spec fn spec_format_size(bytes: u64) -> Seq<char> {
    let k = size_unit_index(bytes);
    if k == 0 {
        dec_digits(bytes as nat) + size_unit_suffix(0)
    } else {
        one_decimal_digits(bytes as nat, unit_divisor(k)) + size_unit_suffix(k)
    }
}

/// The suffix printed for each speed unit.
pub open spec fn speed_unit_suffix(k: int) -> Seq<char> {
    if k <= 0 {
        seq![' ', 'B', '/', 's']
    } else if k == 1 {
        seq![' ', 'K', 'B', '/', 's']
    } else {
        seq![' ', 'M', 'B', '/', 's']
    }
}

/// Unit index for a transfer speed: 0 for B/s, 1 for KB/s, 2 for MB/s.
pub open spec fn speed_unit_index(bps: u64) -> int {
    if bps < 1024 {
        0
    } else if bps < 1048576 {
        1
    } else {
        2
    }
}

/// The formatted rendering of a transfer speed in bytes per second, always
/// with one decimal digit.
pub open spec fn spec_format_speed(bps: u64) -> Seq<char> {
    let k = speed_unit_index(bps);
    one_decimal_digits(bps as nat, unit_divisor(k)) + speed_unit_suffix(k)
}

/// The formatted rendering of a remaining time in whole seconds: seconds
/// below a minute, minutes and seconds below an hour, hours and minutes
/// otherwise.
pub open spec fn spec_format_time(seconds: u64) -> Seq<char> {
    if seconds < 60 {
        dec_digits(seconds as nat) + seq!['s']
    } else if seconds < 3600 {
        dec_digits((seconds / 60) as nat) + seq!['m', ' '] + dec_digits((seconds % 60) as nat)
            + seq!['s']
    } else {
        dec_digits((seconds / 3600) as nat) + seq!['h', ' '] + dec_digits(
            ((seconds % 3600) / 60) as nat,
        ) + seq!['m']
    }
}

/// The single-character string for a digit value.
fn digit_str(d: u64) -> (r: &'static str)
    requires
        d < 10,
    ensures
        r@ =~= seq![digit_char(d as nat)],
{
    proof {
        reveal_strlit("0");
        reveal_strlit("1");
        reveal_strlit("2");
        reveal_strlit("3");
        reveal_strlit("4");
        reveal_strlit("5");
        reveal_strlit("6");
        reveal_strlit("7");
        reveal_strlit("8");
        reveal_strlit("9");
    }
    match d {
        0 => "0",
        1 => "1",
        2 => "2",
        3 => "3",
        4 => "4",
        5 => "5",
        6 => "6",
        7 => "7",
        8 => "8",
        _ => "9",
    }
}

/// Render a number in decimal.
pub fn u64_to_string(n: u64) -> (r: String)
    ensures
        r@ == dec_digits(n as nat),
    decreases n,
{
    if n < 10 {
        let s = String::from_str(digit_str(n));
        assert(s@ =~= dec_digits(n as nat));
        s
    } else {
        assert(n as nat / 10 == (n / 10) as nat);
        let mut s = u64_to_string(n / 10);
        s.append(digit_str(n % 10));
        assert(s@ =~= dec_digits(n as nat));
        s
    }
}

/// Append the one-decimal rendering of `value / den` to fresh text.
fn one_decimal_string(value: u64, den: u64) -> (r: String)
    requires
        den == 1 || den == 1024 || den == 1048576 || den == 1073741824,
    ensures
        r@ == one_decimal_digits(value as nat, den as nat),
{
    if den == 1 {
        // Dividing by one leaves a whole number; the tenth digit is zero.
        proof {
            assert((value as nat * 10) / 1 == value as nat * 10);
            assert((value as nat * 10) % 1 == 0);
            assert((value as nat * 10) / 10 == value as nat) by (nonlinear_arith);
            assert((value as nat * 10) % 10 == 0) by (nonlinear_arith);
            assert(round_half_even(value as nat * 10, 1) == value as nat * 10);
        }
        let mut s = u64_to_string(value);
        s.append(".");
        s.append(digit_str(0));
        proof {
            reveal_strlit(".");
            assert("."@ =~= seq!['.']);
            assert(s@ =~= one_decimal_digits(value as nat, 1));
        }
        return s;
    }
    let num: u128 = (value as u128) * 10;
    let d: u128 = den as u128;
    let q = num / d;
    let rem = num % d;
    let round_up = if 2 * rem > d {
        true
    } else if 2 * rem < d {
        false
    } else {
        q % 2 == 1
    };
    let tenths: u128 = if round_up {
        q + 1
    } else {
        q
    };
    proof {
        assert(num == (value as nat) * 10);
        assert(tenths == round_half_even((value as nat) * 10, den as nat));
        assert(q * d <= num) by (nonlinear_arith)
            requires
                d > 0,
                q == num / d,
                num >= 0,
        ;
        assert(tenths <= u64::MAX) by (nonlinear_arith)
            requires
                q * d <= num,
                num == (value as u128) * 10,
                value <= u64::MAX,
                d >= 1024,
                tenths <= q + 1,
                q >= 0,
        ;
    }
    let tenths64: u64 = tenths as u64;
    let mut s = u64_to_string(tenths64 / 10);
    s.append(".");
    s.append(digit_str(tenths64 % 10));
    proof {
        reveal_strlit(".");
        assert("."@ =~= seq!['.']);
        assert(s@ =~= one_decimal_digits(value as nat, den as nat));
    }
    s
}

/// Format a byte count for display, as in `0 B`, `1.0 KB`, `1.5 KB`,
/// `1.0 MB`.
pub fn format_file_size(bytes: u64) -> (r: String)
    ensures
        r@ == spec_format_size(bytes),
{
    if bytes < 1024 {
        let mut s = u64_to_string(bytes);
        s.append(" B");
        proof {
            reveal_strlit(" B");
            assert(" B"@ =~= size_unit_suffix(0));
            assert(s@ =~= spec_format_size(bytes));
        }
        s
    } else {
        let (den, suffix): (u64, &'static str) = if bytes < 1048576 {
            (1024, " KB")
        } else if bytes < 1073741824 {
            (1048576, " MB")
        } else {
            (1073741824, " GB")
        };
        let mut s = one_decimal_string(bytes, den);
        s.append(suffix);
        proof {
            reveal_strlit(" KB");
            reveal_strlit(" MB");
            reveal_strlit(" GB");
            let k = size_unit_index(bytes);
            assert(suffix@ =~= size_unit_suffix(k));
            assert(s@ =~= spec_format_size(bytes));
        }
        s
    }
}

/// Format a transfer speed in bytes per second for display, as in
/// `512.0 B/s`, `1.5 KB/s`, `2.0 MB/s`.
pub fn format_speed(bytes_per_second: u64) -> (r: String)
    ensures
        r@ == spec_format_speed(bytes_per_second),
{
    let (den, suffix): (u64, &'static str) = if bytes_per_second < 1024 {
        (1, " B/s")
    } else if bytes_per_second < 1048576 {
        (1024, " KB/s")
    } else {
        (1048576, " MB/s")
    };
    let mut s = one_decimal_string(bytes_per_second, den);
    s.append(suffix);
    proof {
        reveal_strlit(" B/s");
        reveal_strlit(" KB/s");
        reveal_strlit(" MB/s");
        let k = speed_unit_index(bytes_per_second);
        assert(suffix@ =~= speed_unit_suffix(k));
        assert(s@ =~= spec_format_speed(bytes_per_second));
    }
    s
}

/// Format a remaining time in whole seconds for display, as in `45s`,
/// `2m 30s`, `1h 10m`.
pub fn format_time(seconds: u64) -> (r: String)
    ensures
        r@ == spec_format_time(seconds),
{
    if seconds < 60 {
        let mut s = u64_to_string(seconds);
        s.append("s");
        proof {
            reveal_strlit("s");
            assert("s"@ =~= seq!['s']);
            assert(s@ =~= spec_format_time(seconds));
        }
        s
    } else if seconds < 3600 {
        let mut s = u64_to_string(seconds / 60);
        s.append("m ");
        let sec = u64_to_string(seconds % 60);
        s.append(sec.as_str());
        s.append("s");
        proof {
            reveal_strlit("m ");
            reveal_strlit("s");
            assert("m "@ =~= seq!['m', ' ']);
            assert("s"@ =~= seq!['s']);
            assert(s@ =~= spec_format_time(seconds));
        }
        s
    } else {
        let mut s = u64_to_string(seconds / 3600);
        s.append("h ");
        let mins = u64_to_string((seconds % 3600) / 60);
        s.append(mins.as_str());
        s.append("m");
        proof {
            reveal_strlit("h ");
            reveal_strlit("m");
            assert("h "@ =~= seq!['h', ' ']);
            assert("m"@ =~= seq!['m']);
            assert(s@ =~= spec_format_time(seconds));
        }
        s
    }
}

} // verus!
