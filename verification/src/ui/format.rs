//! Human-readable byte counts and decimal numbers.

use vstd::prelude::*;

verus! {

/// The character of a decimal digit.
pub open spec fn digit_char(d: nat) -> char {
    (48 + d) as char
}

/// The decimal notation of `n`, without leading zeros.
pub open spec fn decimal(n: nat) -> Seq<char>
    decreases n,
{
    if n < 10 {
        seq![digit_char(n)]
    } else {
        decimal(n / 10).push(digit_char(n % 10))
    }
}

/// The one-character string of a decimal digit.
pub fn digit_str(d: u64) -> (s: &'static str)
    requires
        d < 10,
    ensures
        s@ == seq![digit_char(d as nat)],
{
    match d {
        0 => {
            proof {
                reveal_strlit("0");
            }
            "0"
        },
        1 => {
            proof {
                reveal_strlit("1");
            }
            "1"
        },
        2 => {
            proof {
                reveal_strlit("2");
            }
            "2"
        },
        3 => {
            proof {
                reveal_strlit("3");
            }
            "3"
        },
        4 => {
            proof {
                reveal_strlit("4");
            }
            "4"
        },
        5 => {
            proof {
                reveal_strlit("5");
            }
            "5"
        },
        6 => {
            proof {
                reveal_strlit("6");
            }
            "6"
        },
        7 => {
            proof {
                reveal_strlit("7");
            }
            "7"
        },
        8 => {
            proof {
                reveal_strlit("8");
            }
            "8"
        },
        _ => {
            proof {
                reveal_strlit("9");
            }
            "9"
        },
    }
}

/// Appends the decimal notation of `n` to `s`.
pub fn push_decimal(s: &mut String, n: u64)
    ensures
        final(s)@ == old(s)@ + decimal(n as nat),
    decreases n,
{
    if n >= 10 {
        push_decimal(s, n / 10);
    }
    s.append(digit_str(n % 10));
    proof {
        if n < 10 {
            assert(old(s)@ + decimal(n as nat) =~= old(s)@ + seq![digit_char(n as nat)]);
        } else {
            assert((old(s)@ + decimal(n as nat / 10)) + seq![digit_char(n as nat % 10)] =~= old(
                s,
            )@ + decimal(n as nat));
        }
    }
}

/// The decimal notation of `n`, as `n.to_string()` writes it.
pub fn decimal_string(n: u64) -> (s: String)
    ensures
        s@ == decimal(n as nat),
{
    let mut s = String::new();
    push_decimal(&mut s, n);
    proof {
        assert(Seq::<char>::empty() + decimal(n as nat) =~= decimal(n as nat));
    }
    s
}


/// The number a string of decimal digits denotes.
pub open spec fn digits_value(s: Seq<char>) -> int
    decreases s.len(),
{
    if s.len() == 0 {
        0
    } else {
        digits_value(s.drop_last()) * 10 + (s.last() as int - 48)
    }
}

/// The decimal notation of `n` is a string of digits that denotes `n`, with no
/// leading zero.
pub proof fn lemma_decimal_denotes(n: nat)
    ensures
        decimal(n).len() >= 1,
        forall|i: int| 0 <= i < decimal(n).len() ==> '0' <= #[trigger] decimal(n)[i] <= '9',
        digits_value(decimal(n)) == n,
        n > 0 ==> decimal(n)[0] != '0',
    decreases n,
{
    let last = n % 10;
    assert(digit_char(last) as int == 48 + last);
    if n >= 10 {
        lemma_decimal_denotes(n / 10);
        let d = decimal(n);
        assert(d.drop_last() =~= decimal(n / 10));
        assert(d[0] == decimal(n / 10)[0]);
        assert(digits_value(d) == digits_value(decimal(n / 10)) * 10 + last);
        assert((n / 10) * 10 + last == n);
    } else {
        assert(decimal(n).drop_last() =~= Seq::<char>::empty());
        assert(decimal(n).last() == digit_char(n));
        assert(digits_value(decimal(n)) == digits_value(Seq::<char>::empty()) * 10 + (
        digit_char(n) as int - 48));
    }
}

/// Counts below 1 KB are shown exactly, in bytes.
pub proof fn lemma_bytes_below_a_kilobyte(n: nat)
    requires
        n < 1024,
    ensures
        bytes_text(n) == decimal(n) + " B"@,
{
}

/// Counts below 2^53 are exact as doubles, so a whole number of kilobytes below a
/// megabyte is shown as that number with `.0 KB`.
pub proof fn lemma_whole_kilobytes(k: nat)
    requires
        1 <= k < 1024,
    ensures
        as_double(k * 1024) == k * 1024,
        bytes_text(k * 1024) == decimal(k) + ".0 KB"@,
{
    let n = k * 1024;
    assert(spacing_from(n, 1) == 1);
    assert(round_half_even(n, 1) == n) by (nonlinear_arith);
    assert(unit_index(n) == 1);
    let t = round_half_even(n * 10, 1024);
    assert(t == k * 10) by (nonlinear_arith)
        requires
            n == k * 1024,
            t == round_half_even(n * 10, 1024),
    ;
    assert(t / 10 == k && t % 10 == 0) by (nonlinear_arith)
        requires
            t == k * 10,
    ;
    reveal_strlit(".0 KB");
    reveal_strlit(".");
    reveal_strlit(" ");
    reveal_strlit("KB");
    assert(seq![digit_char(0)] =~= seq!['0']);
    assert(decimal(k) + "."@ + seq![digit_char(0)] + " "@ + "KB"@ =~= decimal(k) + ".0 KB"@);
}

/// 2^53: every integer below it is exactly a double.
pub const TWO_POW_53: u128 = 0x20_0000_0000_0000;

/// The power of two by which the doubles near `n` are spaced, from `s` on: the
/// least `s * 2^k` with `n < 2^53 * s * 2^k`.
pub open spec fn spacing_from(n: nat, s: nat) -> nat
    decreases n - s,
{
    if s == 0 || n < TWO_POW_53 * s {
        s
    } else {
        spacing_from(n, 2 * s)
    }
}

/// `num / den` rounded to the nearest integer, ties to the even one.
pub open spec fn round_half_even(num: nat, den: nat) -> nat {
    let q = num / den;
    let r = num % den;
    if 2 * r > den || (2 * r == den && q % 2 == 1) {
        q + 1
    } else {
        q
    }
}

/// The value of `n as f64`: the nearest double, ties to an even significand.
pub open spec fn as_double(n: nat) -> nat {
    let s = spacing_from(n, 1);
    round_half_even(n, s) * s
}

/// The largest power of 1024, at most the fifth, that `n` reaches.
pub open spec fn unit_index(n: nat) -> nat {
    if n >= 1125899906842624 {
        5
    } else if n >= 1099511627776 {
        4
    } else if n >= 1073741824 {
        3
    } else if n >= 1048576 {
        2
    } else if n >= 1024 {
        1
    } else {
        0
    }
}

/// 1024 to the power `u`.
pub open spec fn unit_scale(u: nat) -> nat {
    if u == 5 {
        1125899906842624
    } else if u == 4 {
        1099511627776
    } else if u == 3 {
        1073741824
    } else if u == 2 {
        1048576
    } else if u == 1 {
        1024
    } else {
        1
    }
}

/// The symbol of the unit 1024^u.
pub open spec fn unit_name(u: nat) -> Seq<char> {
    if u == 5 {
        "PB"@
    } else if u == 4 {
        "TB"@
    } else if u == 3 {
        "GB"@
    } else if u == 2 {
        "MB"@
    } else if u == 1 {
        "KB"@
    } else {
        "B"@
    }
}

/// A byte count for display: below 1 KB the exact count and ` B`; otherwise the value
/// of the count as a double, divided by the largest power of 1024 it reaches (at most
/// PB), with one decimal rounded half to even, a space and the unit.
pub open spec fn bytes_text(n: nat) -> Seq<char> {
    let u = unit_index(n);
    if u == 0 {
        decimal(n) + " B"@
    } else {
        let t = round_half_even(as_double(n) * 10, unit_scale(u));
        decimal(t / 10) + "."@ + seq![digit_char(t % 10)] + " "@ + unit_name(u)
    }
}

fn unit_symbol(u: u64) -> (s: &'static str)
    ensures
        s@ == unit_name(u as nat),
{
    if u == 5 {
        "PB"
    } else if u == 4 {
        "TB"
    } else if u == 3 {
        "GB"
    } else if u == 2 {
        "MB"
    } else if u == 1 {
        "KB"
    } else {
        "B"
    }
}

fn rounded_quotient(num: u128, den: u128) -> (q: u128)
    requires
        0 < den <= u64::MAX,
        num / den < u128::MAX,
    ensures
        q == round_half_even(num as nat, den as nat),
{
    let q = num / den;
    let r = num % den;
    assert(r < den);
    if 2 * r > den || (2 * r == den && q % 2 == 1) {
        q + 1
    } else {
        q
    }
}

/// A byte count for display, as in `1.5 KB` or `512 B`.
pub fn bytes(count: u64) -> (s: String)
    ensures
        s@ == bytes_text(count as nat),
{
    let unit: u64 = if count >= 1125899906842624 {
        5
    } else if count >= 1099511627776 {
        4
    } else if count >= 1073741824 {
        3
    } else if count >= 1048576 {
        2
    } else if count >= 1024 {
        1
    } else {
        0
    };
    if unit == 0 {
        let mut s = decimal_string(count);
        s.append(" B");
        return s;
    }
    let n = count as u128;
    let mut spacing: u128 = 1;
    while n >= TWO_POW_53 * spacing
        invariant
            1 <= spacing <= 4096,
            n < 0x1_0000_0000_0000_0000,
            spacing_from(n as nat, spacing as nat) == spacing_from(n as nat, 1),
        decreases n - spacing,
    {
        spacing = spacing * 2;
    }
    let q = rounded_quotient(n, spacing);
    proof {
        let fl = n / spacing;
        assert(fl * spacing <= n) by (nonlinear_arith)
            requires
                fl == n / spacing,
                spacing > 0,
        ;
        assert(q * spacing <= n + spacing) by (nonlinear_arith)
            requires
                q <= fl + 1,
                fl * spacing <= n,
                spacing > 0,
        ;
    }
    let value = q * spacing;
    let scale: u128 = if unit == 5 {
        1125899906842624
    } else if unit == 4 {
        1099511627776
    } else if unit == 3 {
        1073741824
    } else if unit == 2 {
        1048576
    } else {
        1024
    };
    proof {
        let v10 = value as int * 10;
        assert(v10 / (scale as int) <= v10) by (nonlinear_arith)
            requires
                scale >= 1024,
                v10 >= 0,
        ;
    }
    let t = rounded_quotient(value * 10, scale);
    proof {
        let v10 = value as int * 10;
        assert(v10 / (scale as int) <= v10 / 1024) by (nonlinear_arith)
            requires
                scale >= 1024,
                v10 >= 0,
        ;
    }
    let mut s = decimal_string((t / 10) as u64);
    s.append(".");
    s.append(digit_str((t % 10) as u64));
    s.append(" ");
    s.append(unit_symbol(unit));
    proof {
        assert(spacing_from(n as nat, 1) == spacing);
        assert(as_double(count as nat) == value);
        assert(unit_index(count as nat) == unit);
        assert(unit_scale(unit as nat) == scale);
    }
    s
}

} // verus!
