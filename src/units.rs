//! Human-readable byte counts: the value in the largest binary unit (up to
//! PB) that it reaches, with two decimals, as in `1.50 KB`.
//!
//! The decimals are computed exactly, rounding a tie to the even last digit.

use vstd::prelude::*;

verus! {

/// The number of bytes in the unit of index `k` (B, KB, MB, GB, TB, PB).
pub open spec fn unit_size(k: nat) -> nat {
    if k == 0 {
        1
    } else if k == 1 {
        1024
    } else if k == 2 {
        1048576
    } else if k == 3 {
        1073741824
    } else if k == 4 {
        1099511627776
    } else {
        1125899906842624
    }
}

/// The index of the largest unit, at most PB, that `bytes` reaches.
pub open spec fn unit_index(bytes: nat) -> nat {
    if bytes >= unit_size(5) {
        5
    } else if bytes >= unit_size(4) {
        4
    } else if bytes >= unit_size(3) {
        3
    } else if bytes >= unit_size(2) {
        2
    } else if bytes >= unit_size(1) {
        1
    } else {
        0
    }
}

pub open spec fn unit_name(k: nat) -> Seq<char> {
    if k == 0 {
        seq!['B']
    } else if k == 1 {
        seq!['K', 'B']
    } else if k == 2 {
        seq!['M', 'B']
    } else if k == 3 {
        seq!['G', 'B']
    } else if k == 4 {
        seq!['T', 'B']
    } else {
        seq!['P', 'B']
    }
}

/// `n / d` rounded to the nearest integer, a tie to the even one.
pub open spec fn round_div(n: nat, d: nat) -> nat
    recommends
        d > 0,
{
    let q = n / d;
    let r = n % d;
    if 2 * r > d || (2 * r == d && q % 2 == 1) {
        q + 1
    } else {
        q
    }
}

pub open spec fn digit_char(d: nat) -> char {
    if d == 0 {
        '0'
    } else if d == 1 {
        '1'
    } else if d == 2 {
        '2'
    } else if d == 3 {
        '3'
    } else if d == 4 {
        '4'
    } else if d == 5 {
        '5'
    } else if d == 6 {
        '6'
    } else if d == 7 {
        '7'
    } else if d == 8 {
        '8'
    } else {
        '9'
    }
}

/// The decimal digits of `n`, without leading zeros.
pub open spec fn decimal(n: nat) -> Seq<char>
    decreases n,
{
    if n < 10 {
        seq![digit_char(n)]
    } else {
        decimal(n / 10) + seq![digit_char(n % 10)]
    }
}

/// `bytes` in hundredths of its unit, rounded.
pub open spec fn hundredths(bytes: nat) -> nat {
    round_div(bytes * 100, unit_size(unit_index(bytes)))
}

pub open spec fn format_bytes_spec(bytes: nat) -> Seq<char> {
    let h = hundredths(bytes);
    decimal(h / 100) + seq!['.', digit_char((h / 10) % 10), digit_char(h % 10), ' '] + unit_name(
        unit_index(bytes),
    )
}

fn digit_str(d: u64) -> (r: &'static str)
    requires
        d < 10,
    ensures
        r@ == seq![digit_char(d as nat)],
{
    proof {
        reveal_strlit("0");
        reveal_strlit("1");
        reveal_strlit("2");
        reveal_strlit("3");
        reveal_strlit("4");
        reveal_strlit("5");
        reveal_strlit("6");
        reveal_strlit("7");
        reveal_strlit("8");
        reveal_strlit("9");
    }
    if d == 0 {
        "0"
    } else if d == 1 {
        "1"
    } else if d == 2 {
        "2"
    } else if d == 3 {
        "3"
    } else if d == 4 {
        "4"
    } else if d == 5 {
        "5"
    } else if d == 6 {
        "6"
    } else if d == 7 {
        "7"
    } else if d == 8 {
        "8"
    } else {
        "9"
    }
}

fn push_decimal(out: &mut String, n: u64)
    ensures
        final(out)@ == old(out)@ + decimal(n as nat),
    decreases n,
{
    if n >= 10 {
        push_decimal(out, n / 10);
    }
    out.append(digit_str(n % 10));
    assert(final(out)@ =~= old(out)@ + decimal(n as nat));
}

fn unit_str(k: usize) -> (r: &'static str)
    requires
        k <= 5,
    ensures
        r@ == unit_name(k as nat),
{
    proof {
        reveal_strlit("B");
        reveal_strlit("KB");
        reveal_strlit("MB");
        reveal_strlit("GB");
        reveal_strlit("TB");
        reveal_strlit("PB");
    }
    if k == 0 {
        "B"
    } else if k == 1 {
        "KB"
    } else if k == 2 {
        "MB"
    } else if k == 3 {
        "GB"
    } else if k == 4 {
        "TB"
    } else {
        "PB"
    }
}

/// Formats a byte count with two decimals in the largest unit it reaches.
pub fn format_bytes(bytes: u64) -> (r: String)
    ensures
        r@ == format_bytes_spec(bytes as nat),
{
    let mut k: usize = 0;
    let mut size: u64 = 1;
    while k < 5 && bytes / 1024 >= size
        invariant
            k <= 5,
            size == unit_size(k as nat),
            k > 0 ==> bytes >= size,
        decreases 5 - k,
    {
        size = size * 1024;
        k = k + 1;
    }
    assert(k == unit_index(bytes as nat));
    let n: u128 = (bytes as u128) * 100;
    let d: u128 = size as u128;
    let q: u128 = n / d;
    let rem: u128 = n % d;
    let h: u128 = if 2 * rem > d || (2 * rem == d && q % 2 == 1) {
        q + 1
    } else {
        q
    };
    assert(h == hundredths(bytes as nat));
    let whole: u64 = (h / 100) as u64;
    let mut out = String::new();
    push_decimal(&mut out, whole);
    proof {
        reveal_strlit(".");
        reveal_strlit(" ");
    }
    out.append(".");
    out.append(digit_str(((h / 10) % 10) as u64));
    out.append(digit_str((h % 10) as u64));
    out.append(" ");
    out.append(unit_str(k));
    assert(out@ =~= format_bytes_spec(bytes as nat));
    out
}

} // verus!
