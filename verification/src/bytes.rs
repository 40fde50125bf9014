//! Sizes in bytes, as text.

use crate::text::{self, decimal, digit};
use vstd::prelude::*;
use vstd::string::*;

verus! {

/// The quotient rounded to the nearest whole number, a tie to the even one.
pub open spec fn rounded(value: nat, divisor: nat) -> nat {
    let quotient = value / divisor;
    let rest = value % divisor;
    if 2 * rest < divisor || (2 * rest == divisor && quotient % 2 == 0) {
        quotient
    } else {
        quotient + 1
    }
}

/// The distance between neighbouring numbers of 53 significant bits around `value`.
pub open spec fn spacing(value: nat) -> nat
    decreases value,
{
    if value < 0x20_0000_0000_0000 {
        1
    } else {
        2 * spacing(value / 2)
    }
}

/// The nearest number of 53 significant bits, a tie to the one with an even significand.
pub open spec fn double(value: nat) -> nat {
    rounded(value, spacing(value)) * spacing(value)
}

/// The largest unit, as a power of 1024 up to the fourth, that a size reaches.
pub open spec fn unit(bytes: nat) -> nat {
    if bytes < 0x400 {
        0
    } else if bytes < 0x10_0000 {
        1
    } else if bytes < 0x4000_0000 {
        2
    } else if bytes < 0x100_0000_0000 {
        3
    } else {
        4
    }
}

/// The number of bytes in a unit.
pub open spec fn unit_size(unit: nat) -> nat {
    if unit == 0 {
        1
    } else if unit == 1 {
        0x400
    } else if unit == 2 {
        0x10_0000
    } else if unit == 3 {
        0x4000_0000
    } else {
        0x100_0000_0000
    }
}

pub open spec fn unit_name(unit: nat) -> Seq<char> {
    if unit == 0 {
        "B"@
    } else if unit == 1 {
        "KiB"@
    } else if unit == 2 {
        "MiB"@
    } else if unit == 3 {
        "GiB"@
    } else {
        "TiB"@
    }
}

/// The size in hundredths of its unit.
pub open spec fn hundredths(bytes: nat) -> nat {
    rounded(100 * double(bytes), unit_size(unit(bytes)))
}

/// A size with two decimals and its unit.
pub open spec fn size_text(bytes: nat) -> Seq<char> {
    decimal(hundredths(bytes) / 100) + "."@ + seq![digit(hundredths(bytes) / 10 % 10), digit(hundredths(bytes) % 10)]
        + " "@ + unit_name(unit(bytes))
}

/// The spacing at most doubles once for each bit beyond the 53rd.
proof fn lemma_spacing(value: nat)
    requires
        value <= u64::MAX,
    ensures
        spacing(value) >= 1,
        spacing(value) <= 0x800,
        value < 0x20_0000_0000_0000 ==> spacing(value) == 1,
    decreases value,
{
    reveal_with_fuel(spacing, 13);
}

fn spacing_of(value: u64) -> (result: u64)
    ensures
        result == spacing(value as nat),
        1 <= result <= 0x800,
    decreases value,
{
    proof {
        lemma_spacing(value as nat);
    }
    if value < 0x20_0000_0000_0000 {
        1
    } else {
        let half: u64 = spacing_of(value / 2);
        2 * half
    }
}

fn rounded_quotient(value: u128, divisor: u128) -> (result: u128)
    requires
        0 < divisor <= 0x100_0000_0000,
        value <= 0x1_0000_0000_0000_0000_0000,
    ensures
        result == rounded(value as nat, divisor as nat),
        result <= value + 1,
{
    let quotient: u128 = value / divisor;
    let rest: u128 = value % divisor;
    proof {
        assert(quotient <= value) by (nonlinear_arith)
            requires
                quotient == value / divisor,
                divisor > 0,
        ;
        assert(0 <= rest < divisor) by (nonlinear_arith)
            requires
                rest == value % divisor,
                divisor > 0,
        ;
    }
    if 2 * rest < divisor || (2 * rest == divisor && quotient % 2 == 0) {
        quotient
    } else {
        quotient + 1
    }
}

/// A rounded size is at most one step above the size.
proof fn lemma_double_bound(value: nat)
    requires
        value <= u64::MAX,
    ensures
        double(value) <= value + 0x800,
{
    lemma_spacing(value);
    let step = spacing(value);
    let quotient = value / step;
    assert(quotient * step <= value && (quotient + 1) * step <= value + step) by (nonlinear_arith)
        requires
            quotient == value / step,
            step > 0,
    ;
    let times = rounded(value, step);
    assert(times * step <= value + step) by (nonlinear_arith)
        requires
            times == quotient || times == quotient + 1,
            quotient * step <= value,
            (quotient + 1) * step <= value + step,
            step > 0,
    ;
}

/// A size with two decimals, in the largest unit from bytes to tebibytes that it reaches.
pub fn format_bytes(bytes: u64) -> (size: String)
    ensures
        size@ == size_text(bytes as nat),
{
    let step: u64 = spacing_of(bytes);
    let times: u128 = rounded_quotient(bytes as u128, step as u128);
    proof {
        lemma_double_bound(bytes as nat);
    }
    let value: u128 = times * (step as u128);
    let (size, name): (u128, &str) = if bytes < 0x400 {
        (1, "B")
    } else if bytes < 0x10_0000 {
        (0x400, "KiB")
    } else if bytes < 0x4000_0000 {
        (0x10_0000, "MiB")
    } else if bytes < 0x100_0000_0000 {
        (0x4000_0000, "GiB")
    } else {
        (0x100_0000_0000, "TiB")
    };
    let hundredths_value: u128 = rounded_quotient(100 * value, size);
    proof {
        lemma_whole_units(bytes as nat);
    }
    let whole: u64 = (hundredths_value / 100) as u64;
    let mut size_string = text::number(whole).concat(".");
    let tenths: u64 = (hundredths_value / 10 % 10) as u64;
    let last: u64 = (hundredths_value % 10) as u64;
    let ghost start = size_string@;
    let fraction = text::number(tenths).concat(text::number(last).as_str());
    proof {
        assert(fraction@ =~= seq![
            digit(hundredths(bytes as nat) / 10 % 10),
            digit(hundredths(bytes as nat) % 10),
        ]);
    }
    size_string.append(fraction.as_str());
    size_string.append(" ");
    size_string.append(name);
    size_string
}

/// The hundredths of a size fit in 64 bits.
proof fn lemma_whole_units(bytes: nat)
    requires
        bytes <= u64::MAX,
    ensures
        hundredths(bytes) <= u64::MAX,
{
    lemma_spacing(bytes);
    lemma_double_bound(bytes);
    let size = unit_size(unit(bytes));
    let value = 100 * double(bytes);
    let quotient = value / size;
    if unit(bytes) == 0 {
        assert(value / 1 == value);
    } else if unit(bytes) == 1 {
        assert(value / 0x400 <= value);
    } else if unit(bytes) == 2 {
        assert(value / 0x10_0000 <= value);
    } else if unit(bytes) == 3 {
        assert(value / 0x4000_0000 <= value);
    } else {
        assert(value / 0x100_0000_0000 <= 0x1_0000_0000_0000);
    }
}

/// A size below one kibibyte is shown as the number of bytes, without loss.
pub proof fn lemma_small_sizes_are_exact(bytes: nat)
    requires
        bytes < 0x400,
    ensures
        hundredths(bytes) == 100 * bytes,
{
    lemma_spacing(bytes);
    assert(rounded(bytes, 1) == bytes);
    assert(rounded(100 * bytes, 1) == 100 * bytes);
}

} // verus!
