//! Sizes and failures as text for the operator.

use vstd::prelude::*;
use vstd::string::StringExecFns;
use crate::error::FileTransferError;

verus! {

/// The ten decimal digits.
pub open spec fn digits() -> Seq<char> {
    seq!['0', '1', '2', '3', '4', '5', '6', '7', '8', '9']
}

/// The decimal numeral of `n`, without leading zeros.
pub open spec fn decimal(n: nat) -> Seq<char>
    decreases n,
{
    if n < 10 {
        seq![digits()[n as int]]
    } else {
        decimal(n / 10).push(digits()[(n % 10) as int])
    }
}

/// The spacing of the double-precision numbers around `n`: 1 below 2^53,
/// and twice as much with every further bit.
pub open spec fn double_spacing(n: nat) -> nat {
    if n < 0x20_0000_0000_0000 {
        1
    } else if n < 0x40_0000_0000_0000 {
        2
    } else if n < 0x80_0000_0000_0000 {
        4
    } else if n < 0x100_0000_0000_0000 {
        8
    } else if n < 0x200_0000_0000_0000 {
        16
    } else if n < 0x400_0000_0000_0000 {
        32
    } else if n < 0x800_0000_0000_0000 {
        64
    } else if n < 0x1000_0000_0000_0000 {
        128
    } else if n < 0x2000_0000_0000_0000 {
        256
    } else if n < 0x4000_0000_0000_0000 {
        512
    } else if n < 0x8000_0000_0000_0000 {
        1024
    } else {
        2048
    }
}

/// `numerator / denominator`, rounded to the nearest whole number, a tie
/// going to the even one.
pub open spec fn round_half_even(numerator: nat, denominator: nat) -> nat {
    let quotient = numerator / denominator;
    let rest = numerator % denominator;
    if 2 * rest > denominator || (2 * rest == denominator && quotient % 2 == 1) {
        quotient + 1
    } else {
        quotient
    }
}

/// The double-precision number nearest to `n`, a tie going to the one whose
/// last bit is zero. It is a whole number again.
pub open spec fn nearest_double(n: nat) -> nat {
    round_half_even(n, double_spacing(n)) * double_spacing(n)
}

/// The unit a size is shown in: 0 for bytes, then one more for every factor
/// of 1024, up to 4 for terabytes.
pub open spec fn unit_index(size: nat) -> nat {
    if size < 0x400 {
        0
    } else if size < 0x10_0000 {
        1
    } else if size < 0x4000_0000 {
        2
    } else if size < 0x100_0000_0000 {
        3
    } else {
        4
    }
}

/// The number of bytes in one unit.
pub open spec fn unit_scale(unit: nat) -> nat {
    if unit == 0 {
        1
    } else if unit == 1 {
        0x400
    } else if unit == 2 {
        0x10_0000
    } else if unit == 3 {
        0x4000_0000
    } else {
        0x100_0000_0000
    }
}

/// The name of a unit.
pub open spec fn unit_name(unit: nat) -> Seq<char> {
    if unit == 0 {
        seq!['B']
    } else if unit == 1 {
        seq!['K', 'B']
    } else if unit == 2 {
        seq!['M', 'B']
    } else if unit == 3 {
        seq!['G', 'B']
    } else {
        seq!['T', 'B']
    }
}

/// A number of hundredths as a numeral with two decimals.
pub open spec fn two_decimals(hundredths: nat) -> Seq<char> {
    decimal(hundredths / 100) + seq![
        '.',
        digits()[((hundredths / 10) % 10) as int],
        digits()[(hundredths % 10) as int],
    ]
}

/// A size in bytes as text: the size in the largest unit from B to TB that
/// it fills, with two decimals, a space and the unit's name.
///
/// The number shown is the one that double-precision arithmetic yields: the
/// size is rounded to the nearest double first, which changes nothing below
/// 2^53, and the quotient by the unit is then rounded to hundredths, a tie
/// going to the even hundredth.
pub open spec fn size_text(bytes: nat) -> Seq<char> {
    let size = nearest_double(bytes);
    let unit = unit_index(size);
    two_decimals(round_half_even(size * 100, unit_scale(unit))) + seq![' '] + unit_name(unit)
}

/// A decimal digit as a string of its own.
fn digit_text(d: u8) -> (text: &'static str)
    requires
        d < 10,
    ensures
        text@ == seq![digits()[d as int]],
{
    proof {
        reveal_strlit("0");
        reveal_strlit("1");
        reveal_strlit("2");
        reveal_strlit("3");
        reveal_strlit("4");
        reveal_strlit("5");
        reveal_strlit("6");
        reveal_strlit("7");
        reveal_strlit("8");
        reveal_strlit("9");
    }
    match d {
        0 => "0",
        1 => "1",
        2 => "2",
        3 => "3",
        4 => "4",
        5 => "5",
        6 => "6",
        7 => "7",
        8 => "8",
        _ => "9",
    }
}

/// The name of a unit as a string.
fn unit_text(unit: u8) -> (text: &'static str)
    ensures
        text@ == unit_name(unit as nat),
{
    proof {
        reveal_strlit("B");
        reveal_strlit("KB");
        reveal_strlit("MB");
        reveal_strlit("GB");
        reveal_strlit("TB");
    }
    match unit {
        0 => "B",
        1 => "KB",
        2 => "MB",
        3 => "GB",
        _ => "TB",
    }
}

/// Appends the decimal numeral of `n` to `text`.
fn push_decimal(text: &mut String, n: u128)
    ensures
        final(text)@ == old(text)@ + decimal(n as nat),
    decreases n,
{
    if n >= 10 {
        push_decimal(text, n / 10);
    }
    text.append(digit_text((n % 10) as u8));
    assert(text@ =~= old(text)@ + decimal(n as nat));
}

/// `numerator / denominator`, rounded to the nearest whole number, a tie
/// going to the even one.
fn divide_half_even(numerator: u128, denominator: u128) -> (rounded: u128)
    requires
        0 < denominator <= 0x100_0000_0000,
        numerator <= 0x1000_0000_0000_0000_0000,
    ensures
        rounded == round_half_even(numerator as nat, denominator as nat),
{
    let quotient = numerator / denominator;
    let rest = numerator % denominator;
    if 2 * rest > denominator || (2 * rest == denominator && quotient % 2 == 1) {
        quotient + 1
    } else {
        quotient
    }
}

/// The spacing of the double-precision numbers around `n`.
fn spacing_of(n: u64) -> (spacing: u128)
    ensures
        spacing == double_spacing(n as nat),
{
    if n < 0x20_0000_0000_0000 {
        1
    } else if n < 0x40_0000_0000_0000 {
        2
    } else if n < 0x80_0000_0000_0000 {
        4
    } else if n < 0x100_0000_0000_0000 {
        8
    } else if n < 0x200_0000_0000_0000 {
        16
    } else if n < 0x400_0000_0000_0000 {
        32
    } else if n < 0x800_0000_0000_0000 {
        64
    } else if n < 0x1000_0000_0000_0000 {
        128
    } else if n < 0x2000_0000_0000_0000 {
        256
    } else if n < 0x4000_0000_0000_0000 {
        512
    } else if n < 0x8000_0000_0000_0000 {
        1024
    } else {
        2048
    }
}

/// A size in bytes as text, such as `146.48 KB`.
pub fn format_size(bytes: u64) -> (text: String)
    ensures
        text@ == size_text(bytes as nat),
{
    let spacing = spacing_of(bytes);
    let steps = divide_half_even(bytes as u128, spacing);
    assert(steps <= 0x20_0000_0000_0000) by {
        let q = (bytes as nat) / (spacing as nat);
        assert(q < 0x20_0000_0000_0000) by (nonlinear_arith)
            requires
                q == (bytes as nat) / (spacing as nat),
                spacing > 0,
                (bytes as nat) < 0x20_0000_0000_0000 * (spacing as nat),
        ;
    }
    assert(steps * spacing <= 0x1_0000_0000_0000_0000) by (nonlinear_arith)
        requires
            steps <= 0x20_0000_0000_0000,
            spacing <= 2048,
    ;
    let size: u128 = steps * spacing;
    let (unit, scale): (u8, u128) = if size < 0x400 {
        (0, 1)
    } else if size < 0x10_0000 {
        (1, 0x400)
    } else if size < 0x4000_0000 {
        (2, 0x10_0000)
    } else if size < 0x100_0000_0000 {
        (3, 0x4000_0000)
    } else {
        (4, 0x100_0000_0000)
    };
    let hundredths = divide_half_even(size * 100, scale);
    let mut text = String::new();
    push_decimal(&mut text, hundredths / 100);
    proof {
        reveal_strlit(".");
        reveal_strlit(" ");
    }
    text.append(".");
    text.append(digit_text(((hundredths / 10) % 10) as u8));
    text.append(digit_text((hundredths % 10) as u8));
    text.append(" ");
    text.append(unit_text(unit));
    assert(text@ =~= size_text(bytes as nat));
    text
}

/// What the operator is told of a failure.
pub open spec fn error_text(error: FileTransferError) -> Seq<char> {
    match error {
        FileTransferError::FileNotFound => "Error: File not found"@,
        FileTransferError::InvalidPasscode => "Error: Invalid passcode format"@,
        FileTransferError::ConnectionFailed => "Error: Connection failed"@,
        FileTransferError::TransferError => "Error: Transfer failed"@,
        FileTransferError::FileExists => "Error: File already exists at destination"@,
        FileTransferError::Timeout => "Error: Connection timed out"@,
        FileTransferError::IncompleteTransfer(received, expected) =>
            "Error: Incomplete transfer (received "@ + size_text(received as nat) + " of "@
                + size_text(expected as nat) + ")"@,
    }
}

/// What the operator is told of a failure: one line for each kind, and for
/// an incomplete transfer the two byte counts as sizes.
pub fn error_message(error: &FileTransferError) -> (text: String)
    ensures
        text@ == error_text(*error),
{
    match error {
        FileTransferError::FileNotFound => String::from_str("Error: File not found"),
        FileTransferError::InvalidPasscode => String::from_str("Error: Invalid passcode format"),
        FileTransferError::ConnectionFailed => String::from_str("Error: Connection failed"),
        FileTransferError::TransferError => String::from_str("Error: Transfer failed"),
        FileTransferError::FileExists => String::from_str(
            "Error: File already exists at destination",
        ),
        FileTransferError::Timeout => String::from_str("Error: Connection timed out"),
        FileTransferError::IncompleteTransfer(received, expected) => {
            let mut text = String::from_str("Error: Incomplete transfer (received ");
            let received_text = format_size(*received);
            text.append(received_text.as_str());
            text.append(" of ");
            let expected_text = format_size(*expected);
            text.append(expected_text.as_str());
            text.append(")");
            text
        },
    }
}

} // verus!
