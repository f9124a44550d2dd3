//! Conversions between integer widths and byte counts in MiB.
use vstd::prelude::*;

use crate::text::{push_decimal, push_one_fraction_digit, rounded_quotient};

verus! {

/// A byte count in whole KiB, capped at what fits in 32 bits.
pub open spec fn capped_kib(bytes: nat) -> nat {
    if bytes / 1024 <= u32::MAX {
        bytes / 1024
    } else {
        u32::MAX as nat
    }
}

/// A byte count in tenths of a MiB, rounded to the nearest tenth.
pub open spec fn mib_tenths(bytes: nat) -> nat {
    crate::text::round_half_even(capped_kib(bytes) * 10, 1024)
}

/// The text of a byte count in MiB: one fraction digit, left out when it is
/// zero.
pub open spec fn mib_text(bytes: nat) -> Seq<char> {
    if mib_tenths(bytes) % 10 == 0 {
        crate::text::decimal(mib_tenths(bytes) / 10)
    } else {
        crate::text::one_fraction_digit(mib_tenths(bytes))
    }
}

/// Widens image geometry to an index.
pub fn usize_from_u32(value: u32) -> (widened: usize)
    ensures
        widened == value,
{
    value as usize
}

/// Widens a memory size to a byte count.
pub fn u64_from_usize(value: usize) -> (widened: u64)
    ensures
        widened == value,
{
    value as u64
}

/// A byte count in whole KiB, capped at what fits in 32 bits.
pub fn bytes_to_kib(bytes: u64) -> (kib: u32)
    ensures
        kib == capped_kib(bytes as nat),
{
    let kib: u64 = bytes / 1024;
    if kib <= u32::MAX as u64 {
        kib as u32
    } else {
        u32::MAX
    }
}

/// Formats a byte count in MiB with at most one fraction digit.
pub fn format_mib(bytes: u64) -> (formatted: String)
    ensures
        formatted@ == mib_text(bytes as nat),
{
    let kib: u64 = bytes_to_kib(bytes) as u64;
    let tenths: u64 = rounded_quotient(kib * 10, 1024);
    let mut formatted = String::new();
    if tenths % 10 == 0 {
        push_decimal(&mut formatted, tenths / 10);
    } else {
        push_one_fraction_digit(&mut formatted, tenths);
    }
    assert(formatted@ =~= mib_text(bytes as nat));
    formatted
}

/// A byte count is shown in tenths of a MiB to the nearest, of whole KiB, and what
/// exceeds 32 bits of KiB as that many.
pub proof fn tenths_are_the_nearest(bytes: nat)
    ensures
        capped_kib(bytes) <= u32::MAX,
        bytes / 1024 <= u32::MAX ==> capped_kib(bytes) * 1024 <= bytes < capped_kib(bytes) * 1024
            + 1024,
        bytes / 1024 > u32::MAX ==> capped_kib(bytes) == 0xffff_ffff,
        -1024 <= 2 * (mib_tenths(bytes) * 1024 - capped_kib(bytes) * 10) <= 1024,
{
    let kib = capped_kib(bytes);
    let quotient = kib * 10 / 1024;
    let remainder = kib * 10 % 1024;
    assert(kib * 10 == quotient * 1024 + remainder);
}

/// The fraction digit of a byte count is shown exactly where it is not zero.
pub proof fn whole_mib_have_no_fraction(bytes: nat)
    ensures
        mib_tenths(bytes) % 10 == 0 ==> mib_text(bytes) == crate::text::decimal(
            mib_tenths(bytes) / 10,
        ),
        mib_tenths(bytes) % 10 != 0 ==> mib_text(bytes) == crate::text::decimal(
            mib_tenths(bytes) / 10,
        ).push('.').push(crate::text::digit_char(mib_tenths(bytes) % 10)),
{
}

} // verus!
