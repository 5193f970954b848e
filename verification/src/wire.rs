//! Byte-level building blocks of the record layout: fixed-width
//! little-endian numbers and two's complement.

use vstd::prelude::*;

verus! {

/// `256` raised to the power `width`.
pub open spec fn radix_pow(width: nat) -> nat
    decreases width,
{
    if width == 0 {
        1
    } else {
        256 * radix_pow((width - 1) as nat)
    }
}

/// The `width` low-order base-256 digits of `value`, least significant first.
pub open spec fn le_digits(value: nat, width: nat) -> Seq<u8>
    decreases width,
{
    if width == 0 {
        Seq::empty()
    } else {
        seq![(value % 256) as u8] + le_digits(value / 256, (width - 1) as nat)
    }
}

/// The number whose base-256 digits are `digits`, least significant first.
pub open spec fn le_number(digits: Seq<u8>) -> nat
    decreases digits.len(),
{
    if digits.len() == 0 {
        0
    } else {
        digits[0] as nat + 256 * le_number(digits.drop_first())
    }
}

/// A signed 64-bit number as the unsigned number with the same bit pattern.
pub open spec fn twos_complement(value: int) -> nat {
    if value >= 0 {
        value as nat
    } else {
        (value + 0x1_0000_0000_0000_0000) as nat
    }
}

/// The signed number whose 64-bit pattern is `bits`.
pub open spec fn from_twos_complement(bits: nat) -> int {
    if bits < 0x8000_0000_0000_0000 {
        bits as int
    } else {
        bits - 0x1_0000_0000_0000_0000
    }
}

/// `width` digits are `width` bytes.
pub proof fn lemma_le_digits_len(value: nat, width: nat)
    ensures
        le_digits(value, width).len() == width,
    decreases width,
{
    if width > 0 {
        lemma_le_digits_len(value / 256, (width - 1) as nat);
    }
}

/// The number that `n` digits stand for is below the `n`th power of 256.
pub proof fn lemma_le_number_bound(digits: Seq<u8>)
    ensures
        le_number(digits) < radix_pow(digits.len()),
    decreases digits.len(),
{
    if digits.len() > 0 {
        lemma_le_number_bound(digits.drop_first());
    }
}

/// Reading back the digits of a number that fits in `width` digits gives
/// the number.
pub proof fn lemma_le_number_of_digits(value: nat, width: nat)
    requires
        value < radix_pow(width),
    ensures
        le_number(le_digits(value, width)) == value,
    decreases width,
{
    if width > 0 {
        let rest = le_digits(value / 256, (width - 1) as nat);
        let digits = le_digits(value, width);
        assert(digits.drop_first() =~= rest);
        lemma_le_number_of_digits(value / 256, (width - 1) as nat);
    }
}

/// A higher power of 256 is no smaller, and none is zero.
pub proof fn lemma_radix_pow_monotonic(low: nat, high: nat)
    requires
        low <= high,
    ensures
        radix_pow(low) <= radix_pow(high),
        radix_pow(low) >= 1,
    decreases high,
{
    if low < high {
        lemma_radix_pow_monotonic(low, (high - 1) as nat);
    } else if low > 0 {
        lemma_radix_pow_monotonic((low - 1) as nat, (low - 1) as nat);
    }
}

/// Appends the `width` low-order bytes of `value`, least significant first.
pub(crate) fn put_le(out: &mut Vec<u8>, value: u64, width: usize)
    ensures
        final(out)@ == old(out)@ + le_digits(value as nat, width as nat),
{
    let mut rest: u64 = value;
    let mut done: usize = 0;
    while done < width
        invariant
            done <= width,
            old(out)@ + le_digits(value as nat, width as nat) == out@ + le_digits(
                rest as nat,
                (width - done) as nat,
            ),
        decreases width - done,
    {
        let ghost before = out@;
        out.push((rest % 256) as u8);
        proof {
            let tail = le_digits((rest / 256) as nat, (width - done - 1) as nat);
            assert(before + le_digits(rest as nat, (width - done) as nat) =~= out@ + tail);
        }
        rest = rest / 256;
        done = done + 1;
    }
}

/// Reads the number that `width` bytes of `bytes` from `start` on stand
/// for, least significant first.
pub(crate) fn get_le(bytes: &[u8], start: usize, width: usize) -> (value: u64)
    requires
        width <= 8,
        start + width <= bytes@.len(),
    ensures
        value as nat == le_number(bytes@.subrange(start as int, start + width)),
{
    let total: usize = bytes.len();
    let mut value: u64 = 0;
    let mut left: usize = width;
    proof {
        assert(bytes@.subrange(start + width, start + width).len() == 0);
    }
    while left > 0
        invariant
            left <= width <= 8,
            start + width <= bytes@.len() == total,
            value as nat == le_number(bytes@.subrange(start + left, start + width)),
        decreases left,
    {
        left = left - 1;
        let digit: u8 = bytes[start + left];
        proof {
            let higher = bytes@.subrange(start + left + 1, start + width);
            let span = bytes@.subrange(start + left, start + width);
            assert(span.drop_first() =~= higher);
            assert(span[0] == digit);
            lemma_le_number_bound(span);
            reveal_with_fuel(radix_pow, 9);
            assert(radix_pow(span.len()) <= radix_pow(8)) by {
                lemma_radix_pow_monotonic(span.len(), 8);
            }
        }
        value = value * 256 + digit as u64;
    }
    value
}

/// The unsigned number with the bit pattern of `value`.
pub(crate) fn to_twos_complement(value: i64) -> (bits: u64)
    ensures
        bits as nat == twos_complement(value as int),
{
    if value >= 0 {
        value as u64
    } else {
        let lifted: u64 = (value - i64::MIN) as u64;
        lifted + 0x8000_0000_0000_0000u64
    }
}

/// The signed number with the bit pattern of `bits`.
pub(crate) fn of_twos_complement(bits: u64) -> (value: i64)
    ensures
        value as int == from_twos_complement(bits as nat),
{
    if bits < 0x8000_0000_0000_0000u64 {
        bits as i64
    } else {
        let lowered: i64 = (bits - 0x8000_0000_0000_0000u64) as i64;
        lowered + i64::MIN
    }
}

/// Tells whether two byte strings are the same.
pub(crate) fn same_bytes(left: &[u8], right: &[u8]) -> (same: bool)
    ensures
        same == (left@ == right@),
{
    if left.len() != right.len() {
        return false;
    }
    let mut at: usize = 0;
    while at < left.len()
        invariant
            at <= left@.len() == right@.len(),
            left@.subrange(0, at as int) == right@.subrange(0, at as int),
        decreases left@.len() - at,
    {
        if left[at] != right[at] {
            return false;
        }
        proof {
            assert(left@.subrange(0, at + 1) =~= left@.subrange(0, at as int).push(left@[at as int]));
            assert(right@.subrange(0, at + 1) =~= right@.subrange(0, at as int).push(
                right@[at as int],
            ));
        }
        at = at + 1;
    }
    proof {
        assert(left@ =~= left@.subrange(0, at as int));
        assert(right@ =~= right@.subrange(0, at as int));
    }
    true
}

/// Copies the thirty-two bytes of `data` that start at `start`.
pub(crate) fn array_of(data: &[u8], start: usize) -> (copy: [u8; 32])
    requires
        start + 32 <= data@.len(),
    ensures
        copy@ == data@.subrange(start as int, start + 32),
{
    let total: usize = data.len();
    let mut copy: [u8; 32] = [0u8; 32];
    let mut at: usize = 0;
    while at < 32
        invariant
            at <= 32,
            start + 32 <= data@.len() == total,
            forall|k: int| 0 <= k < at ==> copy@[k] == data@[start + k],
        decreases 32 - at,
    {
        copy[at] = data[start + at];
        at = at + 1;
    }
    proof {
        assert(copy@ =~= data@.subrange(start as int, start + 32));
    }
    copy
}

} // verus!
