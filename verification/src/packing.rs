//! The mathematical model of a packed code.
//!
//! A sequence is read as a number in base 8 whose digits are the codes of its
//! symbols, the first symbol being the most significant digit.

use vstd::prelude::*;
use vstd::arithmetic::div_mod::lemma_div_denominator;
use crate::alphabet::symbol_code;

verus! {

/// The longest sequence whose code fits in 64 bits.
pub const MAX_SYMBOLS: usize = 21;

/// Whether a sequence of `len` symbols can be packed.
pub open spec fn valid_length(len: nat) -> bool {
    1 <= len <= MAX_SYMBOLS
}

/// The number of distinct bit patterns of `len` three-bit groups: 8 to the power `len`.
pub open spec fn capacity(len: nat) -> nat
    decreases len,
{
    if len == 0 {
        1
    } else {
        8 * capacity((len - 1) as nat)
    }
}

/// The value of `symbols` read as base-8 digits, first symbol most significant.
pub open spec fn packed(symbols: Seq<u8>) -> nat
    decreases symbols.len(),
{
    if symbols.len() == 0 {
        0
    } else {
        8 * packed(symbols.drop_last()) + symbol_code(symbols.last()) as nat
    }
}

/// The three-bit group of `code` that is `index` groups above the lowest one.
pub open spec fn group(code: nat, index: nat) -> nat {
    (code / capacity(index)) % 8
}

/// `capacity` grows with the length.
pub proof fn lemma_capacity_monotonic(shorter: nat, longer: nat)
    requires
        shorter <= longer,
    ensures
        0 < capacity(shorter) <= capacity(longer),
    decreases longer,
{
    if longer == 0 {
    } else if shorter == longer {
        lemma_capacity_monotonic((shorter - 1) as nat, (longer - 1) as nat);
    } else {
        lemma_capacity_monotonic(shorter, (longer - 1) as nat);
    }
}

/// Twenty groups fill 60 bits and twenty-one fill 63.
pub proof fn lemma_capacity_values()
    ensures
        capacity(20) == 0x1000_0000_0000_0000,
        capacity(21) == 0x8000_0000_0000_0000,
{
    reveal_with_fuel(capacity, 22);
}

/// A packed sequence occupies no more than three bits per symbol.
pub proof fn lemma_packed_bound(symbols: Seq<u8>)
    ensures
        packed(symbols) < capacity(symbols.len()),
    decreases symbols.len(),
{
    if symbols.len() > 0 {
        lemma_packed_bound(symbols.drop_last());
    }
}

/// The code of a sequence of valid length fits in 63 bits.
pub proof fn lemma_packed_fits(symbols: Seq<u8>)
    requires
        symbols.len() <= MAX_SYMBOLS,
    ensures
        packed(symbols) < 0x8000_0000_0000_0000,
{
    lemma_packed_bound(symbols);
    lemma_capacity_monotonic(symbols.len(), 21);
    lemma_capacity_values();
}

/// Appending one symbol shifts the code up by one group and puts the new
/// symbol's code in the lowest group.
pub proof fn lemma_packed_push(symbols: Seq<u8>, symbol: u8)
    ensures
        packed(symbols.push(symbol)) == 8 * packed(symbols) + symbol_code(symbol),
{
    assert(symbols.push(symbol).drop_last() =~= symbols);
}

/// A single symbol packs to its own code.
pub proof fn lemma_packed_single(symbol: u8)
    ensures
        packed(seq![symbol]) == symbol_code(symbol),
{
    assert(seq![symbol].drop_last() =~= Seq::<u8>::empty());
    assert(packed(Seq::<u8>::empty()) == 0);
}

/// Bit placement: the symbol at `index` fills the group that lies as many
/// groups above the lowest one as there are symbols after it, so the first
/// symbol fills the highest occupied group and the last symbol the lowest.
pub proof fn lemma_group_holds_symbol(symbols: Seq<u8>, index: int)
    requires
        0 <= index < symbols.len(),
    ensures
        group(packed(symbols), (symbols.len() - 1 - index) as nat) == symbol_code(symbols[index]),
    decreases symbols.len(),
{
    let front = symbols.drop_last();
    let whole = packed(symbols) as int;
    if index == symbols.len() - 1 {
        assert(capacity(0) == 1);
    } else {
        let above = (front.len() - 1 - index) as nat;
        let unit = capacity(above) as int;
        lemma_group_holds_symbol(front, index);
        lemma_capacity_monotonic(0, above);
        lemma_div_denominator(whole, 8, unit);
        assert(whole / 8 == packed(front));
        assert(capacity(above + 1) == 8 * unit);
    }
}

/// Two sequences of one length with one code carry the same code at every
/// position: the packing loses nothing but the distinction between symbols
/// that share a code.
pub proof fn lemma_packed_injective_on_codes(first: Seq<u8>, second: Seq<u8>, index: int)
    requires
        first.len() == second.len(),
        packed(first) == packed(second),
        0 <= index < first.len(),
    ensures
        symbol_code(first[index]) == symbol_code(second[index]),
{
    lemma_group_holds_symbol(first, index);
    lemma_group_holds_symbol(second, index);
}

/// 8 to the power `len` is a single bit at position `3 * len`.
pub proof fn lemma_capacity_is_shift(len: u64)
    requires
        len <= MAX_SYMBOLS,
    ensures
        capacity(len as nat) == 1u64 << ((3 * len) as u64),
    decreases len,
{
    if len == 0 {
        assert(1u64 << 0u64 == 1) by (bit_vector);
    } else {
        let shorter = (len - 1) as u64;
        lemma_capacity_is_shift(shorter);
        assert(1u64 << ((3 * len) as u64) == 8 * (1u64 << ((3 * shorter) as u64))) by (bit_vector)
            requires
                0 < len <= 21,
                shorter == len - 1,
        ;
    }
}

/// A group of a 64-bit code is read by a shift and a mask: the group that
/// is `index` groups above the lowest one lies in bits `3 * index` to
/// `3 * index + 2`.
pub proof fn lemma_group_is_shift_and_mask(code: u64, index: u64)
    requires
        index < MAX_SYMBOLS,
    ensures
        group(code as nat, index as nat) == (code >> ((3 * index) as u64)) & 7,
    decreases index,
{
    if index == 0 {
        assert(capacity(0) == 1);
        assert(code % 8 == (code >> 0u64) & 7) by (bit_vector);
    } else {
        let below = (index - 1) as u64;
        let rest = code >> 3u64;
        lemma_group_is_shift_and_mask(rest, below);
        lemma_capacity_monotonic(0, below as nat);
        lemma_div_denominator(code as int, 8, capacity(below as nat) as int);
        assert(capacity(index as nat) == 8 * capacity(below as nat));
        assert(rest == code / 8 && rest >> ((3 * below) as u64) == code >> ((3 * index) as u64))
            by (bit_vector)
            requires
                0 < index < 21,
                below == index - 1,
                rest == code >> 3u64,
        ;
    }
}

/// Bit placement in the 64-bit code: the code of the symbol at `index` is
/// read from the packed sequence by shifting out the three bits of every
/// later symbol and masking the lowest three bits.
pub proof fn lemma_symbol_position(symbols: Seq<u8>, index: int)
    requires
        valid_length(symbols.len()),
        0 <= index < symbols.len(),
    ensures
        (packed(symbols) as u64 >> ((3 * (symbols.len() - 1 - index)) as u64)) & 7 == symbol_code(
            symbols[index],
        ),
{
    lemma_packed_fits(symbols);
    lemma_group_holds_symbol(symbols, index);
    lemma_group_is_shift_and_mask(packed(symbols) as u64, (symbols.len() - 1 - index) as u64);
}

} // verus!
