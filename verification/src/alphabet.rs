//! The symbol alphabet and its fixed three-bit code table.
//!
//! The table is total over all 256 byte values: the four bases have their own
//! codes in either letter case, and every other byte shares the code of `N`.
//! Complementary bases have codes that sum to 7, and each base code reads the
//! same from either end of its three bits.

use vstd::prelude::*;

verus! {

/// Code of `A` and `a`.
pub const CODE_A: u64 = 7;

/// Code of `C` and `c`.
pub const CODE_C: u64 = 5;

/// Code of `G` and `g`.
pub const CODE_G: u64 = 2;

/// Code of `T` and `t`.
pub const CODE_T: u64 = 0;

/// Code of `N`, `n` and of every byte that is not a base.
pub const CODE_N: u64 = 1;

/// The code table as a mathematical function from bytes to three-bit codes.
pub open spec fn symbol_code(symbol: u8) -> u64 {
    if symbol == 65 || symbol == 97 {
        CODE_A
    } else if symbol == 67 || symbol == 99 {
        CODE_C
    } else if symbol == 71 || symbol == 103 {
        CODE_G
    } else if symbol == 84 || symbol == 116 {
        CODE_T
    } else {
        CODE_N
    }
}

/// Whether `symbol` is one of the four bases, in either letter case.
pub open spec fn is_base(symbol: u8) -> bool {
    symbol == 65 || symbol == 97 || symbol == 67 || symbol == 99 || symbol == 71 || symbol == 103
        || symbol == 84 || symbol == 116
}

/// The complementary base (`A` with `T`, `C` with `G`), in upper case.
/// A byte that is not a base is its own complement.
pub open spec fn complement(symbol: u8) -> u8 {
    if symbol == 65 || symbol == 97 {
        84
    } else if symbol == 84 || symbol == 116 {
        65
    } else if symbol == 67 || symbol == 99 {
        71
    } else if symbol == 71 || symbol == 103 {
        67
    } else {
        symbol
    }
}

/// Looks a byte up in the code table.
pub fn code_of(symbol: u8) -> (code: u64)
    ensures
        code == symbol_code(symbol),
        code < 8,
{
    match symbol {
        65 | 97 => CODE_A,
        67 | 99 => CODE_C,
        71 | 103 => CODE_G,
        84 | 116 => CODE_T,
        _ => CODE_N,
    }
}

/// Every code of the table fits in three bits.
pub proof fn lemma_code_is_three_bits(symbol: u8)
    ensures
        symbol_code(symbol) < 8,
{
}

/// The codes of a base and of its complement sum to 7.
pub proof fn lemma_complement_codes_sum_to_seven(symbol: u8)
    requires
        is_base(symbol),
    ensures
        is_base(complement(symbol)),
        symbol_code(symbol) + symbol_code(complement(symbol)) == 7,
        symbol_code(complement(complement(symbol))) == symbol_code(symbol),
{
}

} // verus!
