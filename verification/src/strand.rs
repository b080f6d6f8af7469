//! The reverse complement of a sequence, and its agreement with the
//! reverse complement of packed codes.

use vstd::prelude::*;
use crate::alphabet::{complement, is_base, symbol_code};
use crate::canonical::{
    canonical_code, lemma_canonical_idempotent, lemma_canonical_strand_independent,
    reverse_complement_code,
};
use crate::packing::{
    capacity, lemma_capacity_is_shift, lemma_packed_bound, lemma_packed_fits,
    lemma_packed_single, packed, valid_length,
};

verus! {

/// Whether every symbol of the sequence is one of the four bases.
pub open spec fn all_bases(symbols: Seq<u8>) -> bool {
    forall|i: int| 0 <= i < symbols.len() ==> is_base(#[trigger] symbols[i])
}

/// The sequence read from its last symbol to its first, every symbol
/// replaced by its complement: what the opposite strand reads.
pub open spec fn reverse_complement_of(symbols: Seq<u8>) -> Seq<u8> {
    Seq::new(symbols.len(), |i: int| complement(symbols[symbols.len() - 1 - i]))
}

/// A symbol put in front of a sequence lands in the group above all of the
/// sequence's groups.
pub proof fn lemma_packed_prepend(symbol: u8, symbols: Seq<u8>)
    ensures
        packed(seq![symbol] + symbols) == symbol_code(symbol) * capacity(symbols.len())
            + packed(symbols),
    decreases symbols.len(),
{
    let whole = seq![symbol] + symbols;
    let code = symbol_code(symbol) as int;
    if symbols.len() == 0 {
        assert(whole =~= seq![symbol]);
        lemma_packed_single(symbol);
        assert(capacity(0) == 1);
        assert(code * 1 == code) by (nonlinear_arith);
    } else {
        let front = symbols.drop_last();
        assert(whole.drop_last() =~= seq![symbol] + front);
        assert(whole.last() == symbols.last());
        lemma_packed_prepend(symbol, front);
        let below = capacity(front.len()) as int;
        assert(capacity(symbols.len()) == 8 * below);
        assert(packed(whole) == 8 * packed(whole.drop_last()) + symbol_code(whole.last()));
        assert(packed(symbols) == 8 * packed(front) + symbol_code(symbols.last()));
        assert(8 * (code * below) == code * (8 * below)) by (nonlinear_arith);
    }
}

/// On a code whose lowest group holds a base, the reverse complement moves
/// the complement of that base to the highest group and leaves below it the
/// reverse complement of the groups above.
proof fn lemma_reverse_complement_step(front: u64, code: u64, k: u64)
    by (bit_vector)
    requires
        1 <= k <= 20,
        front < 1u64 << ((3 * k) as u64),
        code == 0 || code == 2 || code == 5 || code == 7,
    ensures
        reverse_complement_code((8 * front + code) as u64, (k + 1) as u64) == (7 - code) * (1u64 << (
        (3 * k) as u64)) + reverse_complement_code(front, k),
{
}

/// The reverse complement of a one-symbol code of a base is the code of the
/// complementary base.
proof fn lemma_reverse_complement_single(code: u64)
    by (bit_vector)
    requires
        code == 0 || code == 2 || code == 5 || code == 7,
    ensures
        reverse_complement_code(code, 1) == 7 - code,
{
}

/// Reverse-complement correctness: for a sequence of bases alone, the
/// reverse complement of its code is the code of its reverse complement.
pub proof fn lemma_reverse_complement_of_bases(symbols: Seq<u8>)
    requires
        valid_length(symbols.len()),
        all_bases(symbols),
    ensures
        reverse_complement_code(packed(symbols) as u64, symbols.len() as u64) == packed(
            reverse_complement_of(symbols),
        ),
    decreases symbols.len(),
{
    let last = symbols.last();
    let code = symbol_code(last);
    assert(is_base(symbols[symbols.len() - 1]));
    if symbols.len() == 1 {
        assert(symbols =~= seq![last]);
        assert(reverse_complement_of(symbols) =~= seq![complement(last)]);
        lemma_packed_single(last);
        lemma_packed_single(complement(last));
        lemma_reverse_complement_single(code);
    } else {
        let front = symbols.drop_last();
        let k = front.len() as u64;
        assert forall|i: int| 0 <= i < front.len() implies is_base(#[trigger] front[i]) by {
            assert(front[i] == symbols[i]);
        }
        lemma_reverse_complement_of_bases(front);
        lemma_packed_bound(front);
        lemma_capacity_is_shift(k);
        lemma_reverse_complement_step(packed(front) as u64, code, k);
        assert(reverse_complement_of(symbols) =~= seq![complement(last)] + reverse_complement_of(
            front,
        ));
        lemma_packed_prepend(complement(last), reverse_complement_of(front));
    }
}

/// Strand independence: a sequence of bases and its reverse complement have
/// the same canonical code.
pub proof fn lemma_canonical_of_either_strand(symbols: Seq<u8>)
    requires
        valid_length(symbols.len()),
        all_bases(symbols),
    ensures
        canonical_code(packed(reverse_complement_of(symbols)) as u64, symbols.len() as u64)
            == canonical_code(packed(symbols) as u64, symbols.len() as u64),
{
    lemma_reverse_complement_of_bases(symbols);
    lemma_packed_bound(symbols);
    lemma_canonical_strand_independent(packed(symbols) as u64, symbols.len() as u64);
}

/// The canonical code of any encodable sequence is its own canonical code.
pub proof fn lemma_canonical_idempotent_on_sequences(symbols: Seq<u8>)
    requires
        valid_length(symbols.len()),
    ensures
        canonical_code(
            canonical_code(packed(symbols) as u64, symbols.len() as u64),
            symbols.len() as u64,
        ) == canonical_code(packed(symbols) as u64, symbols.len() as u64),
{
    lemma_packed_bound(symbols);
    lemma_packed_fits(symbols);
    lemma_canonical_idempotent(packed(symbols) as u64, symbols.len() as u64);
}

} // verus!
