//! Reverse complements of packed codes and the canonical, strand-independent code.

use vstd::prelude::*;
use crate::bits::{bit, lemma_mirror_unique, mirror};
use crate::packing::{capacity, lemma_capacity_is_shift, valid_length};

verus! {

/// The reverse complement of a code of `k` symbols: every bit inverted, the
/// bit order reversed, and the result moved down so that it occupies the
/// `3 * k` lowest bits again.
pub open spec fn reverse_complement_code(code: u64, k: u64) -> u64 {
    mirror(!code) >> ((64 - 3 * k) as u64)
}

/// The smaller of a code and its reverse complement.
pub open spec fn canonical_code(code: u64, k: u64) -> u64 {
    let reverse = reverse_complement_code(code, k);
    if reverse < code {
        reverse
    } else {
        code
    }
}

/// `u64::reverse_bits` of the standard library. Its documentation says that
/// the lowest bit becomes the highest, the second lowest the second highest,
/// and so on: the contract states exactly that, as the bit of the result at
/// `high` being the bit of the argument at `low` whenever `low + high == 63`.
#[verifier::external_body]
fn reverse_word(word: u64) -> (image: u64)
    ensures
        forall|low: u64, high: u64|
            low + high == 63 ==> #[trigger] bit(image, high) == #[trigger] bit(word, low),
{
    word.reverse_bits()
}

/// Reverses the order of the 64 bits of `word`.
fn reversed(word: u64) -> (image: u64)
    ensures
        image == mirror(word),
{
    let image = reverse_word(word);
    proof {
        lemma_mirror_unique(word, image);
    }
    image
}

/// The code of the reverse complement of the `k` symbols packed in `code`.
///
/// For a code of bases alone this is exactly the code of the sequence read
/// backwards with every base replaced by its complement
/// ([`crate::strand::lemma_reverse_complement_of_bases`]). A group that
/// holds the code of `N` becomes a group that is the code of no symbol.
pub fn reverse_complement(code: u64, k: usize) -> (reverse: u64)
    requires
        valid_length(k as nat),
    ensures
        reverse == reverse_complement_code(code, k as u64),
{
    let unused: u64 = 64 - 3 * (k as u64);
    reversed(!code) >> unused
}

/// The canonical representative of a code of `k` symbols: the numerically
/// smaller of the code and its reverse complement.
pub fn canonical(code: u64, k: usize) -> (representative: u64)
    requires
        valid_length(k as nat),
    ensures
        representative == canonical_code(code, k as u64),
        representative <= code,
        representative == code || representative == reverse_complement_code(code, k as u64),
{
    let reverse = reverse_complement(code, k);
    if reverse < code {
        reverse
    } else {
        code
    }
}

/// Taking the reverse complement twice gives the code back.
pub proof fn lemma_reverse_complement_involution(code: u64, k: u64)
    requires
        valid_length(k as nat),
        code < capacity(k as nat),
    ensures
        reverse_complement_code(code, k) < capacity(k as nat),
        reverse_complement_code(reverse_complement_code(code, k), k) == code,
{
    lemma_capacity_is_shift(k);
    assert(reverse_complement_code(code, k) < 1u64 << ((3 * k) as u64)
        && reverse_complement_code(reverse_complement_code(code, k), k) == code) by (bit_vector)
        requires
            1 <= k <= 21,
            code < 1u64 << ((3 * k) as u64),
    ;
}

/// A code and its reverse complement have the same canonical representative.
pub proof fn lemma_canonical_strand_independent(code: u64, k: u64)
    requires
        valid_length(k as nat),
        code < capacity(k as nat),
    ensures
        canonical_code(reverse_complement_code(code, k), k) == canonical_code(code, k),
{
    lemma_reverse_complement_involution(code, k);
}

/// Canonical selection is idempotent: a canonical code is its own
/// canonical representative.
pub proof fn lemma_canonical_idempotent(code: u64, k: u64)
    requires
        valid_length(k as nat),
        code < capacity(k as nat),
    ensures
        canonical_code(canonical_code(code, k), k) == canonical_code(code, k),
{
    lemma_reverse_complement_involution(code, k);
}

} // verus!
