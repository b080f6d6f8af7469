//! Bit-level facts about 64-bit words: single bits and the mirror image of a word.

use vstd::prelude::*;

verus! {

/// Whether the bit of `word` at position `index` (0 is the lowest) is set.
pub open spec fn bit(word: u64, index: u64) -> bool {
    (word >> index) & 1 == 1
}

/// `word` with every pair of neighbouring blocks of `width` bits exchanged;
/// `mask` selects the lower block of each pair.
pub open spec fn swap_blocks(word: u64, width: u64, mask: u64) -> u64 {
    ((word >> width) & mask) | ((word & mask) << width)
}

/// The mirror image of `word`: its 64 bits in the opposite order.
///
/// Exchanging neighbouring bits, then pairs, nibbles, bytes, 16-bit and
/// 32-bit halves sends bit `i` to position `63 - i`, as
/// [`lemma_mirror_bit`] shows; [`lemma_mirror_unique`] shows that the
/// mirror image is the only such word.
pub open spec fn mirror(word: u64) -> u64 {
    let by1 = swap_blocks(word, 1, 0x5555_5555_5555_5555);
    let by2 = swap_blocks(by1, 2, 0x3333_3333_3333_3333);
    let by4 = swap_blocks(by2, 4, 0x0f0f_0f0f_0f0f_0f0f);
    let by8 = swap_blocks(by4, 8, 0x00ff_00ff_00ff_00ff);
    let by16 = swap_blocks(by8, 16, 0x0000_ffff_0000_ffff);
    swap_blocks(by16, 32, 0x0000_0000_ffff_ffff)
}

/// Bit `high` of the mirror image is bit `low` of the word whenever the two
/// positions sum to 63.
pub proof fn lemma_mirror_bit(word: u64, low: u64, high: u64)
    by (bit_vector)
    requires
        low < 64,
        high == 63 - low,
    ensures
        bit(mirror(word), high) == bit(word, low),
{
}

/// Whether `first` and `second` agree on their `count` lowest bits.
pub open spec fn agree_below(first: u64, second: u64, count: u64) -> bool {
    (first ^ second) & !(0xffff_ffff_ffff_ffffu64 << count) == 0
}

/// Words that agree on every bit agree on their `count` lowest bits.
proof fn lemma_agree_below(first: u64, second: u64, count: u64)
    requires
        count < 64,
        forall|index: u64| index < 64 ==> bit(first, index) == bit(second, index),
    ensures
        agree_below(first, second, count),
    decreases count,
{
    if count == 0 {
        assert(agree_below(first, second, 0)) by (bit_vector);
    } else {
        let below = (count - 1) as u64;
        lemma_agree_below(first, second, below);
        assert(bit(first, below) == bit(second, below));
        assert(agree_below(first, second, count)) by (bit_vector)
            requires
                0 < count < 64,
                below == count - 1,
                agree_below(first, second, below),
                bit(first, below) == bit(second, below),
        ;
    }
}

/// Two words whose bits agree at every position are one word.
pub proof fn lemma_equal_bits(first: u64, second: u64)
    requires
        forall|index: u64| index < 64 ==> bit(first, index) == bit(second, index),
    ensures
        first == second,
{
    lemma_agree_below(first, second, 63);
    assert(bit(first, 63) == bit(second, 63));
    assert(first == second) by (bit_vector)
        requires
            agree_below(first, second, 63),
            bit(first, 63) == bit(second, 63),
    ;
}

/// The mirror image is the only word whose bit at each position is the
/// bit of `word` at the opposite position.
pub proof fn lemma_mirror_unique(word: u64, image: u64)
    requires
        forall|low: u64, high: u64|
            low + high == 63 ==> #[trigger] bit(image, high) == #[trigger] bit(word, low),
    ensures
        image == mirror(word),
{
    assert forall|index: u64| index < 64 implies bit(image, index) == bit(
        mirror(word),
        index,
    ) by {
        let opposite = (63 - index) as u64;
        lemma_mirror_bit(word, opposite, index);
        assert(bit(image, index) == bit(word, opposite));
    }
    lemma_equal_bits(image, mirror(word));
}

} // verus!
