//! The scalar encoder and the four-lane batched encoder.

use vstd::prelude::*;
use vstd::wrapping::u64_specs::wrapping_add;
use crate::alphabet::{code_of, symbol_code};
use crate::error::EncodeError;
use crate::lanes::Lanes;
use crate::packing::{
    capacity, lemma_capacity_monotonic, lemma_capacity_values, lemma_packed_bound,
    lemma_packed_fits, lemma_packed_push, lemma_packed_single, packed, valid_length, MAX_SYMBOLS,
};

verus! {

/// What [`encode`] returns on `symbols`.
pub open spec fn encode_spec(symbols: Seq<u8>) -> Result<u64, EncodeError> {
    if valid_length(symbols.len()) {
        Ok(packed(symbols) as u64)
    } else {
        Err(EncodeError::InvalidLength)
    }
}

/// The common length of a batch of four sequences with the given lengths:
/// a mismatch is refused first, then a common length that cannot be packed.
pub open spec fn batch_length(len0: nat, len1: nat, len2: nat, len3: nat) -> Result<
    nat,
    EncodeError,
> {
    if len0 != len1 || len0 != len2 || len0 != len3 {
        Err(EncodeError::LengthMismatch)
    } else if !valid_length(len0) {
        Err(EncodeError::InvalidLength)
    } else {
        Ok(len0)
    }
}

/// What [`encode4`] returns on four sequences: the refusal of their lengths
/// if there is one, and otherwise in each lane the code of its own sequence.
pub open spec fn encode4_spec(s0: Seq<u8>, s1: Seq<u8>, s2: Seq<u8>, s3: Seq<u8>) -> Result<
    (u64, u64, u64, u64),
    EncodeError,
> {
    match batch_length(s0.len(), s1.len(), s2.len(), s3.len()) {
        Ok(_) => Ok((packed(s0) as u64, packed(s1) as u64, packed(s2) as u64, packed(s3) as u64)),
        Err(refusal) => Err(refusal),
    }
}

/// One accumulation step of the encoders: the code so far moves up by one
/// group and the next symbol's code is added modulo 2^64.
pub open spec fn shift_in(bits: u64, code: u64) -> u64 {
    wrapping_add(bits << 3u64, code)
}

/// While fewer than 21 symbols have been packed, an accumulation step
/// neither loses a bit nor wraps: it yields the code of the longer prefix.
pub proof fn lemma_shift_in_extends(prefix: Seq<u8>, symbol: u8, bits: u64)
    requires
        prefix.len() < MAX_SYMBOLS,
        bits == packed(prefix),
    ensures
        shift_in(bits, symbol_code(symbol)) == packed(prefix.push(symbol)),
{
    lemma_packed_bound(prefix);
    lemma_capacity_monotonic(prefix.len(), 20);
    lemma_capacity_values();
    lemma_packed_push(prefix, symbol);
    assert(bits << 3u64 == bits * 8) by (bit_vector)
        requires
            bits < 0x1000_0000_0000_0000,
    ;
}

/// Packs one sequence into a 64-bit code, three bits per symbol, the first
/// symbol in the most significant occupied group.
///
/// A sequence of 1 to 21 symbols is always encoded; an empty or longer one is
/// refused with [`EncodeError::InvalidLength`]. A byte outside the alphabet is
/// no error: it is packed as `N`.
pub fn encode(sequence: &[u8]) -> (result: Result<u64, EncodeError>)
    ensures
        result == encode_spec(sequence@),
        result matches Ok(code) ==> {
            &&& code == packed(sequence@)
            &&& code < capacity(sequence@.len())
            &&& code < 0x8000_0000_0000_0000
        },
{
    let len = sequence.len();
    if len == 0 || len > MAX_SYMBOLS {
        return Err(EncodeError::InvalidLength);
    }
    let mut bits: u64 = code_of(sequence[0]);
    proof {
        lemma_packed_single(sequence@[0]);
        assert(sequence@.take(1) =~= seq![sequence@[0]]);
    }
    let mut i: usize = 1;
    while i < len
        invariant
            1 <= i <= len <= MAX_SYMBOLS,
            len == sequence@.len(),
            bits == packed(sequence@.take(i as int)),
        decreases len - i,
    {
        let code = code_of(sequence[i]);
        proof {
            lemma_shift_in_extends(sequence@.take(i as int), sequence@[i as int], bits);
            assert(sequence@.take(i as int).push(sequence@[i as int]) =~= sequence@.take(i + 1));
        }
        bits = (bits << 3).wrapping_add(code);
        i += 1;
    }
    proof {
        assert(sequence@.take(len as int) =~= sequence@);
        lemma_packed_bound(sequence@);
        lemma_packed_fits(sequence@);
    }
    Ok(bits)
}

/// Checks the lengths of a batch of four sequences before any symbol is
/// read, and returns their common length if the batch can be encoded.
pub fn check_batch(len0: usize, len1: usize, len2: usize, len3: usize) -> (result: Result<
    usize,
    EncodeError,
>)
    ensures
        match result {
            Ok(len) => batch_length(len0 as nat, len1 as nat, len2 as nat, len3 as nat) == Ok::<
                nat,
                EncodeError,
            >(len as nat),
            Err(refusal) => batch_length(len0 as nat, len1 as nat, len2 as nat, len3 as nat)
                == Err::<nat, EncodeError>(refusal),
        },
{
    if len1 != len0 || len2 != len0 || len3 != len0 {
        Err(EncodeError::LengthMismatch)
    } else if len0 == 0 || len0 > MAX_SYMBOLS {
        Err(EncodeError::InvalidLength)
    } else {
        Ok(len0)
    }
}

/// Whether the lanes hold the codes of the first `count` symbols of the four
/// sequences, lane by lane.
pub open spec fn lanes_hold_prefixes(
    lanes: Lanes,
    s0: Seq<u8>,
    s1: Seq<u8>,
    s2: Seq<u8>,
    s3: Seq<u8>,
    count: int,
) -> bool {
    &&& lanes.lane0 == packed(s0.take(count))
    &&& lanes.lane1 == packed(s1.take(count))
    &&& lanes.lane2 == packed(s2.take(count))
    &&& lanes.lane3 == packed(s3.take(count))
}

/// The lanes loaded with the codes of the symbols at `index`, one sequence per lane.
fn load_codes(s0: &[u8], s1: &[u8], s2: &[u8], s3: &[u8], index: usize) -> (codes: Lanes)
    requires
        index < s0@.len(),
        index < s1@.len(),
        index < s2@.len(),
        index < s3@.len(),
    ensures
        codes == (Lanes {
            lane0: symbol_code(s0@[index as int]),
            lane1: symbol_code(s1@[index as int]),
            lane2: symbol_code(s2@[index as int]),
            lane3: symbol_code(s3@[index as int]),
        }),
{
    Lanes::new(code_of(s0[index]), code_of(s1[index]), code_of(s2[index]), code_of(s3[index]))
}

/// Packs four sequences of one common length in a single pass over four
/// lanes that are shifted and added to in lockstep.
///
/// Lengths that differ are refused with [`EncodeError::LengthMismatch`] and a
/// common length of 0 or above 21 with [`EncodeError::InvalidLength`], in
/// both cases before any symbol is read. Otherwise lane `i` of the result is
/// exactly what [`encode`] returns on sequence `i`.
pub fn encode4(s0: &[u8], s1: &[u8], s2: &[u8], s3: &[u8]) -> (result: Result<
    (u64, u64, u64, u64),
    EncodeError,
>)
    ensures
        result == encode4_spec(s0@, s1@, s2@, s3@),
        result matches Ok(codes) ==> {
            &&& encode_spec(s0@) == Ok::<u64, EncodeError>(codes.0)
            &&& encode_spec(s1@) == Ok::<u64, EncodeError>(codes.1)
            &&& encode_spec(s2@) == Ok::<u64, EncodeError>(codes.2)
            &&& encode_spec(s3@) == Ok::<u64, EncodeError>(codes.3)
        },
{
    let len = check_batch(s0.len(), s1.len(), s2.len(), s3.len())?;
    let first = load_codes(s0, s1, s2, s3, 0);
    let mut lanes = Lanes::zero().wrapping_add(first);
    proof {
        lemma_packed_single(s0@[0]);
        lemma_packed_single(s1@[0]);
        lemma_packed_single(s2@[0]);
        lemma_packed_single(s3@[0]);
        assert(s0@.take(1) =~= seq![s0@[0]]);
        assert(s1@.take(1) =~= seq![s1@[0]]);
        assert(s2@.take(1) =~= seq![s2@[0]]);
        assert(s3@.take(1) =~= seq![s3@[0]]);
    }
    let mut i: usize = 1;
    while i < len
        invariant
            1 <= i <= len <= MAX_SYMBOLS,
            len == s0@.len(),
            len == s1@.len(),
            len == s2@.len(),
            len == s3@.len(),
            lanes_hold_prefixes(lanes, s0@, s1@, s2@, s3@, i as int),
        decreases len - i,
    {
        let codes = load_codes(s0, s1, s2, s3, i);
        proof {
            lemma_lane_step(s0@, i as int, lanes.lane0);
            lemma_lane_step(s1@, i as int, lanes.lane1);
            lemma_lane_step(s2@, i as int, lanes.lane2);
            lemma_lane_step(s3@, i as int, lanes.lane3);
        }
        lanes = lanes.shift_left(3).wrapping_add(codes);
        i += 1;
    }
    proof {
        assert(s0@.take(len as int) =~= s0@);
        assert(s1@.take(len as int) =~= s1@);
        assert(s2@.take(len as int) =~= s2@);
        assert(s3@.take(len as int) =~= s3@);
    }
    Ok(lanes.into_tuple())
}

/// A lane that holds the code of the first `count` symbols of `symbols`
/// holds, after one accumulation step, the code of the first `count + 1`.
proof fn lemma_lane_step(symbols: Seq<u8>, count: int, bits: u64)
    requires
        0 <= count < symbols.len() <= MAX_SYMBOLS,
        bits == packed(symbols.take(count)),
    ensures
        shift_in(bits, symbol_code(symbols[count])) == packed(symbols.take(count + 1)),
{
    lemma_shift_in_extends(symbols.take(count), symbols[count], bits);
    assert(symbols.take(count).push(symbols[count]) =~= symbols.take(count + 1));
}

/// The portable path of the batched encoder: four scalar encodings, one
/// after the other. It returns on every input what [`encode4`] returns.
pub fn encode4_sequential(s0: &[u8], s1: &[u8], s2: &[u8], s3: &[u8]) -> (result: Result<
    (u64, u64, u64, u64),
    EncodeError,
>)
    ensures
        result == encode4_spec(s0@, s1@, s2@, s3@),
{
    check_batch(s0.len(), s1.len(), s2.len(), s3.len())?;
    let code0 = encode(s0)?;
    let code1 = encode(s1)?;
    let code2 = encode(s2)?;
    let code3 = encode(s3)?;
    Ok((code0, code1, code2, code3))
}

/// On four sequences of one valid length, the batched encoder returns in
/// each lane what the scalar encoder returns on that lane's sequence.
pub proof fn lemma_encode4_equals_four_encodes(
    s0: Seq<u8>,
    s1: Seq<u8>,
    s2: Seq<u8>,
    s3: Seq<u8>,
)
    requires
        valid_length(s0.len()),
        s1.len() == s0.len(),
        s2.len() == s0.len(),
        s3.len() == s0.len(),
    ensures
        encode_spec(s0) is Ok,
        encode_spec(s1) is Ok,
        encode_spec(s2) is Ok,
        encode_spec(s3) is Ok,
        encode4_spec(s0, s1, s2, s3) == Ok::<(u64, u64, u64, u64), EncodeError>(
            (
                encode_spec(s0).unwrap(),
                encode_spec(s1).unwrap(),
                encode_spec(s2).unwrap(),
                encode_spec(s3).unwrap(),
            ),
        ),
{
}

/// The batched encoder succeeds exactly when the four lengths agree and the
/// scalar encoder succeeds on every one of the four sequences.
pub proof fn lemma_encode4_succeeds_with_encode(
    s0: Seq<u8>,
    s1: Seq<u8>,
    s2: Seq<u8>,
    s3: Seq<u8>,
)
    ensures
        encode4_spec(s0, s1, s2, s3) is Ok <==> {
            &&& s1.len() == s0.len()
            &&& s2.len() == s0.len()
            &&& s3.len() == s0.len()
            &&& encode_spec(s0) is Ok
            &&& encode_spec(s1) is Ok
            &&& encode_spec(s2) is Ok
            &&& encode_spec(s3) is Ok
        },
{
}

/// The code depends on nothing but the symbols: equal sequences have equal
/// codes, and a sequence is refused exactly when an equal one is.
pub proof fn lemma_encode_is_a_function(first: Seq<u8>, second: Seq<u8>)
    requires
        first.len() == second.len(),
        forall|i: int| 0 <= i < first.len() ==> first[i] == second[i],
    ensures
        encode_spec(first) == encode_spec(second),
{
    assert(first =~= second);
}

/// A code of 21 symbols leaves the top bit of the 64 clear, and every code
/// stays below 8 to the power of its number of symbols.
pub proof fn lemma_code_range(symbols: Seq<u8>)
    requires
        valid_length(symbols.len()),
    ensures
        encode_spec(symbols) matches Ok(code) && code == packed(symbols) && code < capacity(
            symbols.len(),
        ) && code < 0x8000_0000_0000_0000,
{
    lemma_packed_bound(symbols);
    lemma_packed_fits(symbols);
}

} // verus!
