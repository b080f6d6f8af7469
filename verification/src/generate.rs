//! Random k-mers over the five-symbol alphabet.
//!
//! The random draws come from the thread-local generator of the `rand`
//! crate. Which symbols come out is left to chance; that every one of them
//! belongs to the alphabet, and which symbol each draw selects, is proved.

use vstd::prelude::*;
use rand::rngs::ThreadRng;
use rand::Rng;

verus! {

/// The number of symbols a draw chooses from.
pub const ALPHABET_SIZE: u8 = 5;

/// The thread-local random number generator of the `rand` crate.
#[verifier::external_type_specification]
#[verifier::external_body]
pub struct ExThreadRng(rand::rngs::ThreadRng);

/// `rand::thread_rng`: a handle to the calling thread's generator, which is
/// seeded from the operating system on first use and panics if the system
/// supplies no seed. Nothing is claimed of the handle.
#[verifier::external_body]
fn thread_generator() -> ThreadRng {
    rand::thread_rng()
}

/// `rand::Rng::gen_range` with the lower limit 0: by its documentation the
/// value lies in the half-open range from the lower limit to the upper one,
/// and the call panics unless the lower limit is below the upper one. Which
/// value of the range comes back is left open.
#[verifier::external_body]
fn draw_below(generator: &mut ThreadRng, limit: u8) -> (draw: u8)
    requires
        limit > 0,
    ensures
        draw < limit,
{
    generator.gen_range(0, limit)
}

/// The symbol that a draw selects: `A`, `C`, `T`, `G`, `N` for 0 to 4.
pub open spec fn drawn_symbol(draw: u8) -> u8 {
    if draw == 0 {
        65
    } else if draw == 1 {
        67
    } else if draw == 2 {
        84
    } else if draw == 3 {
        71
    } else {
        78
    }
}

/// Whether `symbol` is one of the upper-case letters `A`, `C`, `G`, `T`, `N`.
pub open spec fn is_alphabet_symbol(symbol: u8) -> bool {
    symbol == 65 || symbol == 67 || symbol == 71 || symbol == 84 || symbol == 78
}

/// Whether every symbol of the sequence is an upper-case alphabet letter.
pub open spec fn over_alphabet(symbols: Seq<u8>) -> bool {
    forall|i: int| 0 <= i < symbols.len() ==> is_alphabet_symbol(#[trigger] symbols[i])
}

/// Turns a draw into the symbol it selects.
pub fn symbol_of_draw(draw: u8) -> (symbol: u8)
    requires
        draw < ALPHABET_SIZE,
    ensures
        symbol == drawn_symbol(draw),
        is_alphabet_symbol(symbol),
{
    match draw {
        0 => 65,
        1 => 67,
        2 => 84,
        3 => 71,
        _ => 78,
    }
}

/// The k-mer that a list of draws selects, symbol by symbol.
pub fn kmer_of_draws(draws: &[u8]) -> (kmer: Vec<u8>)
    requires
        forall|i: int| 0 <= i < draws@.len() ==> draws@[i] < ALPHABET_SIZE,
    ensures
        kmer@.len() == draws@.len(),
        forall|i: int| 0 <= i < draws@.len() ==> kmer@[i] == drawn_symbol(draws@[i]),
        over_alphabet(kmer@),
{
    let mut kmer: Vec<u8> = Vec::new();
    let mut i: usize = 0;
    while i < draws.len()
        invariant
            i <= draws@.len(),
            kmer@.len() == i,
            forall|j: int| 0 <= j < draws@.len() ==> draws@[j] < ALPHABET_SIZE,
            forall|j: int| 0 <= j < i ==> kmer@[j] == drawn_symbol(draws@[j]),
        decreases draws@.len() - i,
    {
        kmer.push(symbol_of_draw(draws[i]));
        i += 1;
    }
    kmer
}

/// Draws `len` numbers below the alphabet size from the generator.
pub fn random_draws(generator: &mut ThreadRng, len: usize) -> (draws: Vec<u8>)
    ensures
        draws@.len() == len,
        forall|i: int| 0 <= i < len ==> draws@[i] < ALPHABET_SIZE,
{
    let mut draws: Vec<u8> = Vec::new();
    let mut i: usize = 0;
    while i < len
        invariant
            i <= len,
            draws@.len() == i,
            forall|j: int| 0 <= j < i ==> draws@[j] < ALPHABET_SIZE,
        decreases len - i,
    {
        let draw = draw_below(generator, ALPHABET_SIZE);
        draws.push(draw);
        i += 1;
    }
    draws
}

/// A random k-mer of `len` symbols. Whatever the generator yields, the
/// k-mer has exactly `len` symbols and every one is an alphabet letter.
pub fn random_kmer(generator: &mut ThreadRng, len: usize) -> (kmer: Vec<u8>)
    ensures
        kmer@.len() == len,
        over_alphabet(kmer@),
{
    let draws = random_draws(generator, len);
    kmer_of_draws(draws.as_slice())
}

/// `count` random k-mers of `len` symbols each, drawn from the calling
/// thread's generator.
pub fn random_kmers(count: usize, len: usize) -> (kmers: Vec<Vec<u8>>)
    ensures
        kmers@.len() == count,
        forall|i: int| 0 <= i < count ==> (#[trigger] kmers@[i])@.len() == len && over_alphabet(kmers@[i]@),
{
    let mut generator = thread_generator();
    let mut kmers: Vec<Vec<u8>> = Vec::new();
    let mut i: usize = 0;
    while i < count
        invariant
            i <= count,
            kmers@.len() == i,
            forall|j: int| 0 <= j < i ==> (#[trigger] kmers@[j])@.len() == len && over_alphabet(kmers@[j]@),
        decreases count - i,
    {
        let kmer = random_kmer(&mut generator, len);
        kmers.push(kmer);
        i += 1;
    }
    kmers
}

} // verus!
