use kmerpack::encode::encode;
use kmerpack::generate::{kmer_of_draws, random_draws, random_kmer, random_kmers, symbol_of_draw};

#[test]
fn draws_select_the_five_symbols() {
    assert_eq!(symbol_of_draw(0), b'A');
    assert_eq!(symbol_of_draw(1), b'C');
    assert_eq!(symbol_of_draw(2), b'T');
    assert_eq!(symbol_of_draw(3), b'G');
    assert_eq!(symbol_of_draw(4), b'N');
}

#[test]
fn a_list_of_draws_selects_a_kmer() {
    assert_eq!(kmer_of_draws(&[0, 1, 2, 3, 4]), b"ACTGN".to_vec());
    assert_eq!(kmer_of_draws(&[]), Vec::<u8>::new());
    assert_eq!(kmer_of_draws(&[4, 4, 0]), b"NNA".to_vec());
}

#[test]
fn random_draws_stay_below_the_alphabet_size() {
    let mut generator = rand::thread_rng();
    let draws = random_draws(&mut generator, 5_000);
    assert_eq!(draws.len(), 5_000);
    assert!(draws.iter().all(|draw| *draw < 5));
    for value in 0..5u8 {
        assert!(draws.contains(&value));
    }
}

#[test]
fn random_kmer_has_the_requested_length() {
    let mut generator = rand::thread_rng();
    for len in [0usize, 1, 21, 64] {
        let kmer = random_kmer(&mut generator, len);
        assert_eq!(kmer.len(), len);
        assert!(kmer.iter().all(|symbol| b"ACGTN".contains(symbol)));
    }
}

#[test]
fn random_kmers_are_encodable() {
    let kmers = random_kmers(10, 21);
    assert_eq!(kmers.len(), 10);
    for kmer in &kmers {
        assert_eq!(kmer.len(), 21);
        assert!(kmer.iter().all(|symbol| b"ACGTN".contains(symbol)));
        assert!(encode(kmer).is_ok());
    }
    assert!(random_kmers(0, 21).is_empty());
}
