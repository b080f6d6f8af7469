use kmerpack::canonical::{canonical, reverse_complement};
use kmerpack::encode::encode;
use kmerpack::generate::random_kmers;

fn opposite_strand(kmer: &[u8]) -> Vec<u8> {
    kmer.iter()
        .rev()
        .map(|symbol| match symbol {
            b'A' => b'T',
            b'T' => b'A',
            b'C' => b'G',
            b'G' => b'C',
            other => *other,
        })
        .collect()
}

fn bases_only(kmer: &[u8]) -> Vec<u8> {
    kmer.iter().map(|symbol| if *symbol == b'N' { b'G' } else { *symbol }).collect()
}

#[test]
fn self_complementary_pair_is_its_own_canonical_code() {
    assert_eq!(encode(b"AT"), Ok((7 << 3) + 0));
    assert_eq!(encode(b"AT"), Ok(56));
    assert_eq!(reverse_complement(56, 2), 56);
    assert_eq!(canonical(56, 2), 56);
}

#[test]
fn reverse_complement_of_single_bases() {
    assert_eq!(reverse_complement(7, 1), 0);
    assert_eq!(reverse_complement(0, 1), 7);
    assert_eq!(reverse_complement(5, 1), 2);
    assert_eq!(reverse_complement(2, 1), 5);
}

#[test]
fn reverse_complement_reads_the_opposite_strand() {
    let forward = encode(b"AC").unwrap();
    assert_eq!(forward, 61);
    assert_eq!(reverse_complement(forward, 2), encode(b"GT").unwrap());
    assert_eq!(reverse_complement(forward, 2), 16);
    assert_eq!(reverse_complement(encode(b"GATTACA").unwrap(), 7), encode(b"TGTAATC").unwrap());
}

#[test]
fn canonical_is_the_smaller_strand() {
    assert_eq!(canonical(61, 2), 16);
    assert_eq!(canonical(16, 2), 16);
    assert_eq!(canonical(7, 1), 0);
    assert_eq!(canonical(0, 1), 0);
    assert_eq!(canonical(0x7fff_ffff_ffff_ffff, 21), 0);
}

#[test]
fn reverse_complement_matches_the_sequence_transform() {
    for len in 1..=21usize {
        for kmer in random_kmers(100, len) {
            let kmer = bases_only(&kmer);
            let forward = encode(&kmer).unwrap();
            let reverse = encode(&opposite_strand(&kmer)).unwrap();
            assert_eq!(reverse_complement(forward, len), reverse);
            assert_eq!(reverse_complement(reverse, len), forward);
        }
    }
}

#[test]
fn canonical_is_idempotent() {
    for len in 1..=21usize {
        for kmer in random_kmers(100, len) {
            let code = encode(&bases_only(&kmer)).unwrap();
            let once = canonical(code, len);
            assert_eq!(canonical(once, len), once);
            assert!(once <= code);
        }
    }
}

#[test]
fn canonical_does_not_depend_on_the_strand() {
    for len in 1..=21usize {
        for kmer in random_kmers(100, len) {
            let kmer = bases_only(&kmer);
            let forward = encode(&kmer).unwrap();
            let reverse = encode(&opposite_strand(&kmer)).unwrap();
            assert_eq!(canonical(forward, len), canonical(reverse, len));
            assert_eq!(canonical(forward, len), forward.min(reverse));
        }
    }
}

#[test]
fn reverse_complement_of_n_is_outside_the_table() {
    assert_eq!(reverse_complement(1, 1), 3);
    assert_eq!(canonical(1, 1), 1);
    assert_eq!(reverse_complement(3, 1), 1);
}

#[test]
fn reverse_complement_fills_exactly_the_occupied_groups() {
    for k in 1..=21usize {
        assert_eq!(reverse_complement(0, k), (1u64 << (3 * k)) - 1);
        assert_eq!(reverse_complement((1u64 << (3 * k)) - 1, k), 0);
    }
}
