use kmerpack::alphabet::code_of;
use kmerpack::encode::{check_batch, encode, encode4, encode4_sequential};
use kmerpack::error::EncodeError;
use kmerpack::generate::random_kmers;

#[test]
fn single_symbols_have_their_table_codes() {
    assert_eq!(encode(b"A"), Ok(7));
    assert_eq!(encode(b"C"), Ok(5));
    assert_eq!(encode(b"G"), Ok(2));
    assert_eq!(encode(b"T"), Ok(0));
    assert_eq!(encode(b"N"), Ok(1));
}

#[test]
fn first_symbol_is_most_significant() {
    assert_eq!(encode(b"AC"), Ok((7 << 3) + 5));
    assert_eq!(encode(b"AC"), Ok(61));
    assert_eq!(encode(b"CA"), Ok(47));
}

#[test]
fn five_symbols_pack_to_base_eight_digits() {
    assert_eq!(encode(b"ACGTN"), Ok(31361));
    assert_eq!(encode(b"ACGTN"), Ok(0o75201));
}

#[test]
fn lower_case_is_an_alias() {
    assert_eq!(encode(b"acgtn"), encode(b"ACGTN"));
    assert_eq!(encode(b"a"), Ok(7));
    assert_eq!(encode(b"c"), Ok(5));
    assert_eq!(encode(b"g"), Ok(2));
    assert_eq!(encode(b"t"), Ok(0));
    assert_eq!(encode(b"n"), Ok(1));
}

#[test]
fn unknown_bytes_pack_as_n() {
    assert_eq!(encode(b"X"), Ok(1));
    assert_eq!(encode(&[0u8]), Ok(1));
    assert_eq!(encode(&[255u8]), Ok(1));
    assert_eq!(encode(b"A-C"), encode(b"ANC"));
    assert_eq!(encode(b"A-C"), Ok((7 << 6) + (1 << 3) + 5));
}

#[test]
fn every_byte_value_has_a_code() {
    for byte in 0..=255u8 {
        let expected = match byte {
            b'A' | b'a' => 7,
            b'C' | b'c' => 5,
            b'G' | b'g' => 2,
            b'T' | b't' => 0,
            _ => 1,
        };
        assert_eq!(encode(&[byte]), Ok(expected));
        assert_eq!(code_of(byte), expected);
    }
}

#[test]
fn empty_sequence_is_refused() {
    assert_eq!(encode(b""), Err(EncodeError::InvalidLength));
}

#[test]
fn twenty_two_symbols_are_refused() {
    assert_eq!(encode(&[b'A'; 22]), Err(EncodeError::InvalidLength));
    assert_eq!(encode(&[b'T'; 100]), Err(EncodeError::InvalidLength));
}

#[test]
fn twenty_one_symbols_leave_the_top_bit_clear() {
    assert_eq!(encode(&[b'A'; 21]), Ok(0x7fff_ffff_ffff_ffff));
    assert_eq!(encode(&[b'T'; 21]), Ok(0));
    assert_eq!(encode(&[b'N'; 21]), Ok(0o111_111_111_111_111_111_111));
    for kmer in random_kmers(500, 21) {
        let code = encode(&kmer).unwrap();
        assert!(code < (1u64 << 63));
    }
}

#[test]
fn codes_stay_below_eight_to_the_length() {
    for len in 1..=21usize {
        assert_eq!(encode(&vec![b'A'; len]), Ok((1u64 << (3 * len)) - 1));
        for kmer in random_kmers(50, len) {
            assert!(encode(&kmer).unwrap() < (1u64 << (3 * len)));
        }
    }
}

#[test]
fn encoding_is_repeatable() {
    for kmer in random_kmers(200, 21) {
        let first = encode(&kmer);
        let copy = kmer.clone();
        assert_eq!(encode(&copy), first);
        assert_eq!(encode(&kmer), first);
    }
    assert_eq!(encode(b"GATTACA"), Ok(0o2700757));
    assert_eq!(encode(b"GATTACA"), Ok(0o2700757));
}

#[test]
fn batched_lanes_keep_their_order() {
    assert_eq!(encode4(b"A", b"C", b"G", b"T"), Ok((7, 5, 2, 0)));
    assert_eq!(encode4(b"AC", b"CA", b"NN", b"TG"), Ok((61, 47, 9, 2)));
}

#[test]
fn batched_equals_four_scalar_calls_at_every_length() {
    for len in 1..=21usize {
        let kmers = random_kmers(40, len);
        for quad in kmers.chunks_exact(4) {
            let expected = (
                encode(&quad[0]).unwrap(),
                encode(&quad[1]).unwrap(),
                encode(&quad[2]).unwrap(),
                encode(&quad[3]).unwrap(),
            );
            assert_eq!(encode4(&quad[0], &quad[1], &quad[2], &quad[3]), Ok(expected));
        }
    }
}

#[test]
fn batched_rejects_unequal_lengths() {
    assert_eq!(
        encode4(b"ACGTA", b"ACGTA", b"ACGTA", b"ACGTAC"),
        Err(EncodeError::LengthMismatch)
    );
    assert_eq!(encode4(b"A", b"AC", b"A", b"A"), Err(EncodeError::LengthMismatch));
    assert_eq!(encode4(b"", b"A", b"A", b"A"), Err(EncodeError::LengthMismatch));
    assert_eq!(
        encode4(&[b'A'; 22], &[b'A'; 21], &[b'A'; 22], &[b'A'; 22]),
        Err(EncodeError::LengthMismatch)
    );
}

#[test]
fn batched_rejects_invalid_common_length() {
    assert_eq!(encode4(b"", b"", b"", b""), Err(EncodeError::InvalidLength));
    assert_eq!(
        encode4(&[b'A'; 22], &[b'C'; 22], &[b'G'; 22], &[b'T'; 22]),
        Err(EncodeError::InvalidLength)
    );
}

#[test]
fn both_batched_paths_agree_on_a_random_corpus() {
    let kmers = random_kmers(10_000, 21);
    for quad in kmers.chunks_exact(4) {
        let lanes = encode4(&quad[0], &quad[1], &quad[2], &quad[3]);
        let sequential = encode4_sequential(&quad[0], &quad[1], &quad[2], &quad[3]);
        assert!(lanes.is_ok());
        assert_eq!(lanes, sequential);
    }
    for len in 1..=21usize {
        let kmers = random_kmers(200, len);
        for quad in kmers.chunks_exact(4) {
            assert_eq!(
                encode4(&quad[0], &quad[1], &quad[2], &quad[3]),
                encode4_sequential(&quad[0], &quad[1], &quad[2], &quad[3])
            );
        }
    }
}

#[test]
fn both_batched_paths_agree_on_refusals() {
    assert_eq!(
        encode4_sequential(b"ACGTA", b"ACGTA", b"ACGTA", b"ACGTAC"),
        Err(EncodeError::LengthMismatch)
    );
    assert_eq!(encode4_sequential(b"", b"", b"", b""), Err(EncodeError::InvalidLength));
    assert_eq!(
        encode4_sequential(&[b'A'; 22], &[b'C'; 22], &[b'G'; 22], &[b'T'; 22]),
        Err(EncodeError::InvalidLength)
    );
    assert_eq!(encode4_sequential(b"AC", b"CA", b"NN", b"TG"), Ok((61, 47, 9, 2)));
}

#[test]
fn each_symbol_sits_in_its_own_group() {
    let kmer = b"GATTACANNACGT";
    let code = encode(kmer).unwrap();
    for (index, symbol) in kmer.iter().enumerate() {
        let shift = 3 * (kmer.len() - 1 - index);
        assert_eq!((code >> shift) & 7, code_of(*symbol));
    }
    assert_eq!(code >> (3 * kmer.len()), 0);
}

#[test]
fn appending_a_symbol_shifts_by_one_group() {
    let front = encode(b"ACGTNACGTN").unwrap();
    assert_eq!(encode(b"ACGTNACGTNC"), Ok(front * 8 + 5));
    assert_eq!(encode(b"ACGTNACGTNT"), Ok(front << 3));
}

#[test]
fn sequences_with_equal_codes_differ_only_in_aliases() {
    assert_eq!(encode(b"ACGTN"), encode(b"acgtx"));
    assert_ne!(encode(b"ACGTN"), encode(b"ACGTA"));
    assert_ne!(encode(b"AT"), encode(b"TA"));
}

#[test]
fn batch_lengths_are_checked_before_encoding() {
    assert_eq!(check_batch(21, 21, 21, 21), Ok(21));
    assert_eq!(check_batch(1, 1, 1, 1), Ok(1));
    assert_eq!(check_batch(5, 5, 5, 6), Err(EncodeError::LengthMismatch));
    assert_eq!(check_batch(0, 22, 0, 0), Err(EncodeError::LengthMismatch));
    assert_eq!(check_batch(0, 0, 0, 0), Err(EncodeError::InvalidLength));
    assert_eq!(check_batch(22, 22, 22, 22), Err(EncodeError::InvalidLength));
}
