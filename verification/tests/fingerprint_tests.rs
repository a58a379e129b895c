use img_dedup::{dist, fingerprint_len, Fingerprint, HashMethod};

#[test]
fn from_bytes_reads_most_significant_bit_first() {
    let fp = Fingerprint::from_bytes(HashMethod::Mean, &vec![0b1000_0001]);
    assert_eq!(fp.len(), 8);
    assert!(fp.bit(0));
    for i in 1..7 {
        assert!(!fp.bit(i));
    }
    assert!(fp.bit(7));
}

#[test]
fn dist_counts_differing_bits_exactly() {
    let a = Fingerprint::from_bytes(HashMethod::Mean, &vec![0b1111_0000, 0b0000_0000]);
    let b = Fingerprint::from_bytes(HashMethod::Mean, &vec![0b0111_0000, 0b0000_0011]);
    assert_eq!(dist(&a, &b), 3);
}

#[test]
fn dist_is_symmetric() {
    let a = Fingerprint::from_bytes(HashMethod::Gradient, &vec![73, 96, 39, 31]);
    let b = Fingerprint::from_bytes(HashMethod::Gradient, &vec![227, 235, 255, 249]);
    assert_eq!(dist(&a, &b), dist(&b, &a));
}

#[test]
fn dist_of_fingerprint_with_itself_is_zero() {
    let a = Fingerprint::from_bytes(HashMethod::Dct, &vec![219, 255, 177, 191]);
    assert_eq!(dist(&a, &a), 0);
    let b = Fingerprint::from_bytes(HashMethod::Dct, &vec![219, 255, 177, 191]);
    assert_eq!(dist(&a, &b), 0);
    assert_eq!(a, b);
}

#[test]
fn fingerprint_lengths_per_method() {
    // Mean, Gradient and DCT: the square of the hash size, padded to bytes.
    assert_eq!(fingerprint_len(HashMethod::Mean, 8), 64);
    assert_eq!(fingerprint_len(HashMethod::Gradient, 8), 64);
    assert_eq!(fingerprint_len(HashMethod::Dct, 8), 64);
    assert_eq!(fingerprint_len(HashMethod::Mean, 16), 256);
    // Block rounds the size up to a multiple of four.
    assert_eq!(fingerprint_len(HashMethod::Block, 8), 64);
    assert_eq!(fingerprint_len(HashMethod::Block, 6), 64);
    // DoubleGradient compares along rows and columns of the halved grid:
    // size 8 gives a 5x5 grid and 2*5*4 = 40 bits.
    assert_eq!(fingerprint_len(HashMethod::DoubleGradient, 8), 40);
    // Mean at size 3 gives 9 bits, padded to 16.
    assert_eq!(fingerprint_len(HashMethod::Mean, 3), 16);
}
