use prism_prover::digest::Digest;
use prism_prover::encoding::{append_bytes, append_framed, append_u64, bytes_equal};

#[test]
fn sha256_of_known_inputs() {
    let abc = Digest::hash(b"abc").to_bytes();
    assert_eq!(
        abc.to_vec(),
        vec![
            0xba, 0x78, 0x16, 0xbf, 0x8f, 0x01, 0xcf, 0xea, 0x41, 0x41, 0x40, 0xde, 0x5d, 0xae,
            0x22, 0x23, 0xb0, 0x03, 0x61, 0xa3, 0x96, 0x17, 0x7a, 0x9c, 0xb4, 0x10, 0xff, 0x61,
            0xf2, 0x00, 0x15, 0xad
        ]
    );
    let empty = Digest::hash(b"").to_bytes();
    assert_eq!(empty[0], 0xe3);
    assert_eq!(empty[31], 0x55);
}

#[test]
fn digests_compare_by_their_bytes() {
    assert_eq!(Digest::hash(b"x"), Digest::hash(b"x"));
    assert_ne!(Digest::hash(b"x"), Digest::hash(b"y"));
    assert_eq!(Digest::zero().to_bytes(), [0u8; 32]);
    assert_ne!(Digest::hash(b""), Digest::zero());
}

#[test]
fn framing_prepends_the_length_in_little_endian() {
    let mut out = vec![0xaa];
    append_framed(&mut out, b"abc");
    assert_eq!(out, vec![0xaa, 3, 0, 0, 0, 0, 0, 0, 0, b'a', b'b', b'c']);
    append_u64(&mut out, 0x0102030405060708);
    assert_eq!(&out[12..], &[8, 7, 6, 5, 4, 3, 2, 1]);
    append_bytes(&mut out, &[]);
    assert_eq!(out.len(), 20);
    let mut empty = Vec::new();
    append_framed(&mut empty, &[]);
    assert_eq!(empty, vec![0u8; 8]);
}

#[test]
fn byte_strings_are_compared_whole() {
    assert!(bytes_equal(b"", b""));
    assert!(bytes_equal(b"same", b"same"));
    assert!(!bytes_equal(b"same", b"sama"));
    assert!(!bytes_equal(b"short", b"shorter"));
}
