use bloom::hash::{hash_with_seed, MAX_INPUT_BYTES};

#[test]
fn hash_with_seed_agrees_with_known_murmur3_values() {
    assert_eq!(hash_with_seed(b"", 0), Ok(0));
    assert_eq!(hash_with_seed(b"", 1), Ok(0x514e_28b7));
    assert_eq!(hash_with_seed(b"", 0xffff_ffff), Ok(0x81f1_6f39));
    assert_eq!(hash_with_seed(b"1", 0), Ok(0x9416_ac93));
    assert_eq!(hash_with_seed(b"12", 0), Ok(0xf9d2_ef15));
    assert_eq!(hash_with_seed(b"Hello, world!", 0), Ok(0xc036_3e43));
    assert_eq!(hash_with_seed(b"Hello, world!", 0x9747_b28c), Ok(0x2488_4cba));
    assert_eq!(
        hash_with_seed(b"Lorem ipsum dolor sit amet, consectetur adipisicing elit", 0),
        Ok(0x3bf7_e870)
    );
}

#[test]
fn hash_with_seed_depends_on_the_seed_and_on_the_bytes() {
    assert_ne!(hash_with_seed(b"key", 1), hash_with_seed(b"key", 2));
    assert_ne!(hash_with_seed(b"key", 1), hash_with_seed(b"kez", 1));
    assert_eq!(hash_with_seed(b"key", 1), Ok(0x09d5_65ac));
}

#[test]
fn the_input_limit_is_the_largest_u32() {
    assert_eq!(MAX_INPUT_BYTES, 4_294_967_295);
    let input = vec![0u8; 1 << 16];
    assert!(hash_with_seed(&input, 0).is_ok());
}
