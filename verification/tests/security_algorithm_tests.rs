use doip_uds::security_algorithm::SecurityAccessAlgorithm;
use doip_uds::types::DoipError;

#[test]
fn test_compute_key_level1() {
    let mut algo = SecurityAccessAlgorithm::new();
    let seed = 0x12345678u32;
    let key = 0x1234u32;
    let result = algo.compute_key_level1(seed, key);

    assert!(result <= u32::MAX);
}

#[test]
fn test_compute_key_level2() {
    let mut algo = SecurityAccessAlgorithm::new();
    let seed = 0x12345678u32;
    let key = 0x1234u32;
    let result = algo.compute_key_level2(seed, key);

    assert!(result <= u32::MAX);
}

#[test]
fn test_compute_key_level3() {
    let mut algo = SecurityAccessAlgorithm::new();
    let seed = 0x12345678u32;
    let key = 0x1234u32;
    let result = algo.compute_key_level3(seed, key);

    assert!(result <= u32::MAX);
}

#[test]
fn test_compute_key_level4() {
    let mut algo = SecurityAccessAlgorithm::new();
    let seed = 0x12345678u32;
    let key = 0x1234u32;
    let result = algo.compute_key_level4(seed, key);

    assert!(result <= u32::MAX);
}

#[test]
fn test_compute_key_by_level() {
    let mut algo = SecurityAccessAlgorithm::new();
    let seed = 0x12345678u32;
    let key = 0x1234u32;

    assert!(algo.compute_key_by_level(2, seed, key).is_ok());
    assert!(algo.compute_key_by_level(4, seed, key).is_ok());
    assert!(algo.compute_key_by_level(6, seed, key).is_ok());
    assert!(algo.compute_key_by_level(8, seed, key).is_ok());

    assert!(algo.compute_key_by_level(1, seed, key).is_err());
    assert!(algo.compute_key_by_level(3, seed, key).is_err());
    assert!(algo.compute_key_by_level(5, seed, key).is_err());
    assert!(algo.compute_key_by_level(7, seed, key).is_err());
    assert!(algo.compute_key_by_level(9, seed, key).is_err());
}

#[test]
fn test_int_bytes_conversion() {
    let algo = SecurityAccessAlgorithm::new();
    let value = 0x12345678u32;

    let bytes = algo.int_to_bytes(value);
    assert_eq!(bytes.len(), 4);

    let converted_back = algo.bytes_to_int(&bytes).unwrap();
    assert_eq!(converted_back, value);
}

#[test]
fn test_known_values() {
    let mut algo = SecurityAccessAlgorithm::new();
    let seed = 0xb418e1a8u32;
    let key = 0xe455u32;
    let token = algo.compute_key_level1(seed, key);

    println!("Test token: 0x{:08x}", token);
    assert!(token > 0);
}

fn reference_level1(seed: u32, constant: u32) -> u32 {
    let mut t = seed ^ constant;
    for _ in 0..32 {
        if t & 1 == 1 {
            t = t.rotate_left(3) ^ seed;
        } else {
            t = t.rotate_right(7) ^ constant;
        }
    }
    t
}

fn reference_level2(seed: u32, constant: u32) -> u32 {
    let mut t = seed ^ constant;
    for _ in 0..32 {
        if t & 1 == 1 {
            t = (t >> 1) ^ seed;
        } else {
            t = (t >> 1) ^ constant;
        }
    }
    t
}

fn reference_level3(seed: u32, constant: u32) -> u32 {
    let mixed = if seed & 0x8000_0000 != 0 {
        (((seed >> 1) ^ seed) << 3) ^ (seed >> 3)
    } else {
        (seed >> 3) ^ (seed << 9)
    };
    (mixed ^ constant).rotate_left(15)
}

fn reference_level4(seed: u32, constant: u32) -> u32 {
    let mut t = seed ^ constant;
    for _ in 0..32 {
        t = t.rotate_left(7) ^ constant;
    }
    t
}

const SAMPLES: [(u32, u32); 8] = [
    (0xb418e1a8, 0xe455),
    (0x12345678, 0x1234),
    (0, 0),
    (0xffff_ffff, 1),
    (0x8000_0000, 0),
    (0x7fff_ffff, 0xffff_ffff),
    (1, 0x8000_0001),
    (0xdead_beef, 0xcafe_f00d),
];

#[test]
fn level1_pinned_tokens() {
    let mut algo = SecurityAccessAlgorithm::new();
    assert_eq!(algo.compute_key_level1(0xb418e1a8, 0xe455), 0xbdbdb090);
    assert_eq!(algo.compute_key_level1(0x12345678, 0x1234), 0xc8462d1d);
    assert_eq!(algo.compute_key_level1(0x8000_0000, 0), 0x80);
}

#[test]
fn level2_pinned_tokens() {
    let mut algo = SecurityAccessAlgorithm::new();
    assert_eq!(algo.compute_key_level2(0xb418e1a8, 0xe455), 0xda4f6e2e);
    assert_eq!(algo.compute_key_level2(0x12345678, 0x1234), 0x0ca11497);
}

#[test]
fn level3_pinned_tokens() {
    let mut algo = SecurityAccessAlgorithm::new();
    assert_eq!(algo.compute_key_level3(0xb418e1a8, 0xe455), 0xb9c03313);
    assert_eq!(algo.compute_key_level3(0x12345678, 0x1234), 0x347db575);
    assert_eq!(algo.compute_key_level3(0xffff_ffff, 1), 0xffff0fff);
}

#[test]
fn level4_pinned_tokens() {
    let mut algo = SecurityAccessAlgorithm::new();
    assert_eq!(algo.compute_key_level4(0xb418e1a8, 0xe455), 0xb41805fd);
    assert_eq!(algo.compute_key_level4(0x12345678, 0x1234), 0xedcbbbb3);
}

#[test]
fn levels_match_the_iterative_reference() {
    let mut algo = SecurityAccessAlgorithm::new();
    for (seed, constant) in SAMPLES {
        assert_eq!(algo.compute_key_level1(seed, constant), reference_level1(seed, constant));
        assert_eq!(algo.compute_key_level2(seed, constant), reference_level2(seed, constant));
        assert_eq!(algo.compute_key_level3(seed, constant), reference_level3(seed, constant));
        assert_eq!(algo.compute_key_level4(seed, constant), reference_level4(seed, constant));
    }
}

#[test]
fn levels_are_deterministic() {
    let mut first = SecurityAccessAlgorithm::new();
    let mut second = SecurityAccessAlgorithm::default();
    for (seed, constant) in SAMPLES {
        let once = first.compute_key_level1(seed, constant);
        assert_eq!(first.compute_key_level1(seed, constant), once);
        assert_eq!(second.compute_key_level1(seed, constant), once);
        let once = first.compute_key_level2(seed, constant);
        assert_eq!(first.compute_key_level2(seed, constant), once);
        assert_eq!(second.compute_key_level2(seed, constant), once);
        let once = first.compute_key_level4(seed, constant);
        assert_eq!(first.compute_key_level4(seed, constant), once);
        assert_eq!(second.compute_key_level4(seed, constant), once);
    }
}

#[test]
fn level4_closed_form() {
    let mut algo = SecurityAccessAlgorithm::new();
    for (seed, constant) in SAMPLES {
        let gathered = reference_level4(0, constant) ^ constant;
        let rotated = (seed ^ constant).rotate_left((32 * 7) % 32);
        assert_eq!(algo.compute_key_level4(seed, constant), rotated ^ gathered);
        let inverted = if constant.count_ones() % 2 == 1 { 0xffff_ffff } else { 0 };
        assert_eq!(algo.compute_key_level4(seed, constant), seed ^ constant ^ inverted);
    }
}

#[test]
fn by_level_selects_the_variant() {
    let mut algo = SecurityAccessAlgorithm::new();
    let (seed, constant) = (0xb418e1a8u32, 0xe455u32);
    assert_eq!(algo.compute_key_by_level(2, seed, constant), Ok(0xbdbdb090));
    assert_eq!(algo.compute_key_by_level(4, seed, constant), Ok(0xda4f6e2e));
    assert_eq!(algo.compute_key_by_level(6, seed, constant), Ok(0xb9c03313));
    assert_eq!(algo.compute_key_by_level(8, seed, constant), Ok(0xb41805fd));
}

#[test]
fn unsupported_level_is_reported() {
    let mut algo = SecurityAccessAlgorithm::new();
    assert_eq!(algo.compute_key_by_level(3, 1, 2), Err(DoipError::UnsupportedLevel(3)));
    for level in 0u8..=255 {
        let result = algo.compute_key_by_level(level, 0x12345678, 0x1234);
        if level == 2 || level == 4 || level == 6 || level == 8 {
            assert!(result.is_ok());
        } else {
            assert_eq!(result, Err(DoipError::UnsupportedLevel(level)));
        }
    }
}

#[test]
fn algorithm_int_bytes_are_inverse() {
    let algo = SecurityAccessAlgorithm::new();
    for value in [0u32, 1, 0xff, 0x100, 0x12345678, 0xb418e1a8, 0xffff_ffff] {
        let bytes = algo.int_to_bytes(value);
        assert_eq!(algo.bytes_to_int(&bytes), Ok(value));
    }
    for bytes in [[0u8, 0, 0, 0], [0xb4, 0x18, 0xe1, 0xa8], [0xff, 0xff, 0xff, 0xff]] {
        let value = algo.bytes_to_int(&bytes).unwrap();
        assert_eq!(algo.int_to_bytes(value), bytes.to_vec());
    }
    assert!(matches!(algo.bytes_to_int(&[1, 2, 3]), Err(DoipError::InvalidData(_))));
}

#[test]
fn algorithm_dump_has_one_line_for_four_bytes() {
    let algo = SecurityAccessAlgorithm::new();
    let lines = algo.print_hex(&[0xbd, 0xbd, 0xb0, 0x90], 10);
    assert_eq!(lines, vec!["0x0000: bd bd b0 90".to_string()]);
}
