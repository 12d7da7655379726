use hash_omikuji::hash::HashBits;
use sha2::{Digest, Sha256};

#[test]
fn test_hash_deterministic() {
    let hash1 = HashBits::from_seed(2026, "alice");
    let hash2 = HashBits::from_seed(2026, "alice");
    assert_eq!(hash1.hex_string(), hash2.hex_string());
}

#[test]
fn test_different_users_different_hash() {
    let hash1 = HashBits::from_seed(2026, "alice");
    let hash2 = HashBits::from_seed(2026, "bob");
    assert_ne!(hash1.hex_string(), hash2.hex_string());
}

#[test]
fn test_different_years_different_hash() {
    let hash1 = HashBits::from_seed(2025, "alice");
    let hash2 = HashBits::from_seed(2026, "alice");
    assert_ne!(hash1.hex_string(), hash2.hex_string());
}

#[test]
fn test_lucky_day_range() {
    let hash = HashBits::from_seed(2026, "test");
    let day = hash.lucky_day();
    assert!(day >= 1 && day <= 365);
}

#[test]
fn test_lucky_day_range_many_seeds() {
    for i in 0..100 {
        let seed = format!("test-{}", i);
        let hash = HashBits::from_seed(2026, &seed);
        let day = hash.lucky_day();
        assert!(day >= 1 && day <= 365, "Day out of range: {}", day);
    }
}

#[test]
fn test_lucky_hour_range() {
    let hash = HashBits::from_seed(2026, "test");
    let hour = hash.lucky_hour();
    assert!(hour < 24);
}

#[test]
fn test_lucky_hour_range_many_seeds() {
    for i in 0..100 {
        let seed = format!("test-{}", i);
        let hash = HashBits::from_seed(2026, &seed);
        let hour = hash.lucky_hour();
        assert!(hour < 24, "Hour out of range: {}", hour);
    }
}

#[test]
fn test_lucky_minute_range() {
    let hash = HashBits::from_seed(2026, "test");
    let minute = hash.lucky_minute();
    assert!(minute < 60);
}

#[test]
fn test_lucky_minute_range_many_seeds() {
    for i in 0..100 {
        let seed = format!("test-{}", i);
        let hash = HashBits::from_seed(2026, &seed);
        let minute = hash.lucky_minute();
        assert!(minute < 60, "Minute out of range: {}", minute);
    }
}

#[test]
#[allow(unused_comparisons)]
fn test_lucky_number_range() {
    let hash = HashBits::from_seed(2026, "test");
    let num = hash.lucky_number();
    assert!(num <= 255);
}

#[test]
fn hash_test_luck_scores_count() {
    let hash = HashBits::from_seed(2026, "test");
    let scores = hash.luck_scores();
    assert_eq!(scores.len(), 16);
}

#[test]
fn test_hex_string_length() {
    let hash = HashBits::from_seed(2026, "test");
    let hex = hash.hex_string();
    assert_eq!(hex.len(), 64);
}

#[test]
fn test_hex_string_valid_chars() {
    let hash = HashBits::from_seed(2026, "test");
    let hex = hash.hex_string();
    for ch in hex.chars() {
        assert!(ch.is_ascii_hexdigit(), "Invalid hex char: {}", ch);
    }
}

#[test]
fn test_entropy_check_range() {
    let hash = HashBits::from_seed(2026, "test");
    let entropy = hash.entropy_check();
    assert!(entropy <= 0xFFF);
}

#[test]
fn test_lucky_power_of_2_range() {
    for i in 0..100 {
        let seed = format!("test-{}", i);
        let hash = HashBits::from_seed(2026, &seed);
        let power = hash.lucky_power_of_2();
        assert!(
            power == 1
                || power == 2
                || power == 4
                || power == 8
                || power == 16
                || power == 32
                || power == 64
                || power == 128,
            "Power of 2 not valid: {}",
            power
        );
    }
}

#[test]
fn test_lucky_ascii_range() {
    for i in 0..100 {
        let seed = format!("test-{}", i);
        let hash = HashBits::from_seed(2026, &seed);
        let ch = hash.lucky_ascii();
        assert!(ch >= ' ' && ch <= '~', "ASCII not printable: {:?}", ch);
    }
}

#[test]
fn test_lucky_logic_gate_valid() {
    let valid_gates = ["AND", "OR", "XOR", "NOT", "NAND", "NOR", "XNOR", "BUFFER"];
    for i in 0..100 {
        let seed = format!("test-{}", i);
        let hash = HashBits::from_seed(2026, &seed);
        let gate = hash.lucky_logic_gate();
        assert!(valid_gates.contains(&gate), "Invalid gate: {}", gate);
    }
}

#[test]
fn seed_digest_is_sha256_of_salted_text() {
    let hash = HashBits::from_seed(2026, "alice");
    let expected = Sha256::digest(b"2026-alice-sha-omikuji-2026");
    assert_eq!(hash.raw_bytes().as_slice(), expected.as_slice());
    let hex: String = expected.iter().map(|b| format!("{:02x}", b)).collect();
    assert_eq!(hash.hex_string(), hex);
}

#[test]
fn alice_2026_is_stable_and_distinct() {
    let a1 = HashBits::from_seed(2026, "alice");
    let a2 = HashBits::from_seed(2026, "alice");
    let bob = HashBits::from_seed(2026, "bob");
    let a2025 = HashBits::from_seed(2025, "alice");
    assert_eq!(a1.raw_bytes(), a2.raw_bytes());
    assert_eq!(a1.luck_scores(), a2.luck_scores());
    assert_eq!(a1.luck_flags(), a2.luck_flags());
    assert_ne!(a1.raw_bytes(), bob.raw_bytes());
    assert_ne!(bob.raw_bytes(), a2025.raw_bytes());
    assert_ne!(a1.raw_bytes(), a2025.raw_bytes());
}

#[test]
fn empty_seed_is_accepted() {
    let h = HashBits::from_seed(0, "");
    let expected = Sha256::digest(b"0--sha-omikuji-2026");
    assert_eq!(h.raw_bytes().as_slice(), expected.as_slice());
}

#[test]
fn fields_of_all_ones_digest() {
    let h = HashBits::from_bytes([0xFF; 32]);
    assert_eq!(h.lucky_number(), 255);
    assert_eq!(h.lucky_hex(), 255);
    assert_eq!(h.lucky_bits(), 65535);
    assert_eq!(h.lucky_day(), 147);
    assert_eq!(h.lucky_hour(), 7);
    assert_eq!(h.lucky_minute(), 3);
    assert_eq!(h.luck_flags(), u64::MAX);
    assert_eq!(h.luck_scores(), [255u8; 16]);
    assert_eq!(h.entropy_check(), 4095);
    assert_eq!(h.lucky_power_of_2(), 128);
    assert_eq!(h.lucky_ascii(), '@');
    assert_eq!(h.lucky_logic_gate(), "BUFFER");
    assert_eq!(h.hex_string(), "f".repeat(64));
}

#[test]
fn fields_of_all_zero_digest() {
    let h = HashBits::from_bytes([0u8; 32]);
    assert_eq!(h.lucky_number(), 0);
    assert_eq!(h.lucky_day(), 1);
    assert_eq!(h.lucky_hour(), 0);
    assert_eq!(h.lucky_minute(), 0);
    assert_eq!(h.luck_flags(), 0);
    assert_eq!(h.entropy_check(), 0);
    assert_eq!(h.lucky_power_of_2(), 1);
    assert_eq!(h.lucky_ascii(), ' ');
    assert_eq!(h.lucky_logic_gate(), "AND");
    assert_eq!(h.hex_string(), "0".repeat(64));
}

#[test]
fn fields_read_msb_first_at_their_offsets() {
    let mut b = [0u8; 32];
    b[0] = 0xAB;
    b[1] = 0x12;
    b[2] = 0xA5;
    b[3] = 0xF0;
    // bits 32..41 = 1_0110_1101 = 365 -> day 1; bits 41..46 = 11001 = 25 -> hour 1;
    // bits 46..52 = 111011 = 59 -> minute 59
    b[4] = 0b1011_0110;
    b[5] = 0b1110_0111;
    b[6] = 0b1011_0000;
    let h = HashBits::from_bytes(b);
    assert_eq!(h.lucky_number(), 0xAB);
    assert_eq!(h.lucky_hex(), 0x12);
    assert_eq!(h.lucky_bits(), 0xA5F0);
    assert_eq!(h.lucky_day(), 1);
    assert_eq!(h.lucky_hour(), 1);
    assert_eq!(h.lucky_minute(), 59);
    assert_eq!(&h.hex_string()[..14], "ab12a5f0b6e7b0");
}

#[test]
fn flags_and_scores_offsets() {
    let mut b = [0u8; 32];
    // bit 115 is the least significant flag bit: byte 14, lowest bit.
    b[14] = 0b0001_0000 | 0x01;
    // score of category 0 is bits 116..124: low nibble of byte 14 and high nibble of byte 15.
    b[15] = 0xC0;
    // the entropy check is the low 12 bits of the last 1.5 bytes.
    b[30] = 0x0A;
    b[31] = 0xBC;
    let h = HashBits::from_bytes(b);
    assert_eq!(h.luck_flags(), 1);
    let scores = h.luck_scores();
    assert_eq!(scores[0], 0x1C);
    assert_eq!(h.entropy_check(), 0xABC);
}
