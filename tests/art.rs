use hash_omikuji::art::{bar_art, generate_omikuji_art};
use sha2::{Digest, Sha256};

fn make_hash(seed: &[u8]) -> [u8; 32] {
    let result = Sha256::digest(seed);
    let mut hash = [0u8; 32];
    hash.copy_from_slice(&result);
    hash
}

#[test]
fn test_art_length() {
    let hash = make_hash(b"test");
    let art = generate_omikuji_art(&hash);
    assert_eq!(art.chars().count(), 32, "Should have 32 bar characters");
}

#[test]
fn test_art_deterministic() {
    let hash = make_hash(b"test-seed");
    let art1 = generate_omikuji_art(&hash);
    let art2 = generate_omikuji_art(&hash);
    assert_eq!(art1, art2);
}

#[test]
fn test_different_hashes_different_art() {
    let hash1 = make_hash(b"alice");
    let hash2 = make_hash(b"bob");
    let art1 = generate_omikuji_art(&hash1);
    let art2 = generate_omikuji_art(&hash2);
    assert_ne!(art1, art2);
}

#[test]
fn test_art_contains_only_bar_chars() {
    let hash = make_hash(b"random-test-seed");
    let art = generate_omikuji_art(&hash);
    let valid_chars: &[char] = &[' ', '▁', '▂', '▃', '▄', '▅', '▆', '▇', '█'];
    for ch in art.chars() {
        assert!(
            valid_chars.contains(&ch),
            "Invalid character in art: '{}' (code: {})",
            ch,
            ch as u32
        );
    }
}

#[test]
fn test_art_many_seeds() {
    for i in 0..100 {
        let seed = format!("test-seed-{}", i);
        let hash = make_hash(seed.as_bytes());
        let art = generate_omikuji_art(&hash);
        assert_eq!(art.chars().count(), 32, "Seed {} should produce 32 chars", seed);
    }
}

#[test]
fn test_art_variety() {
    let mut unique_arts = std::collections::HashSet::new();
    for i in 0..20 {
        let seed = format!("variety-test-{}", i);
        let hash = make_hash(seed.as_bytes());
        let art = generate_omikuji_art(&hash);
        unique_arts.insert(art);
    }
    assert!(
        unique_arts.len() >= 15,
        "Should have at least 15 unique patterns out of 20, got {}",
        unique_arts.len()
    );
}

#[test]
fn test_all_zeros_concentrated() {
    let hash = [0u8; 32];
    let art = generate_omikuji_art(&hash);
    assert!(art.contains('█'), "All zeros should produce concentrated visits");
}

#[test]
fn all_zero_walk_exact() {
    // 128 left moves from cell 16 visit every cell four times.
    let art = generate_omikuji_art(&[0u8; 32]);
    assert_eq!(art, "█".repeat(32));
}

#[test]
fn all_stay_walk_exact() {
    // 0x55 is four "stay" steps per byte: all 128 visits land on cell 16.
    let art = generate_omikuji_art(&[0x55u8; 32]);
    let mut expected = " ".repeat(16);
    expected.push('█');
    expected.push_str(&" ".repeat(15));
    assert_eq!(art, expected);
}

#[test]
fn bar_art_all_zero_is_lowest() {
    let art = bar_art(&[0u8; 32]);
    assert_eq!(art.chars().count(), 16);
    assert_eq!(art, "▁".repeat(16));
}

#[test]
fn bar_art_all_ff_is_highest() {
    let art = bar_art(&[0xFFu8; 32]);
    assert_eq!(art.chars().count(), 16);
    assert_eq!(art, "█".repeat(16));
}

#[test]
fn bar_art_levels_by_eighths() {
    let mut b = [0u8; 32];
    for i in 0..16 {
        b[i] = (i as u8) * 16;
    }
    b[20] = 0xFF;
    let art = bar_art(&b);
    assert_eq!(art, "▁▁▂▂▃▃▄▄▅▅▆▆▇▇██");
}
