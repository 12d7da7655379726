use hash_omikuji::hash::HashBits;
use hash_omikuji::luck::{LuckScore, LuckType, Rank};
use hash_omikuji::output::{
    format_bit_quad, format_color, format_day, format_entropy, format_hex_byte, format_time,
    OmikujiResult,
};

fn create_test_result() -> OmikujiResult {
    let hash = HashBits::from_seed(2026, "test-user");
    OmikujiResult::from_hash(&hash, 2026, "test-user")
}

#[test]
fn test_result_deterministic() {
    let result1 = create_test_result();
    let result2 = create_test_result();
    assert_eq!(result1.fingerprint, result2.fingerprint);
    assert_eq!(result1.lucky_number, result2.lucky_number);
}

#[test]
fn test_result_year() {
    let result = create_test_result();
    assert_eq!(result.year, 2026);
}

#[test]
fn test_result_seed() {
    let result = create_test_result();
    assert_eq!(result.seed, "test-user");
}

#[test]
fn test_lucky_hex_format() {
    let result = create_test_result();
    assert!(result.lucky_hex.starts_with("0x"));
    assert_eq!(result.lucky_hex.len(), 4);
}

#[test]
fn test_lucky_color_format() {
    let result = create_test_result();
    assert!(result.lucky_color.starts_with('#'));
    assert_eq!(result.lucky_color.len(), 7);
}

#[test]
fn test_lucky_bits_format() {
    let result = create_test_result();
    assert_eq!(result.lucky_bits.len(), 19);
    assert!(result.lucky_bits.chars().all(|c| c == '0' || c == '1' || c == ' '));
}

#[test]
fn test_lucky_day_contains_year() {
    let result = create_test_result();
    assert!(result.lucky_day.contains("2026"));
}

#[test]
fn test_lucky_day_number_range() {
    let result = create_test_result();
    assert!(result.lucky_day_number >= 1 && result.lucky_day_number <= 365);
}

#[test]
fn test_lucky_time_format() {
    let result = create_test_result();
    assert_eq!(result.lucky_time.len(), 5);
    assert!(result.lucky_time.contains(':'));
}

#[test]
fn output_test_luck_scores_count() {
    let result = create_test_result();
    assert_eq!(result.luck_scores.len(), 16);
}

#[test]
fn test_entropy_check_format() {
    let result = create_test_result();
    assert!(result.entropy_check.starts_with("0x"));
}

#[test]
fn test_fingerprint_length() {
    let result = create_test_result();
    assert_eq!(result.fingerprint.len(), 64);
}

#[test]
fn test_format_text_contains_header() {
    let result = create_test_result();
    let text = result.format_text(false, false);
    assert!(text.contains("SHA-Omikuji 2026"));
}

#[test]
fn test_format_text_short_mode() {
    let result = create_test_result();
    let text_full = result.format_text(false, false);
    let text_short = result.format_text(true, false);
    assert!(text_short.len() <= text_full.len());
}

#[test]
fn test_format_text_show_seed() {
    let result = create_test_result();
    let text_with_seed = result.format_text(false, true);
    let text_without_seed = result.format_text(false, false);
    assert!(text_with_seed.contains("Seed"));
    assert!(text_with_seed.contains("Fingerprint"));
    assert!(!text_without_seed.contains("Seed"));
}

#[test]
fn field_formats_exact() {
    assert_eq!(format_hex_byte(0xAB), "0xAB");
    assert_eq!(format_hex_byte(0x05), "0x05");
    assert_eq!(format_color(0x10, 0x20), "#102018");
    assert_eq!(format_color(200, 100), "#C86416");
    assert_eq!(format_bit_quad(0xA5F0), "1010 0101 1111 0000");
    assert_eq!(format_bit_quad(1), "0000 0000 0000 0001");
    assert_eq!(format_time(7, 5), "07:05");
    assert_eq!(format_time(23, 59), "23:59");
    assert_eq!(format_entropy(0xABC), "0xABC");
    assert_eq!(format_entropy(5), "0x005");
}

#[test]
fn day_format_uses_the_calendar() {
    assert_eq!(format_day(2026, 1), "2026-01-01 (1 / 365)");
    assert_eq!(format_day(2026, 32), "2026-02-01 (32 / 365)");
    assert_eq!(format_day(2026, 365), "2026-12-31 (365 / 365)");
    assert_eq!(format_day(2024, 60), "2024-02-29 (60 / 365)");
}

#[test]
fn result_of_all_ones_digest() {
    let hash = HashBits::from_bytes([0xFF; 32]);
    let r = OmikujiResult::from_hash(&hash, 2026, "x");
    assert_eq!(r.lucky_number, 255);
    assert_eq!(r.lucky_hex, "0xFF");
    assert_eq!(r.lucky_color, "#FFFF7F");
    assert_eq!(r.lucky_bits, "1111 1111 1111 1111");
    assert_eq!(r.lucky_day_number, 147);
    assert_eq!(r.lucky_day, "2026-05-27 (147 / 365)");
    assert_eq!(r.lucky_time, "07:03");
    assert_eq!(r.entropy_check, "0xFFF");
    assert_eq!(r.fingerprint, "f".repeat(64));
    assert_eq!(r.omikuji_art, "█".repeat(16));
    for (i, s) in r.luck_scores.iter().enumerate() {
        assert_eq!(s.luck_type, LuckType::ALL[i]);
        assert_eq!(s.score, 100);
        assert_eq!(s.rank, Rank::Excellent);
        assert!(s.active);
    }
}

fn result_with_scores(scores: &[(u8, bool)]) -> OmikujiResult {
    let hash = HashBits::from_bytes([0u8; 32]);
    let mut r = OmikujiResult::from_hash(&hash, 2026, "s");
    for (i, (raw, active)) in scores.iter().enumerate() {
        r.luck_scores[i] = LuckScore::new(LuckType::ALL[i], *raw, *active);
    }
    r
}

#[test]
fn scores_are_ranked_highest_first_and_stable() {
    let r = result_with_scores(&[
        (100, true),
        (255, true),
        (100, true),
        (250, false),
        (0, true),
        (200, true),
        (100, true),
        (50, true),
    ]);
    let text = r.format_text(false, false);
    let block = text.split("Luck Scores :\n").nth(1).unwrap();
    let lines: Vec<&str> = block.lines().take_while(|l| !l.is_empty()).collect();
    assert_eq!(
        lines,
        vec![
            "Health Luck       : 100 (Excellent)",
            "Marriage Luck     :  78 (Good)",
            "Life Luck         :  39 (Bad)",
            "Wealth Luck       :  39 (Bad)",
            "Family Luck       :  39 (Bad)",
            "Friendship Luck   :  19 (Bad)",
            "Love Luck         :   0 (Terrible)",
        ]
    );
    let short = r.format_text(true, false);
    let block = short.split("Luck Scores :\n").nth(1).unwrap();
    let lines: Vec<&str> = block.lines().take_while(|l| !l.is_empty()).collect();
    assert_eq!(lines.len(), 5);
    assert!(short.contains("Active Luck Flags :\n\u{2714} Life  \u{2714} Health  \u{2714} Wealth  \u{2716} Career  \u{2714} Love\n\n"));
}

#[test]
fn full_text_exact() {
    let hash = HashBits::from_bytes([0u8; 32]);
    let r = OmikujiResult::from_hash(&hash, 2026, "zero");
    let text = r.format_text(false, true);
    let mut expected = String::new();
    expected.push_str("\u{1F38D} SHA-Omikuji 2026 \u{1F38D}\n\n");
    expected.push_str("Lucky Number      : 0\n");
    expected.push_str("Lucky Hex         : 0x00\n");
    expected.push_str("Lucky Color       : #000000\n");
    expected.push_str("Lucky Bits        : 0000 0000 0000 0000\n\n");
    expected.push_str("Lucky Day         : 2026-01-01 (1 / 365)\n");
    expected.push_str("Lucky Time        : 00:00\n\n");
    expected.push_str("Active Luck Flags :\n");
    let names = [
        "Life", "Health", "Wealth", "Career", "Love", "Marriage", "Family", "Friendship", "Study",
        "Challenge", "Opportunity", "Motivation", "Debug", "WiFi", "Windfall", "Chaos",
    ];
    let flags: Vec<String> = names.iter().map(|n| format!("\u{2716} {}", n)).collect();
    expected.push_str(&flags.join("  "));
    expected.push_str("\n\n");
    expected.push_str("Luck Scores :\n\n");
    expected.push_str("Entropy Check     : OK (0x000)\n");
    expected.push_str("\n[ Omikuji Art ]\n");
    expected.push_str(&"\u{2581}".repeat(16));
    expected.push_str("\n");
    expected.push_str("\nSeed              : zero\n");
    expected.push_str(&format!("Fingerprint       : {}\n", "0".repeat(64)));
    assert_eq!(text, expected);
}
