use report_manager::text::{blank, contains, decimal_text, parse_u32, trim};

#[test]
fn trim_removes_unicode_whitespace_at_both_ends() {
    assert_eq!(trim("  分页查询 \t\n"), "分页查询");
    assert_eq!(trim("\u{3000}周报\u{00A0}"), "周报");
    assert_eq!(trim("a b"), "a b");
    assert_eq!(trim(""), "");
    assert_eq!(trim(" \u{2028} "), "");
}

#[test]
fn blank_means_only_whitespace() {
    assert!(blank(""));
    assert!(blank(" \t "));
    assert!(!blank(" x "));
}

#[test]
fn decimal_text_writes_numbers_like_to_string() {
    for n in [0u64, 7, 10, 15, 100, 133, 4294967295, u64::MAX] {
        assert_eq!(decimal_text(n), n.to_string());
    }
}

#[test]
fn parse_u32_agrees_with_std() {
    for s in ["15", "+7", "", "+", "-1", "-0", "007", "4294967295", "4294967296", " 1", "1 ", "12a", "99999999999999999999"] {
        assert_eq!(parse_u32(s), s.parse::<u32>().ok(), "input {:?}", s);
    }
    assert_eq!(parse_u32("15"), Some(15));
    assert_eq!(parse_u32("4294967296"), None);
}

#[test]
fn contains_finds_a_text_anywhere() {
    assert!(contains("duplicate column name: menu_id", "duplicate column name"));
    assert!(contains("abc", ""));
    assert!(!contains("duplicate column", "duplicate column name"));
    assert!(contains("x, 第3周", "，第") == false);
    assert!(contains("2026年8月3日 - 2026年8月9日，第32周", "，第"));
}

#[test]
fn parsing_a_written_number_gives_it_back() {
    for n in [0u32, 1, 9, 10, 15, 100, 65535, u32::MAX] {
        assert_eq!(parse_u32(&decimal_text(n as u64)), Some(n));
    }
}

#[test]
fn trim_agrees_with_std_on_every_small_code_point() {
    for u in (0u32..0x3100).chain([0xFEFF, 0x1680, 0x180E, 0x200B, 0x205F, 0x3000]) {
        if let Some(c) = char::from_u32(u) {
            let s = format!("{c}x y{c}{c}");
            assert_eq!(trim(&s), s.trim(), "code point {:#x}", u);
            let only = c.to_string();
            assert_eq!(blank(&only), only.trim().is_empty(), "code point {:#x}", u);
        }
    }
}
