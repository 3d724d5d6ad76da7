use email_cli::decimal::to_decimal;
use email_cli::text::{decode_or, is_white_space_char, join, repeat, trim};

#[test]
fn decimal_of_small_and_large_numbers() {
    assert_eq!(to_decimal(0), "0");
    assert_eq!(to_decimal(7), "7");
    assert_eq!(to_decimal(10), "10");
    assert_eq!(to_decimal(993), "993");
    assert_eq!(to_decimal(u64::MAX), "18446744073709551615");
}

#[test]
fn decimal_reads_back_as_the_number() {
    for n in [0u64, 1, 9, 10, 99, 100, 465, 65535, 4294967295, 1234567890123] {
        assert_eq!(to_decimal(n).parse::<u64>().unwrap(), n);
    }
}

#[test]
fn trim_removes_surrounding_white_space_only() {
    assert_eq!(trim("  imap.qq.com \n"), "imap.qq.com");
    assert_eq!(trim("\t a b \r\n"), "a b");
    assert_eq!(trim(""), "");
    assert_eq!(trim(" \n\t "), "");
    assert_eq!(trim("\u{3000}全角\u{00a0}"), "全角");
    assert_eq!(trim("x"), "x");
}

#[test]
fn trim_agrees_with_std() {
    for s in ["  y  ", "\u{2028}abc\u{205f}", "a\u{200b}", " \u{85}z\u{1680}", "中 文 "] {
        assert_eq!(trim(s), s.trim());
    }
}

#[test]
fn trim_is_idempotent() {
    for s in ["  y  ", "\n\nhello world\t", "", "   "] {
        let once = trim(s);
        assert_eq!(trim(&once), once);
    }
}

#[test]
fn white_space_classification() {
    for c in ['\t', '\n', '\u{b}', '\u{c}', '\r', ' ', '\u{85}', '\u{a0}', '\u{1680}', '\u{2000}', '\u{200a}', '\u{2028}', '\u{2029}', '\u{202f}', '\u{205f}', '\u{3000}'] {
        assert!(is_white_space_char(c));
        assert!(c.is_whitespace());
    }
    for c in ['a', '0', '\u{200b}', '_', '中'] {
        assert!(!is_white_space_char(c));
        assert!(!c.is_whitespace());
    }
}

#[test]
fn repeat_and_join() {
    assert_eq!(repeat("─", 3), "───");
    assert_eq!(repeat("ab", 0), "");
    assert_eq!(repeat("═", 80).chars().count(), 80);
    let parts = vec!["a <b>".to_string(), "c <d>".to_string()];
    assert_eq!(join(&parts, ", "), "a <b>, c <d>");
    assert_eq!(join(&vec![], ", "), "");
    assert_eq!(join(&vec!["only".to_string()], ", "), "only");
}

#[test]
fn utf8_decoding() {
    assert_eq!(decode_or(&Some("会议通知".as_bytes().to_vec()), "?"), "会议通知");
    assert_eq!(decode_or(&Some(vec![0xff, 0xfe]), "?"), "?");
    assert_eq!(decode_or(&Some(vec![0xed, 0xa0, 0x80]), "?"), "?");
    assert_eq!(decode_or(&Some(vec![0xf0, 0x9f, 0x93, 0xa7]), "?"), "📧");
    assert_eq!(decode_or(&Some(vec![]), "?"), "");
    assert_eq!(decode_or(&Some(b"Hello".to_vec()), "(none)"), "Hello");
    assert_eq!(decode_or(&Some(vec![0xc3, 0x28]), "(none)"), "(none)");
    assert_eq!(decode_or(&None, "(none)"), "(none)");
}
