use richiedrop::clock::{unix_millis, unix_seconds};
use richiedrop::text::{parse_u64, push_decimal, render_decimal};
use richiedrop::tokens::TokenRegistry;

#[test]
fn decimal_rendering() {
    assert_eq!(render_decimal(0), "0");
    assert_eq!(render_decimal(7), "7");
    assert_eq!(render_decimal(10), "10");
    assert_eq!(render_decimal(1234567890), "1234567890");
    assert_eq!(render_decimal(u128::MAX), "340282366920938463463374607431768211455");
}

#[test]
fn decimal_is_appended() {
    let mut out = String::from("port ");
    push_decimal(&mut out, 9000);
    assert_eq!(out, "port 9000");
    push_decimal(&mut out, 1);
    assert_eq!(out, "port 90001");
}

#[test]
fn parsing_plain_numbers() {
    assert_eq!(parse_u64("0"), Some(0));
    assert_eq!(parse_u64("12345"), Some(12345));
    assert_eq!(parse_u64("007"), Some(7));
    assert_eq!(parse_u64("+42"), Some(42));
    assert_eq!(parse_u64("18446744073709551615"), Some(u64::MAX));
    assert_eq!(parse_u64("00000000000000000000018446744073709551615"), Some(u64::MAX));
}

#[test]
fn parsing_refuses_what_is_no_number() {
    assert_eq!(parse_u64(""), None);
    assert_eq!(parse_u64("+"), None);
    assert_eq!(parse_u64("-1"), None);
    assert_eq!(parse_u64("++1"), None);
    assert_eq!(parse_u64("1+"), None);
    assert_eq!(parse_u64(" 1"), None);
    assert_eq!(parse_u64("1 "), None);
    assert_eq!(parse_u64("12a"), None);
    assert_eq!(parse_u64("0x10"), None);
    assert_eq!(parse_u64("1_000"), None);
    assert_eq!(parse_u64("\u{0661}\u{0662}"), None);
    assert_eq!(parse_u64("18446744073709551616"), None);
    assert_eq!(parse_u64("99999999999999999999999"), None);
}

#[test]
fn parsing_agrees_with_the_standard_reading() {
    for text in ["", "+", "0", "+0", "-0", "12", "1e3", "18446744073709551615", "18446744073709551616", "٣", "1\n"] {
        assert_eq!(parse_u64(text), text.parse::<u64>().ok(), "{:?}", text);
    }
}

#[test]
fn rendering_then_parsing_gives_the_number() {
    for n in [0u64, 1, 9, 10, 99, 100, 12345, u64::MAX] {
        assert_eq!(parse_u64(&render_decimal(n as u128)), Some(n));
    }
}

#[test]
fn the_clock_is_past_the_year_2001() {
    let secs = unix_seconds();
    let millis = unix_millis();
    assert!(secs > 1_000_000_000);
    assert!(millis / 1000 >= secs as u128);
    assert!(millis / 1000 - (secs as u128) < 60);
}

#[test]
fn registry_starts_empty() {
    let registry = TokenRegistry::new();
    assert!(!registry.contains(""));
    assert!(!registry.contains("richiedrop-1"));
}

#[test]
fn added_tokens_are_members() {
    let mut registry = TokenRegistry::new();
    registry.add("secret".to_string());
    assert!(registry.contains("secret"));
    assert!(!registry.contains("Secret"));
    assert!(!registry.contains("secret "));
    registry.add("other".to_string());
    registry.add("secret".to_string());
    assert!(registry.contains("secret"));
    assert!(registry.contains("other"));
    assert!(!registry.contains(""));
    registry.add(String::new());
    assert!(registry.contains(""));
}

#[test]
fn generated_token_names_the_time() {
    let mut registry = TokenRegistry::new();
    let token = registry.generate_at(1_700_000_000_123);
    assert_eq!(token, "richiedrop-1700000000123");
    assert!(registry.contains("richiedrop-1700000000123"));
    assert!(!registry.contains("richiedrop-1700000000124"));
    let zero = registry.generate_at(0);
    assert_eq!(zero, "richiedrop-0");
    assert!(registry.contains("richiedrop-0"));
    assert!(registry.contains("richiedrop-1700000000123"));
}

#[test]
fn generate_registers_a_token_from_the_clock() {
    let mut registry = TokenRegistry::new();
    registry.add("kept".to_string());
    let token = registry.generate();
    let digits = token.strip_prefix("richiedrop-").expect("the token starts with the prefix");
    assert!(!digits.is_empty());
    assert!(digits.chars().all(|c| c.is_ascii_digit()));
    assert!(digits.parse::<u128>().unwrap() > 1_000_000_000_000);
    assert!(registry.contains(&token));
    assert!(registry.contains("kept"));
}
