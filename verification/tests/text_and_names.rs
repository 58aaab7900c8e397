use hopchat::username::{sanitize_identity_username, sanitize_login_username, sanitize_network_username};
use hopchat::text::{chars_of, decimal_chars, parse_unsigned_chars, split_chars, string_of, trim_chars, words_of};

#[test]
fn network_username_keeps_alphanumerics_and_underscores() {
    assert_eq!(sanitize_network_username("al!ce_99"), Some("alce_99".to_string()));
}

#[test]
fn network_username_of_only_symbols_is_refused() {
    assert_eq!(sanitize_network_username("!!|@"), None);
    assert_eq!(sanitize_network_username(""), None);
}

#[test]
fn network_username_is_capped_at_32() {
    let raw = "a".repeat(40);
    assert_eq!(sanitize_network_username(&raw), Some("a".repeat(32)));
}

#[test]
fn network_username_drops_non_ascii_letters() {
    assert_eq!(sanitize_network_username("zoë"), Some("zo".to_string()));
}

#[test]
fn network_username_sanitizing_twice_changes_nothing() {
    let once = sanitize_network_username("b-o-b..").unwrap();
    assert_eq!(sanitize_network_username(&once), Some(once.clone()));
}

#[test]
fn login_username_is_trimmed_and_sanitized() {
    assert_eq!(sanitize_login_username("  bob  \n"), "bob");
    assert_eq!(sanitize_login_username("../../etc/shadow"), "etcshadow");
}

#[test]
fn login_username_defaults_to_anon() {
    assert_eq!(sanitize_login_username("   \n"), "anon");
    assert_eq!(sanitize_login_username("%%%"), "anon");
}

#[test]
fn identity_username_is_not_capped() {
    let raw = "x".repeat(40);
    assert_eq!(sanitize_identity_username(&raw), "x".repeat(40));
    assert_eq!(sanitize_identity_username("$"), "anon");
}

#[test]
fn text_helpers_split_trim_and_words() {
    let v = chars_of("  a|b||c ");
    let t = trim_chars(&v);
    assert_eq!(string_of(&t), "a|b||c");
    let parts = split_chars(&t, '|');
    let parts: Vec<String> = parts.iter().map(|p| string_of(p)).collect();
    assert_eq!(parts, vec!["a", "b", "", "c"]);
    let w = words_of(&chars_of("  /connect   10.0.0.2 "));
    let w: Vec<String> = w.iter().map(|p| string_of(p)).collect();
    assert_eq!(w, vec!["/connect", "10.0.0.2"]);
}

#[test]
fn decimal_text_round_trips() {
    assert_eq!(string_of(&decimal_chars(0)), "0");
    assert_eq!(string_of(&decimal_chars(9878)), "9878");
    assert_eq!(parse_unsigned_chars(&chars_of("9878"), 65535), Some(9878));
    assert_eq!(parse_unsigned_chars(&chars_of("+17"), 65535), Some(17));
    assert_eq!(parse_unsigned_chars(&chars_of("65536"), 65535), None);
    assert_eq!(parse_unsigned_chars(&chars_of(""), 65535), None);
    assert_eq!(parse_unsigned_chars(&chars_of("12a"), 65535), None);
}
