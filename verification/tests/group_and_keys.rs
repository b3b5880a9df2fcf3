use cargo_compete::options::ColorChoice;
use cargo_compete::group::Group;
use cargo_compete::toml_key::{escape_key, is_escapable_key};

#[test]
fn contest_of_each_group() {
    assert_eq!(Group::Atcoder("abc123".to_string()).contest(), Some("abc123"));
    assert_eq!(Group::Codeforces("1234".to_string()).contest(), Some("1234"));
    assert_eq!(Group::YukicoderContest("300".to_string()).contest(), Some("300"));
    assert_eq!(Group::OjApi("x".to_string()).contest(), Some("x"));
    assert_eq!(Group::YukicoderProblems.contest(), None);
}

#[test]
fn package_name_of_each_group() {
    assert_eq!(Group::Atcoder("abc123".to_string()).package_name(), "abc123");
    assert_eq!(Group::Codeforces("1234".to_string()).package_name(), "contest1234");
    assert_eq!(Group::YukicoderContest("300".to_string()).package_name(), "contest300");
    assert_eq!(Group::YukicoderProblems.package_name(), "problems");
    assert_eq!(Group::OjApi("".to_string()).package_name(), "");
    assert_eq!(Group::OjApi("\u{ff11}x".to_string()).package_name(), "\u{ff11}x");
}

#[test]
fn bare_keys_stay_as_they_are() {
    for k in ["a", "abc-1", "A_b", "0"].iter() {
        assert!(is_escapable_key(k));
        assert_eq!(escape_key(k), *k);
    }
}

#[test]
fn keys_with_white_space_or_control_are_basic_strings() {
    assert_eq!(escape_key("a b"), "\"a b\"");
    assert_eq!(escape_key("a\tb"), "\"a\\tb\"");
    assert_eq!(escape_key("\u{1}"), "\"\\u0001\"");
    assert_eq!(escape_key("\"q\" x"), "\"\\\"q\\\" x\"");
    assert_eq!(escape_key("\u{7f}"), "\"\\u007F\"");
    assert_eq!(escape_key("a\u{3000}"), "\"a\u{3000}\"");
}

#[test]
fn other_keys_are_quoted_by_toml_edit() {
    assert_eq!(escape_key("a.b"), "\"a.b\"");
    assert_eq!(escape_key(""), "\"\"");
    assert_eq!(escape_key("it's"), "\"it's\"");
    assert_eq!(escape_key("a\\b"), "\"a\\b\"");
    assert_eq!(escape_key("a\\q"), "'a\\q'");
}

#[test]
fn keys_toml_edit_refuses_are_not_escapable() {
    assert!(!is_escapable_key("'\\"));
    assert!(!is_escapable_key("a\\q'"));
    assert!(!is_escapable_key("\\uD800'"));
    assert!(is_escapable_key("' \"")); // white space: quoted by `toml`
}

#[test]
fn quoted_keys_stay_as_toml_edit_takes_them() {
    assert_eq!(escape_key("'\"'"), "'\"'");
    assert_eq!(escape_key("\"a'b\""), "\"a'b\"");
    assert_eq!(escape_key("\\\"'"), "\"\\\"'\"");
    assert_eq!(escape_key("\\u00E9'"), "\"\\u00E9'\"");
    assert_eq!(escape_key("\\u+0E9'"), "\"\\u+0E9'\"");
    assert_eq!(escape_key("\"\\x\""), "'\"\\x\"'");
}

#[test]
fn keys_without_quotes_come_out_on_one_line() {
    for k in ["a", "a.b", "a b", "a\nb", "x\r", "\u{3042}", ""].iter() {
        assert!(is_escapable_key(k));
        let r = escape_key(k);
        assert!(!r.contains('\n') && !r.contains('\r'));
        assert!(r == *k || (r.len() >= 2 && r.starts_with('"') && r.ends_with('"')));
    }
    assert_eq!(escape_key("a\nb"), "\"a\\nb\"");
    assert_eq!(escape_key("\u{3042}"), "\"\u{3042}\"");
}

#[test]
fn unrepresentable_key_message() {
    let e = cargo_compete::error::NewError::UnrepresentableKey("a'\"b".to_string());
    assert_eq!(e.message(), "could not write a TOML key for `a'\"b`");
}

#[test]
fn color_choice_names() {
    assert_eq!(ColorChoice::Auto.name(), "auto");
    assert_eq!(ColorChoice::Always.name(), "always");
    assert_eq!(ColorChoice::Never.name(), "never");
}

#[test]
fn escaped_keys_read_back_as_the_text() {
    for k in ["a", "a.b", "a b", "a\tb", "x\u{1}y", "\u{3042}", "1.5", ""].iter() {
        let doc = format!("{} = 0", escape_key(k)).parse::<toml_edit::Document>().unwrap();
        let keys: Vec<&str> = doc.iter().map(|(key, _)| key).collect();
        assert_eq!(keys, vec![*k]);
    }
}
