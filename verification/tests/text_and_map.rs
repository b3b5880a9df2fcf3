use cargo_compete::str_map::StrMap;
use cargo_compete::text::{
    char_is_control, char_is_white_space, chars_of, replace_str, str_less, string_of,
    trim_end_char_chars, trim_end_white_space_chars,
};
use std::collections::BTreeMap;

#[test]
fn white_space_and_control_agree_with_std_on_every_char() {
    for code in 0u32..=0x10FFFF {
        if let Some(c) = char::from_u32(code) {
            assert_eq!(char_is_white_space(c), c.is_whitespace(), "{:?}", c);
            assert_eq!(char_is_control(c), c.is_control(), "{:?}", c);
        }
    }
}

#[test]
fn string_order_agrees_with_std() {
    let words = ["", "a", "b", "ab", "aa", "A", "Z", "abc", "ab\u{e9}", "\u{1F600}", "\u{ffff}", "a\u{0}"];
    for x in words.iter() {
        for y in words.iter() {
            assert_eq!(str_less(x, y), x.to_string() < y.to_string(), "{:?} {:?}", x, y);
        }
    }
}

#[test]
fn replace_agrees_with_std() {
    let cases = [
        ("a\"}b\"}", "\"}", "\" }"),
        ("\"\"}}", "\"}", "\" }"),
        ("aaaa", "aa", "b"),
        ("", "x", "y"),
        ("abc", "abcd", "z"),
        ("x\u{e9}x\u{e9}", "\u{e9}", "e"),
    ];
    for (s, p, r) in cases.iter() {
        assert_eq!(replace_str(s, p, r), s.replace(p, r));
    }
}

#[test]
fn trims_agree_with_std() {
    let s = "key = 0 \n\u{3000}";
    let v = chars_of(s);
    assert_eq!(string_of(&trim_end_white_space_chars(&v)), s.trim_end());
    let t = "x = 000";
    assert_eq!(string_of(&trim_end_char_chars(&chars_of(t), '0')), t.trim_end_matches('0'));
}

#[test]
fn str_map_keeps_btreemap_order_and_last_value() {
    let pairs = vec![
        ("b".to_string(), 1),
        ("a".to_string(), 2),
        ("c".to_string(), 3),
        ("a".to_string(), 4),
        ("B".to_string(), 5),
    ];
    let expected: BTreeMap<String, i32> = pairs.iter().cloned().collect();
    let m = StrMap::from_pairs(pairs);
    assert_eq!(m.len(), expected.len());
    for (i, (k, v)) in expected.iter().enumerate() {
        assert_eq!(m.key_at(i), k);
        assert_eq!(m.value_at(i), v);
    }
    assert_eq!(m.keys_vec(), vec!["B".to_string(), "a".to_string(), "b".to_string(), "c".to_string()]);
}

#[test]
fn str_map_insert_replaces_existing_value() {
    let mut m = StrMap::new();
    m.insert("x".to_string(), 1);
    m.insert("w".to_string(), 2);
    m.insert("x".to_string(), 3);
    assert_eq!(m.len(), 2);
    assert_eq!(m.key_at(0), "w");
    assert_eq!(*m.value_at(1), 3);
}
