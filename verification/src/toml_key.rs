//! How a key is written in a TOML table header or inline table.

use vstd::prelude::*;
use crate::external::{hex4, hex_digit, toml_basic_string, toml_edit_single_entry, toml_escaped, toml_escaped_char, toml_string_value};
use crate::text::{
    char_is_control, char_is_white_space, chars_of, is_control, is_white_space, string_of,
    trim_end_char, trim_end_char_chars, trim_end_white_space, trim_end_white_space_chars,
};
use crate::toml_syntax::{
    basic_body, decode_basic, decode_key, hex_digit_value, hex_digits_value, hex_escape_ok,
    inner, is_bare_key, is_bare_key_char, is_basic_token, is_basic_unescaped, is_hex_digit,
    is_key_token, is_literal_token, is_toml_key, key_parses, key_raw, radix16_digits,
};

verus! {

/// Whether some character of `s` is white space or a control character.
pub open spec fn has_space_or_control(s: Seq<char>) -> bool {
    exists|i: int| 0 <= i < s.len() && (is_white_space(#[trigger] s[i]) || is_control(s[i]))
}

/// Keys `escape_key` accepts: those with white space or control characters, which the
/// `toml` crate quotes, and the others that `toml_edit` takes as a key.
pub open spec fn escapable_key(s: Seq<char>) -> bool {
    has_space_or_control(s) || key_parses(s)
}

/// The entry `key = 0` as text, with the value, the `=` and the spaces around them cut
/// off at the end.
pub open spec fn key_of_entry(entry: Seq<char>) -> Seq<char> {
    trim_end_white_space(
        trim_end_char(
            trim_end_white_space(trim_end_char(trim_end_white_space(entry), '0')),
            '=',
        ),
    )
}

/// How `escape_key` writes `s`: as a quoted TOML string where it holds white space or
/// a control character, otherwise as `toml_edit` writes the key it takes from `s`.
pub open spec fn escaped_key(s: Seq<char>) -> Seq<char> {
    if has_space_or_control(s) {
        toml_basic_string(s)
    } else {
        key_raw(s)
    }
}

/// A key written on one line: no line feed or carriage return, and either the text
/// itself or a text between double quotes.
pub open spec fn one_line_key(r: Seq<char>, s: Seq<char>) -> bool {
    &&& !r.contains('\n')
    &&& !r.contains('\r')
    &&& (r == s || (r.len() >= 2 && r[0] == '"' && r.last() == '"'))
}

/// A text with no `"`, `'` or `\`.
pub open spec fn has_no_quotes(s: Seq<char>) -> bool {
    !s.contains('"') && !s.contains('\'') && !s.contains('\\')
}

/// Whether `s` holds white space or a control character.
pub fn has_space_or_control_exec(s: &Vec<char>) -> (r: bool)
    ensures
        r == has_space_or_control(s@),
{
    let mut i: usize = 0;
    while i < s.len()
        invariant
            i <= s.len(),
            forall|j: int| 0 <= j < i ==> !(is_white_space(#[trigger] s@[j]) || is_control(s@[j])),
        decreases s.len() - i,
    {
        if char_is_white_space(s[i]) || char_is_control(s[i]) {
            return true;
        }
        i = i + 1;
    }
    false
}

/// Whether `escape_key` accepts `s`.
pub fn is_escapable_key(s: &str) -> (r: bool)
    ensures
        r == escapable_key(s@),
{
    let v = chars_of(s);
    has_space_or_control_exec(&v) || is_toml_key(s)
}

/// Writes `s` as a TOML key: quoted by the `toml` crate where it holds white space or
/// control characters, otherwise as `toml_edit` writes it in the entry `s = 0`. A text
/// with no quote, apostrophe or backslash is always accepted and comes out on one line,
/// as it stands or between double quotes.
pub fn escape_key(s: &str) -> (r: String)
    requires
        escapable_key(s@),
    ensures
        r@ == escaped_key(s@),
        is_bare_key(s@) ==> r@ == s@,
        has_no_quotes(s@) ==> one_line_key(r@, s@),
{
    let v = chars_of(s);
    if has_space_or_control_exec(&v) {
        proof {
            if is_bare_key(s@) {
                lemma_bare_key_has_no_space(s@);
            }
            lemma_basic_string_one_line(s@);
        }
        return toml_string_value(s);
    }
    let entry = toml_edit_single_entry(s);
    let e0 = chars_of(entry.as_str());
    let e1 = trim_end_white_space_chars(&e0);
    let e2 = trim_end_char_chars(&e1, '0');
    let e3 = trim_end_white_space_chars(&e2);
    let e4 = trim_end_char_chars(&e3, '=');
    let e5 = trim_end_white_space_chars(&e4);
    proof {
        lemma_raw_of_entry(s@);
        if has_no_quotes(s@) {
            lemma_plain_key_raw(s@);
        }
    }
    string_of(&e5)
}

/// A text with no quote, apostrophe or backslash is a key `escape_key` accepts.
pub proof fn lemma_plain_keys_escapable(s: Seq<char>)
    requires
        has_no_quotes(s),
    ensures
        escapable_key(s),
{
    if !has_space_or_control(s) {
        lemma_plain_key_raw(s);
    }
}

/// Without white space, controls, quotes or backslashes, a text is a bare key or a
/// basic string body, and `toml_edit` writes it as it stands or in double quotes.
proof fn lemma_plain_key_raw(s: Seq<char>)
    requires
        has_no_quotes(s),
        !has_space_or_control(s),
    ensures
        key_parses(s),
        one_line_key(key_raw(s), s),
{
    assert forall|i: int| 0 <= i < s.len() implies is_basic_unescaped(#[trigger] s[i]) by {
        assert(!(is_white_space(s[i]) || is_control(s[i])));
        assert(s.contains(s[i]));
    }
    lemma_unescaped_basic_body(s);
    assert(!is_basic_token(s)) by {
        if s.len() >= 2 && s[0] == '"' {
            assert(s.contains(s[0]));
        }
    }
    assert(!is_literal_token(s)) by {
        if s.len() >= 2 && s[0] == '\'' {
            assert(s.contains(s[0]));
        }
    }
    let r = key_raw(s);
    assert(!r.contains('\n')) by {
        if r.contains('\n') {
            let j = choose|j: int| 0 <= j < r.len() && r[j] == '\n';
            if r != s {
                assert(0 < j < r.len() - 1);
                assert(r[j] == s[j - 1]);
                assert(is_basic_unescaped(s[j - 1]));
            } else {
                assert(is_basic_unescaped(s[j]));
            }
        }
    }
    assert(!r.contains('\r')) by {
        if r.contains('\r') {
            let j = choose|j: int| 0 <= j < r.len() && r[j] == '\r';
            if r != s {
                assert(0 < j < r.len() - 1);
                assert(r[j] == s[j - 1]);
                assert(is_basic_unescaped(s[j - 1]));
            } else {
                assert(is_basic_unescaped(s[j]));
            }
        }
    }
}

/// Text of unescaped characters only is a basic string body.
proof fn lemma_unescaped_basic_body(s: Seq<char>)
    requires
        forall|i: int| 0 <= i < s.len() ==> is_basic_unescaped(#[trigger] s[i]),
    ensures
        basic_body(s),
    decreases s.len(),
{
    if s.len() > 0 {
        assert forall|i: int| 0 <= i < s.drop_first().len() implies is_basic_unescaped(
            #[trigger] s.drop_first()[i],
        ) by {
            assert(s.drop_first()[i] == s[i + 1]);
        }
        lemma_unescaped_basic_body(s.drop_first());
    }
}

/// The escapes of a character hold no line feed or carriage return.
proof fn lemma_escaped_char_one_line(c: char)
    ensures
        !toml_escaped_char(c).contains('\n'),
        !toml_escaped_char(c).contains('\r'),
{
    let e = toml_escaped_char(c);
    if e.contains('\n') || e.contains('\r') {
        let j = choose|j: int| 0 <= j < e.len() && (e[j] == '\n' || e[j] == '\r');
        if c <= '\u{1f}' || c == '\u{7f}' {
            if !(c == '\u{8}' || c == '\u{9}' || c == '\u{a}' || c == '\u{c}' || c == '\u{d}' || c == '"' || c == '\\') {
                let h = crate::external::hex4(c as int);
                assert(e == seq!['\\', 'u'] + h);
                if j >= 2 {
                    assert(e[j] == h[j - 2]);
                }
            }
        }
    }
}

/// A TOML basic string as the `toml` crate writes it is on one line, between quotes.
proof fn lemma_basic_string_one_line(s: Seq<char>)
    ensures
        one_line_key(toml_basic_string(s), s),
{
    lemma_escaped_one_line(s);
    let r = toml_basic_string(s);
    let e = toml_escaped(s);
    assert(r.len() >= 2);
    assert(r[0] == '"');
    assert(r.last() == '"');
    assert(!r.contains('\n')) by {
        if r.contains('\n') {
            let j = choose|j: int| 0 <= j < r.len() && r[j] == '\n';
            assert(0 < j < r.len() - 1);
            assert(r[j] == e[j - 1]);
        }
    }
    assert(!r.contains('\r')) by {
        if r.contains('\r') {
            let j = choose|j: int| 0 <= j < r.len() && r[j] == '\r';
            assert(0 < j < r.len() - 1);
            assert(r[j] == e[j - 1]);
        }
    }
}

/// The escaped characters of a text hold no line feed or carriage return.
proof fn lemma_escaped_one_line(s: Seq<char>)
    ensures
        !toml_escaped(s).contains('\n'),
        !toml_escaped(s).contains('\r'),
    decreases s.len(),
{
    if s.len() > 0 {
        lemma_escaped_one_line(s.drop_first());
        lemma_escaped_char_one_line(s[0]);
        let a = toml_escaped_char(s[0]);
        let b = toml_escaped(s.drop_first());
        assert(toml_escaped(s) == a + b);
        if (a + b).contains('\n') || (a + b).contains('\r') {
            let j = choose|j: int| 0 <= j < (a + b).len() && ((a + b)[j] == '\n' || (a + b)[j] == '\r');
            if j < a.len() {
                assert((a + b)[j] == a[j]);
            } else {
                assert((a + b)[j] == b[j - a.len()]);
            }
        }
    }
}

/// A text with no quote, apostrophe or backslash is written by `escape_key` as a key
/// that stands for that text: read back as TOML reads a key (a basic string decoded, a
/// bare key as it is), it gives the text again.
pub proof fn lemma_escaped_key_denotes(s: Seq<char>)
    requires
        has_no_quotes(s),
    ensures
        escapable_key(s),
        is_key_token(escaped_key(s)),
        decode_key(escaped_key(s)) == s,
{
    lemma_plain_keys_escapable(s);
    if has_space_or_control(s) {
        let r = toml_basic_string(s);
        lemma_escaped_decodes(s);
        assert(inner(r) =~= toml_escaped(s));
        assert(r[0] == '"');
        assert(r.last() == '"');
    } else {
        lemma_plain_key_raw(s);
        assert forall|i: int| 0 <= i < s.len() implies is_basic_unescaped(#[trigger] s[i]) by {
            assert(!(is_white_space(s[i]) || is_control(s[i])));
            assert(s.contains(s[i]));
        }
        lemma_unescaped_decodes(s);
        if !is_bare_key(s) {
            let r = key_raw(s);
            assert(!is_basic_token(s)) by {
                if s.len() >= 2 && s[0] == '"' {
                    assert(s.contains(s[0]));
                }
            }
            assert(!is_literal_token(s)) by {
                if s.len() >= 2 && s[0] == '\'' {
                    assert(s.contains(s[0]));
                }
            }
            assert(r == seq!['"'] + s + seq!['"']);
            assert(inner(r) =~= s);
        } else {
            assert(!is_basic_token(s)) by {
                if s.len() >= 2 {
                    assert(is_bare_key_char(s[0]));
                }
            }
            assert(!is_literal_token(s)) by {
                if s.len() >= 2 {
                    assert(is_bare_key_char(s[0]));
                }
            }
        }
    }
}

/// Unescaped characters stand for themselves.
proof fn lemma_unescaped_decodes(s: Seq<char>)
    requires
        forall|i: int| 0 <= i < s.len() ==> is_basic_unescaped(#[trigger] s[i]),
    ensures
        basic_body(s),
        decode_basic(s) == s,
    decreases s.len(),
{
    if s.len() > 0 {
        assert forall|i: int| 0 <= i < s.drop_first().len() implies is_basic_unescaped(
            #[trigger] s.drop_first()[i],
        ) by {
            assert(s.drop_first()[i] == s[i + 1]);
        }
        lemma_unescaped_decodes(s.drop_first());
        assert(seq![s[0]] + s.drop_first() =~= s);
    }
}

/// A hexadecimal digit as `{:X}` writes it is read back as its value.
proof fn lemma_hex_digit_back(d: int)
    requires
        0 <= d < 16,
    ensures
        is_hex_digit(hex_digit(d)),
        hex_digit_value(hex_digit(d)) == d,
{
}

/// Four hexadecimal digits of a control character name it.
proof fn lemma_hex4_back(c: char)
    requires
        c <= '\u{1f}' || c == '\u{7f}',
    ensures
        hex_escape_ok(hex4(c as int)),
        crate::toml_syntax::hex_escape_char(hex4(c as int)) == c,
{
    let n = c as int;
    let h = hex4(n);
    assert(0 <= n < 128);
    assert(n / 4096 == 0);
    assert((n / 256) % 16 == 0);
    assert((n / 16) % 16 == n / 16);
    lemma_hex_digit_back(0);
    lemma_hex_digit_back(n / 16);
    lemma_hex_digit_back(n % 16);
    assert(radix16_digits(h) == h);
    assert forall|i: int| 0 <= i < h.len() implies is_hex_digit(#[trigger] h[i]) by {}
    assert(h.drop_last().drop_last().drop_last().drop_last() =~= Seq::<char>::empty());
    assert(hex_digits_value(h) == n) by {
        reveal_with_fuel(hex_digits_value, 5);
        assert(h.drop_last().last() == hex_digit(n / 16));
        assert(h.drop_last().drop_last().last() == hex_digit(0));
        assert(h.drop_last().drop_last().drop_last().last() == hex_digit(0));
        assert(n == (n / 16) * 16 + n % 16);
    }
}

/// The escapes of a character are a basic string body that stands for it.
proof fn lemma_escaped_char_decodes(c: char, t: Seq<char>)
    requires
        basic_body(t),
    ensures
        basic_body(toml_escaped_char(c) + t),
        decode_basic(toml_escaped_char(c) + t) == seq![c] + decode_basic(t),
{
    let e = toml_escaped_char(c);
    let b = e + t;
    if c == '\u{8}' || c == '\u{9}' || c == '\u{a}' || c == '\u{c}' || c == '\u{d}' || c == '"' || c == '\\' {
        assert(b[0] == '\\');
        assert(b[1] == e[1]);
        assert(b.skip(2) =~= t);
    } else if c <= '\u{1f}' || c == '\u{7f}' {
        lemma_hex4_back(c);
        assert(b[0] == '\\');
        assert(b[1] == 'u');
        assert(b.subrange(2, 6) =~= hex4(c as int));
        assert(b.skip(6) =~= t);
    } else {
        assert(is_basic_unescaped(c));
        assert(b[0] == c);
        assert(b.drop_first() =~= t);
    }
}

/// The escaped characters of a text are a basic string body that stands for the text.
proof fn lemma_escaped_decodes(s: Seq<char>)
    ensures
        basic_body(toml_escaped(s)),
        decode_basic(toml_escaped(s)) == s,
    decreases s.len(),
{
    if s.len() > 0 {
        lemma_escaped_decodes(s.drop_first());
        lemma_escaped_char_decodes(s[0], toml_escaped(s.drop_first()));
        assert(seq![s[0]] + s.drop_first() =~= s);
    }
}

/// A bare key holds no white space and no control character.
proof fn lemma_bare_key_has_no_space(s: Seq<char>)
    requires
        is_bare_key(s),
    ensures
        !has_space_or_control(s),
{
    assert forall|i: int| 0 <= i < s.len() implies !(is_white_space(#[trigger] s[i]) || is_control(s[i])) by {
        let c = s[i];
        assert(('A' <= c && c <= 'Z') || ('a' <= c && c <= 'z') || ('0' <= c && c <= '9') || c == '-' || c == '_');
    }
}

/// Trimming white space off `a + b`, where `b` is all white space and `a` does not end
/// in white space, gives `a`.
proof fn lemma_trim_white_space_suffix(a: Seq<char>, b: Seq<char>)
    requires
        forall|i: int| 0 <= i < b.len() ==> is_white_space(#[trigger] b[i]),
        a.len() == 0 || !is_white_space(a.last()),
    ensures
        trim_end_white_space(a + b) == a,
    decreases b.len(),
{
    if b.len() == 0 {
        assert(a + b =~= a);
    } else {
        assert((a + b).drop_last() =~= a + b.drop_last());
        assert((a + b).last() == b.last());
        lemma_trim_white_space_suffix(a, b.drop_last());
    }
}

/// Trimming `c` off `a + b`, where `b` is all `c` and `a` does not end in `c`, gives `a`.
proof fn lemma_trim_char_suffix(a: Seq<char>, b: Seq<char>, c: char)
    requires
        forall|i: int| 0 <= i < b.len() ==> #[trigger] b[i] == c,
        a.len() == 0 || a.last() != c,
    ensures
        trim_end_char(a + b, c) == a,
    decreases b.len(),
{
    if b.len() == 0 {
        assert(a + b =~= a);
    } else {
        assert((a + b).drop_last() =~= a + b.drop_last());
        assert((a + b).last() == b.last());
        lemma_trim_char_suffix(a, b.drop_last(), c);
    }
}

/// The key comes back out of `raw = 0` and a newline.
proof fn lemma_raw_of_entry(s: Seq<char>)
    requires
        key_parses(s),
    ensures
        key_of_entry(key_raw(s) + seq![' ', '=', ' ', '0', '\n']) == key_raw(s),
{
    let k = key_raw(s);
    assert(k.len() > 0 && !is_white_space(k.last())) by {
        if is_bare_key(s) && k == s {
            assert(is_bare_key_char(s[s.len() - 1]));
        }
    }
    let e = k + seq![' ', '=', ' ', '0', '\n'];
    let s1 = k + seq![' ', '=', ' ', '0'];
    assert(e =~= s1 + seq!['\n']);
    lemma_trim_white_space_suffix(s1, seq!['\n']);
    let s2 = k + seq![' ', '=', ' '];
    assert(s1 =~= s2 + seq!['0']);
    lemma_trim_char_suffix(s2, seq!['0'], '0');
    let s3 = k + seq![' ', '='];
    assert(s2 =~= s3 + seq![' ']);
    lemma_trim_white_space_suffix(s3, seq![' ']);
    let s4 = k + seq![' '];
    assert(s3 =~= s4 + seq!['=']);
    lemma_trim_char_suffix(s4, seq!['='], '=');
    lemma_trim_white_space_suffix(k, seq![' ']);
}

} // verus!
