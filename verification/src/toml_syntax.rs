//! The TOML grammar of keys and one-line strings as `toml_edit` 0.2 reads them: which
//! texts `Key::from_str` takes, and how it writes the key it took.

use vstd::prelude::*;
use crate::text::chars_of;

verus! {

/// A character a bare key may hold: `A-Z a-z 0-9 - _`.
pub open spec fn is_bare_key_char(c: char) -> bool {
    ('A' <= c && c <= 'Z') || ('a' <= c && c <= 'z') || ('0' <= c && c <= '9') || c == '-' || c == '_'
}

/// A key that the TOML grammar allows bare: one or more of `A-Z a-z 0-9 - _`.
pub open spec fn is_bare_key(key: Seq<char>) -> bool {
    key.len() > 0 && forall|i: int| 0 <= i < key.len() ==> is_bare_key_char(#[trigger] key[i])
}

/// `basic-unescaped`: U+0020-0021, U+0023-005B, U+005D and above.
pub open spec fn is_basic_unescaped(c: char) -> bool {
    (' ' <= c && c <= '!') || ('#' <= c && c <= '[') || ']' <= c
}

/// `literal-char`: tab, U+0020-0026, U+0028 and above.
pub open spec fn is_literal_char(c: char) -> bool {
    c == '\t' || (' ' <= c && c <= '&') || '(' <= c
}

/// An ASCII hexadecimal digit.
pub open spec fn is_hex_digit(c: char) -> bool {
    ('0' <= c && c <= '9') || ('a' <= c && c <= 'f') || ('A' <= c && c <= 'F')
}

/// The value of a hexadecimal digit.
pub open spec fn hex_digit_value(c: char) -> int {
    if '0' <= c && c <= '9' {
        c as int - '0' as int
    } else if 'a' <= c && c <= 'f' {
        c as int - 'a' as int + 10
    } else {
        c as int - 'A' as int + 10
    }
}

/// The value of a run of hexadecimal digits.
pub open spec fn hex_digits_value(d: Seq<char>) -> int
    decreases d.len(),
{
    if d.len() == 0 {
        0
    } else {
        hex_digits_value(d.drop_last()) * 16 + hex_digit_value(d.last())
    }
}

/// The digits of a `u32::from_str_radix(_, 16)` text: a leading `+` is dropped.
pub open spec fn radix16_digits(s: Seq<char>) -> Seq<char> {
    if s.len() > 0 && s[0] == '+' {
        s.drop_first()
    } else {
        s
    }
}

/// The hexadecimal digits of a `\u` or `\U` escape (a `+` may lead, as
/// `u32::from_str_radix` allows) name a Unicode scalar value.
pub open spec fn hex_escape_ok(s: Seq<char>) -> bool {
    let d = radix16_digits(s);
    &&& d.len() > 0
    &&& forall|i: int| 0 <= i < d.len() ==> is_hex_digit(#[trigger] d[i])
    &&& hex_digits_value(d) <= 0x10FFFF
    &&& !(0xD800 <= hex_digits_value(d) && hex_digits_value(d) <= 0xDFFF)
}

/// Characters that may follow `\` alone in a basic string.
pub open spec fn is_simple_escape(c: char) -> bool {
    c == '\\' || c == '"' || c == '/' || c == 'b' || c == 'f' || c == 'n' || c == 'r' || c == 't'
}

/// What may stand between the quotes of a basic string: unescaped characters and
/// escapes (`\` with one of `\ " / b f n r t`, `\u` with four, `\U` with eight hex
/// characters naming a scalar value).
pub open spec fn basic_body(b: Seq<char>) -> bool
    decreases b.len(),
{
    if b.len() == 0 {
        true
    } else if is_basic_unescaped(b[0]) {
        basic_body(b.drop_first())
    } else if b[0] == '\\' && b.len() >= 2 {
        if is_simple_escape(b[1]) {
            basic_body(b.skip(2))
        } else if b[1] == 'u' {
            b.len() >= 6 && hex_escape_ok(b.subrange(2, 6)) && basic_body(b.skip(6))
        } else if b[1] == 'U' {
            b.len() >= 10 && hex_escape_ok(b.subrange(2, 10)) && basic_body(b.skip(10))
        } else {
            false
        }
    } else {
        false
    }
}

/// What may stand between the apostrophes of a literal string.
pub open spec fn literal_body(b: Seq<char>) -> bool {
    forall|i: int| 0 <= i < b.len() ==> is_literal_char(#[trigger] b[i])
}

/// Between the first and the last character.
pub open spec fn inner(s: Seq<char>) -> Seq<char> {
    s.subrange(1, s.len() - 1)
}

/// A whole basic string: `"`, a basic body, `"`.
pub open spec fn is_basic_token(s: Seq<char>) -> bool {
    s.len() >= 2 && s[0] == '"' && s.last() == '"' && basic_body(inner(s))
}

/// A whole literal string: `'`, a literal body, `'`.
pub open spec fn is_literal_token(s: Seq<char>) -> bool {
    s.len() >= 2 && s[0] == '\'' && s.last() == '\'' && literal_body(inner(s))
}

/// A text that is a key as it stands: bare, or a whole basic or literal string.
pub open spec fn is_key_token(s: Seq<char>) -> bool {
    is_bare_key(s) || is_basic_token(s) || is_literal_token(s)
}

/// The texts `toml_edit::Key::from_str` takes: the text as a key, else the text between
/// double quotes, else between apostrophes.
pub open spec fn key_parses(s: Seq<char>) -> bool {
    is_key_token(s) || basic_body(s) || literal_body(s)
}

/// How `toml_edit` writes the key it took from `s`: as it stands, or in the quotes that
/// made it parse.
pub open spec fn key_raw(s: Seq<char>) -> Seq<char> {
    if is_key_token(s) {
        s
    } else if basic_body(s) {
        seq!['"'] + s + seq!['"']
    } else {
        seq!['\''] + s + seq!['\'']
    }
}

/// The character a one-letter escape stands for.
pub open spec fn simple_escape_char(c: char) -> char {
    if c == 'b' {
        '\u{8}'
    } else if c == 'f' {
        '\u{c}'
    } else if c == 'n' {
        '\n'
    } else if c == 'r' {
        '\r'
    } else if c == 't' {
        '\t'
    } else {
        c
    }
}

/// The character a `\u`/`\U` escape with these hexadecimal characters stands for.
pub open spec fn hex_escape_char(s: Seq<char>) -> char {
    hex_digits_value(radix16_digits(s)) as char
}

/// The text a basic string body stands for, its escapes replaced.
pub open spec fn decode_basic(b: Seq<char>) -> Seq<char>
    decreases b.len(),
{
    if b.len() == 0 {
        Seq::empty()
    } else if is_basic_unescaped(b[0]) {
        seq![b[0]] + decode_basic(b.drop_first())
    } else if b[0] == '\\' && b.len() >= 2 {
        if is_simple_escape(b[1]) {
            seq![simple_escape_char(b[1])] + decode_basic(b.skip(2))
        } else if b[1] == 'u' && b.len() >= 6 {
            seq![hex_escape_char(b.subrange(2, 6))] + decode_basic(b.skip(6))
        } else if b[1] == 'U' && b.len() >= 10 {
            seq![hex_escape_char(b.subrange(2, 10))] + decode_basic(b.skip(10))
        } else {
            Seq::empty()
        }
    } else {
        Seq::empty()
    }
}

/// The key that a key as written stands for: a basic string decoded, a literal string
/// without its apostrophes, a bare key as it is.
pub open spec fn decode_key(raw: Seq<char>) -> Seq<char> {
    if is_basic_token(raw) {
        decode_basic(inner(raw))
    } else if is_literal_token(raw) {
        inner(raw)
    } else {
        raw
    }
}

/// `ml-literal-char`: tab, U+0020 and above.
pub open spec fn is_ml_literal_char(c: char) -> bool {
    c == '\t' || ' ' <= c
}

/// What may stand between `'''` and `'''` as a whole multi-line literal string: its
/// characters, line feeds and CR LF pairs, no three apostrophes in a row, and no
/// apostrophe at the end (it would close the string early).
pub open spec fn ml_literal_body(s: Seq<char>) -> bool {
    &&& forall|i: int| 0 <= i < s.len() ==> (is_ml_literal_char(#[trigger] s[i]) || s[i] == '\n' || (s[i] == '\r' && i + 1 < s.len() && s[i + 1] == '\n'))
    &&& forall|i: int| 0 <= i && i + 2 < s.len() ==> !(#[trigger] s[i] == '\'' && s[i + 1] == '\'' && s[i + 2] == '\'')
    &&& (s.len() == 0 || s.last() != '\'')
}

/// `ml-basic-unescaped`: U+0020-005B, U+005D and above.
pub open spec fn is_ml_basic_unescaped(c: char) -> bool {
    (' ' <= c && c <= '[') || ']' <= c
}

/// Three `q` in a row at `i`.
pub open spec fn triple_at(x: Seq<char>, i: int, q: char) -> bool {
    0 <= i && i + 3 <= x.len() && x[i] == q && x[i + 1] == q && x[i + 2] == q
}

/// The length of a line end (`LF` or `CR LF`) at `i`, 0 where there is none.
pub open spec fn newline_len(x: Seq<char>, i: int) -> int {
    if 0 <= i < x.len() && x[i] == '\n' {
        1
    } else if 0 <= i && i + 1 < x.len() && x[i] == '\r' && x[i + 1] == '\n' {
        2
    } else {
        0
    }
}

/// A carriage return at `i` that no line feed follows.
pub open spec fn lone_cr(x: Seq<char>, i: int) -> bool {
    0 <= i < x.len() && x[i] == '\r' && newline_len(x, i) == 0
}

/// Past the spaces and tabs from `i`.
pub open spec fn ws_end(x: Seq<char>, i: int) -> int
    decreases x.len() - i,
{
    if 0 <= i < x.len() && (x[i] == ' ' || x[i] == '\t') {
        ws_end(x, i + 1)
    } else {
        i
    }
}

/// Past the spaces, tabs and line ends from `i`.
pub open spec fn ws_newline_end(x: Seq<char>, i: int) -> int
    decreases x.len() - i,
{
    if 0 <= i < x.len() && (x[i] == ' ' || x[i] == '\t') {
        ws_newline_end(x, i + 1)
    } else if 0 <= i < x.len() && newline_len(x, i) > 0 {
        ws_newline_end(x, i + newline_len(x, i))
    } else {
        i
    }
}

/// Past one escaped line end at `i` (`\`, spaces and tabs, a line end, then spaces,
/// tabs and line ends); `i` where there is none there (also where a lone carriage
/// return ends it, which makes `toml_edit` give the group up).
pub open spec fn escaped_newline_end(x: Seq<char>, i: int) -> int {
    if 0 <= i < x.len() && x[i] == '\\' {
        let j = ws_end(x, i + 1);
        let k = newline_len(x, j);
        if k == 0 {
            i
        } else {
            let e = ws_newline_end(x, j + k);
            if lone_cr(x, e) {
                i
            } else {
                e
            }
        }
    } else {
        i
    }
}

/// Past all escaped line ends from `i` (positions only move forward).
pub open spec fn eat_escaped_newlines(x: Seq<char>, i: int) -> int
    decreases x.len() - i,
{
    let e = escaped_newline_end(x, i);
    if i < e && e <= x.len() {
        eat_escaped_newlines(x, e)
    } else {
        i
    }
}

/// Whether the body of a multi-line basic string, read from `i` in `x` (the body, then
/// the closing `"""`, the body being the first `n` characters), reaches the closing
/// `"""` exactly at `n` with every escape valid (positions only move forward).
pub open spec fn ml_basic_from(x: Seq<char>, n: int, i: int) -> bool
    decreases x.len() - i,
{
    if i == n {
        true
    } else if !(0 <= i < n) || triple_at(x, i, '"') {
        false
    } else {
        let next = if x[i] == '\n' {
            i + 1
        } else if x[i] == '\r' && newline_len(x, i) == 2 {
            i + 2
        } else if is_ml_basic_unescaped(x[i]) {
            i + 1
        } else if x[i] == '\\' && i + 1 < x.len() && is_simple_escape(x[i + 1]) {
            i + 2
        } else if x[i] == '\\' && i + 1 < x.len() && x[i + 1] == 'u' && i + 6 <= x.len()
            && hex_escape_ok(x.subrange(i + 2, i + 6)) {
            i + 6
        } else if x[i] == '\\' && i + 1 < x.len() && x[i + 1] == 'U' && i + 10 <= x.len()
            && hex_escape_ok(x.subrange(i + 2, i + 10)) {
            i + 10
        } else {
            -1
        };
        if next <= i || next > x.len() {
            false
        } else {
            let j = eat_escaped_newlines(x, next);
            j >= next && j <= x.len() && ml_basic_from(x, n, j)
        }
    }
}

/// What may stand between `"""` and `"""` as a whole multi-line basic string: after an
/// optional first line end and escaped line ends, characters, line ends and escapes,
/// no `"""` before the end, and nothing that runs into the closing quotes.
pub open spec fn ml_basic_body(s: Seq<char>) -> bool {
    let x = s + seq!['"', '"', '"'];
    let n = s.len() as int;
    !lone_cr(x, 0) && {
        let i0 = eat_escaped_newlines(x, newline_len(x, 0));
        i0 <= x.len() && ml_basic_from(x, n, i0)
    }
}

/// Between the first three and the last three characters.
pub open spec fn inner3(s: Seq<char>) -> Seq<char> {
    s.subrange(3, s.len() - 3)
}

/// A whole string as it stands: a multi-line basic, basic, multi-line literal or
/// literal string.
pub open spec fn is_string_token(s: Seq<char>) -> bool {
    ||| s.len() >= 6 && triple_at(s, 0, '"') && triple_at(s, s.len() - 3, '"') && ml_basic_body(inner3(s))
    ||| is_basic_token(s)
    ||| s.len() >= 6 && triple_at(s, 0, '\'') && triple_at(s, s.len() - 3, '\'') && ml_literal_body(inner3(s))
    ||| is_literal_token(s)
}

/// Texts that `toml_edit`'s conversion of a `&str` into a string value writes without
/// panicking: a whole string as it stands, or a text that is a basic, literal,
/// multi-line basic or multi-line literal string body (the forms it tries in turn).
pub open spec fn string_value_ok(s: Seq<char>) -> bool {
    is_string_token(s) || basic_body(s) || literal_body(s) || ml_basic_body(s) || ml_literal_body(s)
}

/// `16^k`.
pub open spec fn pow16(k: nat) -> int
    decreases k,
{
    if k == 0 {
        1
    } else {
        16 * pow16((k - 1) as nat)
    }
}

fn is_hex_digit_exec(c: char) -> (r: bool)
    ensures
        r == is_hex_digit(c),
{
    ('0' <= c && c <= '9') || ('a' <= c && c <= 'f') || ('A' <= c && c <= 'F')
}

fn hex_digit_value_exec(c: char) -> (r: u64)
    requires
        is_hex_digit(c),
    ensures
        r == hex_digit_value(c),
        r < 16,
{
    if '0' <= c && c <= '9' {
        (c as u32 - '0' as u32) as u64
    } else if 'a' <= c && c <= 'f' {
        (c as u32 - 'a' as u32 + 10) as u64
    } else {
        (c as u32 - 'A' as u32 + 10) as u64
    }
}

/// Whether the `n` characters of `v` from `start` are a valid `\u`/`\U` escape.
fn hex_escape_exec(v: &Vec<char>, start: usize, n: usize) -> (r: bool)
    requires
        start + n <= v.len(),
        1 <= n <= 8,
    ensures
        r == hex_escape_ok(v@.subrange(start as int, start + n)),
{
    let ghost s = v@.subrange(start as int, start + n);
    let mut i: usize = start;
    if v[start] == '+' {
        i = start + 1;
    }
    let ghost d = radix16_digits(s);
    assert(d =~= v@.subrange(i as int, start + n));
    if i == start + n {
        return false;
    }
    let mut val: u64 = 0;
    let mut k: usize = i;
    proof {
        lemma_pow16_grows(0, 8);
    }
    while k < start + n
        invariant
            start <= i <= k <= start + n,
            start + n <= v.len(),
            n <= 8,
            i < start + n,
            s == v@.subrange(start as int, start + n),
            d == radix16_digits(s),
            d =~= v@.subrange(i as int, start + n),
            forall|j: int| 0 <= j < k - i ==> is_hex_digit(#[trigger] d[j]),
            val == hex_digits_value(d.take(k - i)),
            (val as int) < pow16((k - i) as nat),
            pow16((k - i) as nat) <= pow16(8),
        decreases start + n - k,
    {
        let c = v[k];
        if !is_hex_digit_exec(c) {
            assert(d[k - i] == c);
            assert(!is_hex_digit(d[k - i]));
            assert(!hex_escape_ok(s));
            return false;
        }
        let hv = hex_digit_value_exec(c);
        proof {
            assert(d.take(k - i + 1).drop_last() =~= d.take(k - i));
            assert(d.take(k - i + 1).last() == c);
            lemma_pow16_grows((k - i + 1) as nat, (8 - (k - i + 1)) as nat);
            assert(pow16(8) == 4294967296) by {
                reveal_with_fuel(pow16, 9);
            }
        }
        val = val * 16 + hv;
        k = k + 1;
    }
    assert(d.take(d.len() as int) =~= d);
    val <= 0x10FFFF && !(0xD800 <= val && val <= 0xDFFF)
}

/// `pow16(a) <= pow16(a + b)`.
proof fn lemma_pow16_grows(a: nat, b: nat)
    ensures
        pow16(a) <= pow16(a + b),
        pow16(a) >= 1,
    decreases a + b,
{
    if b == 0 {
        if a > 0 {
            lemma_pow16_grows((a - 1) as nat, 0);
        }
    } else {
        lemma_pow16_grows(a, (b - 1) as nat);
    }
}

/// Whether `v` from `start` to its end is a basic body.
fn basic_body_exec(v: &Vec<char>, start: usize, end: usize) -> (r: bool)
    requires
        start <= end <= v.len(),
    ensures
        r == basic_body(v@.subrange(start as int, end as int)),
{
    let mut i: usize = start;
    while i < end
        invariant
            start <= i <= end <= v.len(),
            basic_body(v@.subrange(start as int, end as int)) == basic_body(v@.subrange(i as int, end as int)),
        decreases end - i,
    {
        let ghost b = v@.subrange(i as int, end as int);
        let c = v[i];
        assert(b[0] == c);
        if (' ' <= c && c <= '!') || ('#' <= c && c <= '[') || ']' <= c {
            assert(b.drop_first() =~= v@.subrange(i + 1, end as int));
            i = i + 1;
        } else if c == '\\' && end - i >= 2 {
            let e = v[i + 1];
            assert(b[1] == e);
            if e == '\\' || e == '"' || e == '/' || e == 'b' || e == 'f' || e == 'n' || e == 'r' || e == 't' {
                assert(b.skip(2) =~= v@.subrange(i + 2, end as int));
                i = i + 2;
            } else if e == 'u' || e == 'U' {
                let n: usize = if e == 'u' { 4 } else { 8 };
                if end - i < n + 2 {
                    return false;
                }
                assert(b.subrange(2, n + 2) =~= v@.subrange(i + 2, i + 2 + n));
                if !hex_escape_exec(v, i + 2, n) {
                    return false;
                }
                assert(b.skip(n + 2) =~= v@.subrange(i + 2 + n, end as int));
                i = i + 2 + n;
            } else {
                return false;
            }
        } else {
            return false;
        }
    }
    assert(v@.subrange(i as int, end as int).len() == 0);
    true
}

/// Whether `v` from `start` to `end` is a literal body.
fn literal_body_exec(v: &Vec<char>, start: usize, end: usize) -> (r: bool)
    requires
        start <= end <= v.len(),
    ensures
        r == literal_body(v@.subrange(start as int, end as int)),
{
    let mut i: usize = start;
    while i < end
        invariant
            start <= i <= end <= v.len(),
            forall|j: int| start <= j < i ==> is_literal_char(#[trigger] v@[j]),
        decreases end - i,
    {
        let c = v[i];
        if !(c == '\t' || (' ' <= c && c <= '&') || '(' <= c) {
            assert(v@.subrange(start as int, end as int)[i - start] == c);
            return false;
        }
        i = i + 1;
    }
    assert forall|j: int| 0 <= j < end - start implies is_literal_char(
        #[trigger] v@.subrange(start as int, end as int)[j],
    ) by {
        assert(v@.subrange(start as int, end as int)[j] == v@[start + j]);
    }
    true
}

/// Whether `v` is a bare key.
fn bare_key_exec(v: &Vec<char>) -> (r: bool)
    ensures
        r == is_bare_key(v@),
{
    if v.len() == 0 {
        return false;
    }
    let mut i: usize = 0;
    while i < v.len()
        invariant
            i <= v.len(),
            forall|j: int| 0 <= j < i ==> is_bare_key_char(#[trigger] v@[j]),
        decreases v.len() - i,
    {
        let c = v[i];
        if !(('A' <= c && c <= 'Z') || ('a' <= c && c <= 'z') || ('0' <= c && c <= '9') || c == '-' || c == '_') {
            return false;
        }
        i = i + 1;
    }
    true
}

/// Whether `v` is a key as it stands.
fn key_token_exec(v: &Vec<char>) -> (r: bool)
    ensures
        r == is_key_token(v@),
{
    if bare_key_exec(v) {
        return true;
    }
    let n = v.len();
    if n < 2 {
        return false;
    }
    assert(inner(v@) =~= v@.subrange(1, n - 1));
    if v[0] == '"' && v[n - 1] == '"' {
        return basic_body_exec(v, 1, n - 1);
    }
    if v[0] == '\'' && v[n - 1] == '\'' {
        return literal_body_exec(v, 1, n - 1);
    }
    false
}

/// Whether `toml_edit::Key::from_str` takes `s`.
pub fn is_toml_key(s: &str) -> (r: bool)
    ensures
        r == key_parses(s@),
{
    let v = chars_of(s);
    let n = v.len();
    assert(v@.subrange(0, n as int) =~= v@);
    key_token_exec(&v) || basic_body_exec(&v, 0, n) || literal_body_exec(&v, 0, n)
}

/// Whether `v` is a multi-line literal string body.
fn ml_literal_body_exec(v: &Vec<char>) -> (r: bool)
    ensures
        r == ml_literal_body(v@),
{
    let n = v.len();
    let mut i: usize = 0;
    while i < n
        invariant
            n == v.len(),
            i <= n,
            forall|j: int| 0 <= j < i ==> (is_ml_literal_char(#[trigger] v@[j]) || v@[j] == '\n' || (v@[j] == '\r' && j + 1 < n && v@[j + 1] == '\n')),
            forall|j: int| 0 <= j < i && j + 2 < n ==> !(#[trigger] v@[j] == '\'' && v@[j + 1] == '\'' && v@[j + 2] == '\''),
        decreases n - i,
    {
        let c = v[i];
        let ok = c == '\t' || ' ' <= c || c == '\n' || (c == '\r' && i + 1 < n && v[i + 1] == '\n');
        if !ok {
            assert(!(is_ml_literal_char(v@[i as int]) || v@[i as int] == '\n' || (v@[i as int] == '\r' && i + 1 < n && v@[i + 1] == '\n')));
            return false;
        }
        if n - i > 2 && c == '\'' && v[i + 1] == '\'' && v[i + 2] == '\'' {
            assert(v@[i as int] == '\'' && v@[i + 1] == '\'' && v@[i + 2] == '\'');
            return false;
        }
        i = i + 1;
    }
    n == 0 || v[n - 1] != '\''
}

/// Past the spaces and tabs from `i`.
fn ws_end_exec(x: &Vec<char>, i: usize) -> (r: usize)
    requires
        i <= x.len(),
    ensures
        r == ws_end(x@, i as int),
        i <= r <= x.len(),
{
    let mut k = i;
    while k < x.len() && (x[k] == ' ' || x[k] == '\t')
        invariant
            i <= k <= x.len(),
            ws_end(x@, i as int) == ws_end(x@, k as int),
        decreases x.len() - k,
    {
        k = k + 1;
    }
    k
}

/// The length of a line end at `i`.
fn newline_len_exec(x: &Vec<char>, i: usize) -> (r: usize)
    ensures
        r == newline_len(x@, i as int),
{
    if i < x.len() && x[i] == '\n' {
        1
    } else if i < x.len() && x.len() - i > 1 && x[i] == '\r' && x[i + 1] == '\n' {
        2
    } else {
        0
    }
}

/// Past the spaces, tabs and line ends from `i`.
fn ws_newline_end_exec(x: &Vec<char>, i: usize) -> (r: usize)
    requires
        i <= x.len(),
    ensures
        r == ws_newline_end(x@, i as int),
        i <= r <= x.len(),
{
    let mut k = i;
    loop
        invariant
            i <= k <= x.len(),
            ws_newline_end(x@, i as int) == ws_newline_end(x@, k as int),
        decreases x.len() - k,
    {
        if k < x.len() && (x[k] == ' ' || x[k] == '\t') {
            k = k + 1;
        } else {
            let l = newline_len_exec(x, k);
            if k < x.len() && l > 0 {
                k = k + l;
            } else {
                return k;
            }
        }
    }
}

/// Past one escaped line end at `i`.
fn escaped_newline_end_exec(x: &Vec<char>, i: usize) -> (r: usize)
    requires
        i <= x.len(),
    ensures
        r == escaped_newline_end(x@, i as int),
        i <= r <= x.len(),
{
    if i < x.len() && x[i] == '\\' {
        let j = ws_end_exec(x, i + 1);
        let k = newline_len_exec(x, j);
        if k == 0 {
            i
        } else {
            let e = ws_newline_end_exec(x, j + k);
            let lone = e < x.len() && x[e] == '\r' && newline_len_exec(x, e) == 0;
            if lone {
                i
            } else {
                e
            }
        }
    } else {
        i
    }
}

/// Past all escaped line ends from `i`.
fn eat_escaped_newlines_exec(x: &Vec<char>, i: usize) -> (r: usize)
    requires
        i <= x.len(),
    ensures
        r == eat_escaped_newlines(x@, i as int),
        i <= r <= x.len(),
{
    let mut k = i;
    loop
        invariant
            i <= k <= x.len(),
            eat_escaped_newlines(x@, i as int) == eat_escaped_newlines(x@, k as int),
        decreases x.len() - k,
    {
        let e = escaped_newline_end_exec(x, k);
        if k < e {
            k = e;
        } else {
            return k;
        }
    }
}

/// Whether `s` is a multi-line basic string body.
fn ml_basic_body_exec(s: &Vec<char>) -> (r: bool)
    ensures
        r == ml_basic_body(s@),
{
    let mut x: Vec<char> = s.clone();
    x.push('"');
    x.push('"');
    x.push('"');
    let n = s.len();
    assert(x@ =~= s@ + seq!['"', '"', '"']);
    if x[0] == '\r' && newline_len_exec(&x, 0) == 0 {
        return false;
    }
    let l = newline_len_exec(&x, 0);
    let mut i = eat_escaped_newlines_exec(&x, l);
    loop
        invariant
            n == s.len(),
            x@ == s@ + seq!['"', '"', '"'],
            i <= x.len(),
            ml_basic_body(s@) == ml_basic_from(x@, n as int, i as int),
        decreases x.len() - i,
    {
        if i == n {
            return true;
        }
        if i > n || (x.len() - i >= 3 && x[i] == '"' && x[i + 1] == '"' && x[i + 2] == '"') {
            return false;
        }
        let c = x[i];
        let next: usize = if c == '\n' {
            i + 1
        } else if c == '\r' && newline_len_exec(&x, i) == 2 {
            i + 2
        } else if (' ' <= c && c <= '[') || ']' <= c {
            i + 1
        } else if c == '\\' {
            let e = x[i + 1];
            if e == '\\' || e == '"' || e == '/' || e == 'b' || e == 'f' || e == 'n' || e == 'r' || e == 't' {
                i + 2
            } else if e == 'u' && x.len() - i >= 6 && hex_escape_exec(&x, i + 2, 4) {
                i + 6
            } else if e == 'U' && x.len() - i >= 10 && hex_escape_exec(&x, i + 2, 8) {
                i + 10
            } else {
                return false;
            }
        } else {
            return false;
        };
        let j = eat_escaped_newlines_exec(&x, next);
        i = j;
    }
}

/// Whether `v` is a whole string as it stands.
fn string_token_exec(v: &Vec<char>) -> (r: bool)
    ensures
        r == is_string_token(v@),
{
    let n = v.len();
    if n >= 6 {
        let inner_v = slice_chars(v, 3, n - 3);
        assert(inner_v@ =~= inner3(v@));
        if v[0] == '"' && v[1] == '"' && v[2] == '"' && v[n - 3] == '"' && v[n - 2] == '"' && v[n - 1] == '"'
            && ml_basic_body_exec(&inner_v) {
            return true;
        }
        if v[0] == '\'' && v[1] == '\'' && v[2] == '\'' && v[n - 3] == '\'' && v[n - 2] == '\'' && v[n - 1] == '\''
            && ml_literal_body_exec(&inner_v) {
            return true;
        }
    }
    if n >= 2 {
        assert(inner(v@) =~= v@.subrange(1, n - 1));
        if v[0] == '"' && v[n - 1] == '"' && basic_body_exec(v, 1, n - 1) {
            return true;
        }
        if v[0] == '\'' && v[n - 1] == '\'' && literal_body_exec(v, 1, n - 1) {
            return true;
        }
    }
    false
}

/// The characters of `v` from `start` to `end`.
fn slice_chars(v: &Vec<char>, start: usize, end: usize) -> (r: Vec<char>)
    requires
        start <= end <= v.len(),
    ensures
        r@ == v@.subrange(start as int, end as int),
{
    let mut r: Vec<char> = Vec::new();
    let mut i = start;
    while i < end
        invariant
            start <= i <= end <= v.len(),
            r@ == v@.subrange(start as int, i as int),
        decreases end - i,
    {
        r.push(v[i]);
        i = i + 1;
        assert(r@ =~= v@.subrange(start as int, i as int));
    }
    r
}

/// Whether `toml_edit` writes `s` as a string value without panicking.
pub fn is_toml_string_value(s: &str) -> (r: bool)
    ensures
        r == string_value_ok(s@),
{
    let v = chars_of(s);
    let n = v.len();
    assert(v@.subrange(0, n as int) =~= v@);
    string_token_exec(&v) || basic_body_exec(&v, 0, n) || literal_body_exec(&v, 0, n) || ml_basic_body_exec(&v)
        || ml_literal_body_exec(&v)
}

} // verus!
