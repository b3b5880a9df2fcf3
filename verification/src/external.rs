//! The calls this library makes into outside crates and into parts of `std` that vstd
//! does not specify. Each item here is trusted: its contract is believed, not proved.

use vstd::prelude::*;
use heck::KebabCase;
use crate::manifest::TomlItemKind;
use crate::toml_syntax::{key_parses, key_raw, string_value_ok};

verus! {

/// Views of a list of strings, each by its characters.
pub open spec fn strings_view(v: Seq<String>) -> Seq<Seq<char>> {
    v.map_values(|s: String| s@)
}

/// A render's outcome by its characters: the text, or the error message.
pub open spec fn rendered_view(r: Result<String, String>) -> Result<Seq<char>, Seq<char>> {
    match r {
        Ok(t) => Ok(t@),
        Err(m) => Err(m@),
    }
}

// ---------------------------------------------------------------- heck

/// What `heck::KebabCase::to_kebab_case` returns for `s`.
pub uninterp spec fn kebab_case(s: Seq<char>) -> Seq<char>;

/// Calls `heck::KebabCase::to_kebab_case` (heck 0.3) on `s`. Claimed: the result is a
/// function of `s` alone; nothing is claimed of what it holds.
#[verifier::external_body]
pub(crate) fn to_kebab_case(s: &str) -> (r: String)
    ensures
        r@ == kebab_case(s@),
{
    s.to_kebab_case()
}

// ---------------------------------------------------------------- toml

/// Four uppercase hexadecimal digits of `n` (`n < 0x10000`), as `{:04X}` writes them.
pub open spec fn hex4(n: int) -> Seq<char> {
    seq![hex_digit(n / 4096), hex_digit((n / 256) % 16), hex_digit((n / 16) % 16), hex_digit(n % 16)]
}

/// One uppercase hexadecimal digit.
pub open spec fn hex_digit(d: int) -> char {
    if d < 10 {
        (('0' as int) + d) as char
    } else {
        (('A' as int) + d - 10) as char
    }
}

/// How a character is written inside a TOML basic string by the `toml` crate.
pub open spec fn toml_escaped_char(c: char) -> Seq<char> {
    if c == '\u{8}' {
        seq!['\\', 'b']
    } else if c == '\u{9}' {
        seq!['\\', 't']
    } else if c == '\u{a}' {
        seq!['\\', 'n']
    } else if c == '\u{c}' {
        seq!['\\', 'f']
    } else if c == '\u{d}' {
        seq!['\\', 'r']
    } else if c == '"' {
        seq!['\\', '"']
    } else if c == '\\' {
        seq!['\\', '\\']
    } else if c <= '\u{1f}' || c == '\u{7f}' {
        seq!['\\', 'u'] + hex4(c as int)
    } else {
        seq![c]
    }
}

/// The characters of `s`, each escaped as inside a TOML basic string.
pub open spec fn toml_escaped(s: Seq<char>) -> Seq<char>
    decreases s.len(),
{
    if s.len() == 0 {
        Seq::empty()
    } else {
        toml_escaped_char(s[0]) + toml_escaped(s.drop_first())
    }
}

/// `s` written as a TOML basic string: quoted, with escapes.
pub open spec fn toml_basic_string(s: Seq<char>) -> Seq<char> {
    seq!['"'] + toml_escaped(s) + seq!['"']
}

/// Calls `Display::fmt` of `toml::Value::String` (toml 0.5) through `to_string`.
/// Claimed, as the crate's serializer shows with default settings: the value is written
/// as a one-line basic string, `"` around it, with `\b \t \n \f \r \" \\` for those
/// characters, `\uXXXX` for the other control characters up to U+001F and for U+007F,
/// every other character as it is; it never fails.
#[verifier::external_body]
pub(crate) fn toml_string_value(s: &str) -> (r: String)
    ensures
        r@ == toml_basic_string(s@),
{
    toml::Value::String(s.to_owned()).to_string()
}

// ---------------------------------------------------------------- toml_edit

/// Builds a `toml_edit::Document` (0.2) with `Document::new`, sets `doc[key]` to
/// `toml_edit::value(0)` and renders it with `to_string`. Required: `Key::from_str`
/// takes the key (`Table::entry` panics otherwise). Claimed, as `key.rs`, `table.rs`,
/// `formatted.rs` and `display.rs` of the crate show: the one line written is the key
/// as `Key::from_str` took it (as it stands, or in the double quotes or apostrophes
/// that made it parse), ` = 0`, and a newline.
#[verifier::external_body]
pub(crate) fn toml_edit_single_entry(key: &str) -> (r: String)
    requires
        key_parses(key@),
    ensures
        r@ == key_raw(key@) + seq![' ', '=', ' ', '0', '\n'],
{
    let mut doc = toml_edit::Document::new();
    doc[key] = toml_edit::value(0i64);
    doc.to_string()
}

/// Whether `Item::index_mut` can step into `key` from an item of this kind (it panics
/// otherwise): a table takes a key that `Key::from_str` takes; a missing item becomes an
/// inline table; an inline table takes any key.
pub open spec fn toml_step_ok(container: Option<TomlItemKind>, key: Seq<char>) -> bool {
    match container {
        Some(TomlItemKind::Table) => key_parses(key),
        Some(TomlItemKind::Missing) => true,
        Some(TomlItemKind::InlineTable) => true,
        _ => false,
    }
}

/// Whether indexing the parsed document along `path` with `IndexMut` never panics.
pub open spec fn toml_navigable(doc: Seq<char>, path: Seq<Seq<char>>) -> bool {
    forall|i: int| 0 <= i < path.len() ==> toml_step_ok(#[trigger] toml_doc_kind(doc, path.take(i)), path[i])
}

/// The kind of the item that `IndexMut` reaches along `path` in the document `doc`
/// parses to; `None` where `doc` does not parse.
pub uninterp spec fn toml_doc_kind(doc: Seq<char>, path: Seq<Seq<char>>) -> Option<TomlItemKind>;

/// Parses `doc` as a `toml_edit::Document` (0.2), indexes it along `path` with
/// `IndexMut` and tells the kind of the item reached. Required: no step panics.
/// Claimed: the outcome is a function of the two arguments; an error comes only where
/// the text does not parse, never for a non-empty path (which the requirement makes
/// parse); a document's root is a table (`Document`'s own documentation).
#[verifier::external_body]
pub(crate) fn toml_kind(doc: &str, path: &Vec<String>) -> (r: Result<TomlItemKind, String>)
    requires
        toml_navigable(doc@, strings_view(path@)),
    ensures
        match r {
            Ok(k) => toml_doc_kind(doc@, strings_view(path@)) == Some(k) && (path@.len() == 0 ==> k == TomlItemKind::Table),
            Err(_) => toml_doc_kind(doc@, strings_view(path@)) is None && path@.len() == 0,
        },
{
    let mut d = doc.parse::<toml_edit::Document>().map_err(|e| e.to_string())?;
    let item = path.iter().fold(&mut d.root, |item, key| &mut item[key.as_str()]);
    Ok(match item {
        toml_edit::Item::None => TomlItemKind::Missing,
        toml_edit::Item::Value(toml_edit::Value::InlineTable(_)) => TomlItemKind::InlineTable,
        toml_edit::Item::Value(_) => TomlItemKind::Value,
        toml_edit::Item::Table(_) => TomlItemKind::Table,
        toml_edit::Item::ArrayOfTables(_) => TomlItemKind::ArrayOfTables,
    })
}

/// The text of `doc` after the item along `path` is set to the string value `value`.
pub uninterp spec fn toml_doc_set_string(doc: Seq<char>, path: Seq<Seq<char>>, value: Seq<char>) -> Seq<char>;

/// Parses `doc` (toml_edit 0.2), sets the item that `IndexMut` reaches along `path` to
/// `toml_edit::value(value)` and renders the document with `to_string`. Required: the
/// path is not empty and no step panics, and `value` is a text that the conversion of
/// a `&str` into a string value writes (it panics where none of its forms parses).
/// Claimed: the text is a function of the arguments; no error comes (the requirement
/// makes the text parse).
#[verifier::external_body]
pub(crate) fn toml_set_string(doc: &str, path: &Vec<String>, value: &str) -> (r: Result<String, String>)
    requires
        path@.len() > 0,
        toml_navigable(doc@, strings_view(path@)),
        string_value_ok(value@),
    ensures
        match r {
            Ok(t) => t@ == toml_doc_set_string(doc@, strings_view(path@), value@),
            Err(_) => false,
        },
{
    let mut d = doc.parse::<toml_edit::Document>().map_err(|e| e.to_string())?;
    *path.iter().fold(&mut d.root, |item, key| &mut item[key.as_str()]) = toml_edit::value(value);
    Ok(d.to_string())
}

/// The text of `doc` after the table along `path`, if it is one, is marked implicit.
pub uninterp spec fn toml_doc_mark_implicit(doc: Seq<char>, path: Seq<Seq<char>>) -> Seq<char>;

/// Parses `doc` (toml_edit 0.2), calls `Table::set_implicit(true)` on the item that
/// `IndexMut` reaches along `path` where it is a table, and renders the document.
/// Required: the path is not empty and no step panics. Claimed: the text is a function
/// of the arguments; no error comes.
#[verifier::external_body]
pub(crate) fn toml_mark_implicit(doc: &str, path: &Vec<String>) -> (r: Result<String, String>)
    requires
        path@.len() > 0,
        toml_navigable(doc@, strings_view(path@)),
    ensures
        match r {
            Ok(t) => t@ == toml_doc_mark_implicit(doc@, strings_view(path@)),
            Err(_) => false,
        },
{
    let mut d = doc.parse::<toml_edit::Document>().map_err(|e| e.to_string())?;
    if let toml_edit::Item::Table(t) = path.iter().fold(&mut d.root, |item, key| &mut item[key.as_str()]) {
        t.set_implicit(true);
    }
    Ok(d.to_string())
}

/// The text of `doc` after the item along `path` is set to a copy of the item that
/// `Index` reaches along `src_path` in `src`; `None` where `src` does not parse.
pub uninterp spec fn toml_doc_graft(doc: Seq<char>, path: Seq<Seq<char>>, src: Seq<char>, src_path: Seq<Seq<char>>) -> Option<Seq<char>>;

/// Parses `doc` and `src` (toml_edit 0.2), clones the item that `Index` reaches along
/// `src_path` in `src` (a missing one is `Item::None`), sets the item that `IndexMut`
/// reaches along `path` in `doc` to it, and renders `doc`. Required: the path is not
/// empty and no step panics (`Index` never does). Claimed: the outcome is a function of
/// the arguments; an error comes only where `src` does not parse.
#[verifier::external_body]
pub(crate) fn toml_graft(doc: &str, path: &Vec<String>, src: &str, src_path: &Vec<String>) -> (r: Result<String, String>)
    requires
        path@.len() > 0,
        toml_navigable(doc@, strings_view(path@)),
    ensures
        match r {
            Ok(t) => toml_doc_graft(doc@, strings_view(path@), src@, strings_view(src_path@)) == Some(t@),
            Err(_) => toml_doc_graft(doc@, strings_view(path@), src@, strings_view(src_path@)) is None,
        },
{
    let mut d = doc.parse::<toml_edit::Document>().map_err(|e| e.to_string())?;
    let s = src.parse::<toml_edit::Document>().map_err(|e| e.to_string())?;
    let item = src_path.iter().fold(&s.root, |item, key| &item[key.as_str()]).clone();
    *path.iter().fold(&mut d.root, |item, key| &mut item[key.as_str()]) = item;
    Ok(d.to_string())
}

/// The document `doc` parses to, rendered with `to_string`; `None` where it does not
/// parse.
pub uninterp spec fn toml_doc_text(doc: Seq<char>) -> Option<Seq<char>>;

/// Parses `doc` (toml_edit 0.2) and renders the document with `to_string`. Claimed: the
/// outcome is a function of `doc`; an error comes exactly where it does not parse.
#[verifier::external_body]
pub(crate) fn toml_reformat(doc: &str) -> (r: Result<String, String>)
    ensures
        match r {
            Ok(t) => toml_doc_text(doc@) == Some(t@),
            Err(_) => toml_doc_text(doc@) is None,
        },
{
    doc.parse::<toml_edit::Document>().map(|d| d.to_string()).map_err(|e| e.to_string())
}

/// The keys of the root table of the document `doc` parses to, in order; `None` where
/// it does not parse.
pub uninterp spec fn toml_doc_root_keys(doc: Seq<char>) -> Option<Seq<Seq<char>>>;

/// Parses `doc` (toml_edit 0.2) and lists the keys of its root table in order
/// (`Document::iter`). Claimed: the outcome is a function of `doc`; an error comes only
/// where it does not parse.
#[verifier::external_body]
pub(crate) fn toml_root_keys(doc: &str) -> (r: Result<Vec<String>, String>)
    ensures
        match r {
            Ok(ks) => toml_doc_root_keys(doc@) == Some(strings_view(ks@)),
            Err(_) => toml_doc_root_keys(doc@) is None,
        },
{
    let d = doc.parse::<toml_edit::Document>().map_err(|e| e.to_string())?;
    Ok(d.iter().map(|(k, _)| k.to_owned()).collect())
}

/// The document `doc` parses to, rendered with its tables in their original order;
/// `None` where it does not parse.
pub uninterp spec fn toml_doc_in_original_order(doc: Seq<char>) -> Option<Seq<char>>;

/// Parses `doc` (toml_edit 0.2) and renders it with
/// `Document::to_string_in_original_order`. Claimed: the outcome is a function of
/// `doc`; an error comes only where it does not parse.
#[verifier::external_body]
pub(crate) fn toml_in_original_order(doc: &str) -> (r: Result<String, String>)
    ensures
        match r {
            Ok(t) => toml_doc_in_original_order(doc@) == Some(t@),
            Err(_) => toml_doc_in_original_order(doc@) is None,
        },
{
    doc.parse::<toml_edit::Document>().map(|d| d.to_string_in_original_order()).map_err(|e| e.to_string())
}

// ---------------------------------------------------------------- liquid

/// What a liquid template (liquid 0.22, standard library of tags and filters) renders
/// with the given variables, `Err` with the message where it does not parse or does not
/// render, in the circumstances `env` of the render: the clock that the `date` filter
/// reads for `"now"` and `"today"` (UTC), and whatever else of the process a render
/// reads.
pub uninterp spec fn liquid_render_in(
    template: Seq<char>,
    globals: Seq<(Seq<char>, Option<Seq<char>>)>,
    env: int,
) -> Result<Seq<char>, Seq<char>>;

/// Views of template variables: names and optional values, by their characters.
pub open spec fn globals_view(g: Seq<(String, Option<String>)>) -> Seq<(Seq<char>, Option<Seq<char>>)> {
    g.map_values(|e: (String, Option<String>)| (e.0@, match e.1 {
        Some(v) => Some(v@),
        None => None,
    }))
}

/// Parses `template` with `liquid::ParserBuilder::with_stdlib()` and calls
/// `Template::render` with an object of the given variables (a missing value is
/// `nil`). Claimed: the outcome is what the template renders with exactly these
/// variables in some circumstances of the render; which circumstances is not claimed,
/// since the standard library's `date` filter reads the clock (`"now"`, `"today"`), so
/// two renders of one template may differ. What an error message says is not described.
#[verifier::external_body]
pub(crate) fn render_liquid(template: &str, globals: &Vec<(String, Option<String>)>) -> (r: Result<String, String>)
    ensures
        exists|env: int| rendered_view(r) == #[trigger] liquid_render_in(template@, globals_view(globals@), env),
{
    let parser = liquid::ParserBuilder::with_stdlib().build().map_err(|e| e.to_string())?;
    let template = parser.parse(template).map_err(|e| e.to_string())?;
    let mut object = liquid::Object::new();
    for (name, value) in globals {
        let value = value.clone().map_or(liquid::model::Value::Nil, liquid::model::Value::scalar);
        object.insert(name.clone().into(), value);
    }
    template.render(&object).map_err(|e| e.to_string())
}

// ---------------------------------------------------------------- url

/// The serialization of the URL that `url::Url::parse` makes of `s`, `None` where it
/// refuses `s`.
pub uninterp spec fn url_parse(s: Seq<char>) -> Option<Seq<char>>;

/// Calls `url::Url::parse` and gives the URL back as its serialization (`String::from`).
/// Claimed: the outcome is a function of `s`; the error message is not described.
#[verifier::external_body]
pub(crate) fn parse_url(s: &str) -> (r: Result<String, String>)
    ensures
        match r {
            Ok(u) => url_parse(s@) == Some(u@),
            Err(_) => url_parse(s@) is None,
        },
{
    url::Url::parse(s).map(String::from).map_err(|e| e.to_string())
}

/// The path segments (`url::Url::path_segments`) of the URL whose serialization is
/// `s`; `None` where `s` is no URL or the URL cannot be a base.
pub uninterp spec fn url_path_segments(s: Seq<char>) -> Option<Seq<Seq<char>>>;

/// Calls `url::Url::path_segments` on the URL whose serialization is `url` (read back
/// with `Url::parse`). Claimed: the result is a function of `url`.
#[verifier::external_body]
pub(crate) fn path_segments(url: &str) -> (r: Option<Vec<String>>)
    ensures
        match r {
            Some(v) => url_path_segments(url@) == Some(strings_view(v@)),
            None => url_path_segments(url@) is None,
        },
{
    url::Url::parse(url).ok().and_then(|u| u.path_segments().map(|s| s.map(str::to_owned).collect()))
}

// ---------------------------------------------------------------- dirs

/// Calls `dirs::data_local_dir` (dirs 3), which reads the environment; its text
/// (`to_string_lossy`). Nothing is claimed of the outcome, which depends on the
/// machine; a directory whose name is not UTF-8 comes back with its invalid bytes
/// replaced.
#[verifier::external_body]
pub(crate) fn data_local_dir() -> (r: Option<String>) {
    dirs::data_local_dir().map(|p| p.to_string_lossy().into_owned())
}

// ---------------------------------------------------------------- std::path

/// What `Path::join` gives for `base` and `path` (on the target the library is built
/// for).
pub uninterp spec fn path_join(base: Seq<char>, path: Seq<char>) -> Seq<char>;

/// Calls `std::path::Path::join`. Claimed: the result is a function of the two paths
/// (on the target the library is built for).
#[verifier::external_body]
pub(crate) fn join_path(base: &str, path: &str) -> (r: String)
    ensures
        r@ == path_join(base@, path@),
{
    std::path::Path::new(base).join(path).to_string_lossy().into_owned()
}

/// What `Path::with_file_name` gives for `path` and `name` (on the target the library
/// is built for).
pub uninterp spec fn path_with_file_name(path: Seq<char>, name: Seq<char>) -> Seq<char>;

/// Calls `std::path::Path::with_file_name`. Claimed: the result is a function of the
/// two arguments.
#[verifier::external_body]
pub(crate) fn with_file_name(path: &str, name: &str) -> (r: String)
    ensures
        r@ == path_with_file_name(path@, name@),
{
    std::path::Path::new(path).with_file_name(name).to_string_lossy().into_owned()
}

/// What `Path::with_extension` gives for `path` and `extension` (on the target the
/// library is built for).
pub uninterp spec fn path_with_extension(path: Seq<char>, extension: Seq<char>) -> Seq<char>;

/// Calls `std::path::Path::with_extension`. Required: the extension holds no path
/// separator of any target, neither `/` nor `\\` (`PathBuf::set_extension`, which it
/// calls, may panic on one). Claimed: the result is a function of the two arguments (on
/// the target the library is built for).
#[verifier::external_body]
pub(crate) fn with_extension(path: &str, extension: &str) -> (r: String)
    requires
        !extension@.contains('/'),
        !extension@.contains('\\'),
    ensures
        r@ == path_with_extension(path@, extension@),
{
    std::path::Path::new(path).with_extension(extension).to_string_lossy().into_owned()
}

/// What `Path::strip_prefix` gives for `path` and `base` (on the target the library is
/// built for), `None` where `base`
/// is not a prefix of `path` by whole components.
pub uninterp spec fn path_strip_prefix(path: Seq<char>, base: Seq<char>) -> Option<Seq<char>>;

/// Calls `std::path::Path::strip_prefix`. Claimed: the outcome is a function of the two
/// arguments.
#[verifier::external_body]
pub(crate) fn strip_prefix(path: &str, base: &str) -> (r: Option<String>)
    ensures
        match r {
            Some(s) => path_strip_prefix(path@, base@) == Some(s@),
            None => path_strip_prefix(path@, base@) is None,
        },
{
    std::path::Path::new(path).strip_prefix(base).ok().map(|p| p.to_string_lossy().into_owned())
}

} // verus!
