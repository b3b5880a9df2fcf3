//! The manifest of a new package: the text `cargo new` wrote, edited with `toml_edit`
//! to hold the binaries, their metadata, the dependencies and the profile of the
//! template.

use vstd::prelude::*;
use crate::error::NewError;
use crate::external::{
    strings_view, toml_doc_graft, toml_doc_in_original_order, toml_doc_kind,
    toml_doc_mark_implicit, toml_doc_root_keys, toml_doc_set_string, toml_doc_text, toml_graft,
    toml_in_original_order, toml_kind, toml_mark_implicit, toml_navigable, toml_reformat, toml_root_keys,
    toml_set_string, toml_step_ok,
};
use crate::package::{manifest_with_bin, space_inline_table_ends, spaced_brace, tight_brace, with_bin_section, BinTarget, PackageLayout};
use crate::text::replace_all;
use crate::toml_syntax::{is_toml_key, is_toml_string_value, key_parses, string_value_ok};

verus! {

/// The kind of an item of a TOML document.
#[derive(Clone, Copy, Debug, PartialEq, Eq, Structural)]
pub enum TomlItemKind {
    Missing,
    Value,
    InlineTable,
    Table,
    ArrayOfTables,
}

/// Why the manifest could not be made.
#[derive(Clone, Copy, Debug, PartialEq, Eq, Structural)]
pub enum ManifestFault {
    /// A text did not parse.
    Toml,
    /// The inline dependencies did not parse.
    DependenciesContent,
    /// A key is to be reached through an item that is no table.
    Shape,
    /// A key that `toml_edit` does not take.
    Key,
    /// A text that `toml_edit` cannot write as a string.
    Value,
}

/// Where the dependencies of a new package come from: TOML text whose root table is
/// them, or the text of a manifest whose `dependencies` they are.
#[derive(Debug)]
pub enum DependenciesSource {
    Inline(String),
    ManifestFile(String),
}

/// The fault an error stands for.
pub open spec fn fault_of(e: NewError) -> Option<ManifestFault> {
    match e {
        NewError::Toml(_) => Some(ManifestFault::Toml),
        NewError::DependenciesContent => Some(ManifestFault::DependenciesContent),
        NewError::ManifestShape(_) => Some(ManifestFault::Shape),
        NewError::UnrepresentableKey(_) => Some(ManifestFault::Key),
        NewError::UnrepresentableValue(_) => Some(ManifestFault::Value),
        _ => None,
    }
}

/// `r` is what `spec` says: the same text, or an error for the same fault.
pub open spec fn answers(spec: Result<Seq<char>, ManifestFault>, r: Result<String, NewError>) -> bool {
    match spec {
        Ok(t) => r matches Ok(s) && s@ == t,
        Err(f) => r matches Err(e) && fault_of(e) == Some(f),
    }
}

/// Whether `path` can be reached in `doc`: a fault where `doc` does not parse or a step
/// would panic.
pub open spec fn path_check(doc: Seq<char>, path: Seq<Seq<char>>) -> Option<ManifestFault> {
    match toml_doc_kind(doc, Seq::empty()) {
        None => Some(ManifestFault::Toml),
        Some(_) => if toml_navigable(doc, path) {
            None
        } else {
            Some(ManifestFault::Shape)
        },
    }
}

/// Sets the item along `path` to the string `value`.
pub open spec fn set_step(doc: Seq<char>, path: Seq<Seq<char>>, value: Seq<char>) -> Result<Seq<char>, ManifestFault> {
    if !string_value_ok(value) {
        Err(ManifestFault::Value)
    } else {
        match path_check(doc, path) {
            Some(f) => Err(f),
            None => Ok(toml_doc_set_string(doc, path, value)),
        }
    }
}

/// Fills in the name and the problem URL of one binary in the metadata text.
pub open spec fn fill_one(meta: Seq<char>, b: BinTarget) -> Result<Seq<char>, ManifestFault> {
    if !string_value_ok(b.name@) {
        Err(ManifestFault::Value)
    } else if !key_parses(b.kebab@) {
        Err(ManifestFault::Key)
    } else {
        match set_step(meta, seq![b.kebab@, "name"@], b.name@) {
            Err(f) => Err(f),
            Ok(m) => set_step(m, seq![b.kebab@, "problem"@], b.problem_url@),
        }
    }
}

/// Fills in the names and URLs of the binaries, one after another.
pub open spec fn fill_all(meta: Seq<char>, bins: Seq<BinTarget>) -> Result<Seq<char>, ManifestFault>
    decreases bins.len(),
{
    if bins.len() == 0 {
        Ok(meta)
    } else {
        match fill_all(meta, bins.drop_last()) {
            Err(f) => Err(f),
            Ok(m) => fill_one(m, bins.last()),
        }
    }
}

/// The entries `name` and `path` of one `[[bin]]` table, as `toml_edit` writes them.
pub open spec fn bin_entries(b: BinTarget) -> Result<Seq<char>, ManifestFault> {
    match set_step(Seq::empty(), seq!["name"@], b.name@) {
        Err(f) => Err(f),
        Ok(e) => set_step(e, seq!["path"@], b.path@),
    }
}

/// The `[[bin]]` tables of the binaries, one after another.
pub open spec fn bin_tables(bins: Seq<BinTarget>) -> Result<Seq<char>, ManifestFault>
    decreases bins.len(),
{
    if bins.len() == 0 {
        Ok(Seq::empty())
    } else {
        match bin_tables(bins.drop_last()) {
            Err(f) => Err(f),
            Ok(t) => match bin_entries(bins.last()) {
                Err(f) => Err(f),
                Ok(e) => Ok(t + "\n[[bin]]\n"@ + e),
            },
        }
    }
}

/// Where the dependencies are taken from: a text and the path of the item in it.
pub open spec fn dependencies_item(deps: DependenciesSource) -> Result<(Seq<char>, Seq<Seq<char>>), ManifestFault> {
    match deps {
        DependenciesSource::Inline(c) => if toml_doc_kind(c@, Seq::empty()) is None {
            Err(ManifestFault::DependenciesContent)
        } else {
            Ok((c@, Seq::empty()))
        },
        DependenciesSource::ManifestFile(t) => if toml_doc_kind(t@, Seq::empty()) is None {
            Err(ManifestFault::Toml)
        } else {
            Ok((t@, seq!["dependencies"@]))
        },
    }
}

/// The manifest with the profile put before it, as a `[profile]` table marked implicit,
/// and parsed again.
pub open spec fn with_profile(manifest: Seq<char>, profile: Option<Seq<char>>) -> Result<Seq<char>, ManifestFault> {
    match profile {
        None => Ok(manifest),
        Some(p) => match path_check(Seq::empty(), seq!["profile"@]) {
            Some(f) => Err(f),
            None => match toml_doc_graft(Seq::empty(), seq!["profile"@], p, Seq::empty()) {
                None => Err(ManifestFault::Toml),
                Some(head) => match path_check(head, seq!["profile"@]) {
                    Some(f) => Err(f),
                    None => match toml_doc_text(toml_doc_mark_implicit(head, seq!["profile"@]) + "\n"@ + manifest) {
                        None => Err(ManifestFault::Toml),
                        Some(m) => Ok(m),
                    },
                },
            },
        },
    }
}

/// Sets the item along `path` to a copy of the item along `src_path` in `src`.
pub open spec fn graft_step(doc: Seq<char>, path: Seq<Seq<char>>, src: Seq<char>, src_path: Seq<Seq<char>>) -> Result<Seq<char>, ManifestFault> {
    match path_check(doc, path) {
        Some(f) => Err(f),
        None => match toml_doc_graft(doc, path, src, src_path) {
            None => Err(ManifestFault::Toml),
            Some(t) => Ok(t),
        },
    }
}

/// The path of the `bin` table of the metadata.
pub open spec fn metadata_bin_path() -> Seq<Seq<char>> {
    seq!["package"@, "metadata"@, "cargo-compete"@, "bin"@]
}

/// Copies the entries of `meta` under the keys into the metadata `bin` table.
pub open spec fn copy_entries(doc: Seq<char>, meta: Seq<char>, keys: Seq<Seq<char>>) -> Result<Seq<char>, ManifestFault>
    decreases keys.len(),
{
    if keys.len() == 0 {
        Ok(doc)
    } else {
        match copy_entries(doc, meta, keys.drop_last()) {
            Err(f) => Err(f),
            Ok(d) => graft_step(d, metadata_bin_path().push(keys.last()), meta, seq![keys.last()]),
        }
    }
}

/// A document whose only table is an empty `package.metadata.cargo-compete.bin`, the
/// tables above it implicit.
pub open spec fn metadata_skeleton() -> Seq<char> {
    "\n[package.metadata.cargo-compete.bin]\n"@
}

/// The metadata `bin` table, from the level of `path` down, made anew with the entries
/// of `meta` under the keys, and put in place; nothing where there is no key.
pub open spec fn graft_subtree(doc: Seq<char>, path: Seq<Seq<char>>, meta: Seq<char>, keys: Seq<Seq<char>>) -> Result<Seq<char>, ManifestFault> {
    if keys.len() == 0 {
        Ok(doc)
    } else {
        match copy_entries(metadata_skeleton(), meta, keys) {
            Err(f) => Err(f),
            Ok(sub) => graft_step(doc, path, sub, path),
        }
    }
}

/// The entries of `meta` under the keys, in the metadata `bin` table: the first of
/// `package.metadata`, `cargo-compete`, `bin` that is missing is made, as an implicit
/// table down to a `bin` table that holds them; where none is missing, they are copied
/// into the `bin` table there.
pub open spec fn metadata_placed(doc: Seq<char>, meta: Seq<char>, keys: Seq<Seq<char>>) -> Result<Seq<char>, ManifestFault> {
    let p = metadata_bin_path();
    match path_check(doc, p.take(2)) {
        Some(f) => Err(f),
        None => if toml_doc_kind(doc, p.take(2)) == Some(TomlItemKind::Missing) {
            graft_subtree(doc, p.take(2), meta, keys)
        } else {
            match path_check(doc, p.take(3)) {
                Some(f) => Err(f),
                None => if toml_doc_kind(doc, p.take(3)) == Some(TomlItemKind::Missing) {
                    graft_subtree(doc, p.take(3), meta, keys)
                } else {
                    match path_check(doc, p) {
                        Some(f) => Err(f),
                        None => if toml_doc_kind(doc, p) == Some(TomlItemKind::Missing) {
                            graft_subtree(doc, p, meta, keys)
                        } else {
                            copy_entries(doc, meta, keys)
                        },
                    }
                },
            }
        },
    }
}

/// The final text: rendered in the original order of the tables after a space is put
/// between each `"` and a `}` that follows it, where that still parses.
pub open spec fn finished(doc: Seq<char>) -> Result<Seq<char>, ManifestFault> {
    match toml_doc_in_original_order(replace_all(doc, tight_brace(), spaced_brace())) {
        Some(t) => Ok(t),
        None => match toml_doc_in_original_order(doc) {
            Some(t) => Ok(t),
            None => Err(ManifestFault::Toml),
        },
    }
}

/// The manifest, once the metadata (already filled in) has been made and the
/// dependencies found: the manifest of `cargo new` with `[bin]`, the profile before it,
/// the metadata `bin` table filled, the `[[bin]]` tables and the dependencies set.
pub open spec fn manifest_edits(
    cargo_new: Seq<char>,
    meta: Seq<char>,
    bins_text: Seq<char>,
    deps: (Seq<char>, Seq<Seq<char>>),
    profile: Option<Seq<char>>,
) -> Result<Seq<char>, ManifestFault> {
    match toml_doc_text(manifest_with_bin(cargo_new)) {
        None => Err(ManifestFault::Toml),
        Some(base) => match with_profile(base, profile) {
            Err(f) => Err(f),
            Ok(m1) => match toml_doc_root_keys(meta) {
                None => Err(ManifestFault::Toml),
                Some(keys) => match metadata_placed(m1, meta, keys) {
                    Err(f) => Err(f),
                    Ok(m5) => match graft_step(m5, seq!["bin"@], bins_text, seq!["bin"@]) {
                        Err(f) => Err(f),
                        Ok(m6) => match graft_step(m6, seq!["dependencies"@], deps.0, deps.1) {
                            Err(f) => Err(f),
                            Ok(m7) => finished(m7),
                        },
                    },
                },
            },
        },
    }
}

/// What `assemble_manifest` gives.
pub open spec fn manifest_assembled(
    cargo_new: Seq<char>,
    layout: PackageLayout,
    deps: DependenciesSource,
    profile: Option<Seq<char>>,
) -> Result<Seq<char>, ManifestFault> {
    match toml_doc_kind(layout.metadata_bin_toml@, Seq::empty()) {
        None => Err(ManifestFault::Toml),
        Some(_) => match fill_all(layout.metadata_bin_toml@, layout.bins@) {
            Err(f) => Err(f),
            Ok(meta) => match bin_tables(layout.bins@) {
                Err(f) => Err(f),
                Ok(bins_text) => match dependencies_item(deps) {
                    Err(f) => Err(f),
                    Ok(d) => manifest_edits(cargo_new, meta, bins_text, d, profile),
                },
            },
        },
    }
}

/// Once the binaries so far fail, the rest changes nothing.
proof fn lemma_fill_err_stays(meta: Seq<char>, bins: Seq<BinTarget>, k: int)
    requires
        0 <= k <= bins.len(),
        fill_all(meta, bins.take(k)) is Err,
    ensures
        fill_all(meta, bins) == fill_all(meta, bins.take(k)),
    decreases bins.len() - k,
{
    if k == bins.len() {
        assert(bins.take(k) =~= bins);
    } else {
        assert(bins.drop_last().take(k) =~= bins.take(k));
        lemma_fill_err_stays(meta, bins.drop_last(), k);
    }
}

/// Once the tables so far fail, the rest changes nothing.
proof fn lemma_tables_err_stays(bins: Seq<BinTarget>, k: int)
    requires
        0 <= k <= bins.len(),
        bin_tables(bins.take(k)) is Err,
    ensures
        bin_tables(bins) == bin_tables(bins.take(k)),
    decreases bins.len() - k,
{
    if k == bins.len() {
        assert(bins.take(k) =~= bins);
    } else {
        assert(bins.drop_last().take(k) =~= bins.take(k));
        lemma_tables_err_stays(bins.drop_last(), k);
    }
}

/// Once the copies so far fail, the rest changes nothing.
proof fn lemma_copy_err_stays(doc: Seq<char>, meta: Seq<char>, keys: Seq<Seq<char>>, k: int)
    requires
        0 <= k <= keys.len(),
        copy_entries(doc, meta, keys.take(k)) is Err,
    ensures
        copy_entries(doc, meta, keys) == copy_entries(doc, meta, keys.take(k)),
    decreases keys.len() - k,
{
    if k == keys.len() {
        assert(keys.take(k) =~= keys);
    } else {
        assert(keys.drop_last().take(k) =~= keys.take(k));
        lemma_copy_err_stays(doc, meta, keys.drop_last(), k);
    }
}

/// Makes a path of strings.
fn path_of(keys: &[&str]) -> (r: Vec<String>)
    ensures
        r@.len() == keys@.len(),
        forall|i: int| 0 <= i < keys@.len() ==> #[trigger] r@[i]@ == keys@[i]@,
{
    let mut r: Vec<String> = Vec::new();
    let mut i: usize = 0;
    while i < keys.len()
        invariant
            i <= keys@.len(),
            r@.len() == i,
            forall|j: int| 0 <= j < i ==> #[trigger] r@[j]@ == keys@[j]@,
        decreases keys.len() - i,
    {
        r.push(String::from_str(keys[i]));
        i = i + 1;
    }
    r
}

/// Tells where `path` cannot be reached in `doc`.
fn check_path(doc: &str, path: &Vec<String>) -> (r: Result<(), NewError>)
    ensures
        match path_check(doc@, strings_view(path@)) {
            None => r is Ok,
            Some(f) => r matches Err(e) && fault_of(e) == Some(f),
        },
{
    let ghost p = strings_view(path@);
    let mut prefix: Vec<String> = Vec::new();
    assert(toml_navigable(doc@, strings_view(prefix@)));
    match toml_kind(doc, &prefix) {
        Err(m) => {
            assert(strings_view(prefix@) =~= Seq::<Seq<char>>::empty());
            return Err(NewError::Toml(m));
        },
        Ok(_) => {},
    }
    assert(strings_view(prefix@) =~= Seq::<Seq<char>>::empty());
    let mut i: usize = 0;
    while i < path.len()
        invariant
            p == strings_view(path@),
            i <= path@.len(),
            strings_view(prefix@) =~= p.take(i as int),
            toml_navigable(doc@, p.take(i as int)),
            toml_doc_kind(doc@, Seq::empty()) == Some(TomlItemKind::Table),
        decreases path.len() - i,
    {
        let kind = match toml_kind(doc, &prefix) {
            Ok(k) => k,
            Err(m) => {
                assert(p.take(0) =~= Seq::<Seq<char>>::empty());
                return Err(NewError::Toml(m));
            },
        };
        let key = &path[i];
        let ok = match kind {
            TomlItemKind::Table => is_toml_key(key.as_str()),
            TomlItemKind::Missing => true,
            TomlItemKind::InlineTable => true,
            _ => false,
        };
        assert(p[i as int] == key@);
        if !ok {
            assert(!toml_step_ok(toml_doc_kind(doc@, p.take(i as int)), p[i as int]));
            assert(!toml_navigable(doc@, p));
            return Err(NewError::ManifestShape(key.clone()));
        }
        proof {
            let q = p.take(i + 1);
            assert forall|j: int| 0 <= j < q.len() implies toml_step_ok(#[trigger] toml_doc_kind(doc@, q.take(j)), q[j]) by {
                assert(q.take(j) =~= p.take(j));
                if j < i {
                    assert(p.take(i as int).take(j) =~= p.take(j));
                    assert(toml_step_ok(toml_doc_kind(doc@, p.take(i as int).take(j)), p.take(i as int)[j]));
                }
            }
        }
        prefix.push(key.clone());
        i = i + 1;
        assert(strings_view(prefix@) =~= p.take(i as int));
    }
    assert(p.take(path@.len() as int) =~= p);
    Ok(())
}

/// Sets the item along `path` to the string `value` (see `set_step`).
fn set_value(doc: &str, path: &Vec<String>, value: &str) -> (r: Result<String, NewError>)
    requires
        path@.len() > 0,
    ensures
        answers(set_step(doc@, strings_view(path@), value@), r),
{
    if !is_toml_string_value(value) {
        return Err(NewError::UnrepresentableValue(value.to_owned()));
    }
    match check_path(doc, path) {
        Err(e) => Err(e),
        Ok(()) => match toml_set_string(doc, path, value) {
            Ok(t) => Ok(t),
            Err(m) => Err(NewError::Toml(m)),
        },
    }
}

/// Sets the item along `path` to a copy of the item along `src_path` in `src` (see
/// `graft_step`).
fn graft(doc: &str, path: &Vec<String>, src: &str, src_path: &Vec<String>) -> (r: Result<String, NewError>)
    requires
        path@.len() > 0,
    ensures
        answers(graft_step(doc@, strings_view(path@), src@, strings_view(src_path@)), r),
{
    match check_path(doc, path) {
        Err(e) => Err(e),
        Ok(()) => match toml_graft(doc, path, src, src_path) {
            Ok(t) => Ok(t),
            Err(m) => Err(NewError::Toml(m)),
        },
    }
}

/// Fills in the names and problem URLs of the binaries in the metadata text.
fn fill_metadata(meta: &str, bins: &Vec<BinTarget>) -> (r: Result<String, NewError>)
    ensures
        answers(fill_all(meta@, bins@), r),
{
    let mut m = meta.to_owned();
    let mut i: usize = 0;
    while i < bins.len()
        invariant
            i <= bins@.len(),
            fill_all(meta@, bins@.take(i as int)) == Ok::<Seq<char>, ManifestFault>(m@),
        decreases bins.len() - i,
    {
        let b = &bins[i];
        proof {
            assert(bins@.take(i + 1).drop_last() =~= bins@.take(i as int));
            assert(bins@.take(i + 1).last() == *b);
        }
        if !is_toml_string_value(b.name.as_str()) {
            proof { lemma_fill_err_stays(meta@, bins@, i + 1); }
            return Err(NewError::UnrepresentableValue(b.name.clone()));
        }
        if !is_toml_key(b.kebab.as_str()) {
            proof { lemma_fill_err_stays(meta@, bins@, i + 1); }
            return Err(NewError::UnrepresentableKey(b.kebab.clone()));
        }
        let mut name_path: Vec<String> = Vec::new();
        name_path.push(b.kebab.clone());
        name_path.push(String::from_str("name"));
        assert(strings_view(name_path@) =~= seq![b.kebab@, "name"@]);
        let m1 = match set_value(m.as_str(), &name_path, b.name.as_str()) {
            Ok(t) => t,
            Err(e) => {
                proof { lemma_fill_err_stays(meta@, bins@, i + 1); }
                return Err(e);
            },
        };
        let mut problem_path: Vec<String> = Vec::new();
        problem_path.push(b.kebab.clone());
        problem_path.push(String::from_str("problem"));
        assert(strings_view(problem_path@) =~= seq![b.kebab@, "problem"@]);
        m = match set_value(m1.as_str(), &problem_path, b.problem_url.as_str()) {
            Ok(t) => t,
            Err(e) => {
                proof { lemma_fill_err_stays(meta@, bins@, i + 1); }
                return Err(e);
            },
        };
        i = i + 1;
    }
    assert(bins@.take(bins@.len() as int) =~= bins@);
    Ok(m)
}

/// The `[[bin]]` tables of the binaries.
fn bin_tables_text(bins: &Vec<BinTarget>) -> (r: Result<String, NewError>)
    ensures
        answers(bin_tables(bins@), r),
{
    let mut text = String::new();
    let mut i: usize = 0;
    while i < bins.len()
        invariant
            i <= bins@.len(),
            bin_tables(bins@.take(i as int)) == Ok::<Seq<char>, ManifestFault>(text@),
        decreases bins.len() - i,
    {
        let b = &bins[i];
        proof {
            assert(bins@.take(i + 1).drop_last() =~= bins@.take(i as int));
            assert(bins@.take(i + 1).last() == *b);
        }
        let empty = String::new();
        let mut name_path: Vec<String> = Vec::new();
        name_path.push(String::from_str("name"));
        assert(strings_view(name_path@) =~= seq!["name"@]);
        assert(empty@ =~= Seq::<char>::empty());
        let e1 = match set_value(empty.as_str(), &name_path, b.name.as_str()) {
            Ok(t) => t,
            Err(e) => {
                proof { lemma_tables_err_stays(bins@, i + 1); }
                return Err(e);
            },
        };
        let mut path_path: Vec<String> = Vec::new();
        path_path.push(String::from_str("path"));
        assert(strings_view(path_path@) =~= seq!["path"@]);
        let e2 = match set_value(e1.as_str(), &path_path, b.path.as_str()) {
            Ok(t) => t,
            Err(e) => {
                proof { lemma_tables_err_stays(bins@, i + 1); }
                return Err(e);
            },
        };
        text = text.concat("\n[[bin]]\n").concat(e2.as_str());
        i = i + 1;
    }
    assert(bins@.take(bins@.len() as int) =~= bins@);
    Ok(text)
}

/// The text the dependencies are taken from, and their path in it.
fn dependencies_of(deps: &DependenciesSource) -> (r: Result<(String, Vec<String>), NewError>)
    ensures
        match dependencies_item(*deps) {
            Ok(d) => r matches Ok((t, p)) && t@ == d.0 && strings_view(p@) == d.1,
            Err(f) => r matches Err(e) && fault_of(e) == Some(f),
        },
{
    let root: Vec<String> = Vec::new();
    assert(strings_view(root@) =~= Seq::<Seq<char>>::empty());
    match deps {
        DependenciesSource::Inline(c) => match toml_kind(c.as_str(), &root) {
            Err(_) => Err(NewError::DependenciesContent),
            Ok(_) => Ok((c.clone(), root)),
        },
        DependenciesSource::ManifestFile(t) => match toml_kind(t.as_str(), &root) {
            Err(m) => Err(NewError::Toml(m)),
            Ok(_) => {
                let mut p: Vec<String> = Vec::new();
                p.push(String::from_str("dependencies"));
                assert(strings_view(p@) =~= seq!["dependencies"@]);
                Ok((t.clone(), p))
            },
        },
    }
}

/// The manifest with the profile before it (see `with_profile`).
fn prepend_profile(manifest: String, profile: Option<&str>) -> (r: Result<String, NewError>)
    ensures
        answers(with_profile(manifest@, match profile { Some(p) => Some(p@), None => None }), r),
{
    match profile {
        None => Ok(manifest),
        Some(p) => {
            let empty = String::new();
            assert(empty@ =~= Seq::<char>::empty());
            let mut path: Vec<String> = Vec::new();
            path.push(String::from_str("profile"));
            assert(strings_view(path@) =~= seq!["profile"@]);
            let root: Vec<String> = Vec::new();
            assert(strings_view(root@) =~= Seq::<Seq<char>>::empty());
            let head = match graft(empty.as_str(), &path, p, &root) {
                Ok(t) => t,
                Err(e) => return Err(e),
            };
            match check_path(head.as_str(), &path) {
                Err(e) => return Err(e),
                Ok(()) => {},
            }
            let head = match toml_mark_implicit(head.as_str(), &path) {
                Ok(t) => t,
                Err(m) => return Err(NewError::Toml(m)),
            };
            let joined = head.concat("\n").concat(manifest.as_str());
            match toml_reformat(joined.as_str()) {
                Ok(t) => Ok(t),
                Err(m) => Err(NewError::Toml(m)),
            }
        },
    }
}

/// Copies the entries of `meta` under `keys` into the metadata `bin` table.
fn copy_metadata(doc: &str, meta: &str, keys: &Vec<String>) -> (r: Result<String, NewError>)
    ensures
        answers(copy_entries(doc@, meta@, strings_view(keys@)), r),
{
    let ghost ks = strings_view(keys@);
    let mut d = doc.to_owned();
    let ghost d0 = doc@;
    let mut i: usize = 0;
    while i < keys.len()
        invariant
            ks == strings_view(keys@),
            i <= keys@.len(),
            d0 == doc@,
            copy_entries(d0, meta@, ks.take(i as int)) == Ok::<Seq<char>, ManifestFault>(d@),
        decreases keys.len() - i,
    {
        proof {
            assert(ks.take(i + 1).drop_last() =~= ks.take(i as int));
            assert(ks.take(i + 1).last() == keys@[i as int]@);
        }
        let mut path = path_of(&["package", "metadata", "cargo-compete", "bin"]);
        path.push(keys[i].clone());
        let mut src: Vec<String> = Vec::new();
        src.push(keys[i].clone());
        proof {
            reveal_strlit("package");
            reveal_strlit("metadata");
            reveal_strlit("cargo-compete");
            reveal_strlit("bin");
            assert(strings_view(path@) =~= metadata_bin_path().push(keys@[i as int]@));
            assert(strings_view(src@) =~= seq![keys@[i as int]@]);
        }
        d = match graft(d.as_str(), &path, meta, &src) {
            Ok(t) => t,
            Err(e) => {
                proof { lemma_copy_err_stays(d0, meta@, ks, i + 1); }
                return Err(e);
            },
        };
        i = i + 1;
    }
    assert(ks.take(keys@.len() as int) =~= ks);
    Ok(d)
}

/// The metadata `bin` table made anew from the level of `path` down (see
/// `graft_subtree`).
fn graft_sub(doc: &str, path: &Vec<String>, meta: &str, keys: &Vec<String>) -> (r: Result<String, NewError>)
    requires
        path@.len() > 0,
    ensures
        answers(graft_subtree(doc@, strings_view(path@), meta@, strings_view(keys@)), r),
{
    if keys.len() == 0 {
        return Ok(doc.to_owned());
    }
    let skeleton = String::from_str("\n[package.metadata.cargo-compete.bin]\n");
    let sub = match copy_metadata(skeleton.as_str(), meta, keys) {
        Ok(t) => t,
        Err(e) => return Err(e),
    };
    graft(doc, path, sub.as_str(), path)
}

/// Puts the entries of `meta` under the keys in the metadata `bin` table (see
/// `metadata_placed`).
fn place_metadata(doc: &str, meta: &str, keys: &Vec<String>) -> (r: Result<String, NewError>)
    ensures
        answers(metadata_placed(doc@, meta@, strings_view(keys@)), r),
{
    let p2 = path_of(&["package", "metadata"]);
    let p3 = path_of(&["package", "metadata", "cargo-compete"]);
    let p4 = path_of(&["package", "metadata", "cargo-compete", "bin"]);
    proof {
        reveal_strlit("package");
        reveal_strlit("metadata");
        reveal_strlit("cargo-compete");
        reveal_strlit("bin");
        assert(strings_view(p2@) =~= metadata_bin_path().take(2));
        assert(strings_view(p3@) =~= metadata_bin_path().take(3));
        assert(strings_view(p4@) =~= metadata_bin_path());
    }
    match check_path(doc, &p2) {
        Err(e) => return Err(e),
        Ok(()) => {},
    }
    let k2 = match toml_kind(doc, &p2) {
        Ok(k) => k,
        Err(m) => return Err(NewError::Toml(m)),
    };
    if k2 == TomlItemKind::Missing {
        return graft_sub(doc, &p2, meta, keys);
    }
    match check_path(doc, &p3) {
        Err(e) => return Err(e),
        Ok(()) => {},
    }
    let k3 = match toml_kind(doc, &p3) {
        Ok(k) => k,
        Err(m) => return Err(NewError::Toml(m)),
    };
    if k3 == TomlItemKind::Missing {
        return graft_sub(doc, &p3, meta, keys);
    }
    match check_path(doc, &p4) {
        Err(e) => return Err(e),
        Ok(()) => {},
    }
    let k4 = match toml_kind(doc, &p4) {
        Ok(k) => k,
        Err(m) => return Err(NewError::Toml(m)),
    };
    if k4 == TomlItemKind::Missing {
        return graft_sub(doc, &p4, meta, keys);
    }
    copy_metadata(doc, meta, keys)
}

/// Writes the manifest of a new package: the manifest `cargo new` wrote gets `[bin]`
/// before `[dependencies]`; the profile of the template, if any, goes before it as an
/// implicit `[profile]` table; `package.metadata.cargo-compete.bin` is made where it is
/// missing and gets the entries of the layout's metadata, each with the binary's name
/// and problem URL filled in; `bin` becomes the `[[bin]]` tables of the binaries and
/// `dependencies` those of the template; a space is put between each `"` and a `}`
/// that follows it where the text still parses; the tables come in their original
/// order. Where `toml_edit` would panic (a key it does not take, a text it cannot
/// write as a string, an item in the way that is no table), an error comes
/// instead.
pub fn assemble_manifest(
    cargo_new_manifest: &str,
    layout: &PackageLayout,
    dependencies: &DependenciesSource,
    profile: Option<&str>,
) -> (r: Result<String, NewError>)
    ensures
        answers(
            manifest_assembled(
                cargo_new_manifest@,
                *layout,
                *dependencies,
                match profile { Some(p) => Some(p@), None => None },
            ),
            r,
        ),
{
    let root: Vec<String> = Vec::new();
    assert(strings_view(root@) =~= Seq::<Seq<char>>::empty());
    match toml_kind(layout.metadata_bin_toml.as_str(), &root) {
        Err(m) => return Err(NewError::Toml(m)),
        Ok(_) => {},
    }
    let meta = match fill_metadata(layout.metadata_bin_toml.as_str(), &layout.bins) {
        Ok(t) => t,
        Err(e) => return Err(e),
    };
    let bins_text = match bin_tables_text(&layout.bins) {
        Ok(t) => t,
        Err(e) => return Err(e),
    };
    let (deps_text, deps_path) = match dependencies_of(dependencies) {
        Ok(d) => d,
        Err(e) => return Err(e),
    };
    edit_manifest(cargo_new_manifest, meta.as_str(), bins_text.as_str(), deps_text.as_str(), &deps_path, profile)
}

/// The edits of the manifest once the metadata, the `[[bin]]` tables and the
/// dependencies are ready (see `manifest_edits`).
fn edit_manifest(
    cargo_new_manifest: &str,
    meta: &str,
    bins_doc: &str,
    deps_text: &str,
    deps_path: &Vec<String>,
    profile: Option<&str>,
) -> (r: Result<String, NewError>)
    ensures
        answers(
            manifest_edits(
                cargo_new_manifest@,
                meta@,
                bins_doc@,
                (deps_text@, strings_view(deps_path@)),
                match profile { Some(p) => Some(p@), None => None },
            ),
            r,
        ),
{
    let with_bin = with_bin_section(cargo_new_manifest);
    let base = match toml_reformat(with_bin.as_str()) {
        Ok(t) => t,
        Err(m) => return Err(NewError::Toml(m)),
    };
    let m1 = match prepend_profile(base, profile) {
        Ok(t) => t,
        Err(e) => return Err(e),
    };
    let keys = match toml_root_keys(meta) {
        Ok(k) => k,
        Err(m) => return Err(NewError::Toml(m)),
    };
    let m5 = match place_metadata(m1.as_str(), meta, &keys) {
        Ok(t) => t,
        Err(e) => return Err(e),
    };
    let bin_path = path_of(&["bin"]);
    let deps_key = path_of(&["dependencies"]);
    proof {
        reveal_strlit("bin");
        reveal_strlit("dependencies");
        assert(strings_view(bin_path@) =~= seq!["bin"@]);
        assert(strings_view(deps_key@) =~= seq!["dependencies"@]);
    }
    let m6 = match graft(m5.as_str(), &bin_path, bins_doc, &bin_path) {
        Ok(t) => t,
        Err(e) => return Err(e),
    };
    let m7 = match graft(m6.as_str(), &deps_key, deps_text, deps_path) {
        Ok(t) => t,
        Err(e) => return Err(e),
    };
    let spaced = space_inline_table_ends(m7.as_str());
    match toml_in_original_order(spaced.as_str()) {
        Ok(t) => Ok(t),
        Err(_) => match toml_in_original_order(m7.as_str()) {
            Ok(t) => Ok(t),
            Err(m) => Err(NewError::Toml(m)),
        },
    }
}

} // verus!
