//! The layout of a new package: where it goes, its binaries, the `bin` table of its
//! metadata, and the edits of the manifest text that `cargo new` writes.

use vstd::prelude::*;
use crate::error::NewError;
use crate::external::{
    globals_view, join_path, kebab_case, liquid_render_in, path_join, path_strip_prefix,
    path_with_extension, path_with_file_name, render_liquid, rendered_view, strip_prefix,
    to_kebab_case, with_extension, with_file_name,
};
use crate::group::Group;
use crate::str_map::StrMap;
use crate::text::{chars_of, ends_with, ends_with_chars, replace_all, replace_str, string_of};
use crate::toml_key::{escape_key, escaped_key};
use crate::toml_syntax::{is_toml_key, key_parses};

verus! {

/// One binary of the package, for one problem.
#[derive(Debug)]
pub struct BinTarget {
    /// The problem index.
    pub problem_index: String,
    /// The index in kebab case.
    pub kebab: String,
    /// The binary's name: the package name, a hyphen, the kebab-case index.
    pub name: String,
    /// Its source path in the manifest: `src/bin/<kebab>.rs`.
    pub path: String,
    /// The URL of the problem.
    pub problem_url: String,
    /// Where its source file is written.
    pub src_path: String,
}

/// Where a new package goes and what its manifest says of its binaries.
#[derive(Debug)]
pub struct PackageLayout {
    pub package_name: String,
    pub manifest_dir: String,
    pub manifest_path: String,
    pub src_bin_dir: String,
    pub main_rs_path: String,
    /// One per problem, in the order of the problem indices.
    pub bins: Vec<BinTarget>,
    /// The TOML text of `package.metadata.cargo-compete.bin`, before the names and URLs
    /// are filled in: one line per problem.
    pub metadata_bin_toml: String,
}

/// The rendered path with a leading `.` component removed, where it has one.
pub open spec fn without_dot(rendered: Seq<char>) -> Seq<char> {
    match path_strip_prefix(rendered, "."@) {
        Some(s) => s,
        None => rendered,
    }
}

/// The package directory: the rendered path, taken relative to the directory of
/// `compete.toml` (that file's name replaced by `.`).
pub open spec fn manifest_dir_for(config_path: Seq<char>, rendered: Seq<char>) -> Seq<char> {
    path_join(path_with_file_name(config_path, "."@), without_dot(rendered))
}

/// The metadata line of one binary, before its name and URL are filled in.
pub open spec fn metadata_line(kebab: Seq<char>) -> Seq<char> {
    escaped_key(kebab) + " = { name = \"\", problem = \"\" }\n"@
}

/// The metadata lines of the binaries, one after another.
pub open spec fn metadata_text(kebabs: Seq<Seq<char>>) -> Seq<char>
    decreases kebabs.len(),
{
    if kebabs.len() == 0 {
        Seq::empty()
    } else {
        metadata_text(kebabs.drop_last()) + metadata_line(kebabs.last())
    }
}

/// The problem indices in kebab case.
pub open spec fn kebabs_of(indices: Seq<Seq<char>>) -> Seq<Seq<char>> {
    indices.map_values(|i: Seq<char>| kebab_case(i))
}

/// What a binary of the package is, for the problem of `index` at `url`.
pub open spec fn is_bin_target(b: BinTarget, package_name: Seq<char>, src_bin_dir: Seq<char>, index: Seq<char>, url: Seq<char>) -> bool {
    let kebab = kebab_case(index);
    &&& b.problem_index@ == index
    &&& b.kebab@ == kebab
    &&& b.name@ == package_name + "-"@ + kebab
    &&& b.path@ == "src/bin/"@ + kebab + ".rs"@
    &&& b.problem_url@ == url
    &&& b.src_path@ == path_with_extension(path_join(src_bin_dir, kebab), "rs"@)
}

/// What `layout_from_rendered` gives for the path of `compete.toml`, the outcome of
/// rendering the path template, the group, and the problems (their indices in order and
/// their URLs).
pub open spec fn package_planned(
    config_path: Seq<char>,
    rendered: Result<Seq<char>, Seq<char>>,
    group: Group,
    keys: Seq<Seq<char>>,
    urls: Seq<String>,
    r: Result<PackageLayout, NewError>,
) -> bool {
    match rendered {
        Err(m) => r matches Err(NewError::PackagePathTemplate(e)) && e@ == m,
        Ok(rendered) => {
            let kebabs = kebabs_of(keys);
            if exists|i: int| 0 <= i < kebabs.len() && !key_parses(#[trigger] kebabs[i]) {
                r matches Err(NewError::UnrepresentableKey(k)) && exists|i: int|
                    0 <= i < kebabs.len() && !key_parses(#[trigger] kebabs[i]) && k@ == kebabs[i]
                        && forall|j: int| 0 <= j < i ==> key_parses(#[trigger] kebabs[j])
            } else {
                r matches Ok(layout) && {
                    let dir = manifest_dir_for(config_path, rendered);
                    let src = path_join(dir, "src"@);
                    let bin_dir = path_join(src, "bin"@);
                    &&& layout.package_name@ == group.spec_package_name()
                    &&& layout.manifest_dir@ == dir
                    &&& layout.manifest_path@ == path_join(dir, "Cargo.toml"@)
                    &&& layout.src_bin_dir@ == bin_dir
                    &&& layout.main_rs_path@ == path_join(src, "main.rs"@)
                    &&& layout.bins@.len() == keys.len()
                    &&& forall|i: int| 0 <= i < layout.bins@.len() ==> is_bin_target(
                        #[trigger] layout.bins@[i],
                        group.spec_package_name(),
                        bin_dir,
                        keys[i],
                        urls[i]@,
                    )
                    &&& layout.metadata_bin_toml@ == metadata_text(kebabs)
                }
            }
        },
    }
}

/// The variables the package path template is rendered with: `contest`, the group's
/// contest (`nil` where it has none), and `package_name`.
pub open spec fn package_globals(group: Group) -> Seq<(Seq<char>, Option<Seq<char>>)> {
    seq![("contest"@, group.spec_contest()), ("package_name"@, Some(group.spec_package_name()))]
}

/// The package path template sees the group's contest as `contest`, for AtCoder,
/// Codeforces, a yukicoder contest and `oj-api` alike (`nil` only for loose yukicoder
/// problems), and the package name as `package_name`.
pub proof fn lemma_template_sees_the_contest(g: Group)
    ensures
        package_globals(g).len() == 2,
        package_globals(g)[0].0 == "contest"@,
        package_globals(g)[1].0 == "package_name"@,
        package_globals(g)[1].1 == Some(g.spec_package_name()),
        match g {
            Group::Atcoder(c) => package_globals(g)[0].1 == Some(c@),
            Group::Codeforces(c) => package_globals(g)[0].1 == Some(c@),
            Group::YukicoderContest(c) => package_globals(g)[0].1 == Some(c@),
            Group::OjApi(c) => package_globals(g)[0].1 == Some(c@),
            Group::YukicoderProblems => package_globals(g)[0].1 is None,
        },
{
}

/// The variables the package path template is rendered with (see `package_globals`).
pub fn path_template_variables(group: &Group) -> (r: Vec<(String, Option<String>)>)
    ensures
        globals_view(r@) == package_globals(*group),
{
    let contest = match group.contest() {
        Some(c) => Some(c.to_owned()),
        None => None,
    };
    let mut globals: Vec<(String, Option<String>)> = Vec::new();
    globals.push((String::from_str("contest"), contest));
    globals.push((String::from_str("package_name"), Some(group.package_name())));
    assert(globals_view(globals@) =~= package_globals(*group));
    globals
}

/// The layout of a package for the group and the problems (index to URL): the path
/// template is rendered with `contest` and `package_name`, and `layout_from_rendered`
/// does the rest with whatever the render gave (the render may read the clock).
pub fn plan_new_package(config_path: &str, path_template: &str, group: &Group, problems: &StrMap<String>) -> (r: Result<PackageLayout, NewError>)
    ensures
        exists|env: int|
            #[trigger] package_planned(
                config_path@,
                liquid_render_in(path_template@, package_globals(*group), env),
                *group,
                problems.keys(),
                problems.values(),
                r,
            ),
{
    let globals = path_template_variables(group);
    let rendered = render_liquid(path_template, &globals);
    let ghost rv = rendered_view(rendered);
    let ghost env = choose|env: int| rv == liquid_render_in(path_template@, globals_view(globals@), env);
    let r = layout_from_rendered(config_path, rendered, group, problems);
    assert(package_planned(config_path@, liquid_render_in(path_template@, package_globals(*group), env), *group, problems.keys(), problems.values(), r));
    r
}

/// The layout of a package from the rendered path template: the rendered path gives the
/// directory relative to that of `compete.toml` (a render error is an error); each
/// problem gets a binary; an index whose kebab-case form is no key `toml_edit` takes is
/// an error, the first one in order.
pub fn layout_from_rendered(config_path: &str, rendered: Result<String, String>, group: &Group, problems: &StrMap<String>) -> (r: Result<PackageLayout, NewError>)
    ensures
        package_planned(config_path@, rendered_view(rendered), *group, problems.keys(), problems.values(), r),
{
    let package_name = group.package_name();
    let path = match rendered {
        Ok(s) => s,
        Err(m) => return Err(NewError::PackagePathTemplate(m)),
    };
    assert(rendered_view(rendered) == Ok::<Seq<char>, Seq<char>>(path@));
    let relative = match strip_prefix(path.as_str(), ".") {
        Some(s) => s,
        None => path,
    };
    let manifest_dir = join_path(with_file_name(config_path, ".").as_str(), relative.as_str());
    let manifest_path = join_path(manifest_dir.as_str(), "Cargo.toml");
    let src_dir = join_path(manifest_dir.as_str(), "src");
    let src_bin_dir = join_path(src_dir.as_str(), "bin");
    let main_rs_path = join_path(src_dir.as_str(), "main.rs");

    let ghost keys = problems.keys();
    let ghost kebabs = kebabs_of(keys);
    let n = problems.len();
    let mut bins: Vec<BinTarget> = Vec::new();
    let mut metadata = String::new();
    let mut i: usize = 0;
    while i < n
        invariant
            n == keys.len(),
            n == problems.values().len(),
            keys == problems.keys(),
            kebabs == kebabs_of(keys),
            i <= n,
            bins@.len() == i,
            forall|j: int| 0 <= j < i ==> key_parses(#[trigger] kebabs[j]),
            forall|j: int| 0 <= j < i ==> is_bin_target(
                #[trigger] bins@[j],
                group.spec_package_name(),
                src_bin_dir@,
                keys[j],
                problems.values()[j]@,
            ),
            metadata@ == metadata_text(kebabs.take(i as int)),
            package_name@ == group.spec_package_name(),
            rendered_view(rendered) is Ok,
        decreases n - i,
    {
        let index = problems.key_at(i);
        let url = problems.value_at(i);
        let kebab = to_kebab_case(index.as_str());
        assert(kebab@ == kebabs[i as int]);
        if !is_toml_key(kebab.as_str()) {
            assert(!key_parses(kebabs[i as int]));
            assert(rendered_witness(kebabs, i as int));
            assert(exists|j: int| 0 <= j < kebabs.len() && !key_parses(#[trigger] kebabs[j]));
            return Err(NewError::UnrepresentableKey(kebab));
        }
        let key = escape_key(kebab.as_str());
        let ghost before = metadata@;
        metadata.append(key.as_str());
        metadata.append(" = { name = \"\", problem = \"\" }\n");
        proof {
            assert(kebabs.take(i + 1).drop_last() =~= kebabs.take(i as int));
            assert(kebabs.take(i + 1).last() == kebab@);
            assert(metadata@ =~= before + metadata_line(kebab@));
        }
        let name = package_name.clone().concat("-").concat(kebab.as_str());
        let path = String::from_str("src/bin/").concat(kebab.as_str()).concat(".rs");
        proof {
            reveal_strlit("rs");
            assert(!"rs"@.contains('/')) by {
                if "rs"@.contains('/') {
                    let j = choose|j: int| 0 <= j < "rs"@.len() && "rs"@[j] == '/';
                }
            }
            assert(!"rs"@.contains('\\')) by {
                if "rs"@.contains('\\') {
                    let j = choose|j: int| 0 <= j < "rs"@.len() && "rs"@[j] == '\\';
                }
            }
        }
        let src_path = with_extension(join_path(src_bin_dir.as_str(), kebab.as_str()).as_str(), "rs");
        let bin = BinTarget {
            problem_index: index.clone(),
            kebab,
            name,
            path,
            problem_url: url.clone(),
            src_path,
        };
        bins.push(bin);
        i = i + 1;
    }
    assert(kebabs.take(n as int) =~= kebabs);
    Ok(PackageLayout {
        package_name,
        manifest_dir,
        manifest_path,
        src_bin_dir,
        main_rs_path,
        bins,
        metadata_bin_toml: metadata,
    })
}

/// The first index whose kebab-case form cannot be a key is at `i`.
spec fn rendered_witness(kebabs: Seq<Seq<char>>, i: int) -> bool {
    0 <= i < kebabs.len() && !key_parses(kebabs[i]) && forall|j: int| 0 <= j < i ==> key_parses(#[trigger] kebabs[j])
}

/// The end of the manifest that `cargo new` writes.
pub open spec fn default_manifest_end() -> Seq<char> {
    "\n# See more keys and their definitions at https://doc.rust-lang.org/cargo/reference/manifest.html\n\n[dependencies]\n"@
}

/// What that end is replaced by: an empty `bin` table before the dependencies.
pub open spec fn manifest_end_with_bin() -> Seq<char> {
    "\n[bin]\n\n[dependencies]\n"@
}

/// The manifest `cargo new` wrote, with `[bin]` put before `[dependencies]` where it ends
/// as `cargo new` ends it (every occurrence of that ending is replaced, as
/// `str::replace` does).
pub open spec fn manifest_with_bin(manifest: Seq<char>) -> Seq<char> {
    if ends_with(manifest, default_manifest_end()) {
        replace_all(manifest, default_manifest_end(), manifest_end_with_bin())
    } else {
        manifest
    }
}

/// The manifest `cargo new` wrote, with `[bin]` put before `[dependencies]` (see
/// `manifest_with_bin`).
pub fn with_bin_section(manifest: &str) -> (r: String)
    ensures
        r@ == manifest_with_bin(manifest@),
{
    let end = "\n# See more keys and their definitions at https://doc.rust-lang.org/cargo/reference/manifest.html\n\n[dependencies]\n";
    let replacement = "\n[bin]\n\n[dependencies]\n";
    let m = chars_of(manifest);
    let e = chars_of(end);
    if ends_with_chars(&m, &e) {
        proof {
            reveal_strlit("\n# See more keys and their definitions at https://doc.rust-lang.org/cargo/reference/manifest.html\n\n[dependencies]\n");
        }
        replace_str(manifest, end, replacement)
    } else {
        manifest.to_owned()
    }
}

/// The closing quote and brace of an inline table.
pub open spec fn tight_brace() -> Seq<char> {
    seq!['"', '}']
}

/// The same with a space between them.
pub open spec fn spaced_brace() -> Seq<char> {
    seq!['"', ' ', '}']
}

/// The manifest text with a space put between each `"` and the `}` that follows it.
pub fn space_inline_table_ends(text: &str) -> (r: String)
    ensures
        r@ == replace_all(text@, tight_brace(), spaced_brace()),
{
    let tv = chars_of(text);
    let mut p: Vec<char> = Vec::new();
    p.push('"');
    p.push('}');
    let mut q: Vec<char> = Vec::new();
    q.push('"');
    q.push(' ');
    q.push('}');
    assert(p@ =~= tight_brace());
    assert(q@ =~= spaced_brace());
    let out = crate::text::replace_all_chars(&tv, &p, &q);
    string_of(&out)
}

/// The message shown once the package is made: `` `<name>` package at <dir> ``.
pub fn created_message(layout: &PackageLayout) -> (r: String)
    ensures
        r@ == "`"@ + layout.package_name@ + "` package at "@ + layout.manifest_dir@,
{
    String::from_str("`").concat(layout.package_name.as_str()).concat("` package at ").concat(
        layout.manifest_dir.as_str(),
    )
}

} // verus!

verus! {

/// The first character of a replacement's result is that of the text: `"` where the
/// text starts with `"}`, the text's own first character otherwise.
proof fn lemma_spaced_first(s: Seq<char>)
    requires
        s.len() > 0,
    ensures
        replace_all(s, tight_brace(), spaced_brace()).len() > 0,
        replace_all(s, tight_brace(), spaced_brace())[0] == s[0],
{
    let p = tight_brace();
    let q = spaced_brace();
    if p.len() <= s.len() && s.take(p.len() as int) == p {
        assert(s[0] == s.take(2)[0]);
    }
}

/// After a space is put into every `"}`, no `"}` is left in the text.
pub proof fn lemma_no_tight_brace_left(s: Seq<char>)
    ensures
        !crate::text::contains_seq(replace_all(s, tight_brace(), spaced_brace()), tight_brace()),
    decreases s.len(),
{
    let p = tight_brace();
    let q = spaced_brace();
    let r = replace_all(s, p, q);
    if s.len() == 0 {
        assert forall|i: int| !crate::text::occurs_at(r, p, i) by {}
    } else if p.len() <= s.len() && s.take(p.len() as int) == p {
        let t = s.skip(2);
        let rt = replace_all(t, p, q);
        lemma_no_tight_brace_left(t);
        assert(r == q + rt);
        assert forall|i: int| !crate::text::occurs_at(r, p, i) by {
            if crate::text::occurs_at(r, p, i) {
                if i < 3 {
                    assert(r.subrange(i, i + 2)[0] == r[i]);
                    assert(r.subrange(i, i + 2)[1] == r[i + 1]);
                } else {
                    assert(rt.subrange(i - 3, i - 1) =~= r.subrange(i, i + 2));
                    assert(crate::text::occurs_at(rt, p, i - 3));
                }
            }
        }
    } else {
        let t = s.skip(1);
        let rt = replace_all(t, p, q);
        lemma_no_tight_brace_left(t);
        assert(r == seq![s[0]] + rt);
        assert forall|i: int| !crate::text::occurs_at(r, p, i) by {
            if crate::text::occurs_at(r, p, i) {
                if i == 0 {
                    assert(r.subrange(0, 2)[0] == r[0]);
                    assert(r.subrange(0, 2)[1] == r[1]);
                    assert(rt.len() > 0);
                    assert(t.len() > 0);
                    lemma_spaced_first(t);
                    assert(s.take(2) =~= p);
                } else {
                    assert(rt.subrange(i - 1, i + 1) =~= r.subrange(i, i + 2));
                    assert(crate::text::occurs_at(rt, p, i - 1));
                }
            }
        }
    }
}

} // verus!
