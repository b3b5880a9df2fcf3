use cargo_compete::credentials::{username_and_password, PromptAction, PromptState};
use cargo_compete::error::NewError;
use cargo_compete::group::Group;
use cargo_compete::manifest::{assemble_manifest, DependenciesSource};
use cargo_compete::package::{layout_from_rendered, path_template_variables, plan_new_package, PackageLayout};
use cargo_compete::plan::{contest_url_from_rendered, contest_url_variables, Retrieval};
use cargo_compete::str_map::StrMap;
use cargo_compete::toml_syntax::{is_toml_key, is_toml_string_value};

const CARGO_NEW: &str = "[package]\nname = \"abc123\"\nversion = \"0.1.0\"\nedition = \"2018\"\n\n# See more keys and their definitions at https://doc.rust-lang.org/cargo/reference/manifest.html\n\n[dependencies]\n";

fn abc123_layout() -> PackageLayout {
    let mut problems = StrMap::new();
    problems.insert("A".to_string(), "https://atcoder.jp/contests/abc123/tasks/abc123_a".to_string());
    problems.insert("B".to_string(), "https://atcoder.jp/contests/abc123/tasks/abc123_b".to_string());
    let group = Group::Atcoder("abc123".to_string());
    plan_new_package("/w/compete.toml", "{{ package_name }}", &group, &problems).unwrap()
}

#[test]
fn keys_toml_edit_takes() {
    for k in ["a", "A-_0", "\"q\"", "'l'", "a.b", "", "it's", "a b", "\ta", "\\u00e9", "\\U0001F600"].iter() {
        assert!(is_toml_key(k), "{:?}", k);
    }
    for k in ["\n", "a\\q'", "\\uD800'", "\\u12'", "\\U00110000'", "\"'\\"].iter() {
        assert!(!is_toml_key(k), "{:?}", k);
    }
}

#[test]
fn string_values_toml_edit_writes() {
    assert!(is_toml_string_value("abc123-a"));
    assert!(is_toml_string_value("https://atcoder.jp/contests/abc123/tasks/abc123_a"));
    assert!(is_toml_string_value("it's"));
    assert!(is_toml_string_value("a\"b\\c"));
    assert!(is_toml_string_value("tab\there"));
    assert!(is_toml_string_value("it's \"x\""));
    assert!(is_toml_string_value("a\nb"));
    assert!(is_toml_string_value("it's \"x'"));
    assert!(is_toml_string_value("a'''\"b"));
    assert!(is_toml_string_value("'''a\\q'''"));
    assert!(is_toml_string_value("a\\\n  b'''"));
    assert!(!is_toml_string_value("a\u{1}b"));
    assert!(!is_toml_string_value("t\t'''\""));
    assert!(!is_toml_string_value("x'''\\q"));
}

#[test]
fn contest_url_from_what_the_template_rendered() {
    assert!(matches!(
        contest_url_from_rendered("c1".to_string(), Err("boom".to_string())),
        Err(NewError::ContestUrlTemplate(ref m)) if m == "boom"
    ));
    assert!(matches!(
        contest_url_from_rendered("c1".to_string(), Ok("not a url".to_string())),
        Err(NewError::ContestUrl(_))
    ));
    match contest_url_from_rendered("c1".to_string(), Ok("https://example.com/contests/c1".to_string())) {
        Ok(Retrieval::OjApi { contest_id, contest_url }) => {
            assert_eq!(contest_id, "c1");
            assert_eq!(contest_url, "https://example.com/contests/c1");
        }
        other => panic!("{:?}", other),
    }
}

#[test]
fn layout_from_what_the_template_rendered() {
    let mut problems = StrMap::new();
    problems.insert("A".to_string(), "https://atcoder.jp/contests/abc1/tasks/abc1_a".to_string());
    let group = Group::Atcoder("abc1".to_string());
    assert!(matches!(
        layout_from_rendered("/w/compete.toml", Err("bad".to_string()), &group, &problems),
        Err(NewError::PackagePathTemplate(ref m)) if m == "bad"
    ));
    let layout = layout_from_rendered("/w/compete.toml", Ok("./contests/abc1".to_string()), &group, &problems).unwrap();
    assert_eq!(layout.manifest_dir, "/w/./contests/abc1");
    assert_eq!(layout.bins[0].src_path, "/w/./contests/abc1/src/bin/a.rs");
    let absolute = layout_from_rendered("/w/compete.toml", Ok("/elsewhere".to_string()), &group, &problems).unwrap();
    assert_eq!(absolute.manifest_dir, "/elsewhere");
}

#[test]
fn manifest_of_a_new_package() {
    let layout = abc123_layout();
    let deps = DependenciesSource::Inline("proconio = \"0.4\"\n".to_string());
    let manifest = assemble_manifest(CARGO_NEW, &layout, &deps, Some("[release]\nlto = true\n")).unwrap();
    assert_eq!(
        manifest,
        "[profile.release]\nlto = true\n\n[package]\nname = \"abc123\"\nversion = \"0.1.0\"\nedition = \"2018\"\n\n[package.metadata.cargo-compete.bin]\na = { name = \"abc123-a\", problem = \"https://atcoder.jp/contests/abc123/tasks/abc123_a\" }\nb = { name = \"abc123-b\", problem = \"https://atcoder.jp/contests/abc123/tasks/abc123_b\" }\n\n[[bin]]\nname = \"abc123-a\"\npath = \"src/bin/a.rs\"\n\n[[bin]]\nname = \"abc123-b\"\npath = \"src/bin/b.rs\"\n[dependencies]\nproconio = \"0.4\"\n"
    );
}

#[test]
fn manifest_without_profile_takes_dependencies_from_a_file() {
    let layout = abc123_layout();
    let deps = DependenciesSource::ManifestFile("[package]\nname = \"t\"\n\n[dependencies]\nitertools = \"0.9\"\n".to_string());
    let manifest = assemble_manifest(CARGO_NEW, &layout, &deps, None).unwrap();
    assert!(manifest.starts_with("[package]\nname = \"abc123\"\n"));
    assert!(!manifest.contains("[profile"));
    assert!(manifest.contains("\n[dependencies]\nitertools = \"0.9\"\n"));
    assert!(manifest.contains("a = { name = \"abc123-a\", problem = \"https://atcoder.jp/contests/abc123/tasks/abc123_a\" }\n"));
    assert!(!manifest.contains("\"}"));
}

#[test]
fn manifest_errors() {
    let layout = abc123_layout();
    let bad_inline = DependenciesSource::Inline("= =".to_string());
    assert!(matches!(
        assemble_manifest(CARGO_NEW, &layout, &bad_inline, None),
        Err(NewError::DependenciesContent)
    ));
    let bad_file = DependenciesSource::ManifestFile("[x".to_string());
    assert!(matches!(assemble_manifest(CARGO_NEW, &layout, &bad_file, None), Err(NewError::Toml(_))));
    let deps = DependenciesSource::Inline(String::new());
    assert!(matches!(assemble_manifest("[package", &layout, &deps, None), Err(NewError::Toml(_))));
    match assemble_manifest("package = 1\n", &layout, &deps, None) {
        Err(e @ NewError::ManifestShape(_)) => {
            assert_eq!(e.message(), "cannot access key `metadata` in the manifest");
        }
        other => panic!("{:?}", other),
    }
    let mut odd = abc123_layout();
    odd.bins[0].name = "a\u{1}b".to_string();
    assert!(matches!(
        assemble_manifest(CARGO_NEW, &odd, &deps, None),
        Err(NewError::UnrepresentableValue(ref v)) if v == "a\u{1}b"
    ));
    let mut quoted = abc123_layout();
    quoted.bins[0].name = "it's \"x\"".to_string();
    let manifest = assemble_manifest(CARGO_NEW, &quoted, &deps, None).unwrap();
    assert!(manifest.contains("name = '''it's \"x\"'''"));
    assert_eq!(
        NewError::DependenciesContent.message(),
        "could not parse the toml value in `new.template.dependencies.content`"
    );
}

#[test]
fn dialog_asks_anew_each_time() {
    let dialog = username_and_password("Username: ", "Password: ");
    for (u, p) in [("alice", "pw1"), ("bob", "pw2"), ("alice", "pw3")].iter() {
        let (state, action) = dialog.start();
        assert!(matches!(action, PromptAction::ReadReply(ref q) if q == "Username: "));
        let (state, action) = dialog.step(state, Ok(u.to_string()));
        assert!(matches!(action, PromptAction::ReadPassword(ref q) if q == "Password: "));
        let (state, action) = dialog.step(state, Ok(p.to_string()));
        assert!(matches!(action, PromptAction::Done(ref a, ref b) if a == u && b == p));
        assert!(matches!(state, PromptState::AwaitingUsername));
    }
}

#[test]
fn templates_get_the_group_s_variables() {
    assert_eq!(
        path_template_variables(&Group::Atcoder("abc1".to_string())),
        vec![
            ("contest".to_string(), Some("abc1".to_string())),
            ("package_name".to_string(), Some("abc1".to_string())),
        ]
    );
    assert_eq!(
        path_template_variables(&Group::YukicoderProblems),
        vec![("contest".to_string(), None), ("package_name".to_string(), Some("problems".to_string()))]
    );
    assert_eq!(contest_url_variables("c9"), vec![("id".to_string(), Some("c9".to_string()))]);
    let mut problems = StrMap::new();
    problems.insert("A".to_string(), "https://codeforces.com/contest/1/problem/A".to_string());
    let layout = plan_new_package("/w/c.toml", "{{ contest }}/{{ package_name }}", &Group::Codeforces("1".to_string()), &problems).unwrap();
    assert_eq!(layout.manifest_dir, "/w/./1/contest1");
}
