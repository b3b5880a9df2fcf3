use cargo_compete::error::NewError;
use cargo_compete::group::Group;
use cargo_compete::package::{created_message, plan_new_package, space_inline_table_ends, with_bin_section};
use cargo_compete::plan::{
    group_for, group_of_outcome, index_url_map, pair_paths, plan_retrieval, problem_dir_names,
    problem_set, problems_by_url, test_suite_names, urls, NewTarget, Platform, Retrieval,
    RetrievedProblem,
};
use cargo_compete::str_map::StrMap;

fn strings(v: &[&str]) -> Vec<String> {
    v.iter().map(|s| s.to_string()).collect()
}

fn problem(index: &str, url: &str, contest_url: Option<&str>) -> RetrievedProblem {
    RetrievedProblem {
        index: index.to_string(),
        url: url.to_string(),
        contest_url: contest_url.map(str::to_string),
    }
}

#[test]
fn problem_set_sorts_and_drops_repeats() {
    assert_eq!(problem_set(&strings(&["c", "a", "b", "a"])), strings(&["a", "b", "c"]));
    assert_eq!(problem_set(&Vec::new()), Vec::<String>::new());
    assert_eq!(problem_set(&strings(&["b", "a"])), problem_set(&strings(&["a", "b", "a"])));
}

#[test]
fn atcoder_needs_a_contest() {
    let target = NewTarget::CargoCompete(Platform::Atcoder);
    let err = plan_retrieval(&target, None, None).unwrap_err();
    assert!(matches!(err, NewError::AtcoderContestRequired));
    assert_eq!(err.message(), "`contest` is required for AtCoder");
    match plan_retrieval(&target, Some("abc123".to_string()), Some(strings(&["b", "a", "b"]))).unwrap() {
        Retrieval::Atcoder { contest, problems } => {
            assert_eq!(contest, "abc123");
            assert_eq!(problems, Some(strings(&["a", "b"])));
        }
        other => panic!("{:?}", other),
    }
}

#[test]
fn codeforces_needs_a_contest() {
    let target = NewTarget::CargoCompete(Platform::Codeforces);
    let err = plan_retrieval(&target, None, Some(strings(&["a"]))).unwrap_err();
    assert_eq!(err.message(), "`contest` is required for Codeforces");
    match plan_retrieval(&target, Some("1234".to_string()), None).unwrap() {
        Retrieval::Codeforces { contest, problems } => {
            assert_eq!(contest, "1234");
            assert_eq!(problems, None);
        }
        other => panic!("{:?}", other),
    }
}

#[test]
fn yukicoder_needs_a_contest_or_problems() {
    let target = NewTarget::CargoCompete(Platform::Yukicoder);
    let err = plan_retrieval(&target, None, None).unwrap_err();
    assert_eq!(err.message(), "either of `<contest>` or `--problems` required for yukicoder");
    match plan_retrieval(&target, None, Some(strings(&["3", "1"]))).unwrap() {
        Retrieval::YukicoderProblems { problem_nos } => assert_eq!(problem_nos, strings(&["1", "3"])),
        other => panic!("{:?}", other),
    }
    match plan_retrieval(&target, Some("300".to_string()), Some(strings(&["a"]))).unwrap() {
        Retrieval::YukicoderContest { contest, problems } => {
            assert_eq!(contest, "300");
            assert_eq!(problems, Some(strings(&["a"])));
        }
        other => panic!("{:?}", other),
    }
}

#[test]
fn oj_api_renders_the_contest_url() {
    let target = NewTarget::OjApi { url: "https://atcoder.jp/contests/{{ id }}".to_string() };
    let err = plan_retrieval(&target, Some("abc1".to_string()), Some(strings(&["a"]))).unwrap_err();
    assert_eq!(err.message(), "`--problems` option is not allowed for `oj-api`");
    let err = plan_retrieval(&target, None, None).unwrap_err();
    assert_eq!(err.message(), "`contest` is required for oj-api");
    match plan_retrieval(&target, Some("abc1".to_string()), None).unwrap() {
        Retrieval::OjApi { contest_id, contest_url } => {
            assert_eq!(contest_id, "abc1");
            assert_eq!(contest_url, "https://atcoder.jp/contests/abc1");
        }
        other => panic!("{:?}", other),
    }
    let shouting = NewTarget::OjApi { url: "HTTPS://AtCoder.JP/contests/{{ id }}".to_string() };
    match plan_retrieval(&shouting, Some("abc1".to_string()), None).unwrap() {
        Retrieval::OjApi { contest_url, .. } => assert_eq!(contest_url, "https://atcoder.jp/contests/abc1"),
        other => panic!("{:?}", other),
    }
    let bad_template = NewTarget::OjApi { url: "{{ id ".to_string() };
    assert!(matches!(
        plan_retrieval(&bad_template, Some("x".to_string()), None),
        Err(NewError::ContestUrlTemplate(_))
    ));
    let not_a_url = NewTarget::OjApi { url: "contests/{{ id }}".to_string() };
    assert!(matches!(plan_retrieval(&not_a_url, Some("x".to_string()), None), Err(NewError::ContestUrl(_))));
}

#[test]
fn group_from_the_contest_url() {
    let atcoder = Retrieval::Atcoder { contest: "abc123".to_string(), problems: None };
    let outcome = vec![problem("A", "https://atcoder.jp/contests/abc123/tasks/abc123_a", Some("https://atcoder.jp/contests/abc123"))];
    match group_of_outcome(&atcoder, &outcome).unwrap() {
        Group::Atcoder(c) => assert_eq!(c, "abc123"),
        other => panic!("{:?}", other),
    }
    let err = group_of_outcome(&atcoder, &Vec::new()).unwrap_err();
    assert_eq!(err.message(), "empty result");
    assert!(matches!(group_of_outcome(&atcoder, &vec![problem("A", "https://x/", None)]), Err(NewError::EmptyResult)));

    let codeforces = Retrieval::Codeforces { contest: "1".to_string(), problems: None };
    let outcome = vec![problem("A", "https://codeforces.com/contest/1/problem/A", Some("https://codeforces.com/contest/1"))];
    match group_of_outcome(&codeforces, &outcome).unwrap() {
        Group::Codeforces(c) => assert_eq!(c, "1"),
        other => panic!("{:?}", other),
    }

    let yukicoder = Retrieval::YukicoderProblems { problem_nos: strings(&["1"]) };
    let outcome = vec![problem("1", "https://yukicoder.me/problems/no/1", None)];
    assert!(matches!(group_of_outcome(&yukicoder, &outcome).unwrap(), Group::YukicoderProblems));
    let outcome = vec![problem("A", "https://yukicoder.me/problems/no/1", Some("https://yukicoder.me/contests/300"))];
    match group_of_outcome(&yukicoder, &outcome).unwrap() {
        Group::YukicoderContest(c) => assert_eq!(c, "300"),
        other => panic!("{:?}", other),
    }

    let oj = Retrieval::OjApi { contest_id: "x".to_string(), contest_url: "https://a/".to_string() };
    match group_for(&oj, None).unwrap() {
        Group::OjApi(c) => assert_eq!(c, "x"),
        other => panic!("{:?}", other),
    }
}

#[test]
fn index_map_is_sorted_and_the_last_url_wins() {
    let outcome = vec![
        problem("B", "https://b", None),
        problem("A", "https://a1", None),
        problem("A", "https://a2", None),
    ];
    assert_eq!(urls(&outcome), strings(&["https://b", "https://a1", "https://a2"]));
    let m = index_url_map(&outcome);
    assert_eq!(m.keys_vec(), strings(&["A", "B"]));
    assert_eq!(m.value_at(0), "https://a2");
    assert_eq!(m.value_at(1), "https://b");
}

#[test]
fn oj_api_problems_are_sorted_by_url() {
    let m = problems_by_url(vec![("https://z".to_string(), 1), ("https://a".to_string(), 2)]);
    assert_eq!(m.keys_vec(), strings(&["https://a", "https://z"]));
    assert_eq!(*m.value_at(0), 2);
}

#[test]
fn names_of_test_suites_and_problem_dirs() {
    let group = Group::Atcoder("abc123".to_string());
    assert_eq!(test_suite_names(&group, "A"), strings(&["abc123-a"]));
    assert_eq!(test_suite_names(&Group::YukicoderContest("300".to_string()), "Ex"), strings(&["contest300-ex"]));
    assert_eq!(problem_dir_names("FooBar"), strings(&["foo-bar"]));
}

#[test]
fn paths_are_paired_one_for_one() {
    let pairs = pair_paths(strings(&["s1", "s2"]), strings(&["t1", "t2"]));
    assert_eq!(pairs, vec![("s1".to_string(), "t1".to_string()), ("s2".to_string(), "t2".to_string())]);
}

#[test]
fn layout_of_a_new_package() {
    let mut problems = StrMap::new();
    problems.insert("B".to_string(), "https://atcoder.jp/contests/abc123/tasks/abc123_b".to_string());
    problems.insert("A".to_string(), "https://atcoder.jp/contests/abc123/tasks/abc123_a".to_string());
    let group = Group::Atcoder("abc123".to_string());
    let layout = plan_new_package("/w/compete.toml", "./{{ package_name }}", &group, &problems).unwrap();
    assert_eq!(layout.package_name, "abc123");
    assert_eq!(layout.manifest_dir, "/w/./abc123");
    assert_eq!(layout.manifest_path, "/w/./abc123/Cargo.toml");
    assert_eq!(layout.src_bin_dir, "/w/./abc123/src/bin");
    assert_eq!(layout.main_rs_path, "/w/./abc123/src/main.rs");
    assert_eq!(layout.bins.len(), 2);
    assert_eq!(layout.bins[0].problem_index, "A");
    assert_eq!(layout.bins[0].kebab, "a");
    assert_eq!(layout.bins[0].name, "abc123-a");
    assert_eq!(layout.bins[0].path, "src/bin/a.rs");
    assert_eq!(layout.bins[0].problem_url, "https://atcoder.jp/contests/abc123/tasks/abc123_a");
    assert_eq!(layout.bins[0].src_path, "/w/./abc123/src/bin/a.rs");
    assert_eq!(layout.bins[1].name, "abc123-b");
    assert_eq!(
        layout.metadata_bin_toml,
        "a = { name = \"\", problem = \"\" }\nb = { name = \"\", problem = \"\" }\n"
    );
    assert_eq!(created_message(&layout), "`abc123` package at /w/./abc123");
}

#[test]
fn layout_with_contest_variable_and_dotted_index() {
    let mut problems = StrMap::new();
    problems.insert("1.5".to_string(), "https://yukicoder.me/problems/no/1".to_string());
    let group = Group::YukicoderContest("300".to_string());
    let layout = plan_new_package("cfg/compete.toml", "{{ contest }}/x", &group, &problems).unwrap();
    assert_eq!(layout.package_name, "contest300");
    assert_eq!(layout.manifest_dir, "cfg/./300/x");
    assert_eq!(layout.bins[0].kebab, "1.5");
    assert_eq!(layout.bins[0].src_path, "cfg/./300/x/src/bin/1.rs");
    assert_eq!(layout.metadata_bin_toml, "\"1.5\" = { name = \"\", problem = \"\" }\n");

    let problems_group = Group::YukicoderProblems;
    let layout = plan_new_package("/c.toml", "{{ contest }}-{{ package_name }}", &problems_group, &problems).unwrap();
    assert_eq!(layout.manifest_dir, "/./-problems");
}

#[test]
fn a_template_that_does_not_parse_is_an_error() {
    let problems: StrMap<String> = StrMap::new();
    let group = Group::Atcoder("abc1".to_string());
    assert!(matches!(
        plan_new_package("/c.toml", "{% if %}", &group, &problems),
        Err(NewError::PackagePathTemplate(_))
    ));
}

#[test]
fn bin_section_goes_before_dependencies() {
    let manifest = "[package]\nname = \"abc123\"\nversion = \"0.1.0\"\nedition = \"2018\"\n\n# See more keys and their definitions at https://doc.rust-lang.org/cargo/reference/manifest.html\n\n[dependencies]\n";
    assert_eq!(
        with_bin_section(manifest),
        "[package]\nname = \"abc123\"\nversion = \"0.1.0\"\nedition = \"2018\"\n\n[bin]\n\n[dependencies]\n"
    );
    let other = "[package]\nname = \"x\"\n";
    assert_eq!(with_bin_section(other), other);
}

#[test]
fn inline_table_ends_get_a_space() {
    assert_eq!(
        space_inline_table_ends("a = { name = \"x\", problem = \"y\"}\n"),
        "a = { name = \"x\", problem = \"y\" }\n"
    );
    let spaced = space_inline_table_ends("\"\"}}\"}x\"");
    assert_eq!(spaced, "\"\" }}\" }x\"");
    assert!(!spaced.contains("\"}"));
}
