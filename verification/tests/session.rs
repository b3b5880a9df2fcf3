use cargo_compete::plan::{NewTarget, Platform, RetrievedProblem};
use cargo_compete::session::{NewAction, NewEvent, NewPhase, NewRequest, NewSession};

fn request(open: bool, contest: Option<&str>) -> NewRequest {
    NewRequest {
        config_path: "/w/compete.toml".to_string(),
        path_template: "./{{ package_name }}".to_string(),
        target: NewTarget::CargoCompete(Platform::Atcoder),
        contest: contest.map(str::to_string),
        problems: None,
        open,
    }
}

fn outcome() -> Vec<RetrievedProblem> {
    vec![
        RetrievedProblem {
            index: "B".to_string(),
            url: "https://atcoder.jp/contests/abc1/tasks/abc1_b".to_string(),
            contest_url: Some("https://atcoder.jp/contests/abc1".to_string()),
        },
        RetrievedProblem {
            index: "A".to_string(),
            url: "https://atcoder.jp/contests/abc1/tasks/abc1_a".to_string(),
            contest_url: Some("https://atcoder.jp/contests/abc1".to_string()),
        },
    ]
}

#[test]
fn a_whole_run_with_open() {
    let (session, action) = NewSession::start(request(true, Some("abc1")));
    assert!(matches!(action, NewAction::Retrieve));
    let (session, action) = session.step(NewEvent::Retrieved(outcome()));
    assert!(matches!(action, NewAction::CreatePackage));
    match &session.phase {
        NewPhase::Creating { layout, urls, .. } => {
            assert_eq!(layout.package_name, "abc1");
            assert_eq!(layout.bins.len(), 2);
            assert_eq!(layout.bins[0].name, "abc1-a");
            assert_eq!(urls[0], "https://atcoder.jp/contests/abc1/tasks/abc1_b");
        }
        other => panic!("{:?}", other),
    }
    let (session, action) = session.step(NewEvent::PackageCreated);
    assert!(matches!(action, NewAction::SaveTestCases));
    let saved = vec!["/w/testcases/a.yml".to_string(), "/w/testcases/b.yml".to_string()];
    let (session, action) = session.step(NewEvent::TestCasesSaved(saved));
    assert!(matches!(action, NewAction::Open));
    match &session.phase {
        NewPhase::Opening { file_paths, .. } => {
            assert_eq!(
                file_paths[0],
                ("/w/./abc1/src/bin/a.rs".to_string(), "/w/testcases/a.yml".to_string())
            );
        }
        other => panic!("{:?}", other),
    }
    let (session, action) = session.step(NewEvent::Opened);
    assert!(matches!(action, NewAction::Finish));
    assert!(matches!(session.phase, NewPhase::Finished));
}

#[test]
fn without_open_the_run_ends_after_saving() {
    let (session, _) = NewSession::start(request(false, Some("abc1")));
    let (session, _) = session.step(NewEvent::Retrieved(outcome()));
    let (session, _) = session.step(NewEvent::PackageCreated);
    let saved = vec!["a".to_string(), "b".to_string()];
    let (session, action) = session.step(NewEvent::TestCasesSaved(saved));
    assert!(matches!(action, NewAction::Finish));
    assert!(matches!(session.phase, NewPhase::Finished));
}

#[test]
fn a_missing_contest_fails_at_once() {
    let (session, action) = NewSession::start(request(false, None));
    match action {
        NewAction::Fail(e) => assert_eq!(e.message(), "`contest` is required for AtCoder"),
        other => panic!("{:?}", other),
    }
    assert!(matches!(session.phase, NewPhase::Finished));
}

#[test]
fn an_empty_download_fails() {
    let (session, _) = NewSession::start(request(false, Some("abc1")));
    let (session, action) = session.step(NewEvent::Retrieved(Vec::new()));
    match action {
        NewAction::Fail(e) => assert_eq!(e.message(), "empty result"),
        other => panic!("{:?}", other),
    }
    assert!(matches!(session.phase, NewPhase::Finished));
}
