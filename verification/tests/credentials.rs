use cargo_compete::credentials::{
    cookies_path, cookies_path_from, dropbox_access_token, token_path_from, username_and_password,
    CredentialsError, DropboxJson, PromptAction, PromptState,
};

#[test]
fn cookies_live_under_the_local_data_directory() {
    assert_eq!(
        cookies_path_from(Some("/home/u/.local/share".to_string())).unwrap(),
        "/home/u/.local/share/cargo-compete/cookies.jsonl"
    );
    let err = cookies_path_from(None).unwrap_err();
    assert!(matches!(err, CredentialsError::NoLocalDataDir));
    assert_eq!(err.message(), "could not find the local data directory");
    if let Ok(p) = cookies_path() {
        assert!(p.ends_with("cargo-compete/cookies.jsonl"));
    }
}

#[test]
fn tokens_live_under_the_local_data_directory() {
    assert_eq!(
        token_path_from(Some("/d".to_string()), "dropbox.json").unwrap(),
        "/d/cargo-compete/tokens/dropbox.json"
    );
}

#[test]
fn dropbox_token_or_a_request_to_save_it() {
    let ok = dropbox_access_token("/d/t.json", Ok(DropboxJson { access_token: "SECRET-REDACTED".to_string() }));
    assert_eq!(ok.unwrap(), "SECRET-REDACTED");
    let err = dropbox_access_token("/d/t.json", Err("missing".to_string())).unwrap_err();
    assert_eq!(err.message(), "First, save the access token to `/d/t.json`");
    match err {
        CredentialsError::TokenFile { path, cause } => {
            assert_eq!(path, "/d/t.json");
            assert_eq!(cause, "missing");
        }
        other => panic!("{:?}", other),
    }
}

#[test]
fn dialog_asks_user_name_then_password() {
    let dialog = username_and_password("Username: ", "Password: ");
    let (state, action) = dialog.start();
    assert!(matches!(action, PromptAction::ReadReply(ref p) if p == "Username: "));
    let (state, action) = dialog.step(state, Ok("alice".to_string()));
    assert!(matches!(action, PromptAction::ReadPassword(ref p) if p == "Password: "));
    let (state, action) = dialog.step(state, Ok("pw".to_string()));
    assert!(matches!(action, PromptAction::Done(ref u, ref p) if u == "alice" && p == "pw"));
    assert!(matches!(state, PromptState::AwaitingUsername));
}

#[test]
fn dialog_stops_at_a_failure() {
    let dialog = username_and_password("U", "P");
    let (state, _) = dialog.start();
    let (state, action) = dialog.step(state, Err("eof".to_string()));
    assert!(matches!(action, PromptAction::Failed(ref e) if e == "eof"));
    assert!(matches!(state, PromptState::AwaitingUsername));
    let (state, _) = dialog.step(state, Ok("u".to_string()));
    let (_, action) = dialog.step(state, Err("eof2".to_string()));
    assert!(matches!(action, PromptAction::Failed(ref e) if e == "eof2"));
}
