//! Where credentials are kept, and the dialog that asks for a user name and password.

use vstd::prelude::*;
use crate::external::{data_local_dir, join_path, path_join};

verus! {

/// Why a credential could not be had.
#[derive(Debug)]
pub enum CredentialsError {
    /// The machine has no local data directory.
    NoLocalDataDir,
    /// The token file could not be read; its path and the reason.
    TokenFile { path: String, cause: String },
}

impl CredentialsError {
    /// The text of the error (the reason of a token file error is kept apart).
    pub open spec fn spec_message(&self) -> Seq<char> {
        match self {
            CredentialsError::NoLocalDataDir => "could not find the local data directory"@,
            CredentialsError::TokenFile { path, .. } => "First, save the access token to `"@ + path@ + "`"@,
        }
    }

    /// The text of the error.
    pub fn message(&self) -> (r: String)
        ensures
            r@ == self.spec_message(),
    {
        match self {
            CredentialsError::NoLocalDataDir => String::from_str("could not find the local data directory"),
            CredentialsError::TokenFile { path, .. } => String::from_str("First, save the access token to `")
                .concat(path.as_str()).concat("`"),
        }
    }
}

/// `dir` is what asking `dirs::data_local_dir` for the local data directory gave: a
/// directory, or `None` where the machine has none.
pub closed spec fn reported_data_dir(dir: Option<String>) -> bool {
    call_ensures(data_local_dir, (), dir)
}

/// Asks `dirs::data_local_dir` for the local data directory.
fn reported_local_data_dir() -> (r: Option<String>)
    ensures
        reported_data_dir(r),
{
    let ask = data_local_dir;
    ask()
}

/// The file of the cookies under the local data directory `dir`.
pub open spec fn cookies_path_in(dir: Seq<char>) -> Seq<char> {
    path_join(path_join(dir, "cargo-compete"@), "cookies.jsonl"@)
}

/// The token file `file_name` under the local data directory `dir`.
pub open spec fn token_path_in(dir: Seq<char>, file_name: Seq<char>) -> Seq<char> {
    path_join(path_join(path_join(dir, "cargo-compete"@), "tokens"@), file_name)
}

/// The cookies file under the given local data directory; an error where there is none.
pub fn cookies_path_from(data_local_dir: Option<String>) -> (r: Result<String, CredentialsError>)
    ensures
        match data_local_dir {
            None => r matches Err(CredentialsError::NoLocalDataDir),
            Some(d) => r matches Ok(p) && p@ == cookies_path_in(d@),
        },
{
    match data_local_dir {
        None => Err(CredentialsError::NoLocalDataDir),
        Some(d) => Ok(join_path(join_path(d.as_str(), "cargo-compete").as_str(), "cookies.jsonl")),
    }
}

/// The cookies file, `<local data directory>/cargo-compete/cookies.jsonl`, under the
/// directory `dirs::data_local_dir` reports; an error exactly where it reports none.
pub fn cookies_path() -> (r: Result<String, CredentialsError>)
    ensures
        r matches Ok(p) ==> exists|d: String| #[trigger] reported_data_dir(Some(d)) && p@ == cookies_path_in(d@),
        r is Err ==> (r matches Err(CredentialsError::NoLocalDataDir) && reported_data_dir(None)),
{
    let d = reported_local_data_dir();
    assert(d is Some ==> reported_data_dir(Some(d->Some_0)));
    cookies_path_from(d)
}

/// The token file `file_name` under the given local data directory.
pub fn token_path_from(data_local_dir: Option<String>, file_name: &str) -> (r: Result<String, CredentialsError>)
    ensures
        match data_local_dir {
            None => r matches Err(CredentialsError::NoLocalDataDir),
            Some(d) => r matches Ok(p) && p@ == token_path_in(d@, file_name@),
        },
{
    match data_local_dir {
        None => Err(CredentialsError::NoLocalDataDir),
        Some(d) => {
            let base = join_path(join_path(d.as_str(), "cargo-compete").as_str(), "tokens");
            Ok(join_path(base.as_str(), file_name))
        },
    }
}

/// The token file `file_name`, `<local data directory>/cargo-compete/tokens/<file_name>`,
/// under the directory `dirs::data_local_dir` reports; an error exactly where it reports
/// none.
pub fn token_path(file_name: &str) -> (r: Result<String, CredentialsError>)
    ensures
        r matches Ok(p) ==> exists|d: String| #[trigger] reported_data_dir(Some(d)) && p@ == token_path_in(d@, file_name@),
        r is Err ==> (r matches Err(CredentialsError::NoLocalDataDir) && reported_data_dir(None)),
{
    let d = reported_local_data_dir();
    assert(d is Some ==> reported_data_dir(Some(d->Some_0)));
    token_path_from(d, file_name)
}

/// The JSON file that holds the Dropbox access token.
#[derive(Debug)]
pub struct DropboxJson {
    pub access_token: String,
}

/// The file of the Dropbox access token, `.../cargo-compete/tokens/dropbox.json`.
pub fn dropbox_token_path() -> (r: Result<String, CredentialsError>)
    ensures
        r matches Ok(p) ==> exists|d: String| #[trigger] reported_data_dir(Some(d)) && p@ == token_path_in(d@, "dropbox.json"@),
        r is Err ==> (r matches Err(CredentialsError::NoLocalDataDir) && reported_data_dir(None)),
{
    token_path("dropbox.json")
}

/// The Dropbox access token, given what reading the token file at `token_file` gave:
/// the token it holds, or an error that asks to save the token there first.
pub fn dropbox_access_token(token_file: &str, read: Result<DropboxJson, String>) -> (r: Result<String, CredentialsError>)
    ensures
        match read {
            Ok(json) => r matches Ok(t) && t@ == json.access_token@,
            Err(cause) => r matches Err(CredentialsError::TokenFile { path, cause: c })
                && path@ == token_file@ && c@ == cause@,
        },
{
    match read {
        Ok(json) => Ok(json.access_token),
        Err(cause) => Err(CredentialsError::TokenFile { path: token_file.to_owned(), cause }),
    }
}

/// The two questions of the dialog.
#[derive(Debug)]
pub struct CredentialsPrompt {
    pub username_prompt: String,
    pub password_prompt: String,
}

/// Where the dialog stands: waiting for the user name, or for the password after the
/// user name was given.
#[derive(Debug)]
pub enum PromptState {
    AwaitingUsername,
    AwaitingPassword(String),
}

/// What the dialog asks to be done next.
#[derive(Debug)]
pub enum PromptAction {
    /// Read a reply to this prompt.
    ReadReply(String),
    /// Read a password, unechoed, to this prompt.
    ReadPassword(String),
    /// The dialog gave a user name and a password.
    Done(String, String),
    /// Reading failed, for this reason; the dialog gives up.
    Failed(String),
}

/// The state of the dialog by its characters.
pub enum StateView {
    AwaitingUsername,
    AwaitingPassword(Seq<char>),
}

/// An action by its characters.
pub enum ActionView {
    ReadReply(Seq<char>),
    ReadPassword(Seq<char>),
    Done(Seq<char>, Seq<char>),
    Failed(Seq<char>),
}

impl PromptState {
    pub open spec fn view(&self) -> StateView {
        match self {
            PromptState::AwaitingUsername => StateView::AwaitingUsername,
            PromptState::AwaitingPassword(u) => StateView::AwaitingPassword(u@),
        }
    }
}

impl PromptAction {
    pub open spec fn view(&self) -> ActionView {
        match self {
            PromptAction::ReadReply(p) => ActionView::ReadReply(p@),
            PromptAction::ReadPassword(p) => ActionView::ReadPassword(p@),
            PromptAction::Done(u, p) => ActionView::Done(u@, p@),
            PromptAction::Failed(e) => ActionView::Failed(e@),
        }
    }
}

/// A reply by its characters.
pub open spec fn reply_view(reply: Result<String, String>) -> Result<Seq<char>, Seq<char>> {
    match reply {
        Ok(s) => Ok(s@),
        Err(e) => Err(e@),
    }
}

/// The first step of the dialog: ask for the user name.
pub open spec fn dialog_start(username_prompt: Seq<char>) -> (StateView, ActionView) {
    (StateView::AwaitingUsername, ActionView::ReadReply(username_prompt))
}

/// A step of the dialog: a user name leads to the password; a password ends the dialog
/// with both; a failure ends it with the failure. Once ended, it waits for a user name
/// again.
pub open spec fn dialog_step(
    password_prompt: Seq<char>,
    state: StateView,
    reply: Result<Seq<char>, Seq<char>>,
) -> (StateView, ActionView) {
    match (state, reply) {
        (StateView::AwaitingUsername, Ok(u)) => (StateView::AwaitingPassword(u), ActionView::ReadPassword(password_prompt)),
        (StateView::AwaitingPassword(u), Ok(p)) => (StateView::AwaitingUsername, ActionView::Done(u, p)),
        (_, Err(e)) => (StateView::AwaitingUsername, ActionView::Failed(e)),
    }
}

/// The dialog that asks for a user name, then a password.
pub fn username_and_password(username_prompt: &str, password_prompt: &str) -> (r: CredentialsPrompt)
    ensures
        r.username_prompt@ == username_prompt@,
        r.password_prompt@ == password_prompt@,
{
    CredentialsPrompt { username_prompt: username_prompt.to_owned(), password_prompt: password_prompt.to_owned() }
}

impl CredentialsPrompt {
    /// Begins the dialog.
    pub fn start(&self) -> (r: (PromptState, PromptAction))
        ensures
            (r.0.view(), r.1.view()) == dialog_start(self.username_prompt@),
    {
        (PromptState::AwaitingUsername, PromptAction::ReadReply(self.username_prompt.clone()))
    }

    /// Goes on from `state` with the reply that the last action got.
    pub fn step(&self, state: PromptState, reply: Result<String, String>) -> (r: (PromptState, PromptAction))
        ensures
            (r.0.view(), r.1.view()) == dialog_step(self.password_prompt@, state.view(), reply_view(reply)),
    {
        match (state, reply) {
            (PromptState::AwaitingUsername, Ok(u)) => (
                PromptState::AwaitingPassword(u),
                PromptAction::ReadPassword(self.password_prompt.clone()),
            ),
            (PromptState::AwaitingPassword(u), Ok(p)) => (PromptState::AwaitingUsername, PromptAction::Done(u, p)),
            (_, Err(e)) => (PromptState::AwaitingUsername, PromptAction::Failed(e)),
        }
    }
}

/// A user name and a password that are read give back exactly that pair, after the
/// dialog has asked for the user name and then for the password.
pub proof fn lemma_dialog_gives_replies(username_prompt: Seq<char>, password_prompt: Seq<char>, u: Seq<char>, p: Seq<char>)
    ensures
        dialog_start(username_prompt).1 == ActionView::ReadReply(username_prompt),
        dialog_step(password_prompt, dialog_start(username_prompt).0, Ok(u)).1
            == ActionView::ReadPassword(password_prompt),
        dialog_step(
            password_prompt,
            dialog_step(password_prompt, dialog_start(username_prompt).0, Ok(u)).0,
            Ok(p),
        ) == (StateView::AwaitingUsername, ActionView::Done(u, p)),
{
}

/// A failure to read ends the dialog with that failure at once, and the dialog starts
/// over with the user name.
pub proof fn lemma_dialog_failure_ends(password_prompt: Seq<char>, state: StateView, e: Seq<char>)
    ensures
        dialog_step(password_prompt, state, Err(e)) == (StateView::AwaitingUsername, ActionView::Failed(e)),
{
}

/// The actions of `n` calls of the dialog, each begun with `start` and fed a user name
/// and a password: one round after another, for the pairs in order.
pub open spec fn dialog_rounds(username_prompt: Seq<char>, password_prompt: Seq<char>, pairs: Seq<(Seq<char>, Seq<char>)>) -> Seq<ActionView>
    decreases pairs.len(),
{
    if pairs.len() == 0 {
        Seq::empty()
    } else {
        let (s0, a0) = dialog_start(username_prompt);
        let (s1, a1) = dialog_step(password_prompt, s0, Ok(pairs.last().0));
        let (s2, a2) = dialog_step(password_prompt, s1, Ok(pairs.last().1));
        dialog_rounds(username_prompt, password_prompt, pairs.drop_last()) + seq![a0, a1, a2]
    }
}

/// The `i`-th round of `acts` asks for the user name, then the password, and gives
/// back `pair`.
pub open spec fn round_at(acts: Seq<ActionView>, i: int, username_prompt: Seq<char>, password_prompt: Seq<char>, pair: (Seq<char>, Seq<char>)) -> bool {
    &&& acts[3 * i] == ActionView::ReadReply(username_prompt)
    &&& acts[3 * i + 1] == ActionView::ReadPassword(password_prompt)
    &&& acts[3 * i + 2] == ActionView::Done(pair.0, pair.1)
}

/// Called again and again, the dialog asks anew each time: the `i`-th call asks for the
/// user name, then for the password, and gives back the `i`-th pair read; a round ends
/// where the dialog began, so nothing of one call is kept for the next.
pub proof fn lemma_dialog_rounds(username_prompt: Seq<char>, password_prompt: Seq<char>, pairs: Seq<(Seq<char>, Seq<char>)>)
    ensures
        dialog_rounds(username_prompt, password_prompt, pairs).len() == 3 * pairs.len(),
        forall|i: int| 0 <= i < pairs.len() ==> round_at(dialog_rounds(username_prompt, password_prompt, pairs), i, username_prompt, password_prompt, #[trigger] pairs[i]),
        forall|u: Seq<char>, p: Seq<char>|
            #[trigger] dialog_step(password_prompt, dialog_step(password_prompt, dialog_start(username_prompt).0, Ok(u)).0, Ok(p)).0
                == dialog_start(username_prompt).0,
    decreases pairs.len(),
{
    if pairs.len() > 0 {
        let prev = pairs.drop_last();
        lemma_dialog_rounds(username_prompt, password_prompt, prev);
        let acts = dialog_rounds(username_prompt, password_prompt, pairs);
        let before = dialog_rounds(username_prompt, password_prompt, prev);
        let n = pairs.len() - 1;
        let (s0, a0) = dialog_start(username_prompt);
        let (s1, a1) = dialog_step(password_prompt, s0, Ok(pairs.last().0));
        let (s2, a2) = dialog_step(password_prompt, s1, Ok(pairs.last().1));
        assert(acts == before + seq![a0, a1, a2]);
        assert(before.len() == 3 * n);
        assert forall|i: int| 0 <= i < pairs.len() implies round_at(acts, i, username_prompt, password_prompt, #[trigger] pairs[i]) by {
            if i < n {
                assert(prev[i] == pairs[i]);
                assert(round_at(before, i, username_prompt, password_prompt, prev[i]));
                assert(acts[3 * i] == before[3 * i]);
                assert(acts[3 * i + 1] == before[3 * i + 1]);
                assert(acts[3 * i + 2] == before[3 * i + 2]);
            } else {
                assert(pairs[i] == pairs.last());
                assert(acts[3 * i] == a0);
                assert(acts[3 * i + 1] == a1);
                assert(acts[3 * i + 2] == a2);
            }
        }
    }
}

} // verus!
