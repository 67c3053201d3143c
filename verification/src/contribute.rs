//! Submitting correction samples to the model repository on GitHub: fork the
//! repository, write the samples file on the fork (updating it when it
//! exists), and open a pull request. The decisions are a state machine; the
//! caller performs each request or pause it asks for and reports the reply.
use vstd::prelude::*;
use crate::text::{chars_of, string_of, extend_chars, concat_chars, decimal, decimal_chars, opt_view};
use crate::csc::{utf8_len, json_string, json_quote_chars, line_count, count_lines, CscSample, csc_format_jsonl, jsonl_text, sample_views};
use base64::Engine;

verus! {

#[derive(Clone, Copy, Debug, PartialEq, Eq, Structural)]
pub enum HttpMethod {
    Get,
    Post,
    Put,
}

/// A GitHub API request: method, URL, and JSON body when there is one.
#[derive(Clone, Debug)]
pub struct ApiRequest {
    pub method: HttpMethod,
    pub url: String,
    pub json_body: Option<String>,
}

/// The outcome of a submission.
#[derive(Clone, Debug)]
pub enum ContributeResult {
    Success { pr_url: String },
    Error(String),
}

/// What the caller does next.
#[derive(Clone, Debug)]
pub enum ContributeAction {
    Send(ApiRequest),
    /// Wait this many seconds, then report `Resumed`.
    Pause { secs: u64 },
    Finish(ContributeResult),
    /// The event does not belong to the current phase; nothing to do.
    Nothing,
}

/// The reply to a request: the status code, its display text (such as
/// `404 Not Found`) and the body; or the transport error's text.
#[derive(Clone, Debug)]
pub enum ApiReply {
    Response { status: u16, status_text: String, body: String },
    Failed(String),
}

#[derive(Clone, Debug)]
pub enum ContributeEvent {
    Begin,
    Resumed,
    Reply(ApiReply),
}

/// Where the submission stands; `branch` is the fork's default branch.
#[derive(Clone, Debug)]
pub enum ContributePhase {
    Start,
    Forking,
    Pausing,
    FetchingRepo,
    CreatingFile { branch: String },
    FetchingSha { branch: String },
    UpdatingFile { branch: String },
    OpeningPr { branch: String },
    SearchingPr { branch: String },
    Finished,
}

/// The fixed inputs of a submission.
#[derive(Clone, Debug)]
pub struct ContributeJob {
    pub username: String,
    pub filename: String,
    pub jsonl: String,
}

pub enum PhaseView {
    Start,
    Forking,
    Pausing,
    FetchingRepo,
    CreatingFile(Seq<char>),
    FetchingSha(Seq<char>),
    UpdatingFile(Seq<char>),
    OpeningPr(Seq<char>),
    SearchingPr(Seq<char>),
    Finished,
}

pub enum ActionView {
    Send(HttpMethod, Seq<char>, Option<Seq<char>>),
    Pause(u64),
    /// `Ok` holds the pull request URL, `Err` the error message.
    Finish(Result<Seq<char>, Seq<char>>),
    Nothing,
}

pub enum EventView {
    Begin,
    Resumed,
    Response(u16, Seq<char>, Seq<char>),
    Failed(Seq<char>),
}

impl View for ContributePhase {
    type V = PhaseView;

    open spec fn view(&self) -> PhaseView {
        match self {
            ContributePhase::Start => PhaseView::Start,
            ContributePhase::Forking => PhaseView::Forking,
            ContributePhase::Pausing => PhaseView::Pausing,
            ContributePhase::FetchingRepo => PhaseView::FetchingRepo,
            ContributePhase::CreatingFile { branch } => PhaseView::CreatingFile(branch@),
            ContributePhase::FetchingSha { branch } => PhaseView::FetchingSha(branch@),
            ContributePhase::UpdatingFile { branch } => PhaseView::UpdatingFile(branch@),
            ContributePhase::OpeningPr { branch } => PhaseView::OpeningPr(branch@),
            ContributePhase::SearchingPr { branch } => PhaseView::SearchingPr(branch@),
            ContributePhase::Finished => PhaseView::Finished,
        }
    }
}

impl View for ContributeResult {
    type V = Result<Seq<char>, Seq<char>>;

    open spec fn view(&self) -> Result<Seq<char>, Seq<char>> {
        match self {
            ContributeResult::Success { pr_url } => Ok(pr_url@),
            ContributeResult::Error(e) => Err(e@),
        }
    }
}

impl View for ContributeAction {
    type V = ActionView;

    open spec fn view(&self) -> ActionView {
        match self {
            ContributeAction::Send(r) => ActionView::Send(r.method, r.url@, opt_view(r.json_body)),
            ContributeAction::Pause { secs } => ActionView::Pause(*secs),
            ContributeAction::Finish(r) => ActionView::Finish(r@),
            ContributeAction::Nothing => ActionView::Nothing,
        }
    }
}

impl View for ContributeEvent {
    type V = EventView;

    open spec fn view(&self) -> EventView {
        match self {
            ContributeEvent::Begin => EventView::Begin,
            ContributeEvent::Resumed => EventView::Resumed,
            ContributeEvent::Reply(ApiReply::Response { status, status_text, body }) =>
                EventView::Response(*status, status_text@, body@),
            ContributeEvent::Reply(ApiReply::Failed(e)) => EventView::Failed(e@),
        }
    }
}

/// The string at `key` of the JSON object in `body`; None when `body` is not
/// JSON, not an object, or has no string there.
pub uninterp spec fn json_str_field(body: Seq<char>, key: Seq<char>) -> Option<Seq<char>>;

/// Parses `body` as JSON (`serde_json::from_str` into a `Value`) and reads
/// the string at `key` (`Value[key].as_str()`): the named result.
#[verifier::external_body]
pub(crate) fn json_field(body: &str, key: &str) -> (r: Option<String>)
    ensures
        opt_view(r) == json_str_field(body@, key@),
{
    match serde_json::from_str::<serde_json::Value>(body) {
        Ok(v) => v[key].as_str().map(|s| s.to_string()),
        Err(_) => None,
    }
}

/// For a JSON array in `body`: whether it has a first element, and the
/// string at `key` of that element. `(false, None)` when `body` is not a
/// JSON array or the array is empty.
pub uninterp spec fn json_first_str_field(body: Seq<char>, key: Seq<char>) -> (bool, Option<Seq<char>>);

/// Parses `body` as JSON (`serde_json::from_str` into a `Value`), takes the
/// first element of the array (`as_array`, `first`) and reads the string at
/// `key` of it: the named result.
#[verifier::external_body]
fn json_first_field(body: &str, key: &str) -> (r: (bool, Option<String>))
    ensures
        (r.0, opt_view(r.1)) == json_first_str_field(body@, key@),
{
    match serde_json::from_str::<serde_json::Value>(body) {
        Ok(v) => match v.as_array().and_then(|a| a.first()) {
            Some(first) => (true, first[key].as_str().map(|s| s.to_string())),
            None => (false, None),
        },
        Err(_) => (false, None),
    }
}

/// The UTF-8 encoding of one character.
pub open spec fn utf8_char_bytes(c: char) -> Seq<u8> {
    let n = c as u32;
    if n < 0x80 {
        seq![n as u8]
    } else if n < 0x800 {
        seq![(0xC0 + n / 64) as u8, (0x80 + n % 64) as u8]
    } else if n < 0x10000 {
        seq![(0xE0 + n / 4096) as u8, (0x80 + (n / 64) % 64) as u8, (0x80 + n % 64) as u8]
    } else {
        seq![
            (0xF0 + n / 262144) as u8,
            (0x80 + (n / 4096) % 64) as u8,
            (0x80 + (n / 64) % 64) as u8,
            (0x80 + n % 64) as u8,
        ]
    }
}

/// The UTF-8 encoding of the text `s`.
pub open spec fn utf8_bytes(s: Seq<char>) -> Seq<u8>
    decreases s.len(),
{
    if s.len() == 0 {
        Seq::empty()
    } else {
        utf8_bytes(s.drop_last()) + utf8_char_bytes(s.last())
    }
}

/// The character of the standard base64 alphabet for the six bits `v`.
pub open spec fn base64_char(v: nat) -> char {
    if v < 26 {
        (('A' as u32) + v) as char
    } else if v < 52 {
        (('a' as u32) + (v - 26)) as char
    } else if v < 62 {
        (('0' as u32) + (v - 52)) as char
    } else if v == 62 {
        '+'
    } else {
        '/'
    }
}

/// Standard base64 with padding: each group of three bytes becomes four
/// characters of six bits each; a last group of one or two bytes is padded
/// with `=`.
pub open spec fn base64_encode(b: Seq<u8>) -> Seq<char>
    decreases b.len(),
{
    if b.len() == 0 {
        Seq::empty()
    } else if b.len() == 1 {
        seq![base64_char((b[0] / 4) as nat), base64_char(((b[0] % 4) * 16) as nat), '=', '=']
    } else if b.len() == 2 {
        seq![
            base64_char((b[0] / 4) as nat),
            base64_char(((b[0] % 4) * 16 + b[1] / 16) as nat),
            base64_char(((b[1] % 16) * 4) as nat),
            '=',
        ]
    } else {
        seq![
            base64_char((b[0] / 4) as nat),
            base64_char(((b[0] % 4) * 16 + b[1] / 16) as nat),
            base64_char(((b[1] % 16) * 4 + b[2] / 64) as nat),
            base64_char((b[2] % 64) as nat),
        ] + base64_encode(b.skip(3))
    }
}

/// Standard base64 (with padding) of the UTF-8 bytes of `text`.
pub open spec fn base64_of_text(text: Seq<char>) -> Seq<char> {
    base64_encode(utf8_bytes(text))
}

/// `base64::engine::general_purpose::STANDARD.encode` on the UTF-8 bytes of
/// `text`: their standard base64 with padding (see `base64_of_text`). The
/// encoder panics only when the encoded length overflows `usize`, which
/// cannot happen for a text of at most `isize::MAX` bytes (the most a string
/// can hold).
#[verifier::external_body]
fn base64_text(text: &str) -> (r: String)
    requires
        utf8_len(text@) <= isize::MAX,
    ensures
        r@ == base64_of_text(text@),
{
    base64::engine::general_purpose::STANDARD.encode(text.as_bytes())
}

pub open spec fn is_success(status: u16) -> bool {
    200 <= status < 300
}

/// `https://api.github.com/repos/<owner>/RustEpubReader-Model`.
pub open spec fn repo_api_url(owner: Seq<char>) -> Seq<char> {
    "https://api.github.com/repos/"@ + owner + "/RustEpubReader-Model"@
}

pub open spec fn upstream_owner() -> Seq<char> {
    "zhongbai2333"@
}

/// Path of the samples file in the repository.
pub open spec fn submission_path(filename: Seq<char>) -> Seq<char> {
    "datasets/submissions/"@ + filename
}

pub open spec fn contents_url(user: Seq<char>, filename: Seq<char>) -> Seq<char> {
    repo_api_url(user) + "/contents/"@ + submission_path(filename)
}

/// The page listing the upstream pull requests, answered when no open pull
/// request of the fork is found.
pub open spec fn pulls_page_url() -> Seq<char> {
    "https://github.com/"@ + upstream_owner() + "/RustEpubReader-Model/pulls"@
}

/// Body of the request that creates the samples file (keys in the sorted
/// order serde_json writes an object in).
pub open spec fn create_file_body(user: Seq<char>, content: Seq<char>, branch: Seq<char>) -> Seq<char> {
    "{\"branch\":"@ + json_string(branch) + ",\"content\":"@ + json_string(content)
        + ",\"message\":"@ + json_string("Add correction data from "@ + user) + "}"@
}

/// Body of the request that replaces the samples file with blob `sha`.
pub open spec fn update_file_body(user: Seq<char>, content: Seq<char>, sha: Seq<char>, branch: Seq<char>) -> Seq<char> {
    "{\"branch\":"@ + json_string(branch) + ",\"content\":"@ + json_string(content)
        + ",\"message\":"@ + json_string("Update correction data from "@ + user)
        + ",\"sha\":"@ + json_string(sha) + "}"@
}

/// Description of the pull request.
pub open spec fn pr_description(user: Seq<char>, samples: nat, filename: Seq<char>) -> Seq<char> {
    "Automatically submitted correction data from RustEpubReader.\n\n- User: @"@ + user
        + "\n- Samples: "@ + decimal(samples) + "\n- File: `"@ + submission_path(filename) + "`"@
}

/// Body of the request that opens the pull request from the fork's branch.
pub open spec fn pull_request_body(user: Seq<char>, branch: Seq<char>, jsonl: Seq<char>, filename: Seq<char>) -> Seq<char> {
    "{\"base\":"@ + json_string(branch)
        + ",\"body\":"@ + json_string(pr_description(user, line_count(jsonl), filename))
        + ",\"head\":"@ + json_string(user + ":"@ + branch)
        + ",\"title\":"@ + json_string("CSC correction data from "@ + user) + "}"@
}

pub open spec fn open_pr_step(user: Seq<char>, branch: Seq<char>, jsonl: Seq<char>, filename: Seq<char>) -> (PhaseView, ActionView) {
    (PhaseView::OpeningPr(branch), ActionView::Send(
        HttpMethod::Post,
        repo_api_url(upstream_owner()) + "/pulls"@,
        Some(pull_request_body(user, branch, jsonl, filename)),
    ))
}

pub open spec fn finish_err(msg: Seq<char>) -> (PhaseView, ActionView) {
    (PhaseView::Finished, ActionView::Finish(Err(msg)))
}

pub open spec fn finish_ok(url: Seq<char>) -> (PhaseView, ActionView) {
    (PhaseView::Finished, ActionView::Finish(Ok(url)))
}

/// The next phase and action of a submission by `user` of the samples text
/// `jsonl` as file `filename`, given the current phase and what happened.
pub open spec fn contribute_next(user: Seq<char>, filename: Seq<char>, jsonl: Seq<char>, phase: PhaseView, event: EventView) -> (PhaseView, ActionView) {
    match (phase, event) {
        (PhaseView::Start, EventView::Begin) =>
            (PhaseView::Forking, ActionView::Send(HttpMethod::Post, repo_api_url(upstream_owner()) + "/forks"@, None)),
        (PhaseView::Forking, EventView::Failed(e)) => finish_err("Fork request failed: "@ + e),
        (PhaseView::Forking, EventView::Response(status, text, _)) =>
            if !is_success(status) && status != 202 {
                finish_err("Fork failed: HTTP "@ + text)
            } else {
                (PhaseView::Pausing, ActionView::Pause(3))
            },
        (PhaseView::Pausing, EventView::Resumed) =>
            (PhaseView::FetchingRepo, ActionView::Send(HttpMethod::Get, repo_api_url(user), None)),
        (PhaseView::FetchingRepo, EventView::Failed(e)) => finish_err("Get fork info failed: "@ + e),
        (PhaseView::FetchingRepo, EventView::Response(status, text, body)) =>
            if is_success(status) {
                let branch = match json_str_field(body, "default_branch"@) {
                    Some(b) => b,
                    None => "main"@,
                };
                (PhaseView::CreatingFile(branch), ActionView::Send(
                    HttpMethod::Put,
                    contents_url(user, filename),
                    Some(create_file_body(user, base64_of_text(jsonl), branch)),
                ))
            } else {
                finish_err("Cannot access fork: HTTP "@ + text)
            },
        (PhaseView::CreatingFile(_), EventView::Failed(e)) => finish_err("Create file request failed: "@ + e),
        (PhaseView::CreatingFile(branch), EventView::Response(status, text, _)) =>
            if is_success(status) {
                open_pr_step(user, branch, jsonl, filename)
            } else if status == 422 || status == 409 {
                (PhaseView::FetchingSha(branch), ActionView::Send(
                    HttpMethod::Get,
                    contents_url(user, filename) + "?ref="@ + branch,
                    None,
                ))
            } else {
                finish_err("Create file failed: HTTP "@ + text)
            },
        (PhaseView::FetchingSha(branch), EventView::Failed(_)) => open_pr_step(user, branch, jsonl, filename),
        (PhaseView::FetchingSha(branch), EventView::Response(status, _, body)) =>
            match json_str_field(body, "sha"@) {
                Some(sha) if is_success(status) => (PhaseView::UpdatingFile(branch), ActionView::Send(
                    HttpMethod::Put,
                    contents_url(user, filename),
                    Some(update_file_body(user, base64_of_text(jsonl), sha, branch)),
                )),
                _ => open_pr_step(user, branch, jsonl, filename),
            },
        (PhaseView::UpdatingFile(_), EventView::Failed(e)) => finish_err("Update file request failed: "@ + e),
        (PhaseView::UpdatingFile(branch), EventView::Response(status, text, body)) =>
            if is_success(status) {
                open_pr_step(user, branch, jsonl, filename)
            } else {
                finish_err("Update file failed: HTTP "@ + text + " "@ + body)
            },
        (PhaseView::OpeningPr(_), EventView::Failed(e)) => finish_err("Create PR request failed: "@ + e),
        (PhaseView::OpeningPr(branch), EventView::Response(status, text, body)) =>
            if is_success(status) {
                finish_ok(match json_str_field(body, "html_url"@) {
                    Some(u) => u,
                    None => Seq::empty(),
                })
            } else if status == 422 {
                (PhaseView::SearchingPr(branch), ActionView::Send(
                    HttpMethod::Get,
                    repo_api_url(upstream_owner()) + "/pulls?head="@ + user + ":"@ + branch + "&state=open"@,
                    None,
                ))
            } else {
                finish_err("Create PR failed: HTTP "@ + text)
            },
        (PhaseView::SearchingPr(_), EventView::Failed(_)) => finish_ok(pulls_page_url()),
        (PhaseView::SearchingPr(_), EventView::Response(_, _, body)) =>
            match json_first_str_field(body, "html_url"@) {
                (true, Some(u)) => finish_ok(u),
                (true, None) => finish_ok(Seq::empty()),
                (false, _) => finish_ok(pulls_page_url()),
            },
        (p, _) => (p, ActionView::Nothing),
    }
}

fn repo_api_url_chars(owner: &[char]) -> (v: Vec<char>)
    ensures
        v@ == repo_api_url(owner@),
{
    let mut v = chars_of("https://api.github.com/repos/");
    extend_chars(&mut v, owner);
    extend_chars(&mut v, &chars_of("/RustEpubReader-Model"));
    v
}

fn upstream_api_url_chars() -> (v: Vec<char>)
    ensures
        v@ == repo_api_url(upstream_owner()),
{
    repo_api_url_chars(&chars_of("zhongbai2333"))
}

fn submission_path_chars(filename: &[char]) -> (v: Vec<char>)
    ensures
        v@ == submission_path(filename@),
{
    concat_chars(&chars_of("datasets/submissions/"), filename)
}

fn contents_url_chars(user: &[char], filename: &[char]) -> (v: Vec<char>)
    ensures
        v@ == contents_url(user@, filename@),
{
    let mut v = repo_api_url_chars(user);
    extend_chars(&mut v, &chars_of("/contents/"));
    extend_chars(&mut v, &submission_path_chars(filename));
    v
}

fn create_file_body_chars(user: &[char], content: &[char], branch: &[char]) -> (v: Vec<char>)
    ensures
        v@ == create_file_body(user@, content@, branch@),
{
    let mut v = chars_of("{\"branch\":");
    extend_chars(&mut v, &json_quote_chars(branch));
    extend_chars(&mut v, &chars_of(",\"content\":"));
    extend_chars(&mut v, &json_quote_chars(content));
    extend_chars(&mut v, &chars_of(",\"message\":"));
    extend_chars(&mut v, &json_quote_chars(&concat_chars(&chars_of("Add correction data from "), user)));
    extend_chars(&mut v, &chars_of("}"));
    v
}

fn update_file_body_chars(user: &[char], content: &[char], sha: &[char], branch: &[char]) -> (v: Vec<char>)
    ensures
        v@ == update_file_body(user@, content@, sha@, branch@),
{
    let mut v = chars_of("{\"branch\":");
    extend_chars(&mut v, &json_quote_chars(branch));
    extend_chars(&mut v, &chars_of(",\"content\":"));
    extend_chars(&mut v, &json_quote_chars(content));
    extend_chars(&mut v, &chars_of(",\"message\":"));
    extend_chars(&mut v, &json_quote_chars(&concat_chars(&chars_of("Update correction data from "), user)));
    extend_chars(&mut v, &chars_of(",\"sha\":"));
    extend_chars(&mut v, &json_quote_chars(sha));
    extend_chars(&mut v, &chars_of("}"));
    v
}

fn pr_description_chars(user: &[char], samples: usize, filename: &[char]) -> (v: Vec<char>)
    ensures
        v@ == pr_description(user@, samples as nat, filename@),
{
    let mut v = chars_of("Automatically submitted correction data from RustEpubReader.\n\n- User: @");
    extend_chars(&mut v, user);
    extend_chars(&mut v, &chars_of("\n- Samples: "));
    extend_chars(&mut v, &decimal_chars(samples as u64));
    extend_chars(&mut v, &chars_of("\n- File: `"));
    extend_chars(&mut v, &submission_path_chars(filename));
    extend_chars(&mut v, &chars_of("`"));
    v
}

fn pull_request_body_chars(user: &[char], branch: &[char], jsonl: &[char], filename: &[char]) -> (v: Vec<char>)
    ensures
        v@ == pull_request_body(user@, branch@, jsonl@, filename@),
{
    let lines = count_lines(jsonl);
    let mut head = concat_chars(user, &chars_of(":"));
    extend_chars(&mut head, branch);
    let mut v = chars_of("{\"base\":");
    extend_chars(&mut v, &json_quote_chars(branch));
    extend_chars(&mut v, &chars_of(",\"body\":"));
    extend_chars(&mut v, &json_quote_chars(&pr_description_chars(user, lines, filename)));
    extend_chars(&mut v, &chars_of(",\"head\":"));
    extend_chars(&mut v, &json_quote_chars(&head));
    extend_chars(&mut v, &chars_of(",\"title\":"));
    extend_chars(&mut v, &json_quote_chars(&concat_chars(&chars_of("CSC correction data from "), user)));
    extend_chars(&mut v, &chars_of("}"));
    v
}

fn send(method: HttpMethod, url: &[char], body: Option<Vec<char>>) -> (a: ContributeAction)
    ensures
        a@ == ActionView::Send(method, url@, match body {
            Some(b) => Some(b@),
            None => None,
        }),
{
    let json_body = match body {
        Some(b) => Some(string_of(&b)),
        None => None,
    };
    ContributeAction::Send(ApiRequest { method, url: string_of(url), json_body })
}

fn finish_error(prefix: &str, tail: &[char]) -> (r: (ContributePhase, ContributeAction))
    ensures
        (r.0@, r.1@) == finish_err(prefix@ + tail@),
{
    let msg = concat_chars(&chars_of(prefix), tail);
    (ContributePhase::Finished, ContributeAction::Finish(ContributeResult::Error(string_of(&msg))))
}

fn finish_success(url: &[char]) -> (r: (ContributePhase, ContributeAction))
    ensures
        (r.0@, r.1@) == finish_ok(url@),
{
    (ContributePhase::Finished, ContributeAction::Finish(ContributeResult::Success { pr_url: string_of(url) }))
}

fn open_pr(job: &ContributeJob, branch: &String) -> (r: (ContributePhase, ContributeAction))
    ensures
        (r.0@, r.1@) == open_pr_step(job.username@, branch@, job.jsonl@, job.filename@),
{
    let user = chars_of(job.username.as_str());
    let body = pull_request_body_chars(&user, &chars_of(branch.as_str()),
        &chars_of(job.jsonl.as_str()), &chars_of(job.filename.as_str()));
    let mut url = upstream_api_url_chars();
    extend_chars(&mut url, &chars_of("/pulls"));
    (ContributePhase::OpeningPr { branch: branch.clone() }, send(HttpMethod::Post, &url, Some(body)))
}

fn step_forking(event: &ContributeEvent) -> (r: (ContributePhase, ContributeAction))
    ensures
        forall|user: Seq<char>, filename: Seq<char>, jsonl: Seq<char>|
            (r.0@, r.1@) == #[trigger] contribute_next(user, filename, jsonl, PhaseView::Forking, event@),
{
    match event {
        ContributeEvent::Reply(ApiReply::Failed(e)) => finish_error("Fork request failed: ", &chars_of(e.as_str())),
        ContributeEvent::Reply(ApiReply::Response { status, status_text, .. }) => {
            if !(200 <= *status && *status < 300) && *status != 202 {
                finish_error("Fork failed: HTTP ", &chars_of(status_text.as_str()))
            } else {
                (ContributePhase::Pausing, ContributeAction::Pause { secs: 3 })
            }
        },
        _ => (ContributePhase::Forking, ContributeAction::Nothing),
    }
}

fn step_fetching_repo(job: &ContributeJob, event: &ContributeEvent) -> (r: (ContributePhase, ContributeAction))
    requires
        utf8_len(job.jsonl@) <= isize::MAX,
    ensures
        (r.0@, r.1@) == contribute_next(job.username@, job.filename@, job.jsonl@, PhaseView::FetchingRepo, event@),
{
    match event {
        ContributeEvent::Reply(ApiReply::Failed(e)) => finish_error("Get fork info failed: ", &chars_of(e.as_str())),
        ContributeEvent::Reply(ApiReply::Response { status, status_text, body }) => {
            if 200 <= *status && *status < 300 {
                let user = chars_of(job.username.as_str());
                let filename = chars_of(job.filename.as_str());
                let branch = match json_field(body.as_str(), "default_branch") {
                    Some(b) => b,
                    None => string_of(&chars_of("main")),
                };
                let content = chars_of(base64_text(job.jsonl.as_str()).as_str());
                let req_body = create_file_body_chars(&user, &content, &chars_of(branch.as_str()));
                let url = contents_url_chars(&user, &filename);
                (ContributePhase::CreatingFile { branch }, send(HttpMethod::Put, &url, Some(req_body)))
            } else {
                finish_error("Cannot access fork: HTTP ", &chars_of(status_text.as_str()))
            }
        },
        _ => (ContributePhase::FetchingRepo, ContributeAction::Nothing),
    }
}

fn step_creating_file(job: &ContributeJob, branch: &String, event: &ContributeEvent) -> (r: (ContributePhase, ContributeAction))
    ensures
        (r.0@, r.1@) == contribute_next(job.username@, job.filename@, job.jsonl@, PhaseView::CreatingFile(branch@), event@),
{
    match event {
        ContributeEvent::Reply(ApiReply::Failed(e)) => finish_error("Create file request failed: ", &chars_of(e.as_str())),
        ContributeEvent::Reply(ApiReply::Response { status, status_text, .. }) => {
            if 200 <= *status && *status < 300 {
                open_pr(job, branch)
            } else if *status == 422 || *status == 409 {
                let user = chars_of(job.username.as_str());
                let filename = chars_of(job.filename.as_str());
                let mut url = contents_url_chars(&user, &filename);
                extend_chars(&mut url, &chars_of("?ref="));
                extend_chars(&mut url, &chars_of(branch.as_str()));
                (ContributePhase::FetchingSha { branch: branch.clone() }, send(HttpMethod::Get, &url, None))
            } else {
                finish_error("Create file failed: HTTP ", &chars_of(status_text.as_str()))
            }
        },
        _ => (ContributePhase::CreatingFile { branch: branch.clone() }, ContributeAction::Nothing),
    }
}

fn step_fetching_sha(job: &ContributeJob, branch: &String, event: &ContributeEvent) -> (r: (ContributePhase, ContributeAction))
    requires
        utf8_len(job.jsonl@) <= isize::MAX,
    ensures
        (r.0@, r.1@) == contribute_next(job.username@, job.filename@, job.jsonl@, PhaseView::FetchingSha(branch@), event@),
{
    match event {
        ContributeEvent::Reply(ApiReply::Failed(_)) => open_pr(job, branch),
        ContributeEvent::Reply(ApiReply::Response { status, body, .. }) => {
            match json_field(body.as_str(), "sha") {
                Some(sha) => {
                    if 200 <= *status && *status < 300 {
                        let user = chars_of(job.username.as_str());
                        let filename = chars_of(job.filename.as_str());
                        let content = chars_of(base64_text(job.jsonl.as_str()).as_str());
                        let req_body = update_file_body_chars(&user, &content,
                            &chars_of(sha.as_str()), &chars_of(branch.as_str()));
                        let url = contents_url_chars(&user, &filename);
                        (ContributePhase::UpdatingFile { branch: branch.clone() }, send(HttpMethod::Put, &url, Some(req_body)))
                    } else {
                        open_pr(job, branch)
                    }
                },
                None => open_pr(job, branch),
            }
        },
        _ => (ContributePhase::FetchingSha { branch: branch.clone() }, ContributeAction::Nothing),
    }
}

fn step_updating_file(job: &ContributeJob, branch: &String, event: &ContributeEvent) -> (r: (ContributePhase, ContributeAction))
    ensures
        (r.0@, r.1@) == contribute_next(job.username@, job.filename@, job.jsonl@, PhaseView::UpdatingFile(branch@), event@),
{
    match event {
        ContributeEvent::Reply(ApiReply::Failed(e)) => finish_error("Update file request failed: ", &chars_of(e.as_str())),
        ContributeEvent::Reply(ApiReply::Response { status, status_text, body }) => {
            if 200 <= *status && *status < 300 {
                open_pr(job, branch)
            } else {
                let mut tail = chars_of(status_text.as_str());
                extend_chars(&mut tail, &chars_of(" "));
                extend_chars(&mut tail, &chars_of(body.as_str()));
                assert("Update file failed: HTTP "@ + tail@
                    =~= "Update file failed: HTTP "@ + status_text@ + " "@ + body@);
                finish_error("Update file failed: HTTP ", &tail)
            }
        },
        _ => (ContributePhase::UpdatingFile { branch: branch.clone() }, ContributeAction::Nothing),
    }
}

fn step_opening_pr(job: &ContributeJob, branch: &String, event: &ContributeEvent) -> (r: (ContributePhase, ContributeAction))
    ensures
        (r.0@, r.1@) == contribute_next(job.username@, job.filename@, job.jsonl@, PhaseView::OpeningPr(branch@), event@),
{
    match event {
        ContributeEvent::Reply(ApiReply::Failed(e)) => finish_error("Create PR request failed: ", &chars_of(e.as_str())),
        ContributeEvent::Reply(ApiReply::Response { status, status_text, body }) => {
            if 200 <= *status && *status < 300 {
                match json_field(body.as_str(), "html_url") {
                    Some(u) => finish_success(&chars_of(u.as_str())),
                    None => finish_success(&Vec::new()),
                }
            } else if *status == 422 {
                let mut url = upstream_api_url_chars();
                extend_chars(&mut url, &chars_of("/pulls?head="));
                extend_chars(&mut url, &chars_of(job.username.as_str()));
                extend_chars(&mut url, &chars_of(":"));
                extend_chars(&mut url, &chars_of(branch.as_str()));
                extend_chars(&mut url, &chars_of("&state=open"));
                (ContributePhase::SearchingPr { branch: branch.clone() }, send(HttpMethod::Get, &url, None))
            } else {
                finish_error("Create PR failed: HTTP ", &chars_of(status_text.as_str()))
            }
        },
        _ => (ContributePhase::OpeningPr { branch: branch.clone() }, ContributeAction::Nothing),
    }
}

fn step_searching_pr(branch: &String, event: &ContributeEvent) -> (r: (ContributePhase, ContributeAction))
    ensures
        forall|user: Seq<char>, filename: Seq<char>, jsonl: Seq<char>|
            (r.0@, r.1@) == #[trigger] contribute_next(user, filename, jsonl, PhaseView::SearchingPr(branch@), event@),
{
    match event {
        ContributeEvent::Reply(ApiReply::Failed(_)) => finish_success(&pulls_page_chars()),
        ContributeEvent::Reply(ApiReply::Response { body, .. }) => {
            let (found, url) = json_first_field(body.as_str(), "html_url");
            if found {
                match url {
                    Some(u) => finish_success(&chars_of(u.as_str())),
                    None => finish_success(&Vec::new()),
                }
            } else {
                finish_success(&pulls_page_chars())
            }
        },
        _ => (ContributePhase::SearchingPr { branch: branch.clone() }, ContributeAction::Nothing),
    }
}

/// One step of a submission: from the current phase and what happened, the
/// next phase and what the caller does next (see `contribute_next`). A run
/// starts in `Start` with `Begin`.
pub fn contribute_step(job: &ContributeJob, phase: &ContributePhase, event: &ContributeEvent) -> (r: (ContributePhase, ContributeAction))
    requires
        utf8_len(job.jsonl@) <= isize::MAX,
    ensures
        (r.0@, r.1@) == contribute_next(job.username@, job.filename@, job.jsonl@, phase@, event@),
{
    match phase {
        ContributePhase::Start => match event {
            ContributeEvent::Begin => {
                let mut url = upstream_api_url_chars();
                extend_chars(&mut url, &chars_of("/forks"));
                (ContributePhase::Forking, send(HttpMethod::Post, &url, None))
            },
            _ => (ContributePhase::Start, ContributeAction::Nothing),
        },
        ContributePhase::Forking => step_forking(event),
        ContributePhase::Pausing => match event {
            ContributeEvent::Resumed => {
                let user = chars_of(job.username.as_str());
                (ContributePhase::FetchingRepo, send(HttpMethod::Get, &repo_api_url_chars(&user), None))
            },
            _ => (ContributePhase::Pausing, ContributeAction::Nothing),
        },
        ContributePhase::FetchingRepo => step_fetching_repo(job, event),
        ContributePhase::CreatingFile { branch } => step_creating_file(job, branch, event),
        ContributePhase::FetchingSha { branch } => step_fetching_sha(job, branch, event),
        ContributePhase::UpdatingFile { branch } => step_updating_file(job, branch, event),
        ContributePhase::OpeningPr { branch } => step_opening_pr(job, branch, event),
        ContributePhase::SearchingPr { branch } => step_searching_pr(branch, event),
        ContributePhase::Finished => (ContributePhase::Finished, ContributeAction::Nothing),
    }
}

fn pulls_page_chars() -> (v: Vec<char>)
    ensures
        v@ == pulls_page_url(),
{
    let mut v = chars_of("https://github.com/");
    extend_chars(&mut v, &chars_of("zhongbai2333"));
    extend_chars(&mut v, &chars_of("/RustEpubReader-Model/pulls"));
    v
}

/// How far a phase is from the end of a submission.
pub open spec fn phase_rank(p: PhaseView) -> nat {
    match p {
        PhaseView::Start => 9,
        PhaseView::Forking => 8,
        PhaseView::Pausing => 7,
        PhaseView::FetchingRepo => 6,
        PhaseView::CreatingFile(_) => 5,
        PhaseView::FetchingSha(_) => 4,
        PhaseView::UpdatingFile(_) => 3,
        PhaseView::OpeningPr(_) => 2,
        PhaseView::SearchingPr(_) => 1,
        PhaseView::Finished => 0,
    }
}

/// A submission always ends: each step either ignores an event that does not
/// belong to the phase, changing nothing, or moves strictly closer to the
/// end, so at most nine steps are taken; and a result is reported exactly
/// by the step that finishes.
pub proof fn law_contribute_progress(user: Seq<char>, filename: Seq<char>, jsonl: Seq<char>, phase: PhaseView, event: EventView)
    ensures
        ({
            let (next, action) = contribute_next(user, filename, jsonl, phase, event);
            &&& (action is Nothing && next == phase) || phase_rank(next) < phase_rank(phase)
            &&& (action is Finish <==> (next is Finished && !(phase is Finished)))
        }),
{
}

/// What submitting the samples comes to before any request is made.
#[derive(Clone, Debug)]
pub enum SubmitDecision {
    /// No GitHub token or user name: the reader must log in first.
    NeedLogin,
    /// No sample to submit.
    NoData,
    /// Start the submission of `sample_count` samples.
    Start { job: ContributeJob, sample_count: usize },
}

/// The name of the samples file: `<username>_<timestamp>.jsonl`.
pub open spec fn submission_filename(user: Seq<char>, timestamp: u64) -> Seq<char> {
    user + "_"@ + decimal(timestamp as nat) + ".jsonl"@
}

/// Decides how a submission starts: it needs a token and a user name, and at
/// least one sample; the job then carries the samples as JSON lines, to be
/// written as `<username>_<timestamp>.jsonl`.
pub fn csc_submit_contribution(token: &Option<String>, username: &Option<String>, samples: &[CscSample], timestamp: u64) -> (d: SubmitDecision)
    ensures
        (token is None || username is None) ==> d is NeedLogin,
        (token is Some && username is Some && samples.len() == 0) ==> d is NoData,
        (token is Some && username is Some && samples.len() > 0) ==> (d matches SubmitDecision::Start { job, sample_count }
            && sample_count == samples.len()
            && job.username@ == username->0@
            && job.filename@ == submission_filename(username->0@, timestamp)
            && job.jsonl@ == jsonl_text(sample_views(samples@))
            && line_count(job.jsonl@) == sample_count),
{
    if token.is_none() {
        return SubmitDecision::NeedLogin;
    }
    let user = match username {
        Some(u) => u,
        None => {
            return SubmitDecision::NeedLogin;
        },
    };
    if samples.len() == 0 {
        return SubmitDecision::NoData;
    }
    let mut name = chars_of(user.as_str());
    extend_chars(&mut name, &chars_of("_"));
    extend_chars(&mut name, &decimal_chars(timestamp));
    extend_chars(&mut name, &chars_of(".jsonl"));
    let job = ContributeJob {
        username: user.clone(),
        filename: string_of(&name),
        jsonl: csc_format_jsonl(samples),
    };
    SubmitDecision::Start { job, sample_count: samples.len() }
}

/// The headers of every GitHub API request: the bearer token, the user
/// agent, and the GitHub JSON media type.
pub fn api_headers(token: &str) -> (h: Vec<(String, String)>)
    ensures
        h@.len() == 3,
        h@[0].0@ == "Authorization"@ && h@[0].1@ == "Bearer "@ + token@,
        h@[1].0@ == "User-Agent"@ && h@[1].1@ == "RustEpubReader"@,
        h@[2].0@ == "Accept"@ && h@[2].1@ == "application/vnd.github+json"@,
{
    let auth = concat_chars(&chars_of("Bearer "), &chars_of(token));
    let mut h: Vec<(String, String)> = Vec::new();
    h.push((string_of(&chars_of("Authorization")), string_of(&auth)));
    h.push((string_of(&chars_of("User-Agent")), string_of(&chars_of("RustEpubReader"))));
    h.push((string_of(&chars_of("Accept")), string_of(&chars_of("application/vnd.github+json"))));
    h
}

} // verus!
