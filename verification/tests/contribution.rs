use rust_epub_reader::contribute::{
    api_headers, contribute_step, csc_submit_contribution, ApiReply, ContributeAction,
    ContributeEvent, ContributeJob, ContributePhase, ContributeResult, HttpMethod, SubmitDecision,
};
use rust_epub_reader::csc::CscSample;

const JSONL: &str = "{\"input\":\"x\",\"output\":\"y\"}\n";

fn job() -> ContributeJob {
    ContributeJob {
        username: "alice".to_string(),
        filename: "alice_100.jsonl".to_string(),
        jsonl: JSONL.to_string(),
    }
}

fn reply(status: u16, text: &str, body: &str) -> ContributeEvent {
    ContributeEvent::Reply(ApiReply::Response {
        status,
        status_text: text.to_string(),
        body: body.to_string(),
    })
}

fn failed(e: &str) -> ContributeEvent {
    ContributeEvent::Reply(ApiReply::Failed(e.to_string()))
}

fn branch_of(p: &ContributePhase) -> String {
    match p {
        ContributePhase::CreatingFile { branch }
        | ContributePhase::FetchingSha { branch }
        | ContributePhase::UpdatingFile { branch }
        | ContributePhase::OpeningPr { branch }
        | ContributePhase::SearchingPr { branch } => branch.clone(),
        _ => panic!("phase without branch"),
    }
}

fn sent(a: &ContributeAction) -> (HttpMethod, String, Option<String>) {
    match a {
        ContributeAction::Send(r) => (r.method, r.url.clone(), r.json_body.clone()),
        _ => panic!("expected a request"),
    }
}

fn error_of(a: &ContributeAction) -> String {
    match a {
        ContributeAction::Finish(ContributeResult::Error(e)) => e.clone(),
        _ => panic!("expected an error"),
    }
}

fn url_of(a: &ContributeAction) -> String {
    match a {
        ContributeAction::Finish(ContributeResult::Success { pr_url }) => pr_url.clone(),
        _ => panic!("expected success"),
    }
}

#[test]
fn submission_needs_login_and_samples() {
    let s = vec![CscSample { input: "a".to_string(), output: "b".to_string() }];
    assert!(matches!(csc_submit_contribution(&None, &Some("u".to_string()), &s, 1), SubmitDecision::NeedLogin));
    assert!(matches!(csc_submit_contribution(&Some("t".to_string()), &None, &s, 1), SubmitDecision::NeedLogin));
    assert!(matches!(
        csc_submit_contribution(&Some("t".to_string()), &Some("u".to_string()), &[], 1),
        SubmitDecision::NoData
    ));
    match csc_submit_contribution(&Some("t".to_string()), &Some("bob".to_string()), &s, 1700000000) {
        SubmitDecision::Start { job, sample_count } => {
            assert_eq!(sample_count, 1);
            assert_eq!(job.username, "bob");
            assert_eq!(job.filename, "bob_1700000000.jsonl");
            assert_eq!(job.jsonl, "{\"input\":\"a\",\"output\":\"b\"}\n");
        }
        _ => panic!("expected a start"),
    }
}

#[test]
fn headers_carry_the_token() {
    let h = api_headers("tok");
    assert_eq!(h[0], ("Authorization".to_string(), "Bearer tok".to_string()));
    assert_eq!(h[1], ("User-Agent".to_string(), "RustEpubReader".to_string()));
    assert_eq!(h[2], ("Accept".to_string(), "application/vnd.github+json".to_string()));
}

#[test]
fn happy_path_forks_writes_and_opens_a_pull_request() {
    let j = job();
    let (p, a) = contribute_step(&j, &ContributePhase::Start, &ContributeEvent::Begin);
    assert!(matches!(p, ContributePhase::Forking));
    let (m, url, body) = sent(&a);
    assert_eq!(m, HttpMethod::Post);
    assert_eq!(url, "https://api.github.com/repos/zhongbai2333/RustEpubReader-Model/forks");
    assert!(body.is_none());

    let (p, a) = contribute_step(&j, &p, &reply(202, "202 Accepted", ""));
    assert!(matches!(p, ContributePhase::Pausing));
    assert!(matches!(a, ContributeAction::Pause { secs: 3 }));

    let (p, a) = contribute_step(&j, &p, &ContributeEvent::Resumed);
    assert!(matches!(p, ContributePhase::FetchingRepo));
    assert_eq!(sent(&a).1, "https://api.github.com/repos/alice/RustEpubReader-Model");

    let (p, a) = contribute_step(&j, &p, &reply(200, "200 OK", "{\"default_branch\":\"dev\"}"));
    assert_eq!(branch_of(&p), "dev");
    let (m, url, body) = sent(&a);
    assert_eq!(m, HttpMethod::Put);
    assert_eq!(
        url,
        "https://api.github.com/repos/alice/RustEpubReader-Model/contents/datasets/submissions/alice_100.jsonl"
    );
    assert_eq!(
        body.unwrap(),
        "{\"branch\":\"dev\",\"content\":\"eyJpbnB1dCI6IngiLCJvdXRwdXQiOiJ5In0K\",\"message\":\"Add correction data from alice\"}"
    );

    let (p, a) = contribute_step(&j, &p, &reply(201, "201 Created", "{}"));
    assert!(matches!(p, ContributePhase::OpeningPr { .. }));
    let (m, url, body) = sent(&a);
    assert_eq!(m, HttpMethod::Post);
    assert_eq!(url, "https://api.github.com/repos/zhongbai2333/RustEpubReader-Model/pulls");
    let v: serde_json::Value = serde_json::from_str(&body.clone().unwrap()).unwrap();
    assert_eq!(v["title"], "CSC correction data from alice");
    assert_eq!(v["head"], "alice:dev");
    assert_eq!(v["base"], "dev");
    assert_eq!(
        v["body"],
        "Automatically submitted correction data from RustEpubReader.\n\n- User: @alice\n- Samples: 1\n- File: `datasets/submissions/alice_100.jsonl`"
    );
    assert!(body.unwrap().starts_with("{\"base\":"));

    let (p, a) = contribute_step(&j, &p, &reply(201, "201 Created", "{\"html_url\":\"https://github.com/pr/7\"}"));
    assert!(matches!(p, ContributePhase::Finished));
    assert_eq!(url_of(&a), "https://github.com/pr/7");

    let (p, a) = contribute_step(&j, &p, &ContributeEvent::Begin);
    assert!(matches!(p, ContributePhase::Finished));
    assert!(matches!(a, ContributeAction::Nothing));
}

#[test]
fn default_branch_falls_back_to_main() {
    let (p, _) = contribute_step(&job(), &ContributePhase::FetchingRepo, &reply(200, "200 OK", "not json"));
    assert_eq!(branch_of(&p), "main");
}

#[test]
fn existing_file_is_updated_with_its_sha() {
    let j = job();
    let creating = ContributePhase::CreatingFile { branch: "dev".to_string() };
    let (p, a) = contribute_step(&j, &creating, &reply(422, "422 Unprocessable Entity", ""));
    assert!(matches!(p, ContributePhase::FetchingSha { .. }));
    let (m, url, _) = sent(&a);
    assert_eq!(m, HttpMethod::Get);
    assert!(url.ends_with("/contents/datasets/submissions/alice_100.jsonl?ref=dev"));

    let (p, a) = contribute_step(&j, &p, &reply(200, "200 OK", "{\"sha\":\"abc123\"}"));
    assert!(matches!(p, ContributePhase::UpdatingFile { .. }));
    let (m, _, body) = sent(&a);
    assert_eq!(m, HttpMethod::Put);
    assert!(body.unwrap().ends_with(",\"message\":\"Update correction data from alice\",\"sha\":\"abc123\"}"));

    let (p, a) = contribute_step(&j, &p, &reply(500, "500 Internal Server Error", "oops"));
    assert!(matches!(p, ContributePhase::Finished));
    assert_eq!(error_of(&a), "Update file failed: HTTP 500 Internal Server Error oops");

    let (p, _) = contribute_step(&j, &ContributePhase::FetchingSha { branch: "dev".to_string() }, &failed("x"));
    assert!(matches!(p, ContributePhase::OpeningPr { .. }));
    let (p, _) = contribute_step(&j, &ContributePhase::FetchingSha { branch: "dev".to_string() }, &reply(404, "404 Not Found", "{\"sha\":\"s\"}"));
    assert!(matches!(p, ContributePhase::OpeningPr { .. }));
}

#[test]
fn errors_end_the_submission() {
    let j = job();
    let (_, a) = contribute_step(&j, &ContributePhase::Forking, &reply(404, "404 Not Found", ""));
    assert_eq!(error_of(&a), "Fork failed: HTTP 404 Not Found");
    let (_, a) = contribute_step(&j, &ContributePhase::Forking, &failed("timed out"));
    assert_eq!(error_of(&a), "Fork request failed: timed out");
    let (_, a) = contribute_step(&j, &ContributePhase::FetchingRepo, &reply(403, "403 Forbidden", ""));
    assert_eq!(error_of(&a), "Cannot access fork: HTTP 403 Forbidden");
    let (_, a) = contribute_step(&j, &ContributePhase::FetchingRepo, &failed("dns"));
    assert_eq!(error_of(&a), "Get fork info failed: dns");
    let creating = ContributePhase::CreatingFile { branch: "main".to_string() };
    let (_, a) = contribute_step(&j, &creating, &reply(401, "401 Unauthorized", ""));
    assert_eq!(error_of(&a), "Create file failed: HTTP 401 Unauthorized");
    let (_, a) = contribute_step(&j, &creating, &failed("reset"));
    assert_eq!(error_of(&a), "Create file request failed: reset");
    let opening = ContributePhase::OpeningPr { branch: "main".to_string() };
    let (_, a) = contribute_step(&j, &opening, &reply(500, "500 Internal Server Error", ""));
    assert_eq!(error_of(&a), "Create PR failed: HTTP 500 Internal Server Error");
    let (_, a) = contribute_step(&j, &opening, &failed("eof"));
    assert_eq!(error_of(&a), "Create PR request failed: eof");
}

#[test]
fn existing_pull_request_is_found() {
    let j = job();
    let opening = ContributePhase::OpeningPr { branch: "dev".to_string() };
    let (p, a) = contribute_step(&j, &opening, &reply(422, "422 Unprocessable Entity", "{}"));
    assert!(matches!(p, ContributePhase::SearchingPr { .. }));
    assert_eq!(
        sent(&a).1,
        "https://api.github.com/repos/zhongbai2333/RustEpubReader-Model/pulls?head=alice:dev&state=open"
    );
    let (_, a) = contribute_step(&j, &p, &reply(200, "200 OK", "[{\"html_url\":\"https://github.com/pr/3\"}]"));
    assert_eq!(url_of(&a), "https://github.com/pr/3");
    let (_, a) = contribute_step(&j, &p, &reply(200, "200 OK", "[]"));
    assert_eq!(url_of(&a), "https://github.com/zhongbai2333/RustEpubReader-Model/pulls");
    let (_, a) = contribute_step(&j, &p, &reply(200, "200 OK", "[{}]"));
    assert_eq!(url_of(&a), "");
    let (_, a) = contribute_step(&j, &p, &failed("x"));
    assert_eq!(url_of(&a), "https://github.com/zhongbai2333/RustEpubReader-Model/pulls");
}

#[test]
fn a_submission_ends_within_nine_steps() {
    // Worst case: every step moves on, none finishes early.
    let j = job();
    let events = [
        ContributeEvent::Begin,
        reply(202, "202 Accepted", ""),
        ContributeEvent::Resumed,
        reply(200, "200 OK", "{}"),
        reply(409, "409 Conflict", ""),
        reply(200, "200 OK", "{\"sha\":\"s\"}"),
        reply(200, "200 OK", ""),
        reply(422, "422 Unprocessable Entity", ""),
        reply(200, "200 OK", "[]"),
    ];
    let mut phase = ContributePhase::Start;
    let mut finished = false;
    for (i, e) in events.iter().enumerate() {
        let (p, a) = contribute_step(&j, &phase, e);
        phase = p;
        if matches!(a, ContributeAction::Finish(_)) {
            finished = true;
            assert_eq!(i, events.len() - 1);
        }
    }
    assert!(finished);
    assert!(matches!(phase, ContributePhase::Finished));
}

#[test]
fn file_content_is_base64_of_the_utf8_bytes() {
    let j = ContributeJob { username: "bob".to_string(), filename: "bob_1.jsonl".to_string(), jsonl: "气é".to_string() };
    let (_, a) = contribute_step(&j, &ContributePhase::FetchingRepo, &reply(200, "200 OK", "{\"default_branch\":\"main\"}"));
    let body = sent(&a).2.unwrap();
    assert_eq!(body, "{\"branch\":\"main\",\"content\":\"5rCUw6k=\",\"message\":\"Add correction data from bob\"}");
    let j = ContributeJob { username: "bob".to_string(), filename: "bob_1.jsonl".to_string(), jsonl: "ab".to_string() };
    let (_, a) = contribute_step(&j, &ContributePhase::FetchingRepo, &reply(200, "200 OK", "{\"default_branch\":\"main\"}"));
    assert!(sent(&a).2.unwrap().contains("\"content\":\"YWI=\""));
}
