use rust_epub_reader::update::{
    is_dev_build_path,
    asset_sha256, canonical_executable_name, check_hotfix_and_apply, check_latest_version,
    detect_platform_keyword, eq_hash, get_accelerated_url, github_latest_release_url,
    match_release_asset, perform_update, target_executable_path, download_file_name, update_state_after,
    verify_download, windows_update_script, MatchedAsset, ReleaseAsset, ReleaseInfo,
    UpdateAction, UpdateError, UpdateEvent, UpdateOutcome, UpdateState,
};

const ABC_SHA: &str = "ba7816bf8f01cfea414140de5dae2223b00361a396177a9cb410ff61f20015ad";

fn asset(name: &str, url: &str, digest: Option<&str>) -> ReleaseAsset {
    ReleaseAsset {
        name: name.to_string(),
        size: Some(42),
        browser_download_url: url.to_string(),
        digest: digest.map(|d| d.to_string()),
    }
}

fn matched(tag: &str, sha: Option<&str>) -> MatchedAsset {
    MatchedAsset {
        release_name: "Release".to_string(),
        tag_name: tag.to_string(),
        download_url: "https://example.invalid/a".to_string(),
        size: 1,
        sha256: sha.map(|s| s.to_string()),
    }
}

#[test]
fn release_url() {
    assert_eq!(
        github_latest_release_url(),
        "https://api.github.com/repos/zhongbai2333/RustEpubReader/releases/latest"
    );
}

#[test]
fn hashes_compare_trimmed_and_case_insensitive() {
    assert!(eq_hash(" ABCDEF ", "abcdef"));
    assert!(!eq_hash("abc", "abd"));
    assert!(!eq_hash("abc", "abcd"));
}

#[test]
fn downloads_are_accelerated() {
    assert_eq!(
        get_accelerated_url("https://github.com/o/r/releases/download/v1.2.3/app.zip"),
        "https://dl.zhongbai233.com/release/v1.2.3/app.zip"
    );
    assert_eq!(get_accelerated_url("https://example.com/app.zip"), "https://example.com/app.zip");
}

#[test]
fn platform_keywords_follow_release_names() {
    assert_eq!(detect_platform_keyword("linux", "x86_64"), "Linux_amd64");
    assert_eq!(detect_platform_keyword("linux", "aarch64"), "Linux_arm64");
    assert_eq!(detect_platform_keyword("windows", "x86_64"), "Win64");
    assert_eq!(detect_platform_keyword("windows", "aarch64"), "WinArm64");
    assert_eq!(detect_platform_keyword("macos", "aarch64"), "macOS_arm64");
    assert_eq!(detect_platform_keyword("macos", "riscv64"), "macOS_riscv64");
    assert_eq!(detect_platform_keyword("freebsd", "x86_64"), "freebsd");
}

#[test]
fn executable_names_and_paths() {
    assert_eq!(canonical_executable_name("Win64", true), "RustEpubReader-Win64.exe");
    assert_eq!(canonical_executable_name("Linux_amd64", false), "RustEpubReader-Linux_amd64");
    assert_eq!(
        target_executable_path("/opt/app/rer", "Linux_amd64", false).unwrap(),
        "/opt/app/RustEpubReader-Linux_amd64"
    );
    assert_eq!(
        target_executable_path("C:\\Apps\\rer.exe", "Win64", true).unwrap(),
        "C:\\Apps\\RustEpubReader-Win64.exe"
    );
    assert_eq!(target_executable_path("rer", "Linux_amd64", false).unwrap(), "RustEpubReader-Linux_amd64");
    match target_executable_path("", "Win64", true) {
        Err(UpdateError::Other(m)) => assert_eq!(m, "cannot determine executable directory"),
        _ => panic!("expected an error"),
    }
}

#[test]
fn trailing_separators_are_dropped_before_the_parent() {
    assert_eq!(target_executable_path("/a/", "Linux_amd64", false).unwrap(), "/RustEpubReader-Linux_amd64");
    assert_eq!(target_executable_path("a/", "Linux_amd64", false).unwrap(), "RustEpubReader-Linux_amd64");
    assert_eq!(
        target_executable_path("/opt//app//rer//", "Linux_amd64", false).unwrap(),
        "/opt//app/RustEpubReader-Linux_amd64"
    );
    assert_eq!(target_executable_path("/rer", "Linux_amd64", false).unwrap(), "/RustEpubReader-Linux_amd64");
    assert_eq!(
        target_executable_path("C:\\Apps\\rer.exe\\", "Win64", true).unwrap(),
        "C:\\Apps\\RustEpubReader-Win64.exe"
    );
    assert_eq!(target_executable_path("/a/b/.", "Linux_amd64", false).unwrap(), "/a/RustEpubReader-Linux_amd64");
    assert_eq!(target_executable_path("/a/./b", "Linux_amd64", false).unwrap(), "/a/RustEpubReader-Linux_amd64");
    assert_eq!(target_executable_path("./rer", "Linux_amd64", false).unwrap(), "./RustEpubReader-Linux_amd64");
    assert_eq!(target_executable_path("C:rer.exe", "Win64", true).unwrap(), "C:RustEpubReader-Win64.exe");
    assert_eq!(target_executable_path("C:\\rer.exe", "Win64", true).unwrap(), "C:\\RustEpubReader-Win64.exe");
    assert_eq!(
        target_executable_path("\\\\server\\share\\rer.exe", "Win64", true).unwrap(),
        "\\\\server\\share\\RustEpubReader-Win64.exe"
    );
    for p in ["C:\\", "C:"] {
        match target_executable_path(p, "Win64", true) {
            Err(UpdateError::Other(m)) => assert_eq!(m, "cannot determine executable directory"),
            _ => panic!("expected an error for {:?}", p),
        }
    }
    for p in ["/", "//", "", ".", "./", "/."] {
        match target_executable_path(p, "Linux_amd64", false) {
            Err(UpdateError::Other(m)) => assert_eq!(m, "cannot determine executable directory"),
            _ => panic!("expected an error for {:?}", p),
        }
    }
}

#[test]
fn downloads_are_named_after_the_last_url_segment() {
    assert_eq!(
        download_file_name(
            "https://github.com/o/r/releases/download/v1.2.0/RustEpubReader-Linux_amd64.tar.gz",
            false
        ),
        "RustEpubReader-Linux_amd64.tar.gz"
    );
    assert_eq!(download_file_name("https://example.com/files/app.zip/", false), "app.zip");
    assert_eq!(download_file_name("https://example.com/files/app.zip/.", false), "app.zip");
    assert_eq!(download_file_name("https://example.com/files/..", false), "update.bin");
    assert_eq!(download_file_name("", false), "update.bin");
    assert_eq!(download_file_name("/", false), "update.bin");
    assert_eq!(download_file_name("dir\\a.exe", true), "a.exe");
    assert_eq!(download_file_name("dir\\a.exe", false), "dir\\a.exe");
}

#[test]
fn published_digests_are_checked() {
    let d = format!("sha256:{}", ABC_SHA.to_uppercase());
    assert_eq!(asset_sha256(Some(&d)), Some(ABC_SHA.to_uppercase()));
    assert_eq!(asset_sha256(Some("sha256:1234")), None);
    assert_eq!(asset_sha256(None), None);
}

#[test]
fn assets_are_matched_by_platform_skipping_apks() {
    let latest = ReleaseInfo {
        name: Some("v2".to_string()),
        tag_name: Some("v2.0.0".to_string()),
        assets: vec![
            asset("RustEpubReader-Linux_amd64.apk", "https://x/apk", None),
            asset(
                "RustEpubReader-Linux_amd64",
                "https://github.com/o/r/releases/download/v2.0.0/RustEpubReader-Linux_amd64",
                Some(&format!("sha256:{ABC_SHA}")),
            ),
        ],
    };
    let m = match_release_asset(latest.clone(), "Linux_amd64", false).unwrap();
    assert_eq!(m.tag_name, "v2.0.0");
    assert_eq!(m.release_name, "v2");
    assert_eq!(m.size, 42);
    assert_eq!(m.download_url, "https://dl.zhongbai233.com/release/v2.0.0/RustEpubReader-Linux_amd64");
    assert_eq!(m.sha256.as_deref(), Some(ABC_SHA));
    let m = match_release_asset(latest.clone(), "Linux_amd64", true).unwrap();
    assert_eq!(m.download_url, "https://github.com/o/r/releases/download/v2.0.0/RustEpubReader-Linux_amd64");
    match match_release_asset(latest, "Win64", false) {
        Err(UpdateError::NoMatchingAsset { platform_key }) => assert_eq!(platform_key, "Win64"),
        _ => panic!("expected no matching asset"),
    }
    let untagged = ReleaseInfo { name: None, tag_name: Some(String::new()), assets: vec![] };
    assert!(matches!(match_release_asset(untagged, "Win64", false), Err(UpdateError::MissingTag)));
}

#[test]
fn newer_tags_are_reported() {
    assert_eq!(
        check_latest_version("1.0.0", Ok(matched("v1.1.0", None))),
        Some(("v1.1.0".to_string(), "Release".to_string()))
    );
    assert_eq!(check_latest_version("1.0.0", Ok(matched("v1.0.0", None))), None);
    assert_eq!(check_latest_version("1.0.0", Err(UpdateError::MissingTag)), None);
}

#[test]
fn downloads_are_verified() {
    assert_eq!(verify_download(b"abc", None).unwrap(), ABC_SHA);
    assert_eq!(verify_download(b"abc", Some(&ABC_SHA.to_uppercase())).unwrap(), ABC_SHA);
    match verify_download(b"abd", Some(ABC_SHA)) {
        Err(UpdateError::HashMismatch { actual, expected }) => {
            assert_ne!(actual, ABC_SHA);
            assert_eq!(expected, ABC_SHA);
        }
        _ => panic!("expected a digest mismatch"),
    }
}

#[test]
fn update_runs_step_by_step() {
    assert!(matches!(
        perform_update("1.0.0", UpdateEvent::Start { dev_build: true }),
        UpdateAction::Finish(Ok(UpdateOutcome::Skipped))
    ));
    assert!(matches!(
        check_hotfix_and_apply("1.0.0", UpdateEvent::Start { dev_build: true }),
        UpdateAction::Finish(Ok(UpdateOutcome::UpToDate))
    ));
    assert!(matches!(perform_update("1.0.0", UpdateEvent::Start { dev_build: false }), UpdateAction::FetchLatest));
    match perform_update("1.0.0", UpdateEvent::LatestFetched(Ok(matched("v2.0.0", None)))) {
        UpdateAction::StartUpdate(m) => assert_eq!(m.tag_name, "v2.0.0"),
        _ => panic!("expected an update"),
    }
    assert!(matches!(
        check_hotfix_and_apply("1.0.0", UpdateEvent::LatestFetched(Ok(matched("v2.0.0", None)))),
        UpdateAction::Finish(Ok(UpdateOutcome::UpToDate))
    ));
    assert!(matches!(
        perform_update("1.0.0", UpdateEvent::LatestFetched(Ok(matched("v1.0.0", Some(ABC_SHA))))),
        UpdateAction::HashSelf(_)
    ));
    assert!(matches!(
        perform_update("1.0.0", UpdateEvent::LatestFetched(Ok(matched("v1.0.0", None)))),
        UpdateAction::Finish(Ok(UpdateOutcome::UpToDate))
    ));
    let same = UpdateEvent::SelfHashed { matched: matched("v1.0.0", Some(ABC_SHA)), self_hash: Ok(ABC_SHA.to_uppercase()) };
    assert!(matches!(perform_update("1.0.0", same), UpdateAction::Finish(Ok(UpdateOutcome::UpToDate))));
    let differs = UpdateEvent::SelfHashed { matched: matched("v1.0.0", Some(ABC_SHA)), self_hash: Ok("00".to_string()) };
    assert!(matches!(check_hotfix_and_apply("1.0.0", differs), UpdateAction::StartUpdate(_)));
    assert!(matches!(
        perform_update("1.0.0", UpdateEvent::UpdateStarted(Ok(()))),
        UpdateAction::Finish(Ok(UpdateOutcome::UpdateLaunched))
    ));
}

#[test]
fn update_dialog_state_after_a_run() {
    assert!(matches!(UpdateState::default(), UpdateState::Idle));
    assert!(matches!(update_state_after(&Ok(UpdateOutcome::UpdateLaunched), "f"), UpdateState::Restarting));
    assert!(matches!(update_state_after(&Ok(UpdateOutcome::Skipped), "f"), UpdateState::UpToDate));
    match update_state_after(&Err(UpdateError::NoMatchingAsset { platform_key: "Win64".to_string() }), "f") {
        UpdateState::Failed(m) => assert_eq!(m, "no matching release asset for platform_key=Win64"),
        _ => panic!("expected a failure"),
    }
    let e = UpdateError::HashMismatch { actual: "aa".to_string(), expected: "bb".to_string() };
    assert_eq!(e.describe("/tmp/x"), "SHA256 校验失败：下载文件 /tmp/x 的哈希 aa 与期望 bb 不符");
    assert_eq!(UpdateError::MissingTag.describe(""), "latest release missing tag_name");
}

#[test]
fn windows_script_replaces_and_restarts() {
    let s = windows_update_script("C:\\Apps", "old.exe", "RustEpubReader-Win64.exe");
    let lines: Vec<&str> = s.split("\r\n").collect();
    assert_eq!(lines[0], "@echo off");
    assert_eq!(lines[4], "cd /d \"C:\\Apps\"");
    assert_eq!(lines[6], "if exist \"old.exe\" (del /F /Q \"old.exe\")");
    assert_eq!(lines[7], "if exist \"RustEpubReader-Win64.exe\" (del /F /Q \"RustEpubReader-Win64.exe\")");
    assert_eq!(
        lines[8],
        "if exist \"RustEpubReader-Win64.exe.new\" (ren \"RustEpubReader-Win64.exe.new\" \"RustEpubReader-Win64.exe\")"
    );
    assert_eq!(lines[10], "start \"\" \"RustEpubReader-Win64.exe\" %*");
    assert_eq!(*lines.last().unwrap(), "del \"%~f0\"");
    assert!(!s.ends_with("\r\n"));
    let same = windows_update_script("D:\\", "RustEpubReader-Win64.exe", "RustEpubReader-Win64.exe");
    assert_eq!(same.split("\r\n").count(), lines.len() - 1);
}

#[test]
fn development_builds_are_detected() {
    assert!(is_dev_build_path(true, None));
    assert!(is_dev_build_path(false, Some("/home/u/proj/target/debug/app")));
    assert!(is_dev_build_path(false, Some("C:\\Proj\\Target\\Release\\app.exe")));
    assert!(!is_dev_build_path(false, Some("/usr/bin/app")));
    assert!(!is_dev_build_path(false, None));
}

#[test]
fn hash_comparison_is_symmetric() {
    assert_eq!(eq_hash("AB ", " ab"), eq_hash(" ab", "AB "));
    assert!(eq_hash(ABC_SHA, ABC_SHA));
}
