use setu_cli::checker::{invalid, local, remote};
use setu_cli::{
    has_broken_links, unreadable, Failure, FailureKind, LinkCheckResult, LinkStatus,
    LocalLinkStatus, MarkdownCheckResult, RemoteLinkStatus,
};

fn check(link: &str, status: LinkStatus) -> LinkCheckResult {
    LinkCheckResult {
        source_file: "docs/a.md".to_string(),
        raw_link: link.to_string(),
        status,
    }
}

fn all_statuses() -> Vec<LinkStatus> {
    vec![
        LinkStatus::Local(LocalLinkStatus::Valid),
        LinkStatus::Local(LocalLinkStatus::DoesNotExist),
        LinkStatus::Local(LocalLinkStatus::InvalidPrefix),
        LinkStatus::Remote(RemoteLinkStatus::Reachable),
        LinkStatus::Remote(RemoteLinkStatus::Concern(404)),
        LinkStatus::Remote(RemoteLinkStatus::Invalid("timeout".to_string())),
        LinkStatus::Invalid("Invalid Path".to_string()),
    ]
}

#[test]
fn only_valid_local_and_reachable_remote_links_are_healthy() {
    let broken: Vec<bool> = all_statuses().iter().map(|s| s.is_broken()).collect();
    assert_eq!(broken, vec![false, true, true, false, true, true, true]);
}

#[test]
fn status_messages() {
    let messages: Vec<String> = all_statuses().iter().map(|s| s.to_string()).collect();
    assert_eq!(
        messages,
        vec![
            "The local link is valid",
            "The local link does not exist",
            "The local link's path is malformatted",
            "The URL returns 200 OK",
            "The URL returned an unsuccessful status code: 404",
            "The URL could not be reached: timeout",
            "Invalid Path",
        ]
    );
    assert_eq!(
        RemoteLinkStatus::Concern(0).to_string(),
        "The URL returned an unsuccessful status code: 0"
    );
    assert_eq!(
        RemoteLinkStatus::Concern(65535).to_string(),
        "The URL returned an unsuccessful status code: 65535"
    );
    assert_eq!(LocalLinkStatus::DoesNotExist.to_string(), "The local link does not exist");
}

#[test]
fn report_lists_exactly_the_broken_checks() {
    let checks: Vec<LinkCheckResult> = all_statuses()
        .into_iter()
        .enumerate()
        .map(|(i, s)| check(&format!("link{}", i), s))
        .collect();
    let result = MarkdownCheckResult { success: true, checks: checks.clone() };
    let failures = result.failures();
    let listed: Vec<&str> = failures.iter().map(|f| f.raw_link.as_str()).collect();
    let broken: Vec<&str> = checks
        .iter()
        .filter(|c| c.status.is_broken())
        .map(|c| c.raw_link.as_str())
        .collect();
    assert_eq!(listed, broken);
    let kinds: Vec<FailureKind> = failures.iter().map(|f| f.kind).collect();
    assert_eq!(
        kinds,
        vec![
            FailureKind::LocalLink,
            FailureKind::LocalLink,
            FailureKind::RemoteUrl,
            FailureKind::RemoteUrl,
            FailureKind::InvalidUrl,
        ]
    );
    assert_eq!(failures[2].detail, "The URL returned an unsuccessful status code: 404");
    assert_eq!(failures[4].detail, "Invalid Path");
    assert!(failures.iter().all(|f| f.source_file == "docs/a.md"));
}

#[test]
fn unreadable_files_report_no_links() {
    let result = unreadable();
    assert!(!result.success);
    assert!(result.checks.is_empty());
    assert!(result.failures().is_empty());
    assert_eq!(
        MarkdownCheckResult::unreadable_notice("FAIL"),
        "FAIL Failed to locate/parse markdown file"
    );
}

#[test]
fn report_lines() {
    let f = Failure {
        kind: FailureKind::LocalLink,
        raw_link: "./x".to_string(),
        source_file: "a.md".to_string(),
        detail: "The local link does not exist".to_string(),
    };
    assert_eq!(
        f.line("FAIL", "./x", "a.md"),
        "FAIL Faulty local link ./x at a.md | The local link does not exist\n"
    );
    let g = Failure { kind: FailureKind::RemoteUrl, ..f.clone() };
    assert_eq!(
        g.line("[F]", "<x>", "<a>"),
        "[F] Faulty remote URL <x> at <a> | The local link does not exist\n"
    );
    let h = Failure { kind: FailureKind::InvalidUrl, detail: "Invalid Path".to_string(), ..f };
    assert_eq!(h.line("", "", ""), " Invalid URL  at  | Invalid Path\n");
}

#[test]
fn broken_links_decide_the_scan() {
    let healthy = MarkdownCheckResult {
        success: true,
        checks: vec![check("a", LinkStatus::Local(LocalLinkStatus::Valid))],
    };
    let broken_but_unread = MarkdownCheckResult {
        success: false,
        checks: vec![check("b", LinkStatus::Invalid("x".to_string()))],
    };
    let broken = MarkdownCheckResult {
        success: true,
        checks: vec![
            check("c", LinkStatus::Remote(RemoteLinkStatus::Reachable)),
            check("d", LinkStatus::Remote(RemoteLinkStatus::Concern(500))),
        ],
    };
    assert!(!has_broken_links(&vec![]));
    assert!(!has_broken_links(&vec![healthy]));
    assert!(!has_broken_links(&vec![broken_but_unread]));
    assert!(has_broken_links(&vec![broken]));
}

#[test]
fn invalid_links_are_recorded_as_invalid_paths() {
    let path = "docs/a.md".to_string();
    let res = invalid::evaluate(&path, vec!["Empty URL".to_string(), "x".to_string()]);
    assert_eq!(res.len(), 2);
    assert_eq!(res[0], check("Empty URL", LinkStatus::Invalid("Invalid Path".to_string())));
    assert_eq!(res[1].raw_link, "x");
    assert!(res.iter().all(|c| c.status.is_broken()));
    assert!(invalid::evaluate(&path, vec![]).is_empty());
}

#[test]
fn local_targets_are_relative_to_the_markdown_file() {
    assert_eq!(local::target_path("./tests/test.md", "./real.txt"), "./tests/./real.txt");
    assert_eq!(local::target_path("test.md", "real.txt"), "real.txt");
    assert_eq!(local::target_path("a/b/c.md", "../d.md"), "a/b/../d.md");
    assert_eq!(local::target_path("a/b/c.md", "/etc/hosts"), "/etc/hosts");
    assert_eq!(local::target_path("dir/", "x"), "dir/x");
}

#[test]
fn local_checks_follow_the_disk() {
    let path = "docs/a.md".to_string();
    let res = local::evaluate(
        &path,
        vec![("./here".to_string(), true), ("./gone".to_string(), false)],
    );
    assert_eq!(res[0], check("./here", LinkStatus::Local(LocalLinkStatus::Valid)));
    assert_eq!(res[1], check("./gone", LinkStatus::Local(LocalLinkStatus::DoesNotExist)));
}

#[test]
fn remote_status_follows_the_concerns() {
    let concerns = Some(vec![404, 500]);
    assert_eq!(remote::status_for(&Ok(404), &concerns), RemoteLinkStatus::Concern(404));
    assert_eq!(remote::status_for(&Ok(500), &concerns), RemoteLinkStatus::Concern(500));
    assert_eq!(remote::status_for(&Ok(200), &concerns), RemoteLinkStatus::Reachable);
    assert_eq!(remote::status_for(&Ok(404), &Some(vec![])), RemoteLinkStatus::Reachable);
    assert_eq!(remote::status_for(&Ok(404), &None), RemoteLinkStatus::Reachable);
    assert_eq!(
        remote::status_for(&Err("dns error".to_string()), &concerns),
        RemoteLinkStatus::Invalid("dns error".to_string())
    );
}

#[test]
fn remote_checks_follow_the_answers() {
    let path = "docs/a.md".to_string();
    let res = remote::evaluate(
        &path,
        vec![
            ("https://a".to_string(), Ok(200)),
            ("https://b".to_string(), Ok(404)),
            ("https://c".to_string(), Err("refused".to_string())),
        ],
        &Some(vec![404]),
    );
    assert_eq!(res[0], check("https://a", LinkStatus::Remote(RemoteLinkStatus::Reachable)));
    assert_eq!(res[1], check("https://b", LinkStatus::Remote(RemoteLinkStatus::Concern(404))));
    assert_eq!(
        res[2],
        check("https://c", LinkStatus::Remote(RemoteLinkStatus::Invalid("refused".to_string())))
    );
}
