use setu_cli::{
    check_links, classify_link, scan_markdown, scan_verdict, LinkCheckResult, LinkStatus,
    LinkType, LocalLinkStatus, MarkdownCheckResult, RemoteLinkStatus,
};

fn strip_styles(s: &str) -> String {
    let mut out = String::new();
    let mut chars = s.chars().peekable();
    while let Some(c) = chars.next() {
        if c == '\u{1b}' && chars.peek() == Some(&'[') {
            for d in chars.by_ref() {
                if d == 'm' {
                    break;
                }
            }
        } else {
            out.push(c);
        }
    }
    out
}

fn check(file: &str, link: &str, status: LinkStatus) -> LinkCheckResult {
    LinkCheckResult { source_file: file.to_string(), raw_link: link.to_string(), status }
}

fn sample_checks() -> Vec<LinkCheckResult> {
    vec![
        check("a.md", "./ok.txt", LinkStatus::Local(LocalLinkStatus::Valid)),
        check("a.md", "./gone.txt", LinkStatus::Local(LocalLinkStatus::DoesNotExist)),
        check("a.md", "https://ok", LinkStatus::Remote(RemoteLinkStatus::Reachable)),
        check("a.md", "https://bad", LinkStatus::Remote(RemoteLinkStatus::Concern(404))),
        check("a.md", "https://down", LinkStatus::Remote(RemoteLinkStatus::Invalid("refused".to_string()))),
        check("a.md", "Empty URL", LinkStatus::Invalid("Invalid Path".to_string())),
    ]
}

#[test]
fn report_shows_each_broken_check() {
    let result = MarkdownCheckResult { success: true, checks: sample_checks() };
    assert_eq!(
        strip_styles(&result.render()),
        "FAIL Faulty local link ./gone.txt at a.md | The local link does not exist\n\
         FAIL Faulty remote URL https://bad at a.md | The URL returned an unsuccessful status code: 404\n\
         FAIL Faulty remote URL https://down at a.md | The URL could not be reached: refused\n\
         FAIL Invalid URL Empty URL at a.md | Invalid Path\n"
    );
}

#[test]
fn report_has_one_line_per_broken_check() {
    let checks = sample_checks();
    let broken = checks.iter().filter(|c| c.status.is_broken()).count();
    let result = MarkdownCheckResult { success: true, checks };
    assert_eq!(strip_styles(&result.render()).lines().count(), broken);
    let healthy = MarkdownCheckResult {
        success: true,
        checks: vec![check("a.md", "./ok", LinkStatus::Local(LocalLinkStatus::Valid))],
    };
    assert_eq!(healthy.render(), "");
}

#[test]
fn report_of_joined_checks_is_joined_reports() {
    let checks = sample_checks();
    let (a, b) = checks.split_at(3);
    let whole = MarkdownCheckResult { success: true, checks: checks.clone() };
    let first = MarkdownCheckResult { success: true, checks: a.to_vec() };
    let second = MarkdownCheckResult { success: true, checks: b.to_vec() };
    assert_eq!(
        strip_styles(&whole.render()),
        strip_styles(&first.render()) + &strip_styles(&second.render())
    );
}

#[test]
fn report_of_unreadable_file() {
    let result = MarkdownCheckResult { success: false, checks: vec![] };
    assert_eq!(strip_styles(&result.render()), "FAIL Failed to locate/parse markdown file");
}

#[test]
fn verdicts() {
    assert_eq!(strip_styles(&scan_verdict(true)), "Scan complete. Broken links detected");
    assert_eq!(strip_styles(&scan_verdict(false)), "Scan complete. All links healthy!");
}

#[test]
fn check_links_gives_one_check_per_link_in_order() {
    let path = "docs/a.md".to_string();
    let links = scan_markdown(
        "[r](https://r.example) [l1](./l1.md) [i]( ) [l2](l2.md) [a](#x) [r2](//r2.example)",
    );
    let result = check_links(
        &path,
        links,
        vec![true, false],
        vec![Ok(200), Err("timeout".to_string())],
        &Some(vec![404]),
    );
    assert!(result.success);
    let got: Vec<(String, LinkStatus)> =
        result.checks.iter().map(|c| (c.raw_link.clone(), c.status.clone())).collect();
    assert_eq!(
        got,
        vec![
            ("./l1.md".to_string(), LinkStatus::Local(LocalLinkStatus::Valid)),
            ("l2.md".to_string(), LinkStatus::Local(LocalLinkStatus::DoesNotExist)),
            ("https://r.example".to_string(), LinkStatus::Remote(RemoteLinkStatus::Reachable)),
            (
                "https://r2.example".to_string(),
                LinkStatus::Remote(RemoteLinkStatus::Invalid("timeout".to_string()))
            ),
            ("Empty URL".to_string(), LinkStatus::Invalid("Invalid Path".to_string())),
        ]
    );
    assert!(result.checks.iter().all(|c| c.source_file == path));
}

#[test]
fn ignored_links_change_no_link_list() {
    let plain = scan_markdown("[a](./a.md) [b](https://b.example)");
    let padded = scan_markdown(
        "[x](#top) [a](./a.md) [m](mailto:a@b.c) [b](https://b.example) [t](tel:1) [s](sms:1) [j](javascript:x)",
    );
    assert_eq!(plain.locals, padded.locals);
    assert_eq!(plain.remotes, padded.remotes);
    assert_eq!(plain.invalids, padded.invalids);
}

fn payload(t: LinkType) -> Option<String> {
    match t {
        LinkType::Remote(u) | LinkType::Local(u) => Some(u),
        _ => None,
    }
}

#[test]
fn payloads_classify_to_themselves() {
    for url in [" https://a.b ", "//c.d/e", "  ./f.md\t", "g h"] {
        let first = payload(classify_link(url)).unwrap();
        let again = payload(classify_link(&first)).unwrap();
        assert_eq!(first, again);
    }
    assert!(matches!(classify_link("//c.d"), LinkType::Remote(u) if u == "https://c.d"));
    assert!(matches!(classify_link("https://c.d"), LinkType::Remote(u) if u == "https://c.d"));
}

#[test]
fn http_links_are_remote_trimmed() {
    for url in ["https://a.b  ", "http://x\n", "https://", "http://\u{3000}"] {
        match classify_link(url) {
            LinkType::Remote(u) => assert_eq!(u, url.trim()),
            _ => panic!("{:?} should be remote", url),
        }
    }
}
