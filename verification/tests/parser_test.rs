use setu_cli::checker::{local, remote};
use setu_cli::{
    collect_checks, scan_markdown, LinkCheckResult, LinkStatus, LocalLinkStatus,
    MarkdownCheckResult, RemoteLinkStatus,
};

// The markdown file that the checks below scan, and what the disk and the web
// answer for its links.
const TEST_MD_PATH: &str = "./tests/test.md";
const TEST_MD: &str = "# Links\n\n\
[a real file](./real.txt)\n\n\
[a missing image](./does_not_exist.png)\n\n\
[a search engine](https://www.google.com)\n\n\
[not found](https://simulatehttpcode.vercel.app/statuscode?q=404)\n\n\
[server error](https://simulatehttpcode.vercel.app/statuscode?q=500)\n";

fn file_found(target: &str) -> bool {
    target == "./tests/./real.txt"
}

fn answer(url: &str) -> Result<u16, String> {
    if url.ends_with("q=404") {
        Ok(404)
    } else if url.ends_with("q=500") {
        Ok(500)
    } else {
        Ok(200)
    }
}

fn parse_markdown(concerns: &Option<Vec<u16>>) -> MarkdownCheckResult {
    let source = TEST_MD_PATH.to_string();
    let links = scan_markdown(TEST_MD);
    let local_probes = links
        .locals
        .iter()
        .map(|l| (l.clone(), file_found(&local::target_path(&source, l))))
        .collect();
    let remote_probes = links.remotes.iter().map(|u| (u.clone(), answer(u))).collect();
    let local_checks = local::evaluate(&source, local_probes);
    let remote_checks = remote::evaluate(&source, remote_probes, concerns);
    collect_checks(&source, local_checks, remote_checks, links.invalids)
}

fn get_result(result: &MarkdownCheckResult, raw_link: String, expect: &str) -> LinkCheckResult {
    result
        .checks
        .iter()
        .find(|c| c.raw_link == raw_link)
        .expect(expect)
        .clone()
}

#[test]
fn test_parse_markdown_no_concerns() {
    let result = parse_markdown(&Some(vec![]));

    assert!(result.success, "The file parsing operation itself failed");
    assert_eq!(
        result.checks.len(),
        5,
        "Should have found exactly 5 links in test.md"
    );

    let valid_local_check = get_result(
        &result,
        "./real.txt".to_owned(),
        "Could not find the link to ./real.txt in results",
    );
    assert!(
        matches!(
            valid_local_check.status,
            LinkStatus::Local(LocalLinkStatus::Valid)
        ),
        "Expected ./real.txt to be classified as a Valid Local link"
    );

    let broken_local_check = get_result(
        &result,
        "./does_not_exist.png".to_owned(),
        "Could not find the link to ./does_not_exist.png in results",
    );
    assert!(
        matches!(
            broken_local_check.status,
            LinkStatus::Local(LocalLinkStatus::DoesNotExist)
        ),
        "Expected ./does_not_exist.png to be flagged as an Invalid Local link"
    );

    let remote_check_ok = get_result(
        &result,
        "https://www.google.com".to_owned(),
        "Could not find the link to google in results",
    );
    if let LinkStatus::Remote(RemoteLinkStatus::Invalid(err)) = &remote_check_ok.status {
        panic!("Google link failed unexpectedly with status: {}", err);
    }

    let remote_check_404 = get_result(
        &result,
        "https://simulatehttpcode.vercel.app/statuscode?q=404".to_owned(),
        "Could not find the link to the 404 page in results",
    );
    if let LinkStatus::Remote(RemoteLinkStatus::Invalid(err)) = &remote_check_404.status {
        panic!("404 link failed unexpectedly with status: {}", err);
    }
}

#[test]
fn test_parse_markdown_with_404_concerns() {
    let concerns = vec![404];
    let result = parse_markdown(&Some(concerns.clone()));

    let remote_check_ok = get_result(
        &result,
        "https://www.google.com".to_owned(),
        "Could not find the link to google in results",
    );
    if let LinkStatus::Remote(RemoteLinkStatus::Invalid(err)) = &remote_check_ok.status {
        panic!("Google link failed unexpectedly with status: {}", err);
    }

    let remote_check_404 = get_result(
        &result,
        "https://simulatehttpcode.vercel.app/statuscode?q=404".to_owned(),
        "Could not find the link to the 404 page in results",
    );
    if let LinkStatus::Remote(RemoteLinkStatus::Reachable) = &remote_check_404.status {
        panic!(
            "404 link failed unexpectedly with concerns: {:?}",
            &concerns
        );
    }
}

#[test]
fn test_parse_markdown_with_many_concerns() {
    let concerns = vec![404, 500];
    let result = parse_markdown(&Some(concerns.clone()));

    let remote_check_ok = get_result(
        &result,
        "https://www.google.com".to_owned(),
        "Could not find the link to google in results",
    );
    if let LinkStatus::Remote(RemoteLinkStatus::Invalid(err)) = &remote_check_ok.status {
        panic!("Google link failed unexpectedly with status: {}", err);
    }

    let remote_check_404 = get_result(
        &result,
        "https://simulatehttpcode.vercel.app/statuscode?q=404".to_owned(),
        "Could not find the link to the 404 page in results",
    );
    if let LinkStatus::Remote(RemoteLinkStatus::Reachable) = &remote_check_404.status {
        panic!(
            "404 link failed unexpectedly with concerns: {:?}",
            &concerns
        );
    }

    let remote_check_500 = get_result(
        &result,
        "https://simulatehttpcode.vercel.app/statuscode?q=500".to_owned(),
        "Could not find the link to the 500 page in results",
    );
    if let LinkStatus::Remote(RemoteLinkStatus::Reachable) = &remote_check_500.status {
        panic!(
            "500 link failed unexpectedly with concerns: {:?}",
            &concerns
        );
    }
}

#[test]
fn checks_come_local_then_remote_then_invalid() {
    let source = TEST_MD_PATH.to_string();
    let text = "[a](https://a.example) [b](./b.md) [c](   ) [d](#top) [e](mailto:x@y.z)";
    let links = scan_markdown(text);
    let local_checks = local::evaluate(
        &source,
        links.locals.iter().map(|l| (l.clone(), true)).collect(),
    );
    let remote_checks = remote::evaluate(
        &source,
        links.remotes.iter().map(|u| (u.clone(), Ok(200))).collect(),
        &None,
    );
    let result = collect_checks(&source, local_checks, remote_checks, links.invalids);
    let raw: Vec<&str> = result.checks.iter().map(|c| c.raw_link.as_str()).collect();
    assert_eq!(raw, vec!["./b.md", "https://a.example", "Empty URL"]);
    assert_eq!(
        result.checks[2].status,
        LinkStatus::Invalid("Invalid Path".to_string())
    );
    assert!(result.checks.iter().all(|c| c.source_file == source));
}
