use setu_cli::{classify_link, is_remote_url, scan_markdown, sort_links, LinkType};

fn class(url: &str) -> String {
    match classify_link(url) {
        LinkType::Remote(u) => format!("remote {}", u),
        LinkType::Local(u) => format!("local {}", u),
        LinkType::Ignored => "ignored".to_string(),
        LinkType::Invalid(u) => format!("invalid {}", u),
    }
}

#[test]
fn empty_destinations_are_invalid() {
    assert_eq!(class(""), "invalid Empty URL");
    assert_eq!(class(" \t\n"), "invalid Empty URL");
    assert_eq!(class("\u{3000}\u{a0}"), "invalid Empty URL");
}

#[test]
fn web_urls_are_remote() {
    assert_eq!(class("https://example.com/a"), "remote https://example.com/a");
    assert_eq!(class("http://example.com"), "remote http://example.com");
    assert_eq!(class("  https://example.com  "), "remote https://example.com");
}

#[test]
fn protocol_relative_urls_go_over_https() {
    assert_eq!(class("//cdn.example.com/x.js"), "remote https://cdn.example.com/x.js");
    assert_eq!(class("\u{2003}//a.b\u{2028}"), "remote https://a.b");
}

#[test]
fn anchors_and_other_schemes_are_ignored() {
    assert_eq!(class("#section"), "ignored");
    assert_eq!(class("  #"), "ignored");
    assert_eq!(class("mailto:me@example.com"), "ignored");
    assert_eq!(class("tel:+123"), "ignored");
    assert_eq!(class("sms:+123"), "ignored");
    assert_eq!(class("javascript:void(0)"), "ignored");
}

#[test]
fn everything_else_is_local() {
    assert_eq!(class("./real.txt"), "local ./real.txt");
    assert_eq!(class(" docs/a b.md "), "local docs/a b.md");
    assert_eq!(class("ftp://x.y"), "local ftp://x.y");
    assert_eq!(class("HTTPS://upper.case"), "local HTTPS://upper.case");
    assert_eq!(class("/"), "local /");
    assert_eq!(class("mail:x"), "local mail:x");
}

#[test]
fn classification_ignores_surrounding_whitespace() {
    for url in ["a.md", "https://x.y", "//x", "#a", "tel:1", ""] {
        let padded = format!("\u{85} \t{}\u{205f}\r\n", url);
        assert_eq!(class(&padded), class(url));
    }
}

#[test]
fn remote_links_are_http() {
    for url in ["https://a", "http://b", "//c", " //d "] {
        match classify_link(url) {
            LinkType::Remote(u) => assert!(is_remote_url(&u)),
            _ => panic!("{} should be remote", url),
        }
    }
}

#[test]
fn is_remote_url_checks_the_scheme() {
    assert!(is_remote_url("https://a"));
    assert!(is_remote_url("http://a"));
    assert!(!is_remote_url(" https://a"));
    assert!(!is_remote_url("//a"));
    assert!(!is_remote_url("https:/a"));
    assert!(!is_remote_url(""));
}

#[test]
fn scan_finds_links_in_document_order() {
    let text = "Intro [one](./one.md) and [two](https://two.example).\n\n\
                * [three](#three)\n* [four](mailto:a@b.c)\n\n\
                ![image](./pic.png)\n\n[five](<>)\n\n[six](//six.example)\n";
    let links = scan_markdown(text);
    assert_eq!(links.remotes, vec!["https://two.example", "https://six.example"]);
    assert_eq!(links.locals, vec!["./one.md"]);
    assert_eq!(links.invalids, vec!["Empty URL"]);
}

#[test]
fn scan_of_text_without_links_is_empty() {
    let links = scan_markdown("no links here, just https://bare.example text");
    assert!(links.remotes.is_empty());
    assert!(links.locals.is_empty());
    assert!(links.invalids.is_empty());
}

#[test]
fn reference_links_are_found() {
    let links = scan_markdown("See [the docs][d].\n\n[d]: ./docs/index.md\n");
    assert_eq!(links.locals, vec!["./docs/index.md"]);
}

#[test]
fn sort_links_keeps_order_and_drops_ignored() {
    let events = vec![
        None,
        Some("b.md".to_string()),
        Some("https://x".to_string()),
        None,
        Some("#frag".to_string()),
        Some(" ".to_string()),
        Some("a.md".to_string()),
    ];
    let links = sort_links(&events);
    assert_eq!(links.locals, vec!["b.md", "a.md"]);
    assert_eq!(links.remotes, vec!["https://x"]);
    assert_eq!(links.invalids, vec!["Empty URL"]);
}
