//! Markdown link checking: classifying link destinations, recording what each
//! check found, and reporting the broken ones.
pub mod checker;
pub mod parser;
pub mod style;
pub mod text;

pub use checker::{
    has_broken_links, scan_verdict, Failure, FailureKind, LinkCheckResult, LinkStatus, LocalLinkStatus,
    MarkdownCheckResult, RemoteLinkStatus,
};
pub use parser::classifier::{classify_link, LinkType};
pub use parser::is_remote_url;
pub use parser::parsing::{
    check_links, collect_checks, scan_markdown, sort_links, unreadable, SortedLinks,
};
