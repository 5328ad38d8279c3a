//! What a link check finds, and how a file's checks are reported.
use vstd::prelude::*;

use crate::style::{cyan, cyan_code, green, green_bold, green_bold_code, green_code, red_bold, red_bold_code, styled};
use crate::style::lemma_styled_newline_free;
use crate::text::{
    decimal, decimal_text, lemma_newline_free_add, lemma_newline_free_counts_none,
    lemma_newlines_add, newline_free, newlines,
};

pub mod invalid;
pub mod local;
pub mod remote;

verus! {

/// The outcome of checking a link to a file on disk.
#[derive(Debug, Clone, PartialEq, Eq)]
pub enum LocalLinkStatus {
    Valid,
    DoesNotExist,
    InvalidPrefix,
}

impl LocalLinkStatus {
    /// The sentence that describes this outcome.
    pub open spec fn message(&self) -> Seq<char> {
        match self {
            LocalLinkStatus::Valid => "The local link is valid"@,
            LocalLinkStatus::DoesNotExist => "The local link does not exist"@,
            LocalLinkStatus::InvalidPrefix => "The local link's path is malformatted"@,
        }
    }

    /// The sentence that describes this outcome.
    pub fn to_string(&self) -> (res: String)
        ensures
            res@ == self.message(),
    {
        match self {
            LocalLinkStatus::Valid => "The local link is valid".to_owned(),
            LocalLinkStatus::DoesNotExist => "The local link does not exist".to_owned(),
            LocalLinkStatus::InvalidPrefix => "The local link's path is malformatted".to_owned(),
        }
    }
}

/// The outcome of requesting a remote URL.
#[derive(Debug, Clone, PartialEq, Eq)]
pub enum RemoteLinkStatus {
    /// The URL answered with a status code that is not a concern.
    Reachable,
    /// The URL answered with a status code that the user named as a concern.
    Concern(u16),
    /// The request failed; the field is the error's message.
    Invalid(String),
}

impl RemoteLinkStatus {
    /// The sentence that describes this outcome.
    pub open spec fn message(&self) -> Seq<char> {
        match self {
            RemoteLinkStatus::Concern(code) => "The URL returned an unsuccessful status code: "@
                + decimal(*code as nat),
            RemoteLinkStatus::Invalid(err) => "The URL could not be reached: "@ + err@,
            RemoteLinkStatus::Reachable => "The URL returns 200 OK"@,
        }
    }

    /// The sentence that describes this outcome.
    pub fn to_string(&self) -> (res: String)
        ensures
            res@ == self.message(),
    {
        match self {
            RemoteLinkStatus::Concern(code) => {
                let mut res = "The URL returned an unsuccessful status code: ".to_owned();
                res.append(decimal_text(*code).as_str());
                res
            },
            RemoteLinkStatus::Invalid(err) => {
                let mut res = "The URL could not be reached: ".to_owned();
                res.append(err.as_str());
                res
            },
            RemoteLinkStatus::Reachable => "The URL returns 200 OK".to_owned(),
        }
    }
}

/// The outcome of checking one link.
#[derive(Debug, Clone, PartialEq, Eq)]
pub enum LinkStatus {
    Local(LocalLinkStatus),
    Remote(RemoteLinkStatus),
    /// The link could not be checked at all; the field says why.
    Invalid(String),
}

impl LinkStatus {
    /// A link is healthy only when it is a local link that exists or a remote
    /// URL that answered without a concern.
    pub open spec fn spec_is_broken(&self) -> bool {
        match self {
            LinkStatus::Local(LocalLinkStatus::Valid) => false,
            LinkStatus::Remote(RemoteLinkStatus::Reachable) => false,
            _ => true,
        }
    }

    /// Whether this link is broken, as `spec_is_broken` says.
    pub fn is_broken(&self) -> (b: bool)
        ensures
            b == self.spec_is_broken(),
    {
        match self {
            LinkStatus::Local(local_link_status) => match local_link_status {
                LocalLinkStatus::Valid => false,
                _ => true,
            },
            LinkStatus::Remote(remote_link_status) => match remote_link_status {
                RemoteLinkStatus::Reachable => false,
                // a concern is a status code the user asked to hear about
                RemoteLinkStatus::Concern(_) => true,
                _ => true,
            },
            _ => true,
        }
    }

    /// The sentence that describes this outcome.
    pub open spec fn message(&self) -> Seq<char> {
        match self {
            LinkStatus::Local(status) => status.message(),
            LinkStatus::Remote(status) => status.message(),
            LinkStatus::Invalid(err) => err@,
        }
    }

    /// The sentence that describes this outcome.
    pub fn to_string(&self) -> (res: String)
        ensures
            res@ == self.message(),
    {
        match self {
            LinkStatus::Local(status) => status.to_string(),
            LinkStatus::Remote(status) => status.to_string(),
            LinkStatus::Invalid(err) => err.clone(),
        }
    }

    /// Under which heading a report lists a check with this status, if at all.
    pub open spec fn failure_kind(&self) -> Option<FailureKind> {
        match self {
            LinkStatus::Local(LocalLinkStatus::Valid) => None,
            LinkStatus::Local(_) => Some(FailureKind::LocalLink),
            LinkStatus::Remote(RemoteLinkStatus::Reachable) => None,
            LinkStatus::Remote(_) => Some(FailureKind::RemoteUrl),
            LinkStatus::Invalid(_) => Some(FailureKind::InvalidUrl),
        }
    }
}

/// One checked link: the markdown file it was found in, the link as written,
/// and what the check found.
#[derive(Debug, Clone, PartialEq, Eq)]
pub struct LinkCheckResult {
    pub source_file: String,
    pub raw_link: String,
    pub status: LinkStatus,
}

/// The checks of one markdown file. `success` is false when the file could
/// not be read; it then holds no checks.
#[derive(Debug)]
pub struct MarkdownCheckResult {
    pub success: bool,
    pub checks: Vec<LinkCheckResult>,
}

/// The heading under which a report lists a broken link.
#[derive(Debug, Clone, Copy, PartialEq, Eq, Structural)]
pub enum FailureKind {
    /// "Faulty local link"
    LocalLink,
    /// "Faulty remote URL"
    RemoteUrl,
    /// "Invalid URL"
    InvalidUrl,
}

impl FailureKind {
    /// The words between the FAIL label and the link in a report line.
    pub open spec fn lead(self) -> Seq<char> {
        match self {
            FailureKind::LocalLink => " Faulty local link "@,
            FailureKind::RemoteUrl => " Faulty remote URL "@,
            FailureKind::InvalidUrl => " Invalid URL "@,
        }
    }

    fn lead_text(&self) -> (res: &'static str)
        ensures
            res@ == self.lead(),
    {
        match self {
            FailureKind::LocalLink => " Faulty local link ",
            FailureKind::RemoteUrl => " Faulty remote URL ",
            FailureKind::InvalidUrl => " Invalid URL ",
        }
    }
}

/// One line of a report: a broken link, where it was found, and why it is broken.
#[derive(Debug, Clone, PartialEq, Eq)]
pub struct Failure {
    pub kind: FailureKind,
    pub raw_link: String,
    pub source_file: String,
    pub detail: String,
}

impl View for Failure {
    type V = (FailureKind, Seq<char>, Seq<char>, Seq<char>);

    open spec fn view(&self) -> Self::V {
        (self.kind, self.raw_link@, self.source_file@, self.detail@)
    }
}

/// The report line that a check gives, if it gives one.
pub open spec fn failure_of(check: LinkCheckResult) -> Option<(FailureKind, Seq<char>, Seq<char>, Seq<char>)> {
    match check.status.failure_kind() {
        Some(kind) => Some((kind, check.raw_link@, check.source_file@, check.status.message())),
        None => None,
    }
}

/// The report lines of `checks`, in their order.
pub open spec fn failures_of(checks: Seq<LinkCheckResult>) -> Seq<(FailureKind, Seq<char>, Seq<char>, Seq<char>)>
    decreases checks.len(),
{
    if checks.len() == 0 {
        seq![]
    } else {
        let rest = failures_of(checks.drop_last());
        match failure_of(checks.last()) {
            Some(f) => rest.push(f),
            None => rest,
        }
    }
}


/// The number of broken checks in `checks`.
pub open spec fn broken_count(checks: Seq<LinkCheckResult>) -> nat
    decreases checks.len(),
{
    if checks.len() == 0 {
        0
    } else {
        broken_count(checks.drop_last()) + if checks.last().status.spec_is_broken() {
            1nat
        } else {
            0nat
        }
    }
}

/// A report has exactly one line per broken check.
pub proof fn lemma_report_has_one_line_per_broken_check(checks: Seq<LinkCheckResult>)
    ensures
        failures_of(checks).len() == broken_count(checks),
    decreases checks.len(),
{
    if checks.len() > 0 {
        lemma_report_has_one_line_per_broken_check(checks.drop_last());
        lemma_reported_iff_broken(checks.last().status);
    }
}

/// Each check is reported on its own: the report of two lists of checks,
/// joined, is the two reports joined.
pub proof fn lemma_report_of_joined_checks(a: Seq<LinkCheckResult>, b: Seq<LinkCheckResult>)
    ensures
        failures_of(a + b) == failures_of(a) + failures_of(b),
    decreases b.len(),
{
    if b.len() == 0 {
        assert(a + b =~= a);
        assert(failures_of(a) + failures_of(b) =~= failures_of(a));
    } else {
        lemma_report_of_joined_checks(a, b.drop_last());
        assert((a + b).drop_last() =~= a + b.drop_last());
        assert((a + b).last() == b.last());
        match failure_of(b.last()) {
            Some(f) => {
                assert(failures_of(a) + failures_of(b.drop_last()).push(f) =~= (failures_of(a)
                    + failures_of(b.drop_last())).push(f));
            },
            None => {},
        }
    }
}

/// The line text of a failure, given the FAIL label, the link and the file
/// as they are to be shown (a terminal may style each of them).
pub open spec fn failure_line(
    failure: (FailureKind, Seq<char>, Seq<char>, Seq<char>),
    fail: Seq<char>,
    link: Seq<char>,
    file: Seq<char>,
) -> Seq<char> {
    fail + failure.0.lead() + link + " at "@ + file + " | "@ + failure.3 + "\n"@
}

impl Failure {
    /// This failure's report line, built from the FAIL label, the link and
    /// the file as they are to be shown.
    pub fn line(&self, fail: &str, link: &str, file: &str) -> (res: String)
        ensures
            res@ == failure_line(self@, fail@, link@, file@),
    {
        let mut res = fail.to_owned();
        res.append(self.kind.lead_text());
        res.append(link);
        res.append(" at ");
        res.append(file);
        res.append(" | ");
        res.append(self.detail.as_str());
        res.append("\n");
        res
    }
}

impl MarkdownCheckResult {
    /// The report lines of this file: one for each broken check, in order;
    /// none when the file could not be read.
    pub fn failures(&self) -> (res: Vec<Failure>)
        ensures
            res@.map_values(|f: Failure| f@) == (if self.success {
                failures_of(self.checks@)
            } else {
                seq![]
            }),
    {
        let mut res: Vec<Failure> = Vec::new();
        if !self.success {
            assert(res@.map_values(|f: Failure| f@) =~= seq![]);
            return res;
        }
        let n = self.checks.len();
        let mut i: usize = 0;
        while i < n
            invariant
                n == self.checks@.len(),
                0 <= i <= n,
                res@.map_values(|f: Failure| f@) == failures_of(self.checks@.take(i as int)),
            decreases n - i,
        {
            let check = &self.checks[i];
            assert(self.checks@.take(i + 1).drop_last() =~= self.checks@.take(i as int));
            assert(self.checks@.take(i + 1).last() == *check);
            let kind = match &check.status {
                LinkStatus::Local(LocalLinkStatus::Valid) => None,
                LinkStatus::Local(_) => Some(FailureKind::LocalLink),
                LinkStatus::Remote(RemoteLinkStatus::Reachable) => None,
                LinkStatus::Remote(_) => Some(FailureKind::RemoteUrl),
                LinkStatus::Invalid(_) => Some(FailureKind::InvalidUrl),
            };
            if let Some(kind) = kind {
                let failure = Failure {
                    kind,
                    raw_link: check.raw_link.clone(),
                    source_file: check.source_file.clone(),
                    detail: check.status.to_string(),
                };
                res.push(failure);
                assert(res@.map_values(|f: Failure| f@) =~= failures_of(self.checks@.take(i as int)).push(failure@));
            }
            i = i + 1;
        }
        assert(self.checks@.take(n as int) =~= self.checks@);
        res
    }

    /// The report for a file that could not be read, given the FAIL label as
    /// it is to be shown.
    pub fn unreadable_notice(fail: &str) -> (res: String)
        ensures
            res@ == fail@ + " Failed to locate/parse markdown file"@,
    {
        let mut res = fail.to_owned();
        res.append(" Failed to locate/parse markdown file");
        res
    }
}


/// The lines of `failures`, each built from its own FAIL label, link and file
/// as they are shown.
pub open spec fn report_lines(
    failures: Seq<(FailureKind, Seq<char>, Seq<char>, Seq<char>)>,
    fails: Seq<Seq<char>>,
    links: Seq<Seq<char>>,
    files: Seq<Seq<char>>,
) -> Seq<Seq<char>> {
    Seq::new(failures.len(), |i: int| failure_line(failures[i], fails[i], links[i], files[i]))
}

/// `out` is the report of `failures`: their lines joined in order, where each
/// line shows "FAIL" in bold red, the link in cyan and the file in green.
pub open spec fn styled_report(
    failures: Seq<(FailureKind, Seq<char>, Seq<char>, Seq<char>)>,
    fails: Seq<Seq<char>>,
    links: Seq<Seq<char>>,
    files: Seq<Seq<char>>,
    out: Seq<char>,
) -> bool {
    &&& fails.len() == failures.len()
    &&& links.len() == failures.len()
    &&& files.len() == failures.len()
    &&& forall|i: int|
        0 <= i < failures.len() ==> {
            &&& styled(red_bold_code(), "FAIL"@, #[trigger] fails[i])
            &&& styled(cyan_code(), failures[i].1, links[i])
            &&& styled(green_code(), failures[i].2, files[i])
        }
    &&& out == report_lines(failures, fails, links, files).flatten_alt()
}


proof fn lemma_failures_newline_free(checks: Seq<LinkCheckResult>)
    requires
        forall|i: int|
            0 <= i < checks.len() ==> {
                &&& newline_free((#[trigger] checks[i]).raw_link@)
                &&& newline_free(checks[i].source_file@)
                &&& newline_free(checks[i].status.message())
            },
    ensures
        forall|i: int|
            0 <= i < failures_of(checks).len() ==> {
                &&& newline_free((#[trigger] failures_of(checks)[i]).1)
                &&& newline_free(failures_of(checks)[i].2)
                &&& newline_free(failures_of(checks)[i].3)
            },
    decreases checks.len(),
{
    if checks.len() > 0 {
        let rest = checks.drop_last();
        assert forall|i: int| 0 <= i < rest.len() implies {
            &&& newline_free((#[trigger] rest[i]).raw_link@)
            &&& newline_free(rest[i].source_file@)
            &&& newline_free(rest[i].status.message())
        } by {
            assert(rest[i] == checks[i]);
        }
        lemma_failures_newline_free(rest);
        assert(checks.last() == checks[checks.len() - 1]);
        let rf = failures_of(rest);
        let all = failures_of(checks);
        assert forall|i: int| 0 <= i < all.len() implies {
            &&& newline_free((#[trigger] all[i]).1)
            &&& newline_free(all[i].2)
            &&& newline_free(all[i].3)
        } by {
            if i < rf.len() {
                assert(all[i] == rf[i]);
            }
        }
    }
}

proof fn lemma_line_has_one_newline(
    failure: (FailureKind, Seq<char>, Seq<char>, Seq<char>),
    fail: Seq<char>,
    link: Seq<char>,
    file: Seq<char>,
)
    requires
        newline_free(fail),
        newline_free(link),
        newline_free(file),
        newline_free(failure.3),
    ensures
        newlines(failure_line(failure, fail, link, file)) == 1,
        failure_line(failure, fail, link, file).len() > 0,
        failure_line(failure, fail, link, file).last() == '\n',
{
    reveal_strlit(" Faulty local link ");
    reveal_strlit(" Faulty remote URL ");
    reveal_strlit(" Invalid URL ");
    reveal_strlit(" at ");
    reveal_strlit(" | ");
    reveal_strlit("\n");
    let lead = failure.0.lead();
    assert(newline_free(lead));
    assert(newline_free(" at "@));
    assert(newline_free(" | "@));
    let b1 = fail + lead;
    lemma_newline_free_add(fail, lead);
    let b2 = b1 + link;
    lemma_newline_free_add(b1, link);
    let b3 = b2 + " at "@;
    lemma_newline_free_add(b2, " at "@);
    let b4 = b3 + file;
    lemma_newline_free_add(b3, file);
    let b5 = b4 + " | "@;
    lemma_newline_free_add(b4, " | "@);
    let body = b5 + failure.3;
    lemma_newline_free_add(b5, failure.3);
    lemma_newline_free_counts_none(body);
    lemma_newlines_add(body, "\n"@);
    assert("\n"@.drop_last() =~= Seq::<char>::empty());
    assert(newlines(Seq::<char>::empty()) == 0);
    assert("\n"@.last() == '\n');
    assert(newlines("\n"@) == 1);
}

proof fn lemma_joined_lines(lines: Seq<Seq<char>>)
    requires
        forall|i: int|
            0 <= i < lines.len() ==> newlines(#[trigger] lines[i]) == 1 && lines[i].len() > 0
                && lines[i].last() == '\n',
    ensures
        newlines(lines.flatten_alt()) == lines.len(),
        lines.len() == 0 ==> lines.flatten_alt().len() == 0,
        lines.len() > 0 ==> lines.flatten_alt().len() > 0 && lines.flatten_alt().last() == '\n',
    decreases lines.len(),
{
    if lines.len() > 0 {
        let rest = lines.drop_last();
        assert forall|i: int| 0 <= i < rest.len() implies newlines(#[trigger] rest[i]) == 1
            && rest[i].len() > 0 && rest[i].last() == '\n' by {
            assert(rest[i] == lines[i]);
        }
        lemma_joined_lines(rest);
        let last = lines[lines.len() - 1];
        assert(lines.last() == last);
        lemma_newlines_add(rest.flatten_alt(), last);
        assert((rest.flatten_alt() + last).last() == last.last());
    }
}

/// When no link, file or status message of the checks holds a newline, a
/// rendered report has exactly one newline-terminated line per broken check,
/// so it is empty exactly when no check is broken.
pub proof fn lemma_rendered_report_has_one_line_per_broken_check(
    checks: Seq<LinkCheckResult>,
    fails: Seq<Seq<char>>,
    links: Seq<Seq<char>>,
    files: Seq<Seq<char>>,
    out: Seq<char>,
)
    requires
        styled_report(failures_of(checks), fails, links, files, out),
        forall|i: int|
            0 <= i < checks.len() ==> {
                &&& newline_free((#[trigger] checks[i]).raw_link@)
                &&& newline_free(checks[i].source_file@)
                &&& newline_free(checks[i].status.message())
            },
    ensures
        newlines(out) == broken_count(checks),
        out.len() == 0 <==> broken_count(checks) == 0,
        out.len() > 0 ==> out.last() == '\n',
{
    let failures = failures_of(checks);
    lemma_report_has_one_line_per_broken_check(checks);
    lemma_failures_newline_free(checks);
    let lines = report_lines(failures, fails, links, files);
    assert(newline_free(red_bold_code()));
    assert(newline_free(cyan_code()));
    assert(newline_free(green_code()));
    reveal_strlit("FAIL");
    assert(newline_free("FAIL"@));
    assert forall|i: int| 0 <= i < lines.len() implies newlines(#[trigger] lines[i]) == 1
        && lines[i].len() > 0 && lines[i].last() == '\n' by {
        assert(newline_free(failures[i].1));
        lemma_styled_newline_free(red_bold_code(), "FAIL"@, fails[i]);
        lemma_styled_newline_free(cyan_code(), failures[i].1, links[i]);
        lemma_styled_newline_free(green_code(), failures[i].2, files[i]);
        lemma_line_has_one_newline(failures[i], fails[i], links[i], files[i]);
    }
    lemma_joined_lines(lines);
}

impl MarkdownCheckResult {
    /// The report of this file as a terminal shows it: one line per broken
    /// check, in order, or the notice that the file could not be read.
    pub fn render(&self) -> (out: String)
        ensures
            self.success ==> exists|fails: Seq<Seq<char>>, links: Seq<Seq<char>>, files: Seq<Seq<char>>|
                #[trigger] styled_report(failures_of(self.checks@), fails, links, files, out@),
            !self.success ==> exists|fail: Seq<char>|
                #[trigger] styled(red_bold_code(), "FAIL"@, fail) && out@ == fail
                    + " Failed to locate/parse markdown file"@,
    {
        if !self.success {
            let fail = red_bold("FAIL");
            let out = Self::unreadable_notice(fail.as_str());
            assert(styled(red_bold_code(), "FAIL"@, fail@));
            return out;
        }
        let failures = self.failures();
        let ghost all = failures@.map_values(|f: Failure| f@);
        let ghost mut fails: Seq<Seq<char>> = seq![];
        let ghost mut links: Seq<Seq<char>> = seq![];
        let ghost mut files: Seq<Seq<char>> = seq![];
        let mut out = String::new();
        let n = failures.len();
        let mut k: usize = 0;
        while k < n
            invariant
                n == failures@.len(),
                all == failures@.map_values(|f: Failure| f@),
                0 <= k <= n,
                fails.len() == k,
                links.len() == k,
                files.len() == k,
                forall|i: int|
                    0 <= i < k ==> {
                        &&& styled(red_bold_code(), "FAIL"@, #[trigger] fails[i])
                        &&& styled(cyan_code(), all[i].1, links[i])
                        &&& styled(green_code(), all[i].2, files[i])
                    },
                out@ == report_lines(all.take(k as int), fails, links, files).flatten_alt(),
            decreases n - k,
        {
            let failure = &failures[k];
            let fail = red_bold("FAIL");
            let link = cyan(failure.raw_link.as_str());
            let file = green(failure.source_file.as_str());
            let line = failure.line(fail.as_str(), link.as_str(), file.as_str());
            let ghost before = report_lines(all.take(k as int), fails, links, files);
            out.append(line.as_str());
            proof {
                let ghost old_fails = fails;
                let ghost old_links = links;
                let ghost old_files = files;
                fails = fails.push(fail@);
                links = links.push(link@);
                files = files.push(file@);
                assert forall|i: int| 0 <= i < k + 1 implies {
                    &&& styled(red_bold_code(), "FAIL"@, #[trigger] fails[i])
                    &&& styled(cyan_code(), all[i].1, links[i])
                    &&& styled(green_code(), all[i].2, files[i])
                } by {
                    if i < k {
                        assert(fails[i] == old_fails[i]);
                        assert(links[i] == old_links[i]);
                        assert(files[i] == old_files[i]);
                    } else {
                        assert(fails[i] == fail@);
                        assert(links[i] == link@);
                        assert(files[i] == file@);
                        assert(all[i] == failure@);
                        assert(styled(red_bold_code(), "FAIL"@, fail@));
                        assert(styled(cyan_code(), failure.raw_link@, link@));
                        assert(styled(green_code(), failure.source_file@, file@));
                    }
                }
                let after = report_lines(all.take(k + 1), fails, links, files);
                assert(all[k as int] == failure@);
                assert(after.drop_last() =~= before);
                assert(after.last() == line@);
            }
            k = k + 1;
        }
        assert(all.take(n as int) =~= all);
        assert(styled_report(failures_of(self.checks@), fails, links, files, out@));
        out
    }
}

/// The closing line of a scan: that broken links were found, in bold red, or
/// that all links are healthy, in bold green.
pub fn scan_verdict(broken: bool) -> (res: String)
    ensures
        broken ==> styled(red_bold_code(), "Scan complete. Broken links detected"@, res@),
        !broken ==> styled(green_bold_code(), "Scan complete. All links healthy!"@, res@),
{
    if broken {
        red_bold("Scan complete. Broken links detected")
    } else {
        green_bold("Scan complete. All links healthy!")
    }
}

/// Whether some file that was read holds a broken link.
pub open spec fn spec_has_broken_links(results: Seq<MarkdownCheckResult>) -> bool {
    exists|i: int, j: int|
        0 <= i < results.len() && results[i].success && 0 <= j < results[i].checks@.len()
            && (#[trigger] results[i].checks@[j]).status.spec_is_broken()
}


/// A scan has broken links as soon as any file that was read, at any place
/// in the list, holds a broken check; and only then.
pub proof fn lemma_any_broken_check_counts(results: Seq<MarkdownCheckResult>, i: int, j: int)
    requires
        0 <= i < results.len(),
        results[i].success,
        0 <= j < results[i].checks@.len(),
        !(results[i].checks@[j].status matches LinkStatus::Local(LocalLinkStatus::Valid)),
        !(results[i].checks@[j].status matches LinkStatus::Remote(RemoteLinkStatus::Reachable)),
    ensures
        spec_has_broken_links(results),
{
    assert(results[i].checks@[j].status.spec_is_broken());
}

/// The verdict over two lists of files joined is true exactly when it is
/// true for one of them.
pub proof fn lemma_broken_links_of_joined_results(
    a: Seq<MarkdownCheckResult>,
    b: Seq<MarkdownCheckResult>,
)
    ensures
        spec_has_broken_links(a + b) == (spec_has_broken_links(a) || spec_has_broken_links(b)),
{
    let ab = a + b;
    if spec_has_broken_links(ab) {
        let (i, j) = choose|i: int, j: int|
            0 <= i < ab.len() && ab[i].success && 0 <= j < ab[i].checks@.len()
                && (#[trigger] ab[i].checks@[j]).status.spec_is_broken();
        if i < a.len() {
            assert(ab[i] == a[i]);
            assert(a[i].checks@[j] == ab[i].checks@[j]);
        } else {
            assert(ab[i] == b[i - a.len()]);
            assert(b[i - a.len()].checks@[j] == ab[i].checks@[j]);
        }
    }
    if spec_has_broken_links(a) {
        let (i, j) = choose|i: int, j: int|
            0 <= i < a.len() && a[i].success && 0 <= j < a[i].checks@.len()
                && (#[trigger] a[i].checks@[j]).status.spec_is_broken();
        assert(ab[i] == a[i]);
        assert(ab[i].checks@[j] == a[i].checks@[j]);
    }
    if spec_has_broken_links(b) {
        let (i, j) = choose|i: int, j: int|
            0 <= i < b.len() && b[i].success && 0 <= j < b[i].checks@.len()
                && (#[trigger] b[i].checks@[j]).status.spec_is_broken();
        assert(ab[i + a.len()] == b[i]);
        assert(ab[i + a.len()].checks@[j] == b[i].checks@[j]);
    }
}

/// A scan where every file that was read holds only valid local links and
/// reachable remote URLs has no broken links.
pub proof fn lemma_healthy_scan(results: Seq<MarkdownCheckResult>)
    requires
        forall|i: int, j: int|
            0 <= i < results.len() && results[i].success && 0 <= j < results[i].checks@.len()
                ==> ((#[trigger] results[i].checks@[j]).status matches LinkStatus::Local(
                LocalLinkStatus::Valid,
            ) || results[i].checks@[j].status matches LinkStatus::Remote(
                RemoteLinkStatus::Reachable,
            )),
    ensures
        !spec_has_broken_links(results),
{
}

/// Whether some file that was read holds a broken link: what decides that a
/// scan failed.
pub fn has_broken_links(results: &Vec<MarkdownCheckResult>) -> (b: bool)
    ensures
        b == spec_has_broken_links(results@),
{
    let n = results.len();
    let mut i: usize = 0;
    while i < n
        invariant
            n == results@.len(),
            0 <= i <= n,
            forall|a: int, j: int|
                0 <= a < i && results@[a].success && 0 <= j < results@[a].checks@.len()
                    ==> !(#[trigger] results@[a].checks@[j]).status.spec_is_broken(),
        decreases n - i,
    {
        let result = &results[i];
        if result.success {
            let m = result.checks.len();
            let mut j: usize = 0;
            while j < m
                invariant
                    n == results@.len(),
                    i < n,
                    *result == results@[i as int],
                    result.success,
                    m == result.checks@.len(),
                    0 <= j <= m,
                    forall|k: int| 0 <= k < j ==> !(#[trigger] result.checks@[k]).status.spec_is_broken(),
                decreases m - j,
            {
                if result.checks[j].status.is_broken() {
                    assert(results@[i as int].checks@[j as int].status.spec_is_broken());
                    return true;
                }
                j = j + 1;
            }
        }
        i = i + 1;
    }
    false
}

/// A check appears in a file's report exactly when its link is broken.
pub proof fn lemma_reported_iff_broken(status: LinkStatus)
    ensures
        status.failure_kind() is Some <==> status.spec_is_broken(),
{
}

} // verus!
