//! Collecting the link destinations of a markdown text and assembling a
//! file's checks.
use vstd::prelude::*;

use pulldown_cmark::{Event, Parser, Tag, TextMergeStream};

use crate::checker::invalid::evaluate as evaluate_invalid;
use crate::checker::local::{evaluate as evaluate_local, status_for_found};
use crate::checker::remote::{evaluate as evaluate_remote, status_for_outcome};
use crate::checker::{LinkCheckResult, LinkStatus, MarkdownCheckResult};
use crate::parser::classifier::{
    classify, classify_link, has_unchecked_scheme, lemma_local_links_are_paths,
    lemma_remote_links_are_http, LinkClass, LinkType,
};

verus! {

/// The events of the markdown text `text`, as pulldown-cmark's parser gives
/// them after merging adjacent text: for each event, the destination when it
/// opens a link, and nothing otherwise.
pub uninterp spec fn markdown_link_events(text: Seq<char>) -> Seq<Option<Seq<char>>>;

/// Link events with their destinations as character sequences.
pub open spec fn event_views(events: Seq<Option<String>>) -> Seq<Option<Seq<char>>> {
    events.map_values(
        |e: Option<String>|
            match e {
                Some(url) => Some(url@),
                None => None,
            },
    )
}

/// Runs `pulldown_cmark::Parser::new` on `text`, wrapped in
/// `pulldown_cmark::TextMergeStream::new`, and maps each event it yields to
/// the destination of the link it opens, or to `None`. The contract claims
/// only that the result is a function of `text`: `markdown_link_events`.
#[verifier::external_body]
fn link_events(text: &str) -> (events: Vec<Option<String>>)
    ensures
        event_views(events@) == markdown_link_events(text@),
{
    let mut events = Vec::new();
    for event in TextMergeStream::new(Parser::new(text)) {
        events.push(
            match event {
                Event::Start(Tag::Link { dest_url, .. }) => Some(dest_url.to_string()),
                _ => None,
            },
        );
    }
    events
}

/// The links of a markdown text, by the check they need.
pub struct SortedLinks {
    pub remotes: Vec<String>,
    pub locals: Vec<String>,
    /// The reasons why links could not be checked, one per such link.
    pub invalids: Vec<String>,
}

/// Strings as character sequences.
pub open spec fn string_views(v: Seq<String>) -> Seq<Seq<char>> {
    v.map_values(|s: String| s@)
}

impl View for SortedLinks {
    type V = (Seq<Seq<char>>, Seq<Seq<char>>, Seq<Seq<char>>);

    open spec fn view(&self) -> Self::V {
        (string_views(self.remotes@), string_views(self.locals@), string_views(self.invalids@))
    }
}

/// The link destinations among `events`, classified and kept in their order:
/// remote URLs, local paths, and the reasons of invalid links. Ignored links
/// and events that open no link are dropped.
pub open spec fn sorted_links(events: Seq<Option<Seq<char>>>) -> (
    Seq<Seq<char>>,
    Seq<Seq<char>>,
    Seq<Seq<char>>,
)
    decreases events.len(),
{
    if events.len() == 0 {
        (seq![], seq![], seq![])
    } else {
        let (r, l, i) = sorted_links(events.drop_last());
        match events.last() {
            None => (r, l, i),
            Some(url) => match classify(url) {
                LinkClass::Remote(u) => (r.push(u), l, i),
                LinkClass::Local(u) => (r, l.push(u), i),
                LinkClass::Ignored => (r, l, i),
                LinkClass::Invalid(u) => (r, l, i.push(u)),
            },
        }
    }
}

/// Classifies the link destinations among `events`, as `sorted_links` says.
pub fn sort_links(events: &Vec<Option<String>>) -> (res: SortedLinks)
    ensures
        res@ == sorted_links(event_views(events@)),
{
    let mut remotes: Vec<String> = Vec::new();
    let mut locals: Vec<String> = Vec::new();
    let mut invalids: Vec<String> = Vec::new();
    let ghost all = event_views(events@);
    let n = events.len();
    let mut i: usize = 0;
    while i < n
        invariant
            n == events@.len(),
            all == event_views(events@),
            0 <= i <= n,
            (string_views(remotes@), string_views(locals@), string_views(invalids@))
                == sorted_links(all.take(i as int)),
        decreases n - i,
    {
        proof {
            assert(all.take(i + 1).drop_last() =~= all.take(i as int));
            assert(all.take(i + 1).last() == all[i as int]);
        }
        match &events[i] {
            Some(link) => {
                match classify_link(link.as_str()) {
                    LinkType::Remote(url) => {
                        remotes.push(url);
                        assert(string_views(remotes@) =~= sorted_links(all.take(i as int)).0.push(url@));
                    },
                    LinkType::Local(url) => {
                        locals.push(url);
                        assert(string_views(locals@) =~= sorted_links(all.take(i as int)).1.push(url@));
                    },
                    LinkType::Ignored => {},
                    LinkType::Invalid(url) => {
                        invalids.push(url);
                        assert(string_views(invalids@) =~= sorted_links(all.take(i as int)).2.push(url@));
                    },
                }
            },
            None => {},
        }
        i = i + 1;
    }
    assert(all.take(n as int) =~= all);
    SortedLinks { remotes, locals, invalids }
}

/// The links of the markdown text `text`, classified by the check they need.
pub fn scan_markdown(text: &str) -> (res: SortedLinks)
    ensures
        res@ == sorted_links(markdown_link_events(text@)),
{
    let events = link_events(text);
    sort_links(&events)
}


/// Two sorted link lists joined, bucket by bucket.
pub open spec fn join_sorted(
    x: (Seq<Seq<char>>, Seq<Seq<char>>, Seq<Seq<char>>),
    y: (Seq<Seq<char>>, Seq<Seq<char>>, Seq<Seq<char>>),
) -> (Seq<Seq<char>>, Seq<Seq<char>>, Seq<Seq<char>>) {
    (x.0 + y.0, x.1 + y.1, x.2 + y.2)
}

/// Each event is sorted on its own: the links of two event lists, joined,
/// are the links of each, joined bucket by bucket.
pub proof fn lemma_sorted_links_of_joined_events(
    a: Seq<Option<Seq<char>>>,
    b: Seq<Option<Seq<char>>>,
)
    ensures
        sorted_links(a + b) == join_sorted(sorted_links(a), sorted_links(b)),
    decreases b.len(),
{
    let x = sorted_links(a);
    if b.len() == 0 {
        assert(a + b =~= a);
        assert(x.0 + seq![] =~= x.0);
        assert(x.1 + seq![] =~= x.1);
        assert(x.2 + seq![] =~= x.2);
    } else {
        lemma_sorted_links_of_joined_events(a, b.drop_last());
        assert((a + b).drop_last() =~= a + b.drop_last());
        assert((a + b).last() == b.last());
        let y = sorted_links(b.drop_last());
        match b.last() {
            None => {},
            Some(url) => match classify(url) {
                LinkClass::Remote(u) => {
                    assert((x.0 + y.0).push(u) =~= x.0 + y.0.push(u));
                },
                LinkClass::Local(u) => {
                    assert((x.1 + y.1).push(u) =~= x.1 + y.1.push(u));
                },
                LinkClass::Ignored => {},
                LinkClass::Invalid(u) => {
                    assert((x.2 + y.2).push(u) =~= x.2 + y.2.push(u));
                },
            },
        }
    }
}

/// An event that leads to no check: it opens no link, or its link is ignored.
pub open spec fn leads_to_no_check(event: Option<Seq<char>>) -> bool {
    match event {
        None => true,
        Some(url) => classify(url) is Ignored,
    }
}

/// Adding an event that leads to no check (an anchor, a mail, phone, sms or
/// javascript link, or no link at all) anywhere changes none of the links.
pub proof fn lemma_unchecked_events_change_nothing(
    events: Seq<Option<Seq<char>>>,
    pos: int,
    extra: Option<Seq<char>>,
)
    requires
        0 <= pos <= events.len(),
        leads_to_no_check(extra),
    ensures
        sorted_links(events.insert(pos, extra)) == sorted_links(events),
{
    let a = events.take(pos);
    let b = events.skip(pos);
    let one: Seq<Option<Seq<char>>> = seq![extra];
    assert(events.insert(pos, extra) =~= a + one + b);
    assert(events =~= a + b);
    assert(one.drop_last() =~= Seq::<Option<Seq<char>>>::empty());
    assert(one.last() == extra);
    let e: Seq<Seq<char>> = seq![];
    assert(sorted_links(one.drop_last()) == (e, e, e));
    assert(sorted_links(one) == (e, e, e));
    lemma_sorted_links_of_joined_events(a, one);
    lemma_sorted_links_of_joined_events(a + one, b);
    lemma_sorted_links_of_joined_events(a, b);
    let x = sorted_links(a);
    assert(x.0 + e =~= x.0);
    assert(x.1 + e =~= x.1);
    assert(x.2 + e =~= x.2);
}


/// The events among `events` that lead to a check, in order.
pub open spec fn checked_events(events: Seq<Option<Seq<char>>>) -> Seq<Option<Seq<char>>> {
    events.filter(|e: Option<Seq<char>>| !leads_to_no_check(e))
}


/// A single event: a link that needs a check lands in the list of its class,
/// as the classified text, and nothing else does.
pub proof fn lemma_single_event_links(event: Option<Seq<char>>)
    ensures
        ({
            let e: Seq<Seq<char>> = seq![];
            let got = sorted_links(seq![event]);
            match event {
                None => got == (e, e, e),
                Some(url) => match classify(url) {
                    LinkClass::Remote(u) => got == (seq![u], e, e),
                    LinkClass::Local(u) => got == (e, seq![u], e),
                    LinkClass::Invalid(u) => got == (e, e, seq![u]),
                    LinkClass::Ignored => got == (e, e, e),
                },
            }
        }),
{
    let one: Seq<Option<Seq<char>>> = seq![event];
    assert(one.drop_last() =~= Seq::<Option<Seq<char>>>::empty());
    assert(one.last() == event);
    let e: Seq<Seq<char>> = seq![];
    assert(sorted_links(one.drop_last()) == (e, e, e));
    match event {
        Some(url) => match classify(url) {
            LinkClass::Remote(u) => assert(e.push(u) =~= seq![u]),
            LinkClass::Local(u) => assert(e.push(u) =~= seq![u]),
            LinkClass::Invalid(u) => assert(e.push(u) =~= seq![u]),
            LinkClass::Ignored => {},
        },
        None => {},
    }
}

/// Every event that needs a check gives exactly one link: the lists hold as
/// many links as there are such events.
pub proof fn lemma_one_link_per_checked_event(events: Seq<Option<Seq<char>>>)
    ensures
        sorted_links(events).0.len() + sorted_links(events).1.len() + sorted_links(events).2.len()
            == checked_events(events).len(),
    decreases events.len(),
{
    reveal_with_fuel(Seq::filter, 1);
    if events.len() > 0 {
        lemma_one_link_per_checked_event(events.drop_last());
    }
}

/// Only the events that lead to a check decide the links.
pub proof fn lemma_sorted_links_of_checked_events(events: Seq<Option<Seq<char>>>)
    ensures
        sorted_links(events) == sorted_links(checked_events(events)),
    decreases events.len(),
{
    reveal_with_fuel(Seq::filter, 1);
    if events.len() > 0 {
        let rest = events.drop_last();
        lemma_sorted_links_of_checked_events(rest);
        let f = checked_events(events);
        if !leads_to_no_check(events.last()) {
            assert(f == checked_events(rest).push(events.last()));
            assert(f.drop_last() =~= checked_events(rest));
            assert(f.last() == events.last());
        } else {
            assert(f == checked_events(rest));
        }
    } else {
        assert(checked_events(events) == events);
    }
}

/// Texts whose events agree once the events that lead to no check are set
/// aside have the same links: adding any number of anchors, mail, phone, sms
/// or javascript links, anywhere, changes none of them.
pub proof fn lemma_same_checked_events_same_links(
    a: Seq<Option<Seq<char>>>,
    b: Seq<Option<Seq<char>>>,
)
    requires
        checked_events(a) == checked_events(b),
    ensures
        sorted_links(a) == sorted_links(b),
{
    lemma_sorted_links_of_checked_events(a);
    lemma_sorted_links_of_checked_events(b);
}

/// No ignored link reaches the lists: every remote link is an http(s) URL,
/// and every local link is non-empty, no anchor and no mail, phone, sms or
/// javascript link.
pub proof fn lemma_sorted_links_hold_only_checked_links(events: Seq<Option<Seq<char>>>)
    ensures
        forall|i: int|
            0 <= i < sorted_links(events).0.len() ==> ("https://"@.is_prefix_of(
                #[trigger] sorted_links(events).0[i],
            ) || "http://"@.is_prefix_of(sorted_links(events).0[i])),
        forall|i: int|
            0 <= i < sorted_links(events).1.len() ==> {
                &&& (#[trigger] sorted_links(events).1[i]).len() > 0
                &&& sorted_links(events).1[i][0] != '#'
                &&& !has_unchecked_scheme(sorted_links(events).1[i])
            },
    decreases events.len(),
{
    if events.len() > 0 {
        let rest = events.drop_last();
        lemma_sorted_links_hold_only_checked_links(rest);
        let x = sorted_links(rest);
        let y = sorted_links(events);
        match events.last() {
            None => {},
            Some(url) => {
                lemma_remote_links_are_http(url);
                lemma_local_links_are_paths(url);
                match classify(url) {
                    LinkClass::Remote(u) => {
                        assert forall|i: int| 0 <= i < y.0.len() implies ("https://"@.is_prefix_of(
                            #[trigger] y.0[i],
                        ) || "http://"@.is_prefix_of(y.0[i])) by {
                            if i < x.0.len() {
                                assert(y.0[i] == x.0[i]);
                            }
                        }
                    },
                    LinkClass::Local(u) => {
                        assert forall|i: int| 0 <= i < y.1.len() implies {
                            &&& (#[trigger] y.1[i]).len() > 0
                            &&& y.1[i][0] != '#'
                            &&& !has_unchecked_scheme(y.1[i])
                        } by {
                            if i < x.1.len() {
                                assert(y.1[i] == x.1[i]);
                            }
                        }
                    },
                    _ => {},
                }
            },
        }
    }
}

/// The result for the markdown file at `mdx_path` with links `links`, given
/// for each local link whether its target was found, in order, and for each
/// remote URL what requesting it gave, in order: one check per link, local
/// ones first, then remote ones, then invalid ones.
pub fn check_links(
    mdx_path: &String,
    links: SortedLinks,
    found: Vec<bool>,
    answers: Vec<Result<u16, String>>,
    concerns: &Option<Vec<u16>>,
) -> (res: MarkdownCheckResult)
    requires
        found@.len() == links.locals@.len(),
        answers@.len() == links.remotes@.len(),
    ensures
        res.success,
        res.checks@.len() == links.locals@.len() + links.remotes@.len() + links.invalids@.len(),
        forall|k: int|
            0 <= k < links.locals@.len() ==> {
                &&& (#[trigger] res.checks@[k]).source_file@ == mdx_path@
                &&& res.checks@[k].raw_link@ == links.locals@[k]@
                &&& res.checks@[k].status == LinkStatus::Local(status_for_found(found@[k]))
            },
        forall|k: int|
            0 <= k < links.remotes@.len() ==> {
                &&& (#[trigger] res.checks@[links.locals@.len() + k]).source_file@ == mdx_path@
                &&& res.checks@[links.locals@.len() + k].raw_link@ == links.remotes@[k]@
                &&& res.checks@[links.locals@.len() + k].status == LinkStatus::Remote(
                    status_for_outcome(answers@[k], *concerns),
                )
            },
        forall|k: int|
            0 <= k < links.invalids@.len() ==> (#[trigger] res.checks@[links.locals@.len()
                + links.remotes@.len() + k]).records_invalid(mdx_path@, links.invalids@[k]@),
{
    let SortedLinks { remotes, locals, invalids } = links;
    let mut local_probes: Vec<(String, bool)> = Vec::new();
    let mut k: usize = 0;
    while k < locals.len()
        invariant
            found@.len() == locals@.len(),
            0 <= k <= locals@.len(),
            local_probes@.len() == k,
            forall|q: int|
                0 <= q < k ==> (#[trigger] local_probes@[q]).0 == locals@[q] && local_probes@[q].1
                    == found@[q],
        decreases locals@.len() - k,
    {
        local_probes.push((locals[k].clone(), found[k]));
        k = k + 1;
    }
    let mut remote_probes: Vec<(String, Result<u16, String>)> = Vec::new();
    let mut k: usize = 0;
    while k < remotes.len()
        invariant
            answers@.len() == remotes@.len(),
            0 <= k <= remotes@.len(),
            remote_probes@.len() == k,
            forall|q: int|
                0 <= q < k ==> (#[trigger] remote_probes@[q]).0 == remotes@[q]
                    && remote_probes@[q].1 == answers@[q],
        decreases remotes@.len() - k,
    {
        let answer = match &answers[k] {
            Ok(code) => Ok(*code),
            Err(message) => Err(message.clone()),
        };
        remote_probes.push((remotes[k].clone(), answer));
        k = k + 1;
    }
    let ghost lp = local_probes@;
    let ghost rp = remote_probes@;
    let local_checks = evaluate_local(mdx_path, local_probes);
    let remote_checks = evaluate_remote(mdx_path, remote_probes, concerns);
    let ghost lc = local_checks@;
    let ghost rc = remote_checks@;
    let res = collect_checks(mdx_path, local_checks, remote_checks, invalids);
    assert forall|k: int| 0 <= k < locals@.len() implies {
        &&& (#[trigger] res.checks@[k]).source_file@ == mdx_path@
        &&& res.checks@[k].raw_link@ == locals@[k]@
        &&& res.checks@[k].status == LinkStatus::Local(status_for_found(found@[k]))
    } by {
        assert(res.checks@.subrange(0, lc.len() as int)[k] == res.checks@[k]);
        assert(res.checks@[k] == lc[k]);
        assert(lp[k].0 == locals@[k] && lp[k].1 == found@[k]);
    }
    assert forall|k: int| 0 <= k < remotes@.len() implies {
        &&& (#[trigger] res.checks@[locals@.len() + k]).source_file@ == mdx_path@
        &&& res.checks@[locals@.len() + k].raw_link@ == remotes@[k]@
        &&& res.checks@[locals@.len() + k].status == LinkStatus::Remote(
            status_for_outcome(answers@[k], *concerns),
        )
    } by {
        assert(res.checks@.subrange(lc.len() as int, (lc.len() + rc.len()) as int)[k]
            == res.checks@[lc.len() + k]);
        assert(res.checks@[lc.len() + k] == rc[k]);
        assert(rp[k].0 == remotes@[k] && rp[k].1 == answers@[k]);
    }
    res
}

/// The result for a markdown file that could not be read.
pub fn unreadable() -> (res: MarkdownCheckResult)
    ensures
        !res.success,
        res.checks@.len() == 0,
{
    MarkdownCheckResult { success: false, checks: Vec::new() }
}

/// The result for the markdown file at `mdx_path`: its local checks, then its
/// remote checks, then one check per invalid link.
pub fn collect_checks(
    mdx_path: &String,
    local_checks: Vec<LinkCheckResult>,
    remote_checks: Vec<LinkCheckResult>,
    invalids: Vec<String>,
) -> (res: MarkdownCheckResult)
    ensures
        res.success,
        res.checks@.len() == local_checks@.len() + remote_checks@.len() + invalids@.len(),
        res.checks@.subrange(0, local_checks@.len() as int) == local_checks@,
        res.checks@.subrange(
            local_checks@.len() as int,
            (local_checks@.len() + remote_checks@.len()) as int,
        ) == remote_checks@,
        forall|k: int|
            0 <= k < invalids@.len() ==> (#[trigger] res.checks@[local_checks@.len()
                + remote_checks@.len() + k]).records_invalid(mdx_path@, invalids@[k]@),
{
    let ghost a = local_checks@;
    let ghost b = remote_checks@;
    let mut invalid_checks = evaluate_invalid(mdx_path, invalids);
    let mut checks = local_checks;
    let mut remote_checks = remote_checks;
    checks.append(&mut remote_checks);
    checks.append(&mut invalid_checks);
    assert(checks@.subrange(0, a.len() as int) =~= a);
    assert(checks@.subrange(a.len() as int, (a.len() + b.len()) as int) =~= b);
    MarkdownCheckResult { success: true, checks }
}

} // verus!
