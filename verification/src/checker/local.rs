//! Checks for links to files on disk.
use vstd::prelude::*;

use crate::checker::{LinkCheckResult, LinkStatus, LocalLinkStatus};

verus! {

/// The directory part of `path`: everything up to and including its last `/`,
/// or nothing when it has none.
pub open spec fn parent_prefix(path: Seq<char>) -> Seq<char>
    decreases path.len(),
{
    if path.len() == 0 || path.last() == '/' {
        path
    } else {
        parent_prefix(path.drop_last())
    }
}

/// Where a local link written in the markdown file at `mdx_path` points: an
/// absolute link as written, any other relative to the file's directory.
pub open spec fn link_target(mdx_path: Seq<char>, link: Seq<char>) -> Seq<char> {
    if link.len() > 0 && link[0] == '/' {
        link
    } else {
        parent_prefix(mdx_path) + link
    }
}

proof fn lemma_parent_prefix_at(path: Seq<char>, j: int)
    requires
        0 <= j <= path.len(),
        forall|k: int| j <= k < path.len() ==> #[trigger] path[k] != '/',
        j == 0 || path[j - 1] == '/',
    ensures
        parent_prefix(path) == path.subrange(0, j),
    decreases path.len() - j,
{
    if j == path.len() {
        assert(path.subrange(0, j) =~= path);
    } else {
        let t = path.drop_last();
        assert forall|k: int| j <= k < t.len() implies #[trigger] t[k] != '/' by {
            assert(t[k] == path[k]);
        }
        if j > 0 {
            assert(t[j - 1] == path[j - 1]);
        }
        lemma_parent_prefix_at(t, j);
        assert(t.subrange(0, j) =~= path.subrange(0, j));
    }
}


proof fn lemma_parent_prefix_shape(path: Seq<char>)
    ensures
        parent_prefix(path).len() <= path.len(),
        parent_prefix(path) == path.subrange(0, parent_prefix(path).len() as int),
        parent_prefix(path).len() == 0 || path[parent_prefix(path).len() - 1] == '/',
        forall|m: int| parent_prefix(path).len() <= m < path.len() ==> #[trigger] path[m] != '/',
    decreases path.len(),
{
    if path.len() == 0 || path.last() == '/' {
        assert(path.subrange(0, path.len() as int) =~= path);
    } else {
        let t = path.drop_last();
        lemma_parent_prefix_shape(t);
        let k = parent_prefix(t).len();
        assert(t.subrange(0, k as int) =~= path.subrange(0, k as int));
        assert forall|m: int| k <= m < path.len() implies #[trigger] path[m] != '/' by {
            if m < t.len() {
                assert(t[m] == path[m]);
            }
        }
        if k > 0 {
            assert(t[k - 1] == path[k - 1]);
        }
    }
}

/// A link that is not absolute is resolved against the markdown file's
/// directory: the file's path up to and including its last `/` (nothing when
/// it has none), then the link as written, whatever the link starts with.
/// An absolute link is taken as written.
pub proof fn lemma_links_resolve_against_the_file_directory(mdx_path: Seq<char>, link: Seq<char>)
    ensures
        link.len() > 0 && link[0] == '/' ==> link_target(mdx_path, link) == link,
        !(link.len() > 0 && link[0] == '/') ==> exists|k: int|
            {
                &&& 0 <= k <= mdx_path.len()
                &&& (k == 0 || mdx_path[k - 1] == '/')
                &&& (forall|m: int| k <= m < mdx_path.len() ==> #[trigger] mdx_path[m] != '/')
                &&& #[trigger] link_target(mdx_path, link) == mdx_path.subrange(0, k) + link
            },
{
    lemma_parent_prefix_shape(mdx_path);
    let k = parent_prefix(mdx_path).len() as int;
    assert(0 <= k <= mdx_path.len());
}

/// The path that a local link written in the file at `mdx_path` points to.
pub fn target_path(mdx_path: &str, link: &str) -> (res: String)
    ensures
        res@ == link_target(mdx_path@, link@),
{
    if link.unicode_len() > 0 && link.get_char(0) == '/' {
        return link.to_owned();
    }
    let n = mdx_path.unicode_len();
    let mut j: usize = n;
    while j > 0 && mdx_path.get_char(j - 1) != '/'
        invariant
            n == mdx_path@.len(),
            0 <= j <= n,
            forall|k: int| j <= k < n ==> #[trigger] mdx_path@[k] != '/',
        decreases j,
    {
        j = j - 1;
    }
    proof {
        lemma_parent_prefix_at(mdx_path@, j as int);
    }
    let mut res = mdx_path.substring_char(0, j).to_owned();
    res.append(link);
    res
}

/// The status of a local link whose target was or was not found.
pub open spec fn status_for_found(found: bool) -> LocalLinkStatus {
    if found {
        LocalLinkStatus::Valid
    } else {
        LocalLinkStatus::DoesNotExist
    }
}

/// A local link is broken exactly when its target was not found.
pub proof fn lemma_local_broken_iff_missing(found: bool)
    ensures
        LinkStatus::Local(status_for_found(found)).spec_is_broken() == !found,
{
}

/// One check per local link of the file at `mdx_path`, in order. Each probe
/// holds the link as written and whether its target was found on disk.
pub fn evaluate(mdx_path: &String, probes: Vec<(String, bool)>) -> (res: Vec<LinkCheckResult>)
    ensures
        res@.len() == probes@.len(),
        forall|i: int|
            0 <= i < res@.len() ==> {
                &&& (#[trigger] res@[i]).source_file@ == mdx_path@
                &&& res@[i].raw_link@ == probes@[i].0@
                &&& res@[i].status == LinkStatus::Local(status_for_found(probes@[i].1))
            },
{
    let mut res: Vec<LinkCheckResult> = Vec::new();
    let n = probes.len();
    let mut i: usize = 0;
    while i < n
        invariant
            n == probes@.len(),
            0 <= i <= n,
            res@.len() == i,
            forall|k: int|
                0 <= k < i ==> {
                    &&& (#[trigger] res@[k]).source_file@ == mdx_path@
                    &&& res@[k].raw_link@ == probes@[k].0@
                    &&& res@[k].status == LinkStatus::Local(status_for_found(probes@[k].1))
                },
        decreases n - i,
    {
        let status = if probes[i].1 {
            LocalLinkStatus::Valid
        } else {
            LocalLinkStatus::DoesNotExist
        };
        res.push(
            LinkCheckResult {
                source_file: mdx_path.clone(),
                raw_link: probes[i].0.clone(),
                status: LinkStatus::Local(status),
            },
        );
        i = i + 1;
    }
    res
}

} // verus!
