//! Checks for links that could not be classified at all.
use vstd::prelude::*;

use crate::checker::{LinkCheckResult, LinkStatus};

verus! {

impl LinkCheckResult {
    /// This check records `link`, found in `path`, as an invalid path.
    pub open spec fn records_invalid(self, path: Seq<char>, link: Seq<char>) -> bool {
        &&& self.source_file@ == path
        &&& self.raw_link@ == link
        &&& match self.status {
            LinkStatus::Invalid(reason) => reason@ == "Invalid Path"@,
            _ => false,
        }
    }
}

/// A link recorded as an invalid path always counts as broken.
pub proof fn lemma_invalid_checks_are_broken(check: LinkCheckResult, path: Seq<char>, link: Seq<char>)
    requires
        check.records_invalid(path, link),
    ensures
        check.status.spec_is_broken(),
{
}

fn evaluate_invalid_path(mdx_path: &String, invalid_path: &String) -> (res: LinkCheckResult)
    ensures
        res.records_invalid(mdx_path@, invalid_path@),
{
    LinkCheckResult {
        source_file: mdx_path.clone(),
        raw_link: invalid_path.clone(),
        status: LinkStatus::Invalid("Invalid Path".to_owned()),
    }
}

/// One check per invalid link of the file at `mdx_path`, in order, each
/// recording the link as an invalid path.
pub fn evaluate(mdx_path: &String, invalid_paths: Vec<String>) -> (res: Vec<LinkCheckResult>)
    ensures
        res@.len() == invalid_paths@.len(),
        forall|i: int|
            0 <= i < res@.len() ==> (#[trigger] res@[i]).records_invalid(
                mdx_path@,
                invalid_paths@[i]@,
            ),
{
    let mut res: Vec<LinkCheckResult> = Vec::new();
    let n = invalid_paths.len();
    let mut i: usize = 0;
    while i < n
        invariant
            n == invalid_paths@.len(),
            0 <= i <= n,
            res@.len() == i,
            forall|k: int|
                0 <= k < i ==> (#[trigger] res@[k]).records_invalid(
                    mdx_path@,
                    invalid_paths@[k]@,
                ),
        decreases n - i,
    {
        res.push(evaluate_invalid_path(mdx_path, &invalid_paths[i]));
        i = i + 1;
    }
    res
}

} // verus!
