//! Checks for links to remote URLs.
use vstd::prelude::*;

use crate::checker::{LinkCheckResult, LinkStatus, RemoteLinkStatus};

verus! {

/// Whether `code` is one of the status codes the user asked to hear about.
pub open spec fn is_concern(code: u16, concerns: Option<Vec<u16>>) -> bool {
    match concerns {
        Some(codes) => codes@.contains(code),
        None => false,
    }
}

/// The status of a URL, given the status code it answered with, or the
/// message of the error that kept it from answering.
pub open spec fn status_for_outcome(
    outcome: Result<u16, String>,
    concerns: Option<Vec<u16>>,
) -> RemoteLinkStatus {
    match outcome {
        Ok(code) => if is_concern(code, concerns) {
            RemoteLinkStatus::Concern(code)
        } else {
            RemoteLinkStatus::Reachable
        },
        Err(message) => RemoteLinkStatus::Invalid(message),
    }
}

/// A remote URL is broken exactly when requesting it failed or it answered
/// with a status code named as a concern; with no concerns named, every URL
/// that answers is healthy.
pub proof fn lemma_remote_broken_iff_failed_or_concern(
    outcome: Result<u16, String>,
    concerns: Option<Vec<u16>>,
)
    ensures
        LinkStatus::Remote(status_for_outcome(outcome, concerns)).spec_is_broken() <==> match outcome {
            Ok(code) => is_concern(code, concerns),
            Err(_) => true,
        },
        (concerns is None || concerns->0@.len() == 0) ==> (outcome is Ok ==> !LinkStatus::Remote(
            status_for_outcome(outcome, concerns),
        ).spec_is_broken()),
{
}


/// A URL that answers is a concern exactly when the user named its status
/// code, and reachable otherwise; naming no concerns makes every answer
/// reachable; a URL that does not answer is invalid, with the error's message.
pub proof fn lemma_concerns_are_exactly_the_named_codes(
    code: u16,
    codes: Vec<u16>,
    message: String,
    concerns: Option<Vec<u16>>,
)
    ensures
        codes@.contains(code) ==> status_for_outcome(Ok(code), Some(codes))
            == RemoteLinkStatus::Concern(code),
        !codes@.contains(code) ==> status_for_outcome(Ok(code), Some(codes))
            == RemoteLinkStatus::Reachable,
        status_for_outcome(Ok(code), None) == RemoteLinkStatus::Reachable,
        status_for_outcome(Err(message), concerns) == RemoteLinkStatus::Invalid(message),
{
}

/// The status of a URL, as `status_for_outcome` says.
pub fn status_for(outcome: &Result<u16, String>, concerns: &Option<Vec<u16>>) -> (res:
    RemoteLinkStatus)
    ensures
        res == status_for_outcome(*outcome, *concerns),
{
    match outcome {
        Ok(code) => {
            let concerned = match concerns {
                Some(codes) => {
                    let n = codes.len();
                    let mut found = false;
                    let mut i: usize = 0;
                    while i < n && !found
                        invariant
                            n == codes@.len(),
                            0 <= i <= n,
                            found ==> codes@.contains(*code),
                            !found ==> forall|k: int| 0 <= k < i ==> codes@[k] != *code,
                        decreases n - i,
                    {
                        if codes[i] == *code {
                            found = true;
                        }
                        i = i + 1;
                    }
                    found
                },
                None => false,
            };
            if concerned {
                RemoteLinkStatus::Concern(*code)
            } else {
                RemoteLinkStatus::Reachable
            }
        },
        Err(message) => RemoteLinkStatus::Invalid(message.clone()),
    }
}

/// One check per remote URL of the file at `mdx_path`, in order. Each probe
/// holds the URL and what requesting it gave.
pub fn evaluate(
    mdx_path: &String,
    probes: Vec<(String, Result<u16, String>)>,
    concerns: &Option<Vec<u16>>,
) -> (res: Vec<LinkCheckResult>)
    ensures
        res@.len() == probes@.len(),
        forall|i: int|
            0 <= i < res@.len() ==> {
                &&& (#[trigger] res@[i]).source_file@ == mdx_path@
                &&& res@[i].raw_link@ == probes@[i].0@
                &&& res@[i].status == LinkStatus::Remote(
                    status_for_outcome(probes@[i].1, *concerns),
                )
            },
{
    let mut res: Vec<LinkCheckResult> = Vec::new();
    let n = probes.len();
    let mut i: usize = 0;
    while i < n
        invariant
            n == probes@.len(),
            0 <= i <= n,
            res@.len() == i,
            forall|k: int|
                0 <= k < i ==> {
                    &&& (#[trigger] res@[k]).source_file@ == mdx_path@
                    &&& res@[k].raw_link@ == probes@[k].0@
                    &&& res@[k].status == LinkStatus::Remote(
                        status_for_outcome(probes@[k].1, *concerns),
                    )
                },
        decreases n - i,
    {
        let status = status_for(&probes[i].1, concerns);
        res.push(
            LinkCheckResult {
                source_file: mdx_path.clone(),
                raw_link: probes[i].0.clone(),
                status: LinkStatus::Remote(status),
            },
        );
        i = i + 1;
    }
    res
}

} // verus!
