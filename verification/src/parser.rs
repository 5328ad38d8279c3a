//! Finding the links of a markdown text and sorting them by the check they need.
use vstd::prelude::*;

use crate::text::starts_with;

pub mod classifier;
pub mod parsing;

verus! {

/// Whether `url` is an http or https URL.
pub fn is_remote_url(url: &str) -> (r: bool)
    ensures
        r == ("https://"@.is_prefix_of(url@) || "http://"@.is_prefix_of(url@)),
{
    starts_with(url, "https://") || starts_with(url, "http://")
}

} // verus!
