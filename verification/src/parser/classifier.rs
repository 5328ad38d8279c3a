//! Sorting a link destination into the kind of check it needs.
use vstd::prelude::*;

use crate::text::{
    all_whitespace, lemma_trim_end_keeps_non_whitespace, lemma_trim_idempotent,
    lemma_trim_ignores_padding, lemma_trim_keeps_unpadded, lemma_trim_shape, spec_is_whitespace,
    starts_with, trim, trim_start, trimmed,
};

verus! {

/// What kind of check a link destination needs. The fields hold the
/// destination as it is to be checked.
pub enum LinkType {
    /// A URL to request.
    Remote(String),
    /// A path on disk.
    Local(String),
    /// An anchor or a non-web scheme, which is not checked.
    Ignored,
    /// A destination that cannot be checked; the field says why.
    Invalid(String),
}

/// The value of a `LinkType`, with its texts as character sequences.
pub enum LinkClass {
    Remote(Seq<char>),
    Local(Seq<char>),
    Ignored,
    Invalid(Seq<char>),
}

impl View for LinkType {
    type V = LinkClass;

    open spec fn view(&self) -> LinkClass {
        match self {
            LinkType::Remote(s) => LinkClass::Remote(s@),
            LinkType::Local(s) => LinkClass::Local(s@),
            LinkType::Ignored => LinkClass::Ignored,
            LinkType::Invalid(s) => LinkClass::Invalid(s@),
        }
    }
}

/// Whether `t` starts with a scheme that is not checked.
pub open spec fn has_unchecked_scheme(t: Seq<char>) -> bool {
    ||| "mailto:"@.is_prefix_of(t)
    ||| "tel:"@.is_prefix_of(t)
    ||| "sms:"@.is_prefix_of(t)
    ||| "javascript:"@.is_prefix_of(t)
}

/// How a link destination is classified. Surrounding whitespace is dropped
/// first; then an empty destination is invalid, an http(s) URL is remote, an
/// anchor is ignored, a protocol-relative URL is remote over https, a
/// mail, phone, sms or javascript link is ignored, and anything else is a
/// local path.
pub open spec fn classify(url: Seq<char>) -> LinkClass {
    let t = trim(url);
    if t.len() == 0 {
        LinkClass::Invalid("Empty URL"@)
    } else if "https://"@.is_prefix_of(t) || "http://"@.is_prefix_of(t) {
        LinkClass::Remote(t)
    } else if t[0] == '#' {
        LinkClass::Ignored
    } else if "//"@.is_prefix_of(t) {
        LinkClass::Remote("https:"@ + t)
    } else if has_unchecked_scheme(t) {
        LinkClass::Ignored
    } else {
        LinkClass::Local(t)
    }
}


/// Whitespace around a destination does not change how it is classified.
pub proof fn lemma_classify_ignores_surrounding_whitespace(url: Seq<char>)
    ensures
        classify(trim(url)) == classify(url),
{
    lemma_trim_idempotent(url);
}

/// Every remote link is an http or https URL, so the request for it goes
/// over the web.
pub proof fn lemma_remote_links_are_http(url: Seq<char>)
    ensures
        classify(url) matches LinkClass::Remote(u) ==> ("https://"@.is_prefix_of(u)
            || "http://"@.is_prefix_of(u)),
{
    let t = trim(url);
    if t.len() > 0 && !("https://"@.is_prefix_of(t) || "http://"@.is_prefix_of(t)) && t[0] != '#'
        && "//"@.is_prefix_of(t) {
        reveal_strlit("https://");
        reveal_strlit("https:");
        reveal_strlit("//");
        let u = "https:"@ + t;
        assert(t.len() >= 2 && t[0] == '/' && t[1] == '/') by {
            assert(t.subrange(0, 2)[0] == t[0]);
            assert(t.subrange(0, 2)[1] == t[1]);
        }
        assert forall|k: int| 0 <= k < 8 implies u[k] == "https://"@[k] by {
            if k >= 6 {
                assert(u[k] == t[k - 6]);
            }
        }
        assert(u.subrange(0, 8) =~= "https://"@);
    }
}



/// Every destination that, once trimmed, is non-empty and starts with none of
/// `https://`, `http://`, `#`, `//`, `mailto:`, `tel:`, `sms:` and
/// `javascript:` is a local path: the trimmed destination itself.
pub proof fn lemma_other_destinations_are_local(url: Seq<char>)
    requires
        trim(url).len() > 0,
        !"https://"@.is_prefix_of(trim(url)),
        !"http://"@.is_prefix_of(trim(url)),
        trim(url)[0] != '#',
        !"//"@.is_prefix_of(trim(url)),
        !"mailto:"@.is_prefix_of(trim(url)),
        !"tel:"@.is_prefix_of(trim(url)),
        !"sms:"@.is_prefix_of(trim(url)),
        !"javascript:"@.is_prefix_of(trim(url)),
    ensures
        classify(url) == LinkClass::Local(trim(url)),
{
}

/// Only anchors and mail, phone, sms and javascript links are ignored; only
/// empty destinations are invalid, and they say so.
pub proof fn lemma_what_is_ignored_or_invalid(url: Seq<char>)
    ensures
        classify(url) is Ignored <==> (trim(url).len() > 0 && !"https://"@.is_prefix_of(trim(url))
            && !"http://"@.is_prefix_of(trim(url)) && (trim(url)[0] == '#' || (
        !"//"@.is_prefix_of(trim(url)) && ("mailto:"@.is_prefix_of(trim(url))
            || "tel:"@.is_prefix_of(trim(url)) || "sms:"@.is_prefix_of(trim(url))
            || "javascript:"@.is_prefix_of(trim(url)))))),
        classify(url) is Invalid <==> trim(url).len() == 0,
        classify(url) is Invalid ==> classify(url) == LinkClass::Invalid("Empty URL"@),
{
}

/// A protocol-relative destination is a remote link over https: `https:`
/// followed by the trimmed destination.
pub proof fn lemma_protocol_relative_links_use_https(url: Seq<char>)
    requires
        "//"@.is_prefix_of(trim(url)),
    ensures
        classify(url) == LinkClass::Remote("https:"@ + trim(url)),
{
    reveal_strlit("//");
    reveal_strlit("https://");
    reveal_strlit("http://");
    let t = trim(url);
    assert(t[0] == '/') by {
        assert(t.subrange(0, 2)[0] == t[0]);
    }
    assert(!"https://"@.is_prefix_of(t)) by {
        if "https://"@.is_prefix_of(t) {
            assert(t.subrange(0, 8)[0] == t[0]);
        }
    }
    assert(!"http://"@.is_prefix_of(t)) by {
        if "http://"@.is_prefix_of(t) {
            assert(t.subrange(0, 7)[0] == t[0]);
        }
    }
}

/// Whitespace added around a destination never changes its class or payload.
pub proof fn lemma_classify_ignores_padding(w1: Seq<char>, url: Seq<char>, w2: Seq<char>)
    requires
        all_whitespace(w1),
        all_whitespace(w2),
    ensures
        classify(w1 + url + w2) == classify(url),
{
    lemma_trim_ignores_padding(w1, url, w2);
}

/// A destination that starts with `http://` or `https://` is a remote link
/// to its trimmed text.
pub proof fn lemma_http_links_are_remote(url: Seq<char>)
    requires
        "https://"@.is_prefix_of(url) || "http://"@.is_prefix_of(url),
    ensures
        classify(url) == LinkClass::Remote(trim(url)),
{
    reveal_strlit("https://");
    reveal_strlit("http://");
    let p: int = if "https://"@.is_prefix_of(url) {
        8
    } else {
        7
    };
    let pre = if "https://"@.is_prefix_of(url) {
        "https://"@
    } else {
        "http://"@
    };
    assert(url[0] == pre[0] && url[p - 1] == pre[p - 1]) by {
        assert(url.subrange(0, p)[0] == url[0]);
        assert(url.subrange(0, p)[p - 1] == url[p - 1]);
    }
    assert(trim_start(url) == url);
    lemma_trim_end_keeps_non_whitespace(url, p - 1);
    let t = trim(url);
    assert(t == crate::text::trim_end(url));
    assert forall|k: int| 0 <= k < p implies t.subrange(0, p)[k] == url.subrange(0, p)[k] by {
        assert(t[k] == url.subrange(0, t.len() as int)[k]);
    }
    assert(t.subrange(0, p) =~= url.subrange(0, p));
    assert(pre.is_prefix_of(t));
}

/// The payload of a remote or local link classifies to the same link again.
pub proof fn lemma_link_payloads_are_fixed_points(url: Seq<char>)
    ensures
        classify(url) matches LinkClass::Remote(u) ==> classify(u) == classify(url),
        classify(url) matches LinkClass::Local(u) ==> classify(u) == classify(url),
{
    lemma_trim_idempotent(url);
    let t = trim(url);
    if t.len() > 0 && !("https://"@.is_prefix_of(t) || "http://"@.is_prefix_of(t)) && t[0] != '#'
        && "//"@.is_prefix_of(t) {
        reveal_strlit("https:");
        lemma_remote_links_are_http(url);
        lemma_trim_shape(url);
        let u = "https:"@ + t;
        assert(u[0] == 'h');
        assert(u.last() == t.last());
        assert(!spec_is_whitespace(u[0]));
        lemma_trim_keeps_unpadded(u);
        lemma_http_links_are_remote(u);
    }
}

/// A local link is the destination without its surrounding whitespace: not
/// empty, no anchor and no http(s) URL.
pub proof fn lemma_local_links_are_paths(url: Seq<char>)
    ensures
        classify(url) matches LinkClass::Local(u) ==> {
            &&& u == trim(url)
            &&& u.len() > 0
            &&& u[0] != '#'
            &&& !"https://"@.is_prefix_of(u)
            &&& !"http://"@.is_prefix_of(u)
        },
{
}

/// Classifies a link destination as `classify` says.
pub fn classify_link(url: &str) -> (res: LinkType)
    ensures
        res@ == classify(url@),
{
    let trimmed = trimmed(url);
    let t = trimmed.as_str();

    if t.unicode_len() == 0 {
        return LinkType::Invalid("Empty URL".to_owned());
    }

    if starts_with(t, "https://") || starts_with(t, "http://") {
        return LinkType::Remote(t.to_owned());
    }

    if starts_with(t, "#") {
        proof {
            reveal_strlit("#");
            assert(t@[0] == t@.subrange(0, 1)[0]);
        }
        return LinkType::Ignored;
    }
    proof {
        reveal_strlit("#");
        assert(!"#"@.is_prefix_of(t@) ==> t@[0] != '#') by {
            if t@[0] == '#' {
                assert("#"@ =~= t@.subrange(0, 1));
            }
        }
    }

    if starts_with(t, "//") {
        let mut res = "https:".to_owned();
        res.append(t);
        return LinkType::Remote(res);
    }

    if starts_with(t, "mailto:") || starts_with(t, "tel:") || starts_with(t, "sms:")
        || starts_with(t, "javascript:") {
        return LinkType::Ignored;
    }

    LinkType::Local(t.to_owned())
}

} // verus!
