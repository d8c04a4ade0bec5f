//! Host and port of a URL.
use crate::text::opt_view;
use vstd::prelude::*;

verus! {

/// What a text stands for as an absolute URL: none if it is no URL, else its host and the port
/// written in it, each if it has one. The default port of the URL's scheme counts as not written.
pub uninterp spec fn url_parts(s: Seq<char>) -> Option<(Option<Seq<char>>, Option<u16>)>;

/// The texts of the parts of a URL.
pub open spec fn parts_view(parts: Option<(Option<String>, Option<u16>)>) -> Option<
    (Option<Seq<char>>, Option<u16>),
> {
    match parts {
        Some((host, port)) => Some((opt_view(host), port)),
        None => None,
    }
}

/// Calls `url::Url::parse`, and on the URL `host_str` and `port`. The claim is that the outcome is
/// a function of the text alone, here named `url_parts`.
#[verifier::external_body]
pub(crate) fn host_and_port(s: &str) -> (r: Option<(Option<String>, Option<u16>)>)
    ensures
        parts_view(r) == url_parts(s@),
{
    match url::Url::parse(s) {
        Ok(url) => Some((url.host_str().map(|h| h.to_string()), url.port())),
        Err(_) => None,
    }
}

} // verus!
