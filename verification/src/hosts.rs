//! URL hosts and Unicode lower-casing, as the `url` crate and `std` compute them.
use vstd::prelude::*;

verus! {

/// What `url::Url::parse(input)` followed by `Url::host_str` gives:
/// `None` when the URL does not parse, else the host (if it has one).
pub uninterp spec fn url_host(input: Seq<char>) -> Option<Option<Seq<char>>>;

/// `str::to_lowercase`: the Unicode lower-case form of `s` (per character,
/// except where the mapping depends on context, as for a final sigma).
pub uninterp spec fn lowercase(s: Seq<char>) -> Seq<char>;

pub open spec fn host_view(r: Option<Option<String>>) -> Option<Option<Seq<char>>> {
    match r {
        Some(Some(h)) => Some(Some(h@)),
        Some(None) => Some(None),
        None => None,
    }
}

/// Parses `input` with `url::Url::parse` and reads `host_str` of the result.
/// Claims only that the answer is the named `url_host(input)`.
#[verifier::external_body]
pub(crate) fn parse_url_host(input: &str) -> (r: Option<Option<String>>)
    ensures
        host_view(r) == url_host(input@),
{
    match url::Url::parse(input) {
        Ok(u) => Some(u.host_str().map(|h| h.to_string())),
        Err(_) => None,
    }
}

/// `str::to_lowercase`. Claims only that the answer is the named `lowercase(s)`.
#[verifier::external_body]
pub(crate) fn to_lowercase(s: &str) -> (r: String)
    ensures
        r@ == lowercase(s@),
{
    s.to_lowercase()
}

} // verus!
