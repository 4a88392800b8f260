//! Text operations that the library takes from std and from outside crates.
use vstd::prelude::*;

verus! {

/// What `str::to_lowercase` gives for a string.
pub uninterp spec fn lower_of(s: Seq<char>) -> Seq<char>;

/// What `urlencoding::encode` gives for a string.
pub uninterp spec fn percent_encoded(s: Seq<char>) -> Seq<char>;

/// What `urlencoding::decode` gives for a string: `None` where the decoded
/// bytes are not UTF-8.
pub uninterp spec fn percent_decoded(s: Seq<char>) -> Option<Seq<char>>;

/// What `url::Url::parse` followed by `url::Url::host_str` gives for a
/// string: `None` where it is not a URL, `Some(None)` for a URL without host.
pub uninterp spec fn parsed_url_host(s: Seq<char>) -> Option<Option<Seq<char>>>;

/// The characters of an optional string.
pub open spec fn opt_view(o: Option<String>) -> Option<Seq<char>> {
    match o {
        Some(s) => Some(s@),
        None => None,
    }
}

/// Relies on `str::to_lowercase`: the lowercase form of a string depends on
/// its characters alone.
#[verifier::external_body]
pub(crate) fn lowercase(s: &str) -> (r: String)
    ensures
        r@ == lower_of(s@),
{
    s.to_lowercase()
}

/// Relies on `urlencoding::encode`: percent-encodes every byte but
/// alphanumerics and `-`, `_`, `.`, `~`.
#[verifier::external_body]
pub(crate) fn percent_encode(s: &str) -> (r: String)
    ensures
        r@ == percent_encoded(s@),
{
    urlencoding::encode(s).into_owned()
}

/// Relies on `urlencoding::decode`: decodes percent escapes, and fails where
/// the bytes are not UTF-8.
#[verifier::external_body]
pub(crate) fn percent_decode(s: &str) -> (r: Option<String>)
    ensures
        opt_view(r) == percent_decoded(s@),
{
    urlencoding::decode(s).ok().map(|d| d.into_owned())
}

/// The characters of a nested optional string.
pub open spec fn opt_opt_view(o: Option<Option<String>>) -> Option<Option<Seq<char>>> {
    match o {
        Some(h) => Some(opt_view(h)),
        None => None,
    }
}

/// Relies on `url::Url::parse` and `url::Url::host_str`: parses the text as
/// a URL and hands back its host, if it has one.
#[verifier::external_body]
pub(crate) fn parse_url_host(s: &str) -> (r: Option<Option<String>>)
    ensures
        opt_opt_view(r) == parsed_url_host(s@),
{
    url::Url::parse(s).ok().map(|u| u.host_str().map(|h| h.to_string()))
}

} // verus!
