//! The base-URL admissibility check. Whether a string is an absolute URL
//! with a host is decided by the `url` crate; the validator consumes the
//! outcome through the names below.

use vstd::prelude::*;

verus! {

/// What `url::Url::parse` decides for a given string: `Ok` when the string
/// parses as an absolute URL, otherwise `Err` carrying the parse error's
/// display text. A function of the input characters alone.
pub uninterp spec fn url_parse_outcome(s: Seq<char>) -> Result<(), Seq<char>>;

/// Whether `url::Url::host_str` reports a host for the URL parsed from `s`.
/// Meaningful only when `url_parse_outcome(s)` is `Ok`.
pub uninterp spec fn url_has_host(s: Seq<char>) -> bool;

/// The three ways a base-URL string can fare.
pub enum BaseUrlCheck {
    /// Parses as an absolute URL and carries a host.
    Accepted,
    /// Parses, but the URL has no host component.
    MissingHost,
    /// Does not parse; carries the parse error's display text.
    Rejected(String),
}

/// Relies on `url::Url::parse` and `url::Url::host_str`: whether a string
/// parses as an absolute URL, whether the parsed URL carries a host, and the
/// parse error's display text are all functions of the input string alone.
#[verifier::external_body]
pub(crate) fn check_base_url(s: &str) -> (r: BaseUrlCheck)
    ensures
        (r is Accepted) == (url_parse_outcome(s@) is Ok && url_has_host(s@)),
        (r is MissingHost) == (url_parse_outcome(s@) is Ok && !url_has_host(s@)),
        (r is Rejected) == (url_parse_outcome(s@) is Err),
        (r is Rejected) ==> r->Rejected_0@ == url_parse_outcome(s@)->Err_0,
{
    match url::Url::parse(s) {
        Ok(parsed) => match parsed.host_str() {
            Some(_) => BaseUrlCheck::Accepted,
            None => BaseUrlCheck::MissingHost,
        },
        Err(parse_error) => BaseUrlCheck::Rejected(parse_error.to_string()),
    }
}

} // verus!
