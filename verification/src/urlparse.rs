//! Absolute URLs, reduced to the parts the crawler reads: the
//! serialisation, the scheme and the host.

use vstd::prelude::*;

verus! {

/// The parts of an absolute URL the crawler reads.  `host` is empty
/// when the URL has none (opaque schemes).
pub struct UrlParts {
    pub text: String,
    pub scheme: String,
    pub host: String,
}

/// What `url::Url::parse` yields for a string: `None` when the string
/// is not a valid URL, otherwise the serialisation, the scheme and the
/// host.
pub uninterp spec fn url_parse_of(s: Seq<char>) -> Option<(Seq<char>, Seq<char>, Seq<char>)>;

/// What joining `href` against the URL serialised as `base` yields.
pub uninterp spec fn url_join_of(base: Seq<char>, href: Seq<char>) -> Option<
    (Seq<char>, Seq<char>, Seq<char>),
>;

impl UrlParts {
    /// The parts belong together: parsing the serialisation again gives
    /// exactly these parts.
    pub open spec fn wf(self) -> bool {
        url_parse_of(self.text@) == Some((self.text@, self.scheme@, self.host@))
    }
}

/// Relies on `url::Url::parse`: a deterministic function of the string,
/// and a parsed URL serialises back to a string that re-parses to the
/// same scheme and host (WHATWG serialisation round-trip).
#[verifier::external_body]
pub(crate) fn parse_url(s: &str) -> (r: Option<UrlParts>)
    ensures
        r matches Some(u) ==> url_parse_of(s@) == Some((u.text@, u.scheme@, u.host@)) && u.wf(),
        r is None ==> url_parse_of(s@) is None,
{
    match url::Url::parse(s) {
        Ok(u) => Some(UrlParts {
            text: u.as_str().to_string(),
            scheme: u.scheme().to_string(),
            host: match u.host_str() {
                Some(h) => h.to_string(),
                None => String::new(),
            },
        }),
        Err(_) => None,
    }
}

/// Relies on `url::Url::join` (after re-parsing the base): a
/// deterministic function of the base serialisation and the reference,
/// whose result re-parses to itself.
#[verifier::external_body]
pub(crate) fn join_url(base: &UrlParts, href: &str) -> (r: Option<UrlParts>)
    ensures
        r matches Some(u) ==> url_join_of(base.text@, href@) == Some(
            (u.text@, u.scheme@, u.host@),
        ) && u.wf(),
        r is None ==> url_join_of(base.text@, href@) is None,
{
    let b = match url::Url::parse(base.text.as_str()) {
        Ok(b) => b,
        Err(_) => return None,
    };
    match b.join(href) {
        Ok(u) => Some(UrlParts {
            text: u.as_str().to_string(),
            scheme: u.scheme().to_string(),
            host: match u.host_str() {
                Some(h) => h.to_string(),
                None => String::new(),
            },
        }),
        Err(_) => None,
    }
}

} // verus!
