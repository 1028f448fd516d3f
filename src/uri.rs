use vstd::prelude::*;

use crate::error::FederationError;

verus! {

/// What `url::Url::parse` makes of a text: `None` where it refuses the text,
/// else the serialisation of the parsed URL and its domain, if it has one.
pub uninterp spec fn url_parse(s: Seq<char>) -> Option<(Seq<char>, Option<Seq<char>>)>;

/// An absolute URI as the engine reads it: its serialisation and its domain.
pub struct Uri {
    pub href: String,
    pub domain: Option<String>,
}

/// The view of an optional text.
pub open spec fn opt_view(d: Option<String>) -> Option<Seq<char>> {
    match d {
        Some(s) => Some(s@),
        None => None,
    }
}

impl View for Uri {
    type V = (Seq<char>, Option<Seq<char>>);

    open spec fn view(&self) -> (Seq<char>, Option<Seq<char>>) {
        (self.href@, opt_view(self.domain))
    }
}

/// Relies on url::Url::parse, reading its result through Url::as_str and
/// Url::domain: the result depends on the text alone.
#[verifier::external_body]
fn parse_url(s: &str) -> (r: Option<Uri>)
    ensures
        r matches Some(u) ==> url_parse(s@) == Some(u@),
        r is None ==> url_parse(s@) is None,
{
    match url::Url::parse(s) {
        Ok(u) => Some(Uri { href: u.as_str().to_string(), domain: u.domain().map(String::from) }),
        Err(_) => None,
    }
}

/// Whether two optional texts are equal.
pub fn same_text(a: &Option<String>, b: &Option<String>) -> (r: bool)
    ensures
        r == (opt_view(*a) == opt_view(*b)),
{
    match a {
        Some(x) => match b {
            Some(y) => {
                let e = x.eq(y);
                e
            },
            None => false,
        },
        None => b.is_none(),
    }
}

impl Uri {
    /// Parses an absolute URI; a text that is no URL is a bad request.
    pub fn parse(s: &str) -> (r: Result<Uri, FederationError>)
        ensures
            r is Ok <==> url_parse(s@) is Some,
            r matches Ok(u) ==> url_parse(s@) == Some(u@),
            r is Err ==> r == Err::<Uri, FederationError>(FederationError::BadRequest),
    {
        match parse_url(s) {
            Some(u) => Ok(u),
            None => Err(FederationError::BadRequest),
        }
    }

    /// Whether two URIs have the same domain.
    pub fn same_domain(&self, other: &Uri) -> (r: bool)
        ensures
            r == (self@.1 == other@.1),
    {
        same_text(&self.domain, &other.domain)
    }
}

/// Accepts two URIs whose domains agree, and rejects the pair as a bad request
/// otherwise: two URIs without a domain agree.
pub fn verify_domains_match(a: &Uri, b: &Uri) -> (r: Result<(), FederationError>)
    ensures
        r is Ok <==> a@.1 == b@.1,
        r is Err ==> r == Err::<(), FederationError>(FederationError::BadRequest),
{
    if a.same_domain(b) {
        Ok(())
    } else {
        Err(FederationError::BadRequest)
    }
}

} // verus!
