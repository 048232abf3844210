//! The path and query of a URL, as the `url` crate reads them.

use url::Url;
use vstd::prelude::*;
use vstd::string::StringExecFns;

verus! {

/// The path and the query of a parsed URL.
#[derive(Clone, Debug, PartialEq, Eq)]
pub struct UrlParts {
    pub path: String,
    pub query: Option<String>,
}

/// The view of a text that may be missing.
pub open spec fn view_text(t: Option<String>) -> Option<Seq<char>> {
    match t {
        Some(s) => Some(s@),
        None => None,
    }
}

/// The path and the query of the URL that a text stands for, if it is an
/// absolute URL.
pub uninterp spec fn url_parts(text: Seq<char>) -> Option<(Seq<char>, Option<Seq<char>>)>;

/// `Url::parse`, with the URL's `path` and `query`: the two parts of the URL
/// that the text stands for, or nothing where the text is refused.
#[verifier::external_body]
pub(crate) fn parse_url(text: &str) -> (r: Option<UrlParts>)
    ensures
        match r {
            Some(parts) => url_parts(text@) == Some((parts.path@, view_text(parts.query))),
            None => url_parts(text@) is None,
        },
{
    Url::parse(text).ok().map(|u| UrlParts {
        path: u.path().to_owned(),
        query: u.query().map(|q| q.to_owned()),
    })
}

/// The base against which the path of a remote call is read.
pub open spec fn call_base() -> Seq<char> {
    "http://leptos.dev"@
}

/// The path of a remote call with its query and its relative segments taken
/// out, where the path can be read at all.
pub open spec fn sanitized(path: Seq<char>) -> Option<Seq<char>> {
    match url_parts(call_base() + path) {
        Some(parts) => Some(parts.0),
        None => None,
    }
}

/// Reads the path of a remote call against a fixed base, so that a query or
/// relative segments cannot lead to another function.
pub fn sanitize_path(path: &str) -> (r: Option<String>)
    ensures
        view_text(r) == sanitized(path@),
{
    let mut full = "http://leptos.dev".to_owned();
    full.append(path);
    match parse_url(full.as_str()) {
        Some(parts) => Some(parts.path),
        None => None,
    }
}

/// The address that the router of the application is given for a request.
pub open spec fn corrected_path(path: Seq<char>, query: Option<Seq<char>>) -> Seq<char> {
    match query {
        Some(q) => if q.len() == 0 {
            "http://leptos"@ + path
        } else {
            "http://leptos"@ + path + "?"@ + q
        },
        None => "http://leptos"@ + path,
    }
}

/// Builds the address that the router of the application is given: a fixed
/// origin, the path of the request and, where it is not empty, its query.
pub fn leptos_corrected_path(req: &UrlParts) -> (r: String)
    ensures
        r@ == corrected_path(req.path@, view_text(req.query)),
{
    let mut out = "http://leptos".to_owned();
    out.append(req.path.as_str());
    match &req.query {
        Some(q) => {
            if !q.as_str().is_empty() {
                out.append("?");
                out.append(q.as_str());
            }
        },
        None => {},
    }
    out
}

} // verus!
