//! Reading the URL of an address list, with `https` as the scheme of a URL
//! that names none.

use vstd::prelude::*;
use vstd::string::StringExecFns;

verus! {

/// An absolute URL in its normalized spelling.
#[derive(Debug, PartialEq, Eq)]
pub struct Url {
    text: String,
}

/// Why a text is no URL.
#[derive(Debug, PartialEq, Eq)]
pub struct UrlError {
    pub reason: String,
}

impl View for Url {
    type V = Seq<char>;

    closed spec fn view(&self) -> Seq<char> {
        self.text@
    }
}

impl Url {
    pub fn as_str(&self) -> (text: &str)
        ensures
            text@ == self@,
    {
        self.text.as_str()
    }
}

/// What the url crate's `Url::parse` makes of a text: the normalized spelling
/// of the URL, or the description of its error.
pub uninterp spec fn url_parse_result(input: Seq<char>) -> Result<Seq<char>, Seq<char>>;

/// `url` with the scheme `https` in front.
pub open spec fn with_default_scheme(url: Seq<char>) -> Seq<char> {
    "https://"@ + url
}

/// What `parse_url` returns: the text as it stands where that is a URL, and
/// else what the text is with the default scheme in front.
pub open spec fn parse_url_result(url: Seq<char>) -> Result<Seq<char>, Seq<char>> {
    match url_parse_result(url) {
        Ok(text) => Ok(text),
        Err(_) => url_parse_result(with_default_scheme(url)),
    }
}

/// Whether `r` stands for `model`: the same URL, or the same reason.
pub open spec fn matches_result(
    r: Result<Url, UrlError>,
    model: Result<Seq<char>, Seq<char>>,
) -> bool {
    match r {
        Ok(url) => model == Ok::<Seq<char>, Seq<char>>(url@),
        Err(e) => model == Err::<Seq<char>, Seq<char>>(e.reason@),
    }
}

/// Calls the url crate's `Url::parse` and keeps the URL's spelling or the
/// error's description. The result depends on the text alone.
#[verifier::external_body]
fn parse_absolute(input: &str) -> (r: Result<Url, UrlError>)
    ensures
        matches_result(r, url_parse_result(input@)),
{
    match ::url::Url::parse(input) {
        Ok(parsed) => Ok(Url { text: String::from(parsed.as_str()) }),
        Err(e) => Err(UrlError { reason: e.to_string() }),
    }
}

/// The text to try next once `url` was read with the result `direct`: none
/// where it was read as a URL, and else `url` with the default scheme.
pub fn fallback_input(url: &str, direct: &Result<Url, UrlError>) -> (next: Option<String>)
    ensures
        direct is Ok ==> next is None,
        direct is Err ==> next is Some && next->0@ == with_default_scheme(url@),
{
    match direct {
        Ok(_) => None,
        Err(_) => Some("https://".to_owned().concat(url)),
    }
}

/// Reads `url` as an absolute URL; where it is none as it stands, reads it
/// with `https://` in front.
pub fn parse_url(url: &str) -> (r: Result<Url, UrlError>)
    ensures
        matches_result(r, parse_url_result(url@)),
{
    let direct = parse_absolute(url);
    match fallback_input(url, &direct) {
        None => direct,
        Some(next) => parse_absolute(next.as_str()),
    }
}

} // verus!
