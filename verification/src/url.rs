//! The parts of a URL that decide whether it may be fetched.
use vstd::prelude::*;

verus! {

/// A URL by its scheme and host.
#[derive(Debug)]
pub struct Url {
    pub scheme: String,
    /// The host as it stands in the URL, an IPv6 address in square brackets.
    pub host: Option<String>,
}

impl Url {
    /// The scheme and the host, as text.
    pub open spec fn parts(self) -> (Seq<char>, Option<Seq<char>>) {
        (
            self.scheme@,
            match self.host {
                Some(h) => Some(h@),
                None => None,
            },
        )
    }
}

/// The scheme and the host that `reqwest::Url` finds in `text`, where it is an absolute
/// URL.
pub uninterp spec fn url_parts(text: Seq<char>) -> Option<(Seq<char>, Option<Seq<char>>)>;

/// `reqwest::Url::parse`, with what `scheme` and `host_str` give for its result. Whether
/// `text` is a URL, and which parts it has, depends on `text` alone; nothing more is said
/// of them here.
#[verifier::external_body]
fn parse_url(text: &str) -> (r: Option<Url>)
    ensures
        match r {
            Some(url) => url_parts(text@) == Some(url.parts()),
            None => url_parts(text@) is None,
        },
{
    match reqwest::Url::parse(text) {
        Ok(url) => Some(
            Url {
                scheme: url.scheme().to_string(),
                host: url.host_str().map(|h| h.to_string()),
            },
        ),
        Err(_) => None,
    }
}

impl Url {
    /// Reads the URL in `text`; none where it is not an absolute URL.
    pub fn parse(text: &str) -> (r: Option<Url>)
        ensures
            match r {
                Some(url) => url_parts(text@) == Some(url.parts()),
                None => url_parts(text@) is None,
            },
    {
        parse_url(text)
    }
}

} // verus!
