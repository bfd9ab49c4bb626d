//! Links: the URLs that a section names.
//!
//! Reading a URL is left to the `url` crate. A `Link` keeps what the rest of
//! the library reads of a parsed URL, which is its serialization.

use vstd::prelude::*;

verus! {

/// The serialization of the URL that `url::Url::parse` reads from `text`, or
/// `None` where it does not accept `text` as an absolute URL.
pub uninterp spec fn url_serialization(text: Seq<char>) -> Option<Seq<char>>;

/// Calls `url::Url::parse` on `text` and hands back the serialization of the
/// URL it read, the string that `Url::as_str` would show. Not proved: that
/// the outcome is `url_serialization` of the text, which only gives the
/// crate's parser a name.
#[verifier::external_body]
fn parse_url(text: &str) -> (serialization: Option<String>)
    ensures
        serialization is Some <==> url_serialization(text@) is Some,
        serialization matches Some(s) ==> url_serialization(text@) == Some(s@),
{
    match url::Url::parse(text) {
        Ok(url) => Some(String::from(url)),
        Err(_) => None,
    }
}

/// A parsed URL, held as its serialization.
#[derive(Debug, PartialEq, Eq, Clone)]
pub struct Link {
    serialization: String,
}

impl View for Link {
    type V = Seq<char>;

    closed spec fn view(&self) -> Seq<char> {
        self.serialization@
    }
}

impl Link {
    /// Reads an absolute URL from `text`. The link holds the URL's
    /// serialization, which may differ from `text`.
    pub fn parse(text: &str) -> (link: Option<Link>)
        ensures
            match link {
                Some(l) => url_serialization(text@) == Some(l@),
                None => url_serialization(text@) is None,
            },
    {
        match parse_url(text) {
            Some(serialization) => Some(Link { serialization }),
            None => None,
        }
    }

    /// The serialization of the URL.
    pub fn as_str(&self) -> (s: &str)
        ensures
            s@ == self@,
    {
        self.serialization.as_str()
    }
}

/// The serializations of a sequence of links.
pub open spec fn link_texts(links: Seq<Link>) -> Seq<Seq<char>> {
    links.map_values(|l: Link| l@)
}

} // verus!
