//! The parts of a URL that target matching reads.
use vstd::prelude::*;

verus! {

/// Mathematical model of a [`WebUrl`].
pub ghost struct UrlView {
    pub domain: Option<Seq<char>>,
    pub segments: Option<Seq<Seq<char>>>,
}

/// A parsed URL, reduced to what the matching logic reads: its domain (absent
/// when the host is an IP address or missing) and its path segments (absent
/// for a URL that cannot be a base).
pub struct WebUrl {
    pub domain: Option<String>,
    pub segments: Option<Vec<String>>,
}

pub open spec fn strings_view(v: Seq<String>) -> Seq<Seq<char>> {
    v.map_values(|s: String| s@)
}

pub open spec fn string_option_view(s: Option<String>) -> Option<Seq<char>> {
    match s {
        Some(s) => Some(s@),
        None => None,
    }
}

impl View for WebUrl {
    type V = UrlView;

    open spec fn view(&self) -> UrlView {
        UrlView {
            domain: match self.domain {
                Some(d) => Some(d@),
                None => None,
            },
            segments: match self.segments {
                Some(v) => Some(strings_view(v@)),
                None => None,
            },
        }
    }
}

pub open spec fn url_option_view(u: Option<WebUrl>) -> Option<UrlView> {
    match u {
        Some(u) => Some(u@),
        None => None,
    }
}

/// What `url::Url::parse` makes of a text, reduced to domain and segments.
pub uninterp spec fn url_parts(text: Seq<char>) -> Option<UrlView>;

/// Relies on `url::Url::parse` (WHATWG URL parsing; an error gives `None`), and
/// on `Url::domain` and `Url::path_segments` to read the parsed value.
#[verifier::external_body]
pub(crate) fn parse_url(text: &str) -> (r: Option<WebUrl>)
    ensures
        url_option_view(r) == url_parts(text@),
{
    match url::Url::parse(text) {
        Ok(u) => Some(WebUrl {
            domain: u.domain().map(|d| d.to_string()),
            segments: u.path_segments().map(|s| s.map(|p| p.to_string()).collect()),
        }),
        Err(_) => None,
    }
}

} // verus!
