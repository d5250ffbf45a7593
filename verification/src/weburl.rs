//! Absolute URLs. Parsing is left to the `url` crate; its result is named here.

use crate::text;
use crate::text::{ends_with, string_views};
use vstd::prelude::*;

verus! {

/// The parts of a parsed URL that the extraction rules read.
#[derive(Debug, Clone)]
pub struct WebUrl {
    /// Lower-cased, without the colon.
    pub scheme: String,
    pub host: Option<String>,
    /// `None` for a URL that cannot be a base.
    pub path_segments: Option<Vec<String>>,
}

/// The mathematical value of a `WebUrl`.
pub struct UrlParts {
    pub scheme: Seq<char>,
    pub host: Option<Seq<char>>,
    pub path_segments: Option<Seq<Seq<char>>>,
}

impl View for WebUrl {
    type V = UrlParts;

    open spec fn view(&self) -> UrlParts {
        UrlParts {
            scheme: self.scheme@,
            host: match self.host {
                Some(h) => Some(h@),
                None => None,
            },
            path_segments: match self.path_segments {
                Some(p) => Some(string_views(p@)),
                None => None,
            },
        }
    }
}

/// What parsing `input` as an absolute URL yields: `None` where it is not one.
pub uninterp spec fn parsed_url(input: Seq<char>) -> Option<UrlParts>;

/// The view of the result of parsing.
pub open spec fn parse_view(url: Option<WebUrl>) -> Option<UrlParts> {
    match url {
        Some(u) => Some(u@),
        None => None,
    }
}

/// `url::Url::parse`, and of the URL it returns `scheme`, `host_str` and
/// `path_segments`, copied out: the result is what parsing `input` yields, which
/// is only named here.
#[verifier::external_body]
pub(crate) fn parse(input: &str) -> (url: Option<WebUrl>)
    ensures
        parse_view(url) == parsed_url(input@),
{
    let url = url::Url::parse(input).ok()?;
    Some(WebUrl {
        scheme: url.scheme().to_string(),
        host: url.host_str().map(String::from),
        path_segments: url.path_segments().map(|s| s.map(String::from).collect()),
    })
}

/// Whether `host` is the code host or one of its subdomains.
pub open spec fn is_code_host(host: Seq<char>) -> bool {
    host == "github.com"@ || ends_with(host, ".github.com"@)
}

/// Whether `url` parses as a URL whose host is the code host.
pub open spec fn points_at_code_host(url: Seq<char>) -> bool {
    match parsed_url(url) {
        Some(parts) => match parts.host {
            Some(host) => is_code_host(host),
            None => false,
        },
        None => false,
    }
}

/// Whether `url` parses as a URL whose host is the code host.
pub fn is_on_code_host(url: &str) -> (b: bool)
    ensures
        b == points_at_code_host(url@),
{
    match parse(url) {
        Some(parsed) => match &parsed.host {
            Some(host) => text::same_text(host.as_str(), "github.com") || text::str_ends_with(
                host.as_str(),
                ".github.com",
            ),
            None => false,
        },
        None => false,
    }
}

} // verus!
