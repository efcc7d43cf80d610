//! Validated media URLs.
//!
//! Parsing itself is the `url` crate's (WHATWG URL parsing); this module
//! decides what a media URL may be: http or https, with a host, and not a
//! playlist or channel page.
use vstd::prelude::*;

use crate::error::CoreError;
use crate::text::{
    ascii_lower, ascii_lower_chars, chars_match_at, chars_starts_with, concat3, starts_with,
    to_chars, trim, trim_str,
};

verus! {

/// What `url::Url::parse` gives for an input: on success the URL's
/// serialization, scheme, host (if any), path and query (if any); on failure
/// the text of the parse error.
pub uninterp spec fn url_parse(input: Seq<char>) -> Result<
    (Seq<char>, Seq<char>, Option<Seq<char>>, Seq<char>, Option<Seq<char>>),
    Seq<char>,
>;

/// The parts of a parsed URL that media URL validation reads.
#[derive(Debug, Clone)]
pub struct UrlParts {
    pub serialization: String,
    pub scheme: String,
    pub host: Option<String>,
    pub path: String,
    pub query: Option<String>,
}

pub open spec fn opt_view(o: Option<String>) -> Option<Seq<char>> {
    match o {
        Some(s) => Some(s@),
        None => None,
    }
}

impl View for UrlParts {
    type V = (Seq<char>, Seq<char>, Option<Seq<char>>, Seq<char>, Option<Seq<char>>);

    open spec fn view(&self) -> Self::V {
        (self.serialization@, self.scheme@, opt_view(self.host), self.path@, opt_view(self.query))
    }
}

/// Parses a URL with `url::Url::parse` and reads its serialization
/// (`as_str`), `scheme`, `host_str`, `path` and `query`.
///
/// Trusted: the contract only names the result, `url_parse(input)`; it claims
/// that the parser is a function of its input and that the parts are read
/// from the parsed URL unchanged.
#[verifier::external_body]
fn parse_url_parts(input: &str) -> (r: Result<UrlParts, String>)
    ensures
        match (r, url_parse(input@)) {
            (Ok(p), Ok(v)) => p@ == v,
            (Err(e), Err(m)) => e@ == m,
            _ => false,
        },
{
    match url::Url::parse(input) {
        Ok(u) => Ok(
            UrlParts {
                serialization: u.as_str().to_string(),
                scheme: u.scheme().to_string(),
                host: u.host_str().map(|h| h.to_string()),
                path: u.path().to_string(),
                query: u.query().map(|q| q.to_string()),
            },
        ),
        Err(e) => Err(e.to_string()),
    }
}

/// Canonical validated media URL: an absolute http or https URL with a host,
/// which is not a playlist or channel page.
#[derive(Debug, Clone)]
pub struct MediaUrl {
    serialization: String,
}

impl View for MediaUrl {
    type V = Seq<char>;

    closed spec fn view(&self) -> Seq<char> {
        self.serialization@
    }
}

/// A path that names a playlist or a channel page (compared without case).
pub open spec fn is_playlist_path(path: Seq<char>) -> bool {
    let l = ascii_lower(path);
    starts_with(l, "/playlist"@) || starts_with(l, "/channel"@) || starts_with(l, "/c/"@)
}

/// A query with a `list=` parameter (compared without case): some
/// `&`-separated piece begins with `list=`.
pub open spec fn has_list_param(query: Seq<char>) -> bool {
    let l = ascii_lower(query);
    exists|i: int|
        0 <= i && i + 5 <= l.len() && (i == 0 || l[i - 1] == '&') && #[trigger] l.subrange(
            i,
            i + 5,
        ) == "list="@
}

/// Kind of a media URL error.
pub enum UrlErrorKind {
    Invalid,
    Playlist,
}

/// What validating parsed URL parts gives: the URL's serialization, or the
/// error's kind and text.
pub open spec fn check_url_parts(
    p: (Seq<char>, Seq<char>, Option<Seq<char>>, Seq<char>, Option<Seq<char>>),
) -> Result<Seq<char>, (UrlErrorKind, Seq<char>)> {
    let (serialization, scheme, host, path, query) = p;
    if scheme != "http"@ && scheme != "https"@ {
        Err(
            (
                UrlErrorKind::Invalid,
                "Unsupported scheme '"@ + scheme + "'. Only http and https are allowed"@,
            ),
        )
    } else if host is None {
        Err((UrlErrorKind::Invalid, "URL host is missing"@))
    } else if is_playlist_path(path) {
        Err((UrlErrorKind::Playlist, playlist_path_message()))
    } else if query matches Some(q) && has_list_param(q) {
        Err((UrlErrorKind::Playlist, playlist_query_message()))
    } else {
        Ok(serialization)
    }
}

pub open spec fn playlist_path_message() -> Seq<char> {
    "Playlists and channel URLs are not supported. Please provide an individual video URL."@
}

pub open spec fn playlist_query_message() -> Seq<char> {
    "Playlist URLs are not supported in this version. Please provide an individual video URL."@
}

/// What parsing a raw URL gives: the serialization of the media URL, or the
/// error's kind and text.
pub open spec fn media_url_parse(raw: Seq<char>) -> Result<Seq<char>, (UrlErrorKind, Seq<char>)> {
    let t = trim(raw);
    if t.len() == 0 {
        Err((UrlErrorKind::Invalid, "URL cannot be empty"@))
    } else {
        match url_parse(t) {
            Err(m) => Err((UrlErrorKind::Invalid, "Malformed URL: "@ + m)),
            Ok(p) => check_url_parts(p),
        }
    }
}

/// A result carries the expected URL, or the expected error.
pub open spec fn url_outcome(
    r: Result<MediaUrl, CoreError>,
    s: Result<Seq<char>, (UrlErrorKind, Seq<char>)>,
) -> bool {
    match (r, s) {
        (Ok(u), Ok(v)) => u@ == v,
        (Err(CoreError::InvalidUrl(m)), Err((UrlErrorKind::Invalid, t))) => m@ == t,
        (Err(CoreError::PlaylistNotSupported(m)), Err((UrlErrorKind::Playlist, t))) => m@ == t,
        _ => false,
    }
}

fn str_eq(a: &str, b: &str) -> (r: bool)
    ensures
        r == (a@ == b@),
{
    let x = to_chars(a);
    let y = to_chars(b);
    if x.len() != y.len() {
        return false;
    }
    assert(x@.subrange(0, x@.len() as int) == x@);
    chars_match_at(&x, 0, &y)
}

fn query_has_list_param(q: &str) -> (b: bool)
    ensures
        b == has_list_param(q@),
{
    let raw = to_chars(q);
    let l = ascii_lower_chars(&raw);
    let pat = to_chars("list=");
    proof {
        reveal_strlit("list=");
    }
    let mut i: usize = 0;
    while i < l.len()
        invariant
            i <= l@.len(),
            l@ == ascii_lower(q@),
            pat@ == "list="@,
            pat@.len() == 5,
            forall|j: int|
                0 <= j < i ==> !(j + 5 <= l@.len() && (j == 0 || l@[j - 1] == '&')
                    && #[trigger] l@.subrange(j, j + 5) == "list="@),
        decreases l@.len() - i,
    {
        if (i == 0 || l[i - 1] == '&') && chars_match_at(&l, i, &pat) {
            assert(l@.subrange(i as int, i + 5) == "list="@);
            assert(l@ == ascii_lower(q@));
            return true;
        }
        i = i + 1;
    }
    assert forall|j: int|
        0 <= j && j + 5 <= l@.len() && (j == 0 || l@[j - 1] == '&') implies #[trigger] l@.subrange(
        j,
        j + 5,
    ) != "list="@ by {
        assert(j < i);
    }
    false
}

impl MediaUrl {
    /// Checks the parts of a parsed URL: the scheme must be `http` or
    /// `https`, the host present, and the URL no playlist or channel page.
    pub fn from_parts(parts: UrlParts) -> (r: Result<MediaUrl, CoreError>)
        ensures
            url_outcome(r, check_url_parts(parts@)),
    {
        proof {
            reveal_strlit("http");
            reveal_strlit("https");
        }
        if !str_eq(parts.scheme.as_str(), "http") && !str_eq(parts.scheme.as_str(), "https") {
            let m = concat3(
                "Unsupported scheme '",
                parts.scheme.as_str(),
                "'. Only http and https are allowed",
            );
            return Err(CoreError::InvalidUrl(m));
        }
        if parts.host.is_none() {
            return Err(CoreError::InvalidUrl(String::from_str("URL host is missing")));
        }
        let path = to_chars(parts.path.as_str());
        let lower = ascii_lower_chars(&path);
        let p1 = to_chars("/playlist");
        let p2 = to_chars("/channel");
        let p3 = to_chars("/c/");
        if chars_starts_with(&lower, &p1) || chars_starts_with(&lower, &p2) || chars_starts_with(
            &lower,
            &p3,
        ) {
            return Err(
                CoreError::PlaylistNotSupported(
                    String::from_str(
                        "Playlists and channel URLs are not supported. Please provide an individual video URL.",
                    ),
                ),
            );
        }
        match &parts.query {
            Some(q) => {
                if query_has_list_param(q.as_str()) {
                    return Err(
                        CoreError::PlaylistNotSupported(
                            String::from_str(
                                "Playlist URLs are not supported in this version. Please provide an individual video URL.",
                            ),
                        ),
                    );
                }
            },
            None => {},
        }
        Ok(MediaUrl { serialization: parts.serialization })
    }

    /// Parses and strictly validates an untrusted URL string: after trimming
    /// it must be non-empty, parse as an absolute URL, and pass `from_parts`.
    pub fn parse(raw: &str) -> (r: Result<MediaUrl, CoreError>)
        ensures
            url_outcome(r, media_url_parse(raw@)),
    {
        let trimmed = trim_str(raw);
        if trimmed.as_str().unicode_len() == 0 {
            return Err(CoreError::InvalidUrl(String::from_str("URL cannot be empty")));
        }
        match parse_url_parts(trimmed.as_str()) {
            Err(e) => {
                let mut m = String::from_str("Malformed URL: ");
                m.append(e.as_str());
                Err(CoreError::InvalidUrl(m))
            },
            Ok(parts) => MediaUrl::from_parts(parts),
        }
    }

    /// The URL's serialization.
    pub fn as_str(&self) -> (r: &str)
        ensures
            r@ == self@,
    {
        self.serialization.as_str()
    }

    /// The URL's serialization, owned.
    pub fn to_string(&self) -> (r: String)
        ensures
            r@ == self@,
    {
        self.serialization.clone()
    }

    /// A copy of this URL.
    pub fn duplicate(&self) -> (r: MediaUrl)
        ensures
            r@ == self@,
    {
        MediaUrl { serialization: self.serialization.clone() }
    }
}

/// An accepted media URL is served over http or https, with a host, and is
/// no playlist or channel page.
pub proof fn law_accepted_url_is_single_media(raw: Seq<char>)
    ensures
        media_url_parse(raw) matches Ok(s) ==> (url_parse(trim(raw)) matches Ok(p) && p.0 == s && (
        p.1 == "http"@ || p.1 == "https"@) && p.2 is Some && !is_playlist_path(p.3) && !(
        p.4 matches Some(q) && has_list_param(q))),
{
}

} // verus!
