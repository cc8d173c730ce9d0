//! URLs and origins.
//!
//! A [`Url`] is made by the `url` crate's parser and keeps, as plain text, the
//! parts that the fetch algorithm reads: the scheme, the path, the query, the
//! origin and the serialization.

use crate::text::{decimal, push_decimal, text_eq};
use vstd::prelude::*;
use vstd::string::*;

verus! {

/// An origin: the authority on whose behalf a request is made, or that a URL belongs to.
#[derive(Debug, PartialEq, Eq)]
pub enum Origin {
    /// An opaque origin that nobody else holds: the origin of a URL whose scheme
    /// has no tuple origin. It is the same origin as nothing, not even another `Unique`.
    Unique,
    /// An opaque origin that its maker can hand to several requests. It is the
    /// same origin as the opaque origins with the same nonce, and only those.
    Opaque(u64),
    /// The scheme, host and port of a URL.
    Tuple(String, String, u16),
}

/// The mathematical value of an [`Origin`].
pub enum OriginView {
    Unique,
    Opaque(u64),
    Tuple(Seq<char>, Seq<char>, u16),
}

impl View for Origin {
    type V = OriginView;

    open spec fn view(&self) -> OriginView {
        match *self {
            Origin::Unique => OriginView::Unique,
            Origin::Opaque(n) => OriginView::Opaque(n),
            Origin::Tuple(s, h, p) => OriginView::Tuple(s@, h@, p),
        }
    }
}

/// Whether two origins are the same origin.
pub open spec fn same_origin(a: OriginView, b: OriginView) -> bool {
    a !is Unique && a == b
}

/// The port that a scheme stands for where a URL names none.
pub open spec fn default_port(scheme: Seq<char>) -> Option<u16> {
    if scheme == "http"@ || scheme == "ws"@ {
        Some(80u16)
    } else if scheme == "https"@ || scheme == "wss"@ {
        Some(443u16)
    } else if scheme == "ftp"@ {
        Some(21u16)
    } else {
        None
    }
}

/// An origin as it is written in a header: scheme, `://`, host and, where it
/// is not the scheme's default, `:` and the port; `null` for an opaque origin.
pub open spec fn origin_text(o: OriginView) -> Seq<char> {
    match o {
        OriginView::Tuple(scheme, host, port) => {
            if default_port(scheme) == Some(port) {
                scheme + "://"@ + host
            } else {
                scheme + "://"@ + host + ":"@ + decimal(port as nat)
            }
        },
        _ => "null"@,
    }
}

/// The port that a scheme stands for where a URL names none.
pub fn scheme_default_port(scheme: &str) -> (r: Option<u16>)
    ensures
        r == default_port(scheme@),
{
    if text_eq(scheme, "http") || text_eq(scheme, "ws") {
        Some(80)
    } else if text_eq(scheme, "https") || text_eq(scheme, "wss") {
        Some(443)
    } else if text_eq(scheme, "ftp") {
        Some(21)
    } else {
        None
    }
}

impl Clone for Origin {
    fn clone(&self) -> (r: Self)
        ensures
            r@ == self@,
    {
        match self {
            Origin::Unique => Origin::Unique,
            Origin::Opaque(n) => Origin::Opaque(*n),
            Origin::Tuple(s, h, p) => Origin::Tuple(s.clone(), h.clone(), *p),
        }
    }
}

impl Origin {
    /// An opaque origin with the given nonce.
    pub fn new_opaque(nonce: u64) -> (r: Origin)
        ensures
            r@ == OriginView::Opaque(nonce),
    {
        Origin::Opaque(nonce)
    }

    /// Whether this origin is a (scheme, host, port) tuple.
    pub fn is_tuple(&self) -> (r: bool)
        ensures
            r == (self@ is Tuple),
    {
        match self {
            Origin::Tuple(_, _, _) => true,
            _ => false,
        }
    }

    /// The origin as it is written in a header.
    pub fn ascii_serialization(&self) -> (r: String)
        ensures
            r@ == origin_text(self@),
    {
        match self {
            Origin::Tuple(scheme, host, port) => {
                let mut out = scheme.clone();
                out.append("://");
                out.append(host.as_str());
                let usual = scheme_default_port(scheme.as_str());
                let is_usual = match usual {
                    Some(p) => p == *port,
                    None => false,
                };
                if !is_usual {
                    out.append(":");
                    push_decimal(&mut out, *port as u64);
                }
                out
            },
            _ => "null".to_owned(),
        }
    }

    /// Whether this origin and `other` are the same origin.
    pub fn same_origin(&self, other: &Origin) -> (r: bool)
        ensures
            r == same_origin(self@, other@),
    {
        match self {
            Origin::Unique => false,
            Origin::Opaque(n) => match other {
                Origin::Opaque(m) => *n == *m,
                _ => false,
            },
            Origin::Tuple(s, h, p) => match other {
                Origin::Tuple(s2, h2, p2) => {
                    let r = *s == *s2 && *h == *h2 && *p == *p2;
                    r
                },
                _ => false,
            },
        }
    }
}

/// The mathematical value of a [`Url`].
pub struct UrlView {
    /// The whole URL as text.
    pub serialization: Seq<char>,
    /// The scheme, lower-cased, without the colon.
    pub scheme: Seq<char>,
    /// The path.
    pub path: Seq<char>,
    /// The query, without the question mark, where the URL has one.
    pub query: Option<Seq<char>>,
    /// The origin.
    pub origin: OriginView,
}

/// A parsed, absolute URL.
#[derive(Debug, PartialEq, Eq)]
pub struct Url {
    serialization: String,
    scheme: String,
    path: String,
    query: Option<String>,
    origin: Origin,
}

impl View for Url {
    type V = UrlView;

    closed spec fn view(&self) -> UrlView {
        UrlView {
            serialization: self.serialization@,
            scheme: self.scheme@,
            path: self.path@,
            query: match self.query {
                Some(q) => Some(q@),
                None => None,
            },
            origin: self.origin@,
        }
    }
}

/// What the `url` crate's parser makes of `input`, read against the URL whose
/// serialization is `base` where there is one: the URL's parts, or `None`
/// where the parser rejects the input.
pub uninterp spec fn resolved(base: Option<Seq<char>>, input: Seq<char>) -> Option<UrlView>;

/// The view of an optional text.
pub open spec fn text_view(t: Option<&str>) -> Option<Seq<char>> {
    match t {
        Some(s) => Some(s@),
        None => None,
    }
}

/// The view of an optional URL.
pub open spec fn url_view(u: Option<Url>) -> Option<UrlView> {
    match u {
        Some(u) => Some(u@),
        None => None,
    }
}

/// Parses `input` with `url::ParseOptions::parse`, with the URL that
/// `url::Url::parse` makes of `base` as the base URL where `base` is given,
/// and copies out the parts of the result with `as_str`, `scheme`, `path`,
/// `query` and `origin`. The contract names the outcome `resolved(base,
/// input)`: the parser is a function of these two texts; nothing more is
/// claimed of it. An origin that the crate reports as opaque becomes
/// `Origin::Unique`, whatever number the crate gave it.
#[verifier::external_body]
fn resolve(base: Option<&str>, input: &str) -> (r: Option<Url>)
    ensures
        url_view(r) == resolved(text_view(base), input@),
{
    let base_url = match base {
        Some(b) => Some(url::Url::parse(b).ok()?),
        None => None,
    };
    let u = url::Url::options().base_url(base_url.as_ref()).parse(input).ok()?;
    Some(Url {
        serialization: u.as_str().to_string(),
        scheme: u.scheme().to_string(),
        path: u.path().to_string(),
        query: u.query().map(|q| q.to_string()),
        origin: match u.origin() {
            url::Origin::Tuple(s, h, p) => Origin::Tuple(s, h.to_string(), p),
            url::Origin::Opaque(_) => Origin::Unique,
        },
    })
}

impl Clone for Url {
    fn clone(&self) -> (r: Self)
        ensures
            r@ == self@,
    {
        Url {
            serialization: self.serialization.clone(),
            scheme: self.scheme.clone(),
            path: self.path.clone(),
            query: match &self.query {
                Some(q) => Some(q.clone()),
                None => None,
            },
            origin: self.origin.clone(),
        }
    }
}

impl Url {
    /// Parses an absolute URL.
    pub fn parse(input: &str) -> (r: Option<Url>)
        ensures
            url_view(r) == resolved(None, input@),
    {
        resolve(None, input)
    }

    /// Parses `input` as a reference relative to this URL.
    pub fn join(&self, input: &str) -> (r: Option<Url>)
        ensures
            url_view(r) == resolved(Some(self@.serialization), input@),
    {
        resolve(Some(self.serialization.as_str()), input)
    }

    /// The whole URL as text.
    pub fn as_str(&self) -> (r: &str)
        ensures
            r@ == self@.serialization,
    {
        self.serialization.as_str()
    }

    /// The scheme, lower-cased, without the colon.
    pub fn scheme(&self) -> (r: &str)
        ensures
            r@ == self@.scheme,
    {
        self.scheme.as_str()
    }

    /// The path.
    pub fn path(&self) -> (r: &str)
        ensures
            r@ == self@.path,
    {
        self.path.as_str()
    }

    /// The query, without the question mark, where the URL has one.
    pub fn query(&self) -> (r: Option<&str>)
        ensures
            text_view(r) == self@.query,
    {
        match &self.query {
            Some(q) => Some(q.as_str()),
            None => None,
        }
    }

    /// The origin.
    pub fn origin(&self) -> (r: Origin)
        ensures
            r@ == self@.origin,
    {
        self.origin.clone()
    }

    /// Whether this URL and `other` are the same URL.
    pub fn same_url(&self, other: &Url) -> (r: bool)
        ensures
            r == (self@.serialization == other@.serialization),
    {
        self.serialization == other.serialization
    }
}

} // verus!
