//! The request: what one fetch is asked to do.

use crate::headers::{HeaderView, Headers};
use crate::method::{Method, MethodView};
use crate::web_url::{Origin, OriginView, Url, UrlView};
use vstd::prelude::*;

verus! {

/// How far a request may go across origins.
#[derive(Clone, Copy, Debug, PartialEq, Eq, Structural)]
pub enum RequestMode {
    NoCORS,
    SameOrigin,
    CORSMode,
    Navigate,
}

/// What to do with a redirect.
#[derive(Clone, Copy, Debug, PartialEq, Eq, Structural)]
pub enum RedirectMode {
    Follow,
    Error,
    Manual,
}

/// Whether credentials go with the request.
#[derive(Clone, Copy, Debug, PartialEq, Eq, Structural)]
pub enum CredentialsMode {
    Omit,
    CredentialsSameOrigin,
    Include,
}

/// The policy by which the referrer of a request is made known.
#[derive(Clone, Copy, Debug, PartialEq, Eq, Structural)]
pub enum ReferrerPolicy {
    NoReferrer,
    NoReferrerWhenDowngrade,
    Origin,
    SameOrigin,
    OriginWhenCrossOrigin,
    UnsafeUrl,
}

/// The document or worker on whose behalf a request is made, as the
/// embedder numbers it.
#[derive(Clone, Copy, Debug, PartialEq, Eq, Structural)]
pub struct PipelineId(pub u32);

/// Where a request says it comes from.
#[derive(Debug, PartialEq, Eq)]
pub enum Referrer {
    NoReferrer,
    Client,
    ReferrerUrl(Url),
}

/// The mathematical value of a [`Referrer`].
pub enum ReferrerView {
    NoReferrer,
    Client,
    ReferrerUrl(UrlView),
}

impl View for Referrer {
    type V = ReferrerView;

    open spec fn view(&self) -> ReferrerView {
        match *self {
            Referrer::NoReferrer => ReferrerView::NoReferrer,
            Referrer::Client => ReferrerView::Client,
            Referrer::ReferrerUrl(u) => ReferrerView::ReferrerUrl(u@),
        }
    }
}

impl Clone for Referrer {
    fn clone(&self) -> (r: Self)
        ensures
            r@ == self@,
    {
        match self {
            Referrer::NoReferrer => Referrer::NoReferrer,
            Referrer::Client => Referrer::Client,
            Referrer::ReferrerUrl(u) => Referrer::ReferrerUrl(u.clone()),
        }
    }
}

/// A request.
///
/// The URLs that the fetch has been through are `visited`, in order, and
/// then `url`: the list of all of them is never empty, and its last element is
/// the URL that the request now goes to.
#[derive(Debug, PartialEq, Eq)]
pub struct Request {
    /// The URL that the request now goes to.
    pub url: Url,
    /// The URLs that redirects have led away from, oldest first.
    pub visited: Vec<Url>,
    /// The origin on whose behalf the request is made.
    pub origin: Origin,
    pub method: Method,
    pub headers: Headers,
    pub body: Option<Vec<u8>>,
    pub mode: RequestMode,
    pub redirect_mode: RedirectMode,
    pub credentials_mode: CredentialsMode,
    pub referrer: Referrer,
    pub referrer_policy: Option<ReferrerPolicy>,
    /// Ask the server's leave with a preflight even where the request is simple.
    pub use_cors_preflight: bool,
    /// Fail on any URL that is not resolved locally.
    pub local_urls_only: bool,
    pub is_service_worker_global_scope: bool,
    pub pipeline_id: Option<PipelineId>,
}

/// The mathematical value of a [`Request`].
pub struct RequestView {
    pub url: UrlView,
    pub visited: Seq<UrlView>,
    pub origin: OriginView,
    pub method: MethodView,
    pub headers: Seq<HeaderView>,
    pub body: Option<Seq<u8>>,
    pub mode: RequestMode,
    pub redirect_mode: RedirectMode,
    pub credentials_mode: CredentialsMode,
    pub referrer: ReferrerView,
    pub referrer_policy: Option<ReferrerPolicy>,
    pub use_cors_preflight: bool,
    pub local_urls_only: bool,
    pub is_service_worker_global_scope: bool,
    pub pipeline_id: Option<PipelineId>,
}

impl RequestView {
    /// Every URL that the fetch has been through, the current one last.
    pub open spec fn url_list(self) -> Seq<UrlView> {
        self.visited.push(self.url)
    }

    /// The number of redirects that the fetch has followed.
    pub open spec fn redirect_count(self) -> nat {
        self.visited.len()
    }
}

/// The views of a run of URLs.
pub open spec fn url_views(v: Seq<Url>) -> Seq<UrlView> {
    v.map_values(|u: Url| u@)
}

/// The view of an optional run of bytes.
pub open spec fn bytes_view(b: Option<Vec<u8>>) -> Option<Seq<u8>> {
    match b {
        Some(v) => Some(v@),
        None => None,
    }
}

impl View for Request {
    type V = RequestView;

    open spec fn view(&self) -> RequestView {
        RequestView {
            url: self.url@,
            visited: url_views(self.visited@),
            origin: self.origin@,
            method: self.method@,
            headers: self.headers@,
            body: bytes_view(self.body),
            mode: self.mode,
            redirect_mode: self.redirect_mode,
            credentials_mode: self.credentials_mode,
            referrer: self.referrer@,
            referrer_policy: self.referrer_policy,
            use_cors_preflight: self.use_cors_preflight,
            local_urls_only: self.local_urls_only,
            is_service_worker_global_scope: self.is_service_worker_global_scope,
            pipeline_id: self.pipeline_id,
        }
    }
}

/// A copy of a run of URLs.
pub fn clone_urls(v: &Vec<Url>) -> (r: Vec<Url>)
    ensures
        url_views(r@) == url_views(v@),
{
    let mut out: Vec<Url> = Vec::new();
    let n: usize = v.len();
    let mut i: usize = 0;
    while i < n
        invariant
            n == v@.len(),
            i <= n,
            out@.len() == i,
            forall|j: int| 0 <= j < i ==> out@[j]@ == v@[j]@,
        decreases n - i,
    {
        out.push(v[i].clone());
        i += 1;
    }
    assert(url_views(out@) =~= url_views(v@));
    out
}

impl Clone for Request {
    fn clone(&self) -> (r: Self)
        ensures
            r@ == self@,
    {
        Request {
            url: self.url.clone(),
            visited: clone_urls(&self.visited),
            origin: self.origin.clone(),
            method: self.method.clone(),
            headers: self.headers.clone(),
            body: match &self.body {
                Some(b) => Some(b.clone()),
                None => None,
            },
            mode: self.mode,
            redirect_mode: self.redirect_mode,
            credentials_mode: self.credentials_mode,
            referrer: self.referrer.clone(),
            referrer_policy: self.referrer_policy,
            use_cors_preflight: self.use_cors_preflight,
            local_urls_only: self.local_urls_only,
            is_service_worker_global_scope: self.is_service_worker_global_scope,
            pipeline_id: self.pipeline_id,
        }
    }
}

impl Request {
    /// A `GET` request for `url` with no headers and no body, that follows
    /// redirects, may not read across origins (`NoCORS`), and comes from its
    /// client. Without an origin it is made on behalf of nobody:
    /// `Origin::Unique`.
    pub fn new(
        url: Url,
        origin: Option<Origin>,
        is_service_worker_global_scope: bool,
        pipeline_id: Option<PipelineId>,
    ) -> (r: Request)
        ensures
            r@ == (RequestView {
                url: url@,
                visited: Seq::empty(),
                origin: match origin {
                    Some(o) => o@,
                    None => OriginView::Unique,
                },
                method: MethodView::Get,
                headers: Seq::empty(),
                body: None,
                mode: RequestMode::NoCORS,
                redirect_mode: RedirectMode::Follow,
                credentials_mode: CredentialsMode::Omit,
                referrer: ReferrerView::Client,
                referrer_policy: None,
                use_cors_preflight: false,
                local_urls_only: false,
                is_service_worker_global_scope,
                pipeline_id,
            }),
    {
        let r = Request {
            url,
            visited: Vec::new(),
            origin: match origin {
                Some(o) => o,
                None => Origin::Unique,
            },
            method: Method::Get,
            headers: Headers::new(),
            body: None,
            mode: RequestMode::NoCORS,
            redirect_mode: RedirectMode::Follow,
            credentials_mode: CredentialsMode::Omit,
            referrer: Referrer::Client,
            referrer_policy: None,
            use_cors_preflight: false,
            local_urls_only: false,
            is_service_worker_global_scope,
            pipeline_id,
        };
        assert(url_views(r.visited@) =~= Seq::<UrlView>::empty());
        r
    }

    /// The URL that the request now goes to.
    pub fn current_url(&self) -> (r: &Url)
        ensures
            r@ == self@.url,
            r@ == self@.url_list().last(),
    {
        &self.url
    }

    /// Every URL that the fetch has been through, the current one last.
    pub fn url_list(&self) -> (r: Vec<Url>)
        ensures
            url_views(r@) == self@.url_list(),
            r@.len() > 0,
    {
        let mut out = clone_urls(&self.visited);
        let ghost before = url_views(out@);
        out.push(self.url.clone());
        assert(url_views(out@) =~= before.push(self.url@));
        out
    }

    /// The number of redirects that the fetch has followed.
    pub fn redirect_count(&self) -> (r: usize)
        ensures
            r == self@.redirect_count(),
    {
        self.visited.len()
    }
}

} // verus!
