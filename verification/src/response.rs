//! The response: what a fetch came to, as its reader is allowed to see it.

use crate::headers::{
    basic_visible, cors_visible, header_value, is_cors_safelisted_name,
    is_forbidden_response_name, lemma_safelisted_not_forbidden, HeaderView, Headers,
};
use crate::request::{clone_urls, url_views};
use crate::text::{list_items, split_list, texts};
use crate::web_url::{url_view, Url, UrlView};
use vstd::prelude::*;
use vstd::string::*;

verus! {

/// What kind of response this is, and with it how much of it can be seen.
#[derive(Clone, Copy, Debug, PartialEq, Eq, Structural)]
pub enum ResponseType {
    Basic,
    CORS,
    Default,
    Error,
    Opaque,
    OpaqueRedirect,
}

/// Where a response came from, as far as the HTTP cache is concerned.
#[derive(Clone, Copy, Debug, PartialEq, Eq, Structural)]
pub enum CacheState {
    /// The response did not come from the cache.
    Uncached,
    Local,
    Validated,
    Partial,
}

/// The body of a response: nothing yet, the bytes so far, or all of it.
#[derive(Debug, PartialEq, Eq)]
pub enum ResponseBody {
    Empty,
    Receiving(Vec<u8>),
    Done(Vec<u8>),
}

/// The mathematical value of a [`ResponseBody`].
pub enum BodyView {
    Empty,
    Receiving(Seq<u8>),
    Done(Seq<u8>),
}

impl BodyView {
    /// The body after one more chunk has come: a body that is done stays as it is.
    pub open spec fn received(self, chunk: Seq<u8>) -> BodyView {
        match self {
            BodyView::Empty => BodyView::Receiving(chunk),
            BodyView::Receiving(b) => BodyView::Receiving(b + chunk),
            BodyView::Done(b) => BodyView::Done(b),
        }
    }

    /// The body after its end has come.
    pub open spec fn finished(self) -> BodyView {
        match self {
            BodyView::Empty => BodyView::Done(Seq::empty()),
            BodyView::Receiving(b) => BodyView::Done(b),
            BodyView::Done(b) => BodyView::Done(b),
        }
    }

    /// The bytes that have come so far.
    pub open spec fn bytes(self) -> Seq<u8> {
        match self {
            BodyView::Empty => Seq::empty(),
            BodyView::Receiving(b) => b,
            BodyView::Done(b) => b,
        }
    }
}

impl View for ResponseBody {
    type V = BodyView;

    open spec fn view(&self) -> BodyView {
        match *self {
            ResponseBody::Empty => BodyView::Empty,
            ResponseBody::Receiving(b) => BodyView::Receiving(b@),
            ResponseBody::Done(b) => BodyView::Done(b@),
        }
    }
}

impl Clone for ResponseBody {
    fn clone(&self) -> (r: Self)
        ensures
            r@ == self@,
    {
        match self {
            ResponseBody::Empty => ResponseBody::Empty,
            ResponseBody::Receiving(b) => ResponseBody::Receiving(b.clone()),
            ResponseBody::Done(b) => ResponseBody::Done(b.clone()),
        }
    }
}

/// `chunk` added at the end of `bytes`.
fn append_bytes(bytes: &mut Vec<u8>, chunk: &Vec<u8>)
    ensures
        final(bytes)@ == old(bytes)@ + chunk@,
{
    let n: usize = chunk.len();
    let mut i: usize = 0;
    while i < n
        invariant
            n == chunk@.len(),
            i <= n,
            bytes@ == old(bytes)@ + chunk@.take(i as int),
        decreases n - i,
    {
        bytes.push(chunk[i]);
        i += 1;
        assert(bytes@ =~= old(bytes)@ + chunk@.take(i as int));
    }
    assert(chunk@.take(n as int) =~= chunk@);
}

impl ResponseBody {
    /// Whether the whole body has come.
    pub fn is_done(&self) -> (r: bool)
        ensures
            r == (self@ is Done),
    {
        match self {
            ResponseBody::Done(_) => true,
            _ => false,
        }
    }

    /// Takes one more chunk: an empty body starts receiving, a receiving body
    /// grows, a body that is done stays as it is.
    pub fn receive(&mut self, chunk: &Vec<u8>)
        ensures
            final(self)@ == old(self)@.received(chunk@),
    {
        match self {
            ResponseBody::Empty => {
                *self = ResponseBody::Receiving(chunk.clone());
            },
            ResponseBody::Receiving(b) => {
                append_bytes(b, chunk);
            },
            ResponseBody::Done(_) => {},
        }
    }

    /// Marks the body as complete.
    pub fn finish(&mut self)
        ensures
            final(self)@ == old(self)@.finished(),
    {
        let mut taken = ResponseBody::Empty;
        std::mem::swap(self, &mut taken);
        *self = match taken {
            ResponseBody::Empty => ResponseBody::Done(Vec::new()),
            ResponseBody::Receiving(b) => ResponseBody::Done(b),
            ResponseBody::Done(b) => ResponseBody::Done(b),
        };
    }
}

/// The mathematical value of a [`Response`].
pub struct ResponseView {
    pub response_type: ResponseType,
    /// The status code and reason, where the reader may see them.
    pub status: Option<(u16, Seq<char>)>,
    pub headers: Seq<HeaderView>,
    /// The body that this response itself holds. A filtered response holds
    /// none: see [`ResponseView::visible_body`].
    pub body: BodyView,
    pub url: Option<UrlView>,
    pub url_list: Seq<UrlView>,
    pub cache_state: CacheState,
    /// The unfiltered response that a filtered one was made from.
    pub internal: Option<Box<ResponseView>>,
}

impl ResponseView {
    /// A network error.
    pub open spec fn network_error() -> ResponseView {
        ResponseView {
            response_type: ResponseType::Error,
            status: None,
            headers: Seq::empty(),
            body: BodyView::Empty,
            url: None,
            url_list: Seq::empty(),
            cache_state: CacheState::Uncached,
            internal: None,
        }
    }

    /// The unfiltered response: the internal one where there is one, else this.
    pub open spec fn actual(self) -> ResponseView {
        match self.internal {
            Some(inner) => *inner,
            None => self,
        }
    }

    /// The body as the reader of this response sees it: that of the
    /// unfiltered response for `Default`, `Basic` and `CORS`, nothing for the
    /// opaque kinds and for an error.
    pub open spec fn visible_body(self) -> BodyView {
        match self.response_type {
            ResponseType::Default | ResponseType::Basic | ResponseType::CORS => self.actual().body,
            _ => BodyView::Empty,
        }
    }

    /// A response is done when the body that its reader sees is complete,
    /// or its kind shows none, and the body of its internal response, where it
    /// has one, is complete too.
    pub open spec fn is_done(self) -> bool {
        &&& match self.response_type {
            ResponseType::Default | ResponseType::Basic | ResponseType::CORS => {
                self.visible_body() is Done
            },
            _ => true,
        }
        &&& match self.internal {
            Some(inner) => inner.body is Done,
            None => true,
        }
    }

    /// The names that the server lets a cross-origin reader see, from
    /// `Access-Control-Expose-Headers`.
    pub open spec fn exposed_names(self) -> Seq<Seq<char>> {
        match header_value(self.headers, "access-control-expose-headers"@) {
            Some(v) => list_items(v),
            None => Seq::empty(),
        }
    }

    /// What a reader may see of this response as a response of kind `kind`.
    /// The unfiltered response is kept inside. A network error stays one, and
    /// is what the kind `Error` shows of any response; the kind `Default`
    /// shows the unfiltered response as it is.
    pub open spec fn filtered(self, kind: ResponseType) -> ResponseView {
        let raw = self.actual();
        if raw.response_type == ResponseType::Error {
            ResponseView::network_error()
        } else {
            match kind {
                ResponseType::Default => raw,
                ResponseType::Error => ResponseView::network_error(),
                ResponseType::Basic => ResponseView {
                    response_type: kind,
                    headers: raw.headers.filter(basic_visible()),
                    body: BodyView::Empty,
                    internal: Some(Box::new(raw)),
                    ..raw
                },
                ResponseType::CORS => ResponseView {
                    response_type: kind,
                    headers: raw.headers.filter(cors_visible(raw.exposed_names())),
                    body: BodyView::Empty,
                    internal: Some(Box::new(raw)),
                    ..raw
                },
                ResponseType::Opaque | ResponseType::OpaqueRedirect => ResponseView {
                    response_type: kind,
                    internal: Some(Box::new(raw)),
                    ..ResponseView::network_error()
                },
            }
        }
    }

    /// The response after one more chunk of the body has come.
    pub open spec fn received(self, chunk: Seq<u8>) -> ResponseView {
        match self.internal {
            Some(inner) => ResponseView {
                internal: Some(Box::new(ResponseView { body: inner.body.received(chunk), ..*inner })),
                ..self
            },
            None => ResponseView { body: self.body.received(chunk), ..self },
        }
    }

    /// The response after the end of the body has come.
    pub open spec fn finished(self) -> ResponseView {
        match self.internal {
            Some(inner) => ResponseView {
                internal: Some(Box::new(ResponseView { body: inner.body.finished(), ..*inner })),
                ..self
            },
            None => ResponseView { body: self.body.finished(), ..self },
        }
    }
}

/// A response.
#[derive(Debug, PartialEq, Eq)]
pub struct Response {
    response_type: ResponseType,
    status: Option<(u16, String)>,
    headers: Headers,
    body: ResponseBody,
    url: Option<Url>,
    url_list: Vec<Url>,
    cache_state: CacheState,
    internal_response: Option<Box<Response>>,
}

impl Response {
    /// The value of this response, with that of its internal response inside.
    pub closed spec fn model(&self) -> ResponseView
        decreases self,
    {
        ResponseView {
            response_type: self.response_type,
            status: match self.status {
                Some((code, reason)) => Some((code, reason@)),
                None => None,
            },
            headers: self.headers@,
            body: self.body@,
            url: url_view(self.url),
            url_list: url_views(self.url_list@),
            cache_state: self.cache_state,
            internal: match self.internal_response {
                Some(inner) => Some(Box::new(inner.model())),
                None => None,
            },
        }
    }
}

impl View for Response {
    type V = ResponseView;

    open spec fn view(&self) -> ResponseView {
        self.model()
    }
}

impl Clone for Response {
    fn clone(&self) -> (r: Self)
        ensures
            r@ == self@,
        decreases self,
    {
        Response {
            response_type: self.response_type,
            status: match &self.status {
                Some((code, reason)) => Some((*code, reason.clone())),
                None => None,
            },
            headers: self.headers.clone(),
            body: self.body.clone(),
            url: match &self.url {
                Some(u) => Some(u.clone()),
                None => None,
            },
            url_list: clone_urls(&self.url_list),
            cache_state: self.cache_state,
            internal_response: match &self.internal_response {
                Some(inner) => {
                    let copy: Response = (**inner).clone();
                    Some(Box::new(copy))
                },
                None => None,
            },
        }
    }
}

impl Response {
    /// An unfiltered response from `url`, reached through `url_list`, with
    /// the given status and headers and no body yet.
    pub fn new(url: Url, url_list: Vec<Url>, status: u16, reason: String, headers: Headers) -> (r:
        Response)
        ensures
            r@ == (ResponseView {
                response_type: ResponseType::Default,
                status: Some((status, reason@)),
                headers: headers@,
                body: BodyView::Empty,
                url: Some(url@),
                url_list: url_views(url_list@),
                cache_state: CacheState::Uncached,
                internal: None,
            }),
    {
        Response {
            response_type: ResponseType::Default,
            status: Some((status, reason)),
            headers,
            body: ResponseBody::Empty,
            url: Some(url),
            url_list,
            cache_state: CacheState::Uncached,
            internal_response: None,
        }
    }

    /// A network error.
    pub fn network_error() -> (r: Response)
        ensures
            r@ == ResponseView::network_error(),
    {
        let r = Response {
            response_type: ResponseType::Error,
            status: None,
            headers: Headers::new(),
            body: ResponseBody::Empty,
            url: None,
            url_list: Vec::new(),
            cache_state: CacheState::Uncached,
            internal_response: None,
        };
        assert(url_views(r.url_list@) =~= Seq::<UrlView>::empty());
        r
    }

    /// Whether this response is a network error.
    pub fn is_network_error(&self) -> (r: bool)
        ensures
            r == (self@.response_type == ResponseType::Error),
    {
        match self.response_type {
            ResponseType::Error => true,
            _ => false,
        }
    }

    pub fn response_type(&self) -> (r: ResponseType)
        ensures
            r == self@.response_type,
    {
        self.response_type
    }

    /// The status code and reason, where the reader of this response may see them.
    pub fn status(&self) -> (r: Option<(u16, &str)>)
        ensures
            match r {
                Some((code, reason)) => self@.status == Some((code, reason@)),
                None => self@.status is None,
            },
    {
        match &self.status {
            Some((code, reason)) => Some((*code, reason.as_str())),
            None => None,
        }
    }

    pub fn headers(&self) -> (r: &Headers)
        ensures
            r@ == self@.headers,
    {
        &self.headers
    }

    pub fn url(&self) -> (r: Option<&Url>)
        ensures
            match r {
                Some(u) => self@.url == Some(u@),
                None => self@.url is None,
            },
    {
        match &self.url {
            Some(u) => Some(u),
            None => None,
        }
    }

    pub fn url_list(&self) -> (r: &Vec<Url>)
        ensures
            url_views(r@) == self@.url_list,
    {
        &self.url_list
    }

    pub fn cache_state(&self) -> (r: CacheState)
        ensures
            r == self@.cache_state,
    {
        self.cache_state
    }

    /// The unfiltered response that this one was made from, where it is a filtered one.
    pub fn internal_response(&self) -> (r: Option<&Response>)
        ensures
            match r {
                Some(inner) => self@.internal == Some(Box::new(inner@)),
                None => self@.internal is None,
            },
    {
        match &self.internal_response {
            Some(inner) => Some(&**inner),
            None => None,
        }
    }

    /// The unfiltered response: the internal one where there is one, else this.
    pub fn actual_response(&self) -> (r: &Response)
        ensures
            r@ == self@.actual(),
    {
        match &self.internal_response {
            Some(inner) => &**inner,
            None => self,
        }
    }

    /// The body as the reader of this response sees it.
    pub fn body(&self) -> (r: ResponseBody)
        ensures
            r@ == self@.visible_body(),
    {
        match self.response_type {
            ResponseType::Default | ResponseType::Basic | ResponseType::CORS => {
                self.actual_response().body.clone()
            },
            _ => ResponseBody::Empty,
        }
    }

    /// Whether the response is complete.
    pub fn is_done(&self) -> (r: bool)
        ensures
            r == self@.is_done(),
    {
        proof {
            reveal_with_fuel(Response::model, 2);
        }
        let seen = match self.response_type {
            ResponseType::Default | ResponseType::Basic | ResponseType::CORS => {
                self.actual_response().body.is_done()
            },
            _ => true,
        };
        let inner = match &self.internal_response {
            Some(inner) => inner.body.is_done(),
            None => true,
        };
        seen && inner
    }

    /// The names that the server lets a cross-origin reader see.
    fn exposed_names(&self) -> (r: Vec<String>)
        ensures
            texts(r@) == self@.exposed_names(),
    {
        match self.headers.get("access-control-expose-headers") {
            Some(v) => split_list(v),
            None => {
                let r: Vec<String> = Vec::new();
                assert(texts(r@) =~= Seq::<Seq<char>>::empty());
                r
            },
        }
    }

    /// What a reader may see of this response as a response of kind
    /// `filter_type`. The unfiltered response is kept inside, untouched; a
    /// network error stays a network error. The kind `Default` gives the
    /// unfiltered response back, the kind `Error` a network error.
    pub fn to_filtered(self, filter_type: ResponseType) -> (r: Response)
        ensures
            r@ == self@.filtered(filter_type),
    {
        let raw: Response = match self.internal_response {
            Some(inner) => *inner,
            None => self,
        };
        if raw.is_network_error() {
            return Response::network_error();
        }
        match filter_type {
            ResponseType::Default => raw,
            ResponseType::Error => Response::network_error(),
            ResponseType::Basic => {
                let headers = raw.headers.basic_filtered();
                Response {
                    response_type: filter_type,
                    status: match &raw.status {
                        Some((code, reason)) => Some((*code, reason.clone())),
                        None => None,
                    },
                    headers,
                    body: ResponseBody::Empty,
                    url: match &raw.url {
                        Some(u) => Some(u.clone()),
                        None => None,
                    },
                    url_list: clone_urls(&raw.url_list),
                    cache_state: raw.cache_state,
                    internal_response: Some(Box::new(raw)),
                }
            },
            ResponseType::CORS => {
                let exposed = raw.exposed_names();
                let headers = raw.headers.cors_filtered(&exposed);
                Response {
                    response_type: filter_type,
                    status: match &raw.status {
                        Some((code, reason)) => Some((*code, reason.clone())),
                        None => None,
                    },
                    headers,
                    body: ResponseBody::Empty,
                    url: match &raw.url {
                        Some(u) => Some(u.clone()),
                        None => None,
                    },
                    url_list: clone_urls(&raw.url_list),
                    cache_state: raw.cache_state,
                    internal_response: Some(Box::new(raw)),
                }
            },
            ResponseType::Opaque | ResponseType::OpaqueRedirect => {
                let r = Response {
                    response_type: filter_type,
                    status: None,
                    headers: Headers::new(),
                    body: ResponseBody::Empty,
                    url: None,
                    url_list: Vec::new(),
                    cache_state: CacheState::Uncached,
                    internal_response: Some(Box::new(raw)),
                };
                assert(url_views(r.url_list@) =~= Seq::<UrlView>::empty());
                r
            },
        }
    }

    /// Takes one more chunk of the body into the unfiltered response.
    pub fn receive(&mut self, chunk: &Vec<u8>)
        ensures
            final(self)@ == old(self)@.received(chunk@),
    {
        proof {
            reveal_with_fuel(Response::model, 2);
        }
        match &mut self.internal_response {
            Some(inner) => {
                inner.body.receive(chunk);
            },
            None => {
                self.body.receive(chunk);
            },
        }
    }

    /// Marks the body of the unfiltered response as complete.
    pub fn finish(&mut self)
        ensures
            final(self)@ == old(self)@.finished(),
    {
        proof {
            reveal_with_fuel(Response::model, 2);
        }
        match &mut self.internal_response {
            Some(inner) => {
                inner.body.finish();
            },
            None => {
                self.body.finish();
            },
        }
    }
}

/// A response filtered as `CORS` keeps every header of the unfiltered
/// response that is named `Cache-Control`, `Content-Language`,
/// `Content-Type`, `Expires`, `Last-Modified` or `Pragma`, and keeps no
/// `Set-Cookie` or `Set-Cookie2`, whatever the server exposes.
pub proof fn law_cors_filter(response: ResponseView)
    requires
        response.actual().response_type != ResponseType::Error,
    ensures
        forall|i: int|
            0 <= i < response.actual().headers.len() && is_cors_safelisted_name(
                #[trigger] response.actual().headers[i].name,
            ) ==> response.filtered(ResponseType::CORS).headers.contains(
                response.actual().headers[i],
            ),
        forall|i: int|
            0 <= i < response.filtered(ResponseType::CORS).headers.len()
                ==> !is_forbidden_response_name(
                #[trigger] response.filtered(ResponseType::CORS).headers[i].name,
            ),
        response.filtered(ResponseType::CORS).internal == Some(Box::new(response.actual())),
{
    let raw = response.actual();
    let keep = cors_visible(raw.exposed_names());
    let out = response.filtered(ResponseType::CORS).headers;
    assert(out == raw.headers.filter(keep));
    assert forall|i: int|
        0 <= i < raw.headers.len() && is_cors_safelisted_name(
            #[trigger] raw.headers[i].name,
        ) implies out.contains(raw.headers[i]) by {
        assert(keep(raw.headers[i]));
        raw.headers.lemma_filter_contains(keep, i);
    }
    assert forall|i: int| 0 <= i < out.len() implies !is_forbidden_response_name(
        #[trigger] out[i].name,
    ) by {
        raw.headers.lemma_filter_pred(keep, i);
        assert(keep(out[i]));
        if is_cors_safelisted_name(out[i].name) {
            lemma_safelisted_not_forbidden(out[i].name);
        }
    }
}


/// A response filtered as `Basic` keeps every header of the unfiltered
/// response but `Set-Cookie` and `Set-Cookie2`, and keeps none of these.
pub proof fn law_basic_filter(response: ResponseView)
    requires
        response.actual().response_type != ResponseType::Error,
    ensures
        forall|i: int|
            0 <= i < response.actual().headers.len() && !is_forbidden_response_name(
                #[trigger] response.actual().headers[i].name,
            ) ==> response.filtered(ResponseType::Basic).headers.contains(
                response.actual().headers[i],
            ),
        forall|i: int|
            0 <= i < response.filtered(ResponseType::Basic).headers.len()
                ==> !is_forbidden_response_name(
                #[trigger] response.filtered(ResponseType::Basic).headers[i].name,
            ),
{
    let raw = response.actual();
    let keep = basic_visible();
    let out = response.filtered(ResponseType::Basic).headers;
    assert(out == raw.headers.filter(keep));
    assert forall|i: int|
        0 <= i < raw.headers.len() && !is_forbidden_response_name(
            #[trigger] raw.headers[i].name,
        ) implies out.contains(raw.headers[i]) by {
        assert(keep(raw.headers[i]));
        raw.headers.lemma_filter_contains(keep, i);
    }
    assert forall|i: int| 0 <= i < out.len() implies !is_forbidden_response_name(
        #[trigger] out[i].name,
    ) by {
        raw.headers.lemma_filter_pred(keep, i);
        assert(keep(out[i]));
    }
}


/// Filtering leaves the unfiltered response as it was, inside the filtered one.
pub proof fn law_filter_keeps_internal(response: ResponseView, kind: ResponseType)
    requires
        response.actual().response_type != ResponseType::Error,
        kind != ResponseType::Default,
        kind != ResponseType::Error,
    ensures
        response.filtered(kind).internal == Some(Box::new(response.actual())),
        response.filtered(kind).actual() == response.actual(),
{
}


/// An opaque filtered response shows nothing: no URL, no status, no header, no body.
pub proof fn law_opaque_filter(response: ResponseView, kind: ResponseType)
    requires
        response.actual().response_type != ResponseType::Error,
        kind == ResponseType::Opaque || kind == ResponseType::OpaqueRedirect,
    ensures
        response.filtered(kind).response_type == kind,
        response.filtered(kind).url is None,
        response.filtered(kind).url_list.len() == 0,
        response.filtered(kind).status is None,
        response.filtered(kind).headers.len() == 0,
        response.filtered(kind).body == BodyView::Empty,
        response.filtered(kind).visible_body() == BodyView::Empty,
{
}


/// A response whose end has come is complete.
pub proof fn lemma_finished_is_done(response: ResponseView)
    ensures
        response.finished().is_done(),
{
}


/// A filtered response is complete where the unfiltered one's body is.
pub proof fn lemma_filtered_is_done(response: ResponseView, kind: ResponseType)
    requires
        response.actual().body is Done,
        kind != ResponseType::Default,
        kind != ResponseType::Error,
    ensures
        response.filtered(kind).is_done(),
{
}

} // verus!
