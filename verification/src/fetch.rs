//! The fetch algorithm, as a state machine.
//!
//! A [`Fetch`] decides; a driver does the work. [`Fetch::start_at`] takes a
//! request and says what to do first. The driver does it, reports what came
//! of it to [`Fetch::handle_at`], and gets the next thing to do, until the
//! fetch says [`Action::Done`]. Each step also lists what the delivery target
//! is to be told, in order.

use crate::cors::{
    allowed_headers, allowed_methods, cors_check, headers_allowed_by, make_preflight,
    make_wire_request, max_age, max_age_of, methods_allowed_by, needs_preflight,
    passes_cors_check, preflight_allows, preflight_gives_leave, preflight_needed,
    preflight_request, wire_request,
};
use crate::cors_cache::{cache_with, unix_now, CORSCache, EntryView};
use crate::data_url::{data_content, data_text, decode};
use crate::headers::{header_value, HeaderView, Headers};
use crate::method::{Method, MethodView};
use crate::request::{url_views, RedirectMode, Request, RequestMode, RequestView};
use crate::response::{BodyView, CacheState, Response, ResponseType, ResponseView};
use crate::text::text_eq;
use crate::transport::{EventView, TransportEvent, WireRequest, WireRequestView};
use crate::web_url::{resolved, same_origin, Url, UrlView};
use vstd::prelude::*;
use vstd::string::*;

verus! {

/// The most redirects that one fetch follows.
pub const MAX_REDIRECTS: usize = 20;

/// Where a fetch stands.
#[derive(Clone, Copy, Debug, PartialEq, Eq, Structural)]
pub enum Stage {
    /// The preflight is out; its response head is awaited.
    AwaitingPreflight,
    /// The request is out; its response head is awaited.
    AwaitingHead,
    /// The content behind a `file:` URL is awaited.
    AwaitingLocal,
    /// The response stands; its body is coming in.
    Receiving,
    /// The fetch is over, and its response is complete.
    Finished,
}

/// How much of the response the one who asked may see, as far as the URLs
/// that the fetch has been through decide it.
#[derive(Clone, Copy, Debug, PartialEq, Eq, Structural)]
pub enum ResponseTainting {
    Basic,
    CORSTainting,
    Opaque,
}

/// What the driver is to do next.
#[derive(Debug, PartialEq, Eq)]
pub enum Action {
    /// Send this request, and report the head of the response or a failure.
    Send(WireRequest),
    /// Read the file behind this `file:` URL, and report its content or a failure.
    Load(Url),
    /// Read on, and report the next chunk, the end of the body, or a failure.
    Receive,
    /// Nothing: the fetch is over.
    Done,
}

/// The mathematical value of an [`Action`].
pub enum ActionView {
    Send(WireRequestView),
    Load(UrlView),
    Receive,
    Done,
}

impl View for Action {
    type V = ActionView;

    open spec fn view(&self) -> ActionView {
        match *self {
            Action::Send(w) => ActionView::Send(w@),
            Action::Load(u) => ActionView::Load(u@),
            Action::Receive => ActionView::Receive,
            Action::Done => ActionView::Done,
        }
    }
}

/// One thing that the delivery target is to be told.
#[derive(Debug, PartialEq, Eq)]
pub enum Delivery {
    RequestBody,
    RequestEof,
    Response,
    ResponseChunk(Vec<u8>),
    ResponseEof,
}

/// The mathematical value of a [`Delivery`].
pub enum DeliveryView {
    RequestBody,
    RequestEof,
    Response,
    ResponseChunk(Seq<u8>),
    ResponseEof,
}

impl View for Delivery {
    type V = DeliveryView;

    open spec fn view(&self) -> DeliveryView {
        match *self {
            Delivery::RequestBody => DeliveryView::RequestBody,
            Delivery::RequestEof => DeliveryView::RequestEof,
            Delivery::Response => DeliveryView::Response,
            Delivery::ResponseChunk(b) => DeliveryView::ResponseChunk(b@),
            Delivery::ResponseEof => DeliveryView::ResponseEof,
        }
    }
}

/// The views of a run of deliveries.
pub open spec fn delivery_views(v: Seq<Delivery>) -> Seq<DeliveryView> {
    v.map_values(|d: Delivery| d@)
}

/// What one step of a fetch asks for.
#[derive(Debug, PartialEq, Eq)]
pub struct Step {
    /// What the delivery target is to be told, in order.
    pub deliveries: Vec<Delivery>,
    /// What the driver is to do next.
    pub action: Action,
}

/// The mathematical value of a [`Step`].
pub struct StepView {
    pub deliveries: Seq<DeliveryView>,
    pub action: ActionView,
}

impl View for Step {
    type V = StepView;

    open spec fn view(&self) -> StepView {
        StepView { deliveries: delivery_views(self.deliveries@), action: self.action@ }
    }
}

/// The mathematical value of a [`Fetch`].
pub struct FetchView {
    /// The request, as the redirects followed so far have left it.
    pub request: RequestView,
    pub tainting: ResponseTainting,
    pub stage: Stage,
    /// The response; a network error as long as none has come.
    pub response: ResponseView,
    /// What was last sent to the network.
    pub sent: Option<WireRequestView>,
}

/// What a step comes to: the fetch and the cache after it, and what it asks for.
pub struct Outcome {
    pub fetch: FetchView,
    pub cache: Seq<EntryView>,
    pub step: StepView,
}

/// A scheme whose URLs are resolved without the network.
pub open spec fn is_local_scheme(scheme: Seq<char>) -> bool {
    scheme == "about"@ || scheme == "data"@ || scheme == "file"@
}

/// A scheme whose URLs are fetched over HTTP.
pub open spec fn is_http_scheme(scheme: Seq<char>) -> bool {
    scheme == "http"@ || scheme == "https"@
}

/// A response that sends the fetch elsewhere: a status in the 300s and a `Location`.
pub open spec fn is_redirect(status: u16, headers: Seq<HeaderView>) -> bool {
    300 <= status < 400 && header_value(headers, "location"@) is Some
}

/// The redirect turns the request into a `GET` without a body: `303`
/// always does, `301` and `302` do so to a `POST`.
pub open spec fn redirect_rewrites(status: u16, method: MethodView) -> bool {
    ((status == 301 || status == 302) && method is Post) || status == 303
}

/// The method with which a redirect is followed.
pub open spec fn redirect_method(status: u16, method: MethodView) -> MethodView {
    if redirect_rewrites(status, method) {
        MethodView::Get
    } else {
        method
    }
}

/// The request after it has followed a redirect with the given status to `target`.
pub open spec fn redirected(request: RequestView, status: u16, target: UrlView) -> RequestView {
    RequestView {
        url: target,
        visited: request.visited.push(request.url),
        method: redirect_method(status, request.method),
        body: if redirect_rewrites(status, request.method) {
            None
        } else {
            request.body
        },
        ..request
    }
}

/// The kind of filtered response that a tainting calls for.
pub open spec fn filter_kind(tainting: ResponseTainting) -> ResponseType {
    match tainting {
        ResponseTainting::Basic => ResponseType::Basic,
        ResponseTainting::CORSTainting => ResponseType::CORS,
        ResponseTainting::Opaque => ResponseType::Opaque,
    }
}

/// The tainting once the request goes to its current URL over the
/// network: `Basic` as long as the fetch has stayed within the origin of the
/// request; after that `CORSTainting` under `CORSMode`, `Opaque` otherwise.
pub open spec fn next_tainting(tainting: ResponseTainting, request: RequestView) -> ResponseTainting {
    if tainting == ResponseTainting::Basic && same_origin(request.origin, request.url.origin) {
        ResponseTainting::Basic
    } else if request.mode == RequestMode::CORSMode {
        ResponseTainting::CORSTainting
    } else {
        ResponseTainting::Opaque
    }
}

/// The unfiltered response to the request, as its head came from the network.
pub open spec fn raw_response(
    request: RequestView,
    status: u16,
    reason: Seq<char>,
    headers: Seq<HeaderView>,
) -> ResponseView {
    ResponseView {
        response_type: ResponseType::Default,
        status: Some((status, reason)),
        headers,
        body: BodyView::Empty,
        url: Some(request.url),
        url_list: request.url_list(),
        cache_state: CacheState::Uncached,
        internal: None,
    }
}

/// The unfiltered response for content that was resolved locally: `200 OK`,
/// the one header `Content-Type`, and the whole body.
pub open spec fn local_response(request: RequestView, content_type: Seq<char>, bytes: Seq<
    u8,
>) -> ResponseView {
    ResponseView {
        headers: seq![HeaderView { name: "Content-Type"@, value: content_type }],
        body: BodyView::Done(bytes),
        ..raw_response(request, 200, "OK"@, Seq::empty())
    }
}

/// The unfiltered response for `about:blank`: `200 OK`, no header, an empty body.
pub open spec fn blank_response(request: RequestView) -> ResponseView {
    ResponseView { body: BodyView::Done(Seq::empty()), ..raw_response(request, 200, "OK"@, Seq::empty()) }
}

/// What the target is told when a fetch ends at once.
pub open spec fn whole_delivery() -> Seq<DeliveryView> {
    seq![
        DeliveryView::RequestBody,
        DeliveryView::RequestEof,
        DeliveryView::Response,
        DeliveryView::ResponseEof,
    ]
}

/// What the target is told when the response stands and its body is to come.
pub open spec fn head_delivery() -> Seq<DeliveryView> {
    seq![DeliveryView::RequestBody, DeliveryView::RequestEof, DeliveryView::Response]
}

/// Whether the reader of a response of this kind sees its body.
pub open spec fn shows_body(kind: ResponseType) -> bool {
    kind == ResponseType::Default || kind == ResponseType::Basic || kind == ResponseType::CORS
}

impl FetchView {
    /// The fetch ends with `response`.
    pub open spec fn finish(self, cache: Seq<EntryView>, response: ResponseView) -> Outcome {
        Outcome {
            fetch: FetchView { stage: Stage::Finished, response, ..self },
            cache,
            step: StepView { deliveries: whole_delivery(), action: ActionView::Done },
        }
    }

    /// The fetch ends with a network error.
    pub open spec fn fail(self, cache: Seq<EntryView>) -> Outcome {
        self.finish(cache, ResponseView::network_error())
    }

    /// The response stands; its body is to come.
    pub open spec fn await_body(self, cache: Seq<EntryView>, response: ResponseView) -> Outcome {
        Outcome {
            fetch: FetchView { stage: Stage::Receiving, response, ..self },
            cache,
            step: StepView { deliveries: head_delivery(), action: ActionView::Receive },
        }
    }

    /// The request goes out to its current URL, by the scheme of that URL.
    pub open spec fn dispatch(self, cache: Seq<EntryView>, now: u64) -> Outcome {
        let request = self.request;
        let scheme = request.url.scheme;
        if scheme == "about"@ {
            if request.url.path == "blank"@ {
                self.finish(cache, blank_response(request).filtered(filter_kind(self.tainting)))
            } else {
                self.fail(cache)
            }
        } else if scheme == "data"@ {
            match data_content(data_text(request.url)) {
                Some(data) => self.finish(
                    cache,
                    local_response(request, data.content_type, data.bytes).filtered(
                        filter_kind(self.tainting),
                    ),
                ),
                None => self.fail(cache),
            }
        } else if scheme == "file"@ {
            Outcome {
                fetch: FetchView { stage: Stage::AwaitingLocal, ..self },
                cache,
                step: StepView { deliveries: Seq::empty(), action: ActionView::Load(request.url) },
            }
        } else if is_http_scheme(scheme) {
            let tainting = next_tainting(self.tainting, request);
            if tainting == ResponseTainting::CORSTainting && preflight_needed(cache, request, now) {
                let wire = preflight_request(request);
                Outcome {
                    fetch: FetchView {
                        stage: Stage::AwaitingPreflight,
                        tainting,
                        sent: Some(wire),
                        ..self
                    },
                    cache,
                    step: StepView { deliveries: Seq::empty(), action: ActionView::Send(wire) },
                }
            } else {
                let wire = wire_request(request, tainting == ResponseTainting::CORSTainting);
                Outcome {
                    fetch: FetchView { stage: Stage::AwaitingHead, tainting, sent: Some(wire), ..self },
                    cache,
                    step: StepView { deliveries: Seq::empty(), action: ActionView::Send(wire) },
                }
            }
        } else {
            self.fail(cache)
        }
    }

    /// The head of the response to the preflight has come.
    pub open spec fn on_preflight(
        self,
        cache: Seq<EntryView>,
        now: u64,
        status: u16,
        headers: Seq<HeaderView>,
    ) -> Outcome {
        if preflight_allows(self.request, status, headers) {
            let wire = wire_request(self.request, true);
            Outcome {
                fetch: FetchView { stage: Stage::AwaitingHead, sent: Some(wire), ..self },
                cache: match max_age(headers) {
                    Some(age) => cache_with(
                        cache,
                        self.request,
                        age,
                        allowed_methods(headers),
                        allowed_headers(headers),
                        now,
                    ),
                    None => cache,
                },
                step: StepView { deliveries: Seq::empty(), action: ActionView::Send(wire) },
            }
        } else {
            self.fail(cache)
        }
    }

    /// The head of the response to the request has come.
    pub open spec fn on_head(
        self,
        cache: Seq<EntryView>,
        now: u64,
        status: u16,
        reason: Seq<char>,
        headers: Seq<HeaderView>,
    ) -> Outcome {
        let request = self.request;
        if self.tainting == ResponseTainting::CORSTainting && !cors_check(request, headers) {
            self.fail(cache)
        } else if is_redirect(status, headers) {
            match request.redirect_mode {
                RedirectMode::Error => self.fail(cache),
                RedirectMode::Manual => self.await_body(
                    cache,
                    raw_response(request, status, reason, headers).filtered(
                        ResponseType::OpaqueRedirect,
                    ),
                ),
                RedirectMode::Follow => {
                    if request.redirect_count() >= MAX_REDIRECTS {
                        self.fail(cache)
                    } else {
                        match resolved(
                            Some(request.url.serialization),
                            header_value(headers, "location"@)->0,
                        ) {
                            Some(target) => (FetchView {
                                request: redirected(request, status, target),
                                ..self
                            }).dispatch(cache, now),
                            None => self.fail(cache),
                        }
                    }
                },
            }
        } else {
            self.await_body(
                cache,
                raw_response(request, status, reason, headers).filtered(filter_kind(self.tainting)),
            )
        }
    }

    /// Something has come while the body was awaited.
    pub open spec fn on_body(self, cache: Seq<EntryView>, event: EventView) -> Outcome {
        match event {
            EventView::Chunk(bytes) => Outcome {
                fetch: FetchView { response: self.response.received(bytes), ..self },
                cache,
                step: StepView {
                    deliveries: if shows_body(self.response.response_type) {
                        seq![DeliveryView::ResponseChunk(bytes)]
                    } else {
                        Seq::empty()
                    },
                    action: ActionView::Receive,
                },
            },
            EventView::End => Outcome {
                fetch: FetchView { stage: Stage::Finished, response: self.response.finished(), ..self },
                cache,
                step: StepView { deliveries: seq![DeliveryView::ResponseEof], action: ActionView::Done },
            },
            _ => Outcome {
                fetch: FetchView {
                    stage: Stage::Finished,
                    response: ResponseView::network_error(),
                    ..self
                },
                cache,
                step: StepView { deliveries: seq![DeliveryView::ResponseEof], action: ActionView::Done },
            },
        }
    }

    /// What the fetch makes of what the driver reports. Anything that the
    /// stage does not await ends the fetch with a network error; a finished
    /// fetch stays as it is.
    pub open spec fn handle(self, cache: Seq<EntryView>, now: u64, event: EventView) -> Outcome {
        match self.stage {
            Stage::AwaitingPreflight => match event {
                EventView::Head { status, reason, headers } => self.on_preflight(
                    cache,
                    now,
                    status,
                    headers,
                ),
                _ => self.fail(cache),
            },
            Stage::AwaitingHead => match event {
                EventView::Head { status, reason, headers } => self.on_head(
                    cache,
                    now,
                    status,
                    reason,
                    headers,
                ),
                _ => self.fail(cache),
            },
            Stage::AwaitingLocal => match event {
                EventView::Local { content_type, bytes } => self.finish(
                    cache,
                    local_response(self.request, content_type, bytes).filtered(
                        filter_kind(self.tainting),
                    ),
                ),
                _ => self.fail(cache),
            },
            Stage::Receiving => self.on_body(cache, event),
            Stage::Finished => Outcome {
                fetch: self,
                cache,
                step: StepView { deliveries: Seq::empty(), action: ActionView::Done },
            },
        }
    }
}

/// A fetch that has not begun: nothing sent, nothing received.
pub open spec fn fresh(request: RequestView) -> FetchView {
    FetchView {
        request,
        tainting: ResponseTainting::Basic,
        stage: Stage::Finished,
        response: ResponseView::network_error(),
        sent: None,
    }
}

/// The first step of the fetch of `request`. Under `local_urls_only` a URL
/// that is not resolved locally is a network error.
pub open spec fn started(request: RequestView, cache: Seq<EntryView>, now: u64) -> Outcome {
    if request.local_urls_only && !is_local_scheme(request.url.scheme) {
        fresh(request).fail(cache)
    } else {
        fresh(request).dispatch(cache, now)
    }
}

/// One fetch in progress.
#[derive(Debug, PartialEq, Eq)]
pub struct Fetch {
    request: Request,
    tainting: ResponseTainting,
    stage: Stage,
    response: Response,
    sent: Option<WireRequest>,
}

/// The view of an optional wire request.
pub open spec fn wire_view(w: Option<WireRequest>) -> Option<WireRequestView> {
    match w {
        Some(w) => Some(w@),
        None => None,
    }
}

impl View for Fetch {
    type V = FetchView;

    closed spec fn view(&self) -> FetchView {
        FetchView {
            request: self.request@,
            tainting: self.tainting,
            stage: self.stage,
            response: self.response@,
            sent: wire_view(self.sent),
        }
    }
}

fn no_delivery() -> (r: Vec<Delivery>)
    ensures
        delivery_views(r@) == Seq::<DeliveryView>::empty(),
{
    let r: Vec<Delivery> = Vec::new();
    assert(delivery_views(r@) =~= Seq::<DeliveryView>::empty());
    r
}

fn one_delivery(d: Delivery) -> (r: Vec<Delivery>)
    ensures
        delivery_views(r@) == seq![d@],
{
    let mut r: Vec<Delivery> = Vec::new();
    r.push(d);
    assert(delivery_views(r@) =~= seq![d@]);
    r
}

fn deliver_head() -> (r: Vec<Delivery>)
    ensures
        delivery_views(r@) == head_delivery(),
{
    let mut r: Vec<Delivery> = Vec::new();
    r.push(Delivery::RequestBody);
    r.push(Delivery::RequestEof);
    r.push(Delivery::Response);
    assert(delivery_views(r@) =~= head_delivery());
    r
}

fn deliver_whole() -> (r: Vec<Delivery>)
    ensures
        delivery_views(r@) == whole_delivery(),
{
    let mut r: Vec<Delivery> = Vec::new();
    r.push(Delivery::RequestBody);
    r.push(Delivery::RequestEof);
    r.push(Delivery::Response);
    r.push(Delivery::ResponseEof);
    assert(delivery_views(r@) =~= whole_delivery());
    r
}

/// Whether URLs of the scheme are resolved without the network.
pub fn is_local(scheme: &str) -> (r: bool)
    ensures
        r == is_local_scheme(scheme@),
{
    text_eq(scheme, "about") || text_eq(scheme, "data") || text_eq(scheme, "file")
}

/// Whether URLs of the scheme are fetched over HTTP.
pub fn is_http(scheme: &str) -> (r: bool)
    ensures
        r == is_http_scheme(scheme@),
{
    text_eq(scheme, "http") || text_eq(scheme, "https")
}

/// The kind of filtered response that a tainting calls for.
pub fn kind_for(tainting: ResponseTainting) -> (r: ResponseType)
    ensures
        r == filter_kind(tainting),
{
    match tainting {
        ResponseTainting::Basic => ResponseType::Basic,
        ResponseTainting::CORSTainting => ResponseType::CORS,
        ResponseTainting::Opaque => ResponseType::Opaque,
    }
}

/// Whether a redirect with the given status turns a request with the given
/// method into a `GET` without a body.
pub fn rewrites_on_redirect(status: u16, method: &Method) -> (r: bool)
    ensures
        r == redirect_rewrites(status, method@),
{
    let post = match method {
        Method::Post => true,
        _ => false,
    };
    ((status == 301 || status == 302) && post) || status == 303
}

/// The method with which a redirect is followed: `GET` after a `303`, and
/// after a `301` or `302` to a `POST`; the method of the request otherwise.
pub fn method_after_redirect(status: u16, method: &Method) -> (r: Method)
    ensures
        r@ == redirect_method(status, method@),
{
    if rewrites_on_redirect(status, method) {
        Method::Get
    } else {
        method.clone()
    }
}

impl Fetch {
    fn finish(&mut self, response: Response) -> (r: Step)
        ensures
            final(self)@ == (FetchView {
                stage: Stage::Finished,
                response: response@,
                ..old(self)@
            }),
            r@ == (StepView { deliveries: whole_delivery(), action: ActionView::Done }),
    {
        self.response = response;
        self.stage = Stage::Finished;
        Step { deliveries: deliver_whole(), action: Action::Done }
    }

    fn fail(&mut self) -> (r: Step)
        ensures
            final(self)@ == (FetchView {
                stage: Stage::Finished,
                response: ResponseView::network_error(),
                ..old(self)@
            }),
            r@ == (StepView { deliveries: whole_delivery(), action: ActionView::Done }),
    {
        self.finish(Response::network_error())
    }

    fn await_body(&mut self, response: Response) -> (r: Step)
        ensures
            final(self)@ == (FetchView {
                stage: Stage::Receiving,
                response: response@,
                ..old(self)@
            }),
            r@ == (StepView { deliveries: head_delivery(), action: ActionView::Receive }),
    {
        self.response = response;
        self.stage = Stage::Receiving;
        Step { deliveries: deliver_head(), action: Action::Receive }
    }

    fn raw(&self, status: u16, reason: String, headers: Headers) -> (r: Response)
        ensures
            r@ == raw_response(self@.request, status, reason@, headers@),
    {
        Response::new(self.request.url.clone(), self.request.url_list(), status, reason, headers)
    }

    fn dispatch(&mut self, cache: &CORSCache, now: u64) -> (r: Step)
        ensures
            (Outcome { fetch: final(self)@, cache: cache@, step: r@ }) == old(self)@.dispatch(
                cache@,
                now,
            ),
    {
        if text_eq(self.request.url.scheme(), "about") {
            if text_eq(self.request.url.path(), "blank") {
                let mut raw = self.raw(200, "OK".to_owned(), Headers::new());
                raw.finish();
                let response = raw.to_filtered(kind_for(self.tainting));
                self.finish(response)
            } else {
                self.fail()
            }
        } else if text_eq(self.request.url.scheme(), "data") {
            match decode(&self.request.url) {
                Some(content) => self.on_local(content.content_type, content.bytes),
                None => self.fail(),
            }
        } else if text_eq(self.request.url.scheme(), "file") {
            self.stage = Stage::AwaitingLocal;
            Step { deliveries: no_delivery(), action: Action::Load(self.request.url.clone()) }
        } else if is_http(self.request.url.scheme()) {
            let same = self.request.origin.same_origin(&self.request.url.origin());
            let stays = match self.tainting {
                ResponseTainting::Basic => same,
                _ => false,
            };
            let cors_mode = match self.request.mode {
                RequestMode::CORSMode => true,
                _ => false,
            };
            let tainting = if stays {
                ResponseTainting::Basic
            } else if cors_mode {
                ResponseTainting::CORSTainting
            } else {
                ResponseTainting::Opaque
            };
            let cors = !stays && cors_mode;
            self.tainting = tainting;
            if cors && needs_preflight(cache, &self.request, now) {
                let wire = make_preflight(&self.request);
                self.sent = Some(wire.clone());
                self.stage = Stage::AwaitingPreflight;
                Step { deliveries: no_delivery(), action: Action::Send(wire) }
            } else {
                let wire = make_wire_request(&self.request, cors);
                self.sent = Some(wire.clone());
                self.stage = Stage::AwaitingHead;
                Step { deliveries: no_delivery(), action: Action::Send(wire) }
            }
        } else {
            self.fail()
        }
    }

    fn redirect(&mut self, status: u16, target: Url)
        ensures
            final(self)@ == (FetchView {
                request: redirected(old(self)@.request, status, target@),
                ..old(self)@
            }),
    {
        if rewrites_on_redirect(status, &self.request.method) {
            self.request.method = Method::Get;
            self.request.body = None;
        }
        let mut previous = target;
        std::mem::swap(&mut self.request.url, &mut previous);
        let ghost before = url_views(self.request.visited@);
        self.request.visited.push(previous);
        assert(url_views(self.request.visited@) =~= before.push(old(self)@.request.url));
    }

    fn on_preflight(
        &mut self,
        status: u16,
        headers: Headers,
        cache: &mut CORSCache,
        now: u64,
    ) -> (r: Step)
        ensures
            (Outcome { fetch: final(self)@, cache: final(cache)@, step: r@ }) == old(
                self,
            )@.on_preflight(old(cache)@, now, status, headers@),
    {
        if preflight_gives_leave(&self.request, status, &headers) {
            match max_age_of(&headers) {
                Some(age) => {
                    let methods = methods_allowed_by(&headers);
                    let names = headers_allowed_by(&headers);
                    cache.insert_at(&self.request, age, methods, names, now);
                },
                None => {},
            }
            let wire = make_wire_request(&self.request, true);
            self.sent = Some(wire.clone());
            self.stage = Stage::AwaitingHead;
            Step { deliveries: no_delivery(), action: Action::Send(wire) }
        } else {
            self.fail()
        }
    }

    fn on_head(
        &mut self,
        status: u16,
        reason: String,
        headers: Headers,
        cache: &CORSCache,
        now: u64,
    ) -> (r: Step)
        ensures
            (Outcome { fetch: final(self)@, cache: cache@, step: r@ }) == old(self)@.on_head(
                cache@,
                now,
                status,
                reason@,
                headers@,
            ),
    {
        let cors = match self.tainting {
            ResponseTainting::CORSTainting => true,
            _ => false,
        };
        if cors && !passes_cors_check(&self.request, &headers) {
            return self.fail();
        }
        let location: Option<String> = match headers.get("location") {
            Some(v) => Some(v.to_owned()),
            None => None,
        };
        let redirect = 300 <= status && status < 400;
        match location {
            Some(reference) if redirect => {
                match self.request.redirect_mode {
                    RedirectMode::Error => self.fail(),
                    RedirectMode::Manual => {
                        let response = self.raw(status, reason, headers).to_filtered(
                            ResponseType::OpaqueRedirect,
                        );
                        self.await_body(response)
                    },
                    RedirectMode::Follow => {
                        if self.request.redirect_count() >= MAX_REDIRECTS {
                            self.fail()
                        } else {
                            match self.request.url.join(reference.as_str()) {
                                Some(target) => {
                                    self.redirect(status, target);
                                    self.dispatch(cache, now)
                                },
                                None => self.fail(),
                            }
                        }
                    },
                }
            },
            _ => {
                let response = self.raw(status, reason, headers).to_filtered(
                    kind_for(self.tainting),
                );
                self.await_body(response)
            },
        }
    }

    fn on_local(&mut self, content_type: String, bytes: Vec<u8>) -> (r: Step)
        ensures
            (Outcome { fetch: final(self)@, cache: Seq::empty(), step: r@ }) == old(self)@.finish(
                Seq::empty(),
                local_response(old(self)@.request, content_type@, bytes@).filtered(
                    filter_kind(old(self)@.tainting),
                ),
            ),
    {
        let mut headers = Headers::new();
        headers.set("Content-Type", content_type.as_str());
        assert(headers@ =~= seq![HeaderView { name: "Content-Type"@, value: content_type@ }]) by {
            reveal(Seq::filter);
        }
        let mut raw = Response::new(
            self.request.url.clone(),
            self.request.url_list(),
            200,
            "OK".to_owned(),
            headers,
        );
        raw.receive(&bytes);
        raw.finish();
        assert(Seq::<u8>::empty() + bytes@ =~= bytes@);
        let response = raw.to_filtered(kind_for(self.tainting));
        self.finish(response)
    }

    fn on_body(&mut self, event: TransportEvent) -> (r: Step)
        ensures
            (Outcome { fetch: final(self)@, cache: Seq::empty(), step: r@ }) == old(self)@.on_body(
                Seq::empty(),
                event@,
            ),
    {
        match event {
            TransportEvent::Chunk(bytes) => {
                self.response.receive(&bytes);
                let shows = match self.response.response_type() {
                    ResponseType::Default | ResponseType::Basic | ResponseType::CORS => true,
                    _ => false,
                };
                let deliveries = if shows {
                    one_delivery(Delivery::ResponseChunk(bytes))
                } else {
                    no_delivery()
                };
                Step { deliveries, action: Action::Receive }
            },
            TransportEvent::End => {
                self.response.finish();
                self.stage = Stage::Finished;
                Step { deliveries: one_delivery(Delivery::ResponseEof), action: Action::Done }
            },
            _ => {
                self.response = Response::network_error();
                self.stage = Stage::Finished;
                Step { deliveries: one_delivery(Delivery::ResponseEof), action: Action::Done }
            },
        }
    }

    /// Begins the fetch of `request` at the time `now`, in seconds since the
    /// Unix epoch: the fetch, and its first step.
    pub fn start_at(request: Request, cache: &CORSCache, now: u64) -> (r: (Fetch, Step))
        ensures
            (Outcome { fetch: r.0@, cache: cache@, step: r.1@ }) == started(request@, cache@, now),
    {
        let refuse = request.local_urls_only && !is_local(request.url.scheme());
        let mut fetch = Fetch {
            request,
            tainting: ResponseTainting::Basic,
            stage: Stage::Finished,
            response: Response::network_error(),
            sent: None,
        };
        let step = if refuse {
            fetch.fail()
        } else {
            fetch.dispatch(cache, now)
        };
        (fetch, step)
    }

    /// Takes what the driver reports at the time `now`, and says what comes next.
    pub fn handle_at(&mut self, event: TransportEvent, cache: &mut CORSCache, now: u64) -> (r:
        Step)
        ensures
            (Outcome { fetch: final(self)@, cache: final(cache)@, step: r@ }) == old(self)@.handle(
                old(cache)@,
                now,
                event@,
            ),
    {
        match self.stage {
            Stage::AwaitingPreflight => match event {
                TransportEvent::Head { status, reason, headers } => self.on_preflight(
                    status,
                    headers,
                    cache,
                    now,
                ),
                _ => self.fail(),
            },
            Stage::AwaitingHead => match event {
                TransportEvent::Head { status, reason, headers } => self.on_head(
                    status,
                    reason,
                    headers,
                    cache,
                    now,
                ),
                _ => self.fail(),
            },
            Stage::AwaitingLocal => match event {
                TransportEvent::Local { content_type, bytes } => self.on_local(content_type, bytes),
                _ => self.fail(),
            },
            Stage::Receiving => self.on_body(event),
            Stage::Finished => Step { deliveries: no_delivery(), action: Action::Done },
        }
    }

    /// Begins the fetch of `request` at the time of the system's clock.
    pub fn start(request: Request, cache: &CORSCache) -> (r: (Fetch, Step))
        ensures
            exists|now: u64|
                (Outcome { fetch: r.0@, cache: cache@, step: r.1@ }) == #[trigger] started(
                    request@,
                    cache@,
                    now,
                ),
    {
        let now = unix_now();
        Fetch::start_at(request, cache, now)
    }

    /// Takes what the driver reports, at the time of the system's clock.
    pub fn handle(&mut self, event: TransportEvent, cache: &mut CORSCache) -> (r: Step)
        ensures
            exists|now: u64|
                (Outcome { fetch: final(self)@, cache: final(cache)@, step: r@ }) == #[trigger] old(
                    self,
                )@.handle(old(cache)@, now, event@),
    {
        let now = unix_now();
        self.handle_at(event, cache, now)
    }

    /// Where the fetch stands.
    pub fn stage(&self) -> (r: Stage)
        ensures
            r == self@.stage,
    {
        self.stage
    }

    /// Whether the fetch is over.
    pub fn is_finished(&self) -> (r: bool)
        ensures
            r == (self@.stage == Stage::Finished),
    {
        match self.stage {
            Stage::Finished => true,
            _ => false,
        }
    }

    /// The request, as the redirects followed so far have left it.
    pub fn request(&self) -> (r: &Request)
        ensures
            r@ == self@.request,
    {
        &self.request
    }

    /// The response: a network error as long as none has come.
    pub fn response(&self) -> (r: &Response)
        ensures
            r@ == self@.response,
    {
        &self.response
    }

    /// How the URLs that the fetch has been through taint the response.
    pub fn tainting(&self) -> (r: ResponseTainting)
        ensures
            r == self@.tainting,
    {
        self.tainting
    }

    /// What was last sent to the network.
    pub fn last_sent(&self) -> (r: Option<&WireRequest>)
        ensures
            match r {
                Some(w) => self@.sent == Some(w@),
                None => self@.sent is None,
            },
    {
        match &self.sent {
            Some(w) => Some(w),
            None => None,
        }
    }

    /// Ends the fetch and hands out its response.
    pub fn into_response(self) -> (r: Response)
        ensures
            r@ == self@.response,
    {
        self.response
    }
}

} // verus!
