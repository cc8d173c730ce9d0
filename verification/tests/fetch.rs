use net_fetch::cors_cache::CORSCache;
use net_fetch::devtools::{devtools_records, HttpRequest, HttpResponse, Timing};
use net_fetch::fetch::{Action, Delivery, Fetch, ResponseTainting, Stage};
use net_fetch::headers::Headers;
use net_fetch::method::Method;
use net_fetch::request::{PipelineId, RedirectMode, Referrer, ReferrerPolicy, Request, RequestMode};
use net_fetch::resequence::Resequencer;
use net_fetch::response::{CacheState, Response, ResponseBody, ResponseType};
use net_fetch::target::{deliver, FetchTaskTarget, ResponseCollector};
use net_fetch::transport::{TransportEvent, WireRequest};
use net_fetch::web_url::{Origin as UrlOrigin, Url};

const NOW: u64 = 1_500_000_000;

/// What the server of a test answers to one request.
struct Reply {
    status: u16,
    reason: &'static str,
    headers: Headers,
    body: Vec<u8>,
}

impl Reply {
    fn ok(body: &[u8]) -> Reply {
        Reply { status: 200, reason: "OK", headers: Headers::new(), body: body.to_vec() }
    }

    fn redirect(status: u16, reason: &'static str, location: &str) -> Reply {
        let mut headers = Headers::new();
        headers.set("Location", location);
        Reply { status, reason, headers, body: vec![] }
    }
}

/// What a target was told, in order.
#[derive(Debug, PartialEq)]
enum Told {
    RequestBody,
    RequestEof,
    Response(ResponseType),
    Chunk(Vec<u8>),
    ResponseEof,
}

/// A target that notes what it is told and keeps the response that it is told last.
struct FetchResponseCollector {
    told: Vec<Told>,
    response: Option<Response>,
}

impl FetchTaskTarget for FetchResponseCollector {
    fn process_request_body(&mut self, _: &Request) {
        self.told.push(Told::RequestBody);
    }
    fn process_request_eof(&mut self, _: &Request) {
        self.told.push(Told::RequestEof);
    }
    fn process_response(&mut self, response: &Response) {
        self.told.push(Told::Response(response.response_type()));
    }
    fn process_response_chunk(&mut self, chunk: Vec<u8>) {
        self.told.push(Told::Chunk(chunk));
    }
    /// Fired when the response is fully fetched
    fn process_response_eof(&mut self, response: &Response) {
        self.told.push(Told::ResponseEof);
        self.response = Some(response.clone());
    }
}

const STYLE_SHEET: &'static [u8] = b"button { margin: 0 }\n";

/// The files of a test: one style sheet.
fn local_content(url: &Url) -> TransportEvent {
    if url.path().ends_with("/servo.css") {
        TransportEvent::Local { content_type: "text/css".to_owned(), bytes: STYLE_SHEET.to_vec() }
    } else {
        TransportEvent::Failure
    }
}

/// Drives a fetch to its end against a server that is a function, body in
/// chunks of `chunk` bytes, and returns the finished fetch.
fn drive(
    request: Request,
    cache: &mut CORSCache,
    target: &mut Option<FetchResponseCollector>,
    handler: &mut dyn FnMut(&WireRequest) -> Option<Reply>,
    chunk: usize,
) -> Fetch {
    let (mut fetch, mut step) = Fetch::start_at(request, cache, NOW);
    let mut body: Vec<u8> = vec![];
    let mut rounds = 0;
    loop {
        rounds += 1;
        assert!(rounds < 10_000);
        let deliveries = std::mem::take(&mut step.deliveries);
        if let Some(ref mut t) = *target {
            deliver(t, &fetch, deliveries);
        }
        let event = match step.action {
            Action::Send(ref wire) => match handler(wire) {
                Some(reply) => {
                    body = reply.body;
                    TransportEvent::Head {
                        status: reply.status,
                        reason: reply.reason.to_owned(),
                        headers: reply.headers,
                    }
                },
                None => TransportEvent::Failure,
            },
            Action::Load(ref url) => local_content(url),
            Action::Receive => {
                if body.is_empty() {
                    TransportEvent::End
                } else {
                    let n = chunk.min(body.len());
                    let rest = body.split_off(n);
                    let part = std::mem::replace(&mut body, rest);
                    TransportEvent::Chunk(part)
                }
            },
            Action::Done => break,
        };
        step = fetch.handle_at(event, cache, NOW);
    }
    assert_eq!(fetch.stage(), Stage::Finished);
    fetch
}

fn fetch_async(
    request: Request,
    target: FetchResponseCollector,
    handler: &mut dyn FnMut(&WireRequest) -> Option<Reply>,
) -> FetchResponseCollector {
    let mut target = Some(target);
    drive(request, &mut CORSCache::new(), &mut target, handler, 7);
    target.unwrap()
}

fn fetch_sync(request: Request, handler: &mut dyn FnMut(&WireRequest) -> Option<Reply>) -> Response {
    drive(request, &mut CORSCache::new(), &mut None, handler, 1024).into_response()
}

fn fetch_with_cors_cache(
    request: Request,
    cache: &mut CORSCache,
    handler: &mut dyn FnMut(&WireRequest) -> Option<Reply>,
) -> Response {
    drive(request, cache, &mut None, handler, 1024).into_response()
}

fn make_server() -> Url {
    Url::parse("http://localhost:8080").unwrap()
}

fn no_server(_: &WireRequest) -> Option<Reply> {
    panic!("the network was asked for a URL that is resolved locally")
}

/// The number at the end of the path of a request, or zero.
fn redirects_of(wire: &WireRequest) -> u32 {
    wire.url.path().split("/").collect::<String>().parse::<u32>().unwrap_or(0)
}

#[test]
fn test_fetch_response_is_not_network_error() {
    static MESSAGE: &'static [u8] = b"";
    let mut handler = |_: &WireRequest| Some(Reply::ok(MESSAGE));
    let url = make_server();

    let origin = url.origin();
    let mut request = Request::new(url, Some(origin), false, None);
    request.referrer = Referrer::NoReferrer;
    let fetch_response = fetch_sync(request, &mut handler);

    if fetch_response.is_network_error() {
        panic!("fetch response shouldn't be a network error");
    }
}

#[test]
fn test_fetch_response_body_matches_const_message() {
    static MESSAGE: &'static [u8] = b"Hello World!";
    let mut handler = |_: &WireRequest| Some(Reply::ok(MESSAGE));
    let url = make_server();

    let origin = url.origin();
    let mut request = Request::new(url, Some(origin), false, None);
    request.referrer = Referrer::NoReferrer;
    let fetch_response = fetch_sync(request, &mut handler);

    assert!(!fetch_response.is_network_error());
    assert_eq!(fetch_response.response_type(), ResponseType::Basic);

    match fetch_response.body() {
        ResponseBody::Done(ref body) => {
            assert_eq!(&**body, MESSAGE);
        },
        _ => panic!(),
    };
}

#[test]
fn test_fetch_aboutblank() {
    let url = Url::parse("about:blank").unwrap();
    let origin = url.origin();
    let mut request = Request::new(url, Some(origin), false, None);
    request.referrer = Referrer::NoReferrer;
    let fetch_response = fetch_sync(request, &mut no_server);
    assert!(!fetch_response.is_network_error());
    assert!(fetch_response.body() == ResponseBody::Done(vec![]));
}

#[test]
fn test_fetch_data() {
    let url = Url::parse("data:text/html,<p>Servo</p>").unwrap();
    let origin = url.origin();
    let request = Request::new(url, Some(origin), false, None);
    let expected_resp_body = "<p>Servo</p>".to_owned();
    let fetch_response = fetch_sync(request, &mut no_server);

    assert!(!fetch_response.is_network_error());
    assert_eq!(fetch_response.headers().len(), 1);
    let content_type = fetch_response.headers().get("Content-Type").unwrap();
    assert!(content_type == "text/html");
    let resp_body = fetch_response.body();

    match resp_body {
        ResponseBody::Done(ref val) => {
            assert_eq!(val, &expected_resp_body.into_bytes());
        },
        ResponseBody::Receiving(_) => {
            panic!();
        },
        ResponseBody::Empty => panic!(),
    }
}

#[test]
fn test_fetch_file() {
    let url = Url::parse("file:///resources/servo.css").unwrap();
    let origin = url.origin();
    let request = Request::new(url, Some(origin), false, None);

    let fetch_response = fetch_sync(request, &mut no_server);
    assert!(!fetch_response.is_network_error());
    assert_eq!(fetch_response.headers().len(), 1);
    let content_type = fetch_response.headers().get("Content-Type").unwrap();
    assert!(content_type == "text/css");

    let resp_body = fetch_response.body();
    let bytes = STYLE_SHEET.to_vec();

    match resp_body {
        ResponseBody::Done(ref val) => {
            assert_eq!(val, &bytes);
        },
        _ => panic!(),
    }
}

#[test]
fn a_file_that_cannot_be_read_is_a_network_error() {
    let url = Url::parse("file:///resources/missing.css").unwrap();
    let response = fetch_sync(Request::new(url, None, false, None), &mut no_server);
    assert!(response.is_network_error());
}

#[test]
fn test_cors_preflight_fetch() {
    static ACK: &'static [u8] = b"ACK";
    let mut state = 0;
    let mut handler = |request: &WireRequest| {
        let first_options = request.method == Method::Options && state == 0;
        if request.method == Method::Options {
            state += 1;
        }
        let mut response = Reply::ok(b"");
        if first_options {
            assert!(request.headers.has("Access-Control-Request-Method"));
            assert!(request.headers.has("Access-Control-Request-Headers"));
            assert!(!request.headers.get("Referer").unwrap().contains("a.html"));
            response.headers.set("Access-Control-Allow-Origin", "*");
            response.headers.set("Access-Control-Allow-Credentials", "true");
            response.headers.set("Access-Control-Allow-Methods", "GET");
        } else {
            response.headers.set("Access-Control-Allow-Origin", "*");
            response.body = ACK.to_vec();
        }
        Some(response)
    };
    let url = make_server();

    let target_url = url.join("a.html").unwrap();

    let origin = UrlOrigin::new_opaque(1);
    let mut request = Request::new(url.clone(), Some(origin), false, None);
    request.referrer = Referrer::ReferrerUrl(target_url);
    request.referrer_policy = Some(ReferrerPolicy::Origin);
    request.use_cors_preflight = true;
    request.mode = RequestMode::CORSMode;
    let fetch_response = fetch_sync(request, &mut handler);

    assert!(!fetch_response.is_network_error());

    match fetch_response.body() {
        ResponseBody::Done(ref body) => assert_eq!(&**body, ACK),
        _ => panic!(),
    };
}

#[test]
fn test_cors_preflight_cache_fetch() {
    static ACK: &'static [u8] = b"ACK";
    let mut counter = 0;
    let mut cache = CORSCache::new();
    let mut handler = |request: &WireRequest| {
        let first_options = request.method == Method::Options && counter == 0;
        if request.method == Method::Options {
            counter += 1;
        }
        let mut response = Reply::ok(b"");
        if first_options {
            assert!(request.headers.has("Access-Control-Request-Method"));
            assert!(request.headers.has("Access-Control-Request-Headers"));
            response.headers.set("Access-Control-Allow-Origin", "*");
            response.headers.set("Access-Control-Allow-Credentials", "true");
            response.headers.set("Access-Control-Allow-Methods", "GET");
            response.headers.set("Access-Control-Max-Age", "6000");
        } else {
            response.headers.set("Access-Control-Allow-Origin", "*");
            response.body = ACK.to_vec();
        }
        Some(response)
    };
    let url = make_server();

    let origin = UrlOrigin::new_opaque(1);
    let mut request = Request::new(url.clone(), Some(origin.clone()), false, None);
    request.referrer = Referrer::NoReferrer;
    request.use_cors_preflight = true;
    request.mode = RequestMode::CORSMode;
    let wrapped_request0 = request.clone();
    let wrapped_request1 = request;

    let fetch_response0 = fetch_with_cors_cache(wrapped_request0.clone(), &mut cache, &mut handler);
    let fetch_response1 = fetch_with_cors_cache(wrapped_request1.clone(), &mut cache, &mut handler);

    assert!(!fetch_response0.is_network_error() && !fetch_response1.is_network_error());

    // The response from the CORS-preflight cache was used
    assert_eq!(1, counter);

    // The entry exists in the CORS-preflight cache
    assert_eq!(true, cache.match_method_at(&wrapped_request0, &Method::Get, NOW));
    assert_eq!(true, cache.match_method_at(&wrapped_request1, &Method::Get, NOW));

    match fetch_response0.body() {
        ResponseBody::Done(ref body) => assert_eq!(&**body, ACK),
        _ => panic!(),
    };
    match fetch_response1.body() {
        ResponseBody::Done(ref body) => assert_eq!(&**body, ACK),
        _ => panic!(),
    };
}

#[test]
fn test_cors_preflight_fetch_network_error() {
    static ACK: &'static [u8] = b"ACK";
    let mut state = 0;
    let mut handler = |request: &WireRequest| {
        let first_options = request.method == Method::Options && state == 0;
        if request.method == Method::Options {
            state += 1;
        }
        let mut response = Reply::ok(b"");
        if first_options {
            assert!(request.headers.has("Access-Control-Request-Method"));
            assert!(request.headers.has("Access-Control-Request-Headers"));
            response.headers.set("Access-Control-Allow-Origin", "*");
            response.headers.set("Access-Control-Allow-Credentials", "true");
            response.headers.set("Access-Control-Allow-Methods", "GET");
        } else {
            response.headers.set("Access-Control-Allow-Origin", "*");
            response.body = ACK.to_vec();
        }
        Some(response)
    };
    let url = make_server();

    let origin = UrlOrigin::new_opaque(1);
    let mut request = Request::new(url, Some(origin), false, None);
    request.method = Method::Extension("CHICKEN".to_owned());
    request.referrer = Referrer::NoReferrer;
    request.use_cors_preflight = true;
    request.mode = RequestMode::CORSMode;
    let fetch_response = fetch_sync(request, &mut handler);

    assert!(fetch_response.is_network_error());
}

#[test]
fn test_fetch_response_is_basic_filtered() {
    static MESSAGE: &'static [u8] = b"";
    let mut handler = |_: &WireRequest| {
        let mut response = Reply::ok(MESSAGE);
        response.headers.set("Set-Cookie", "");
        // this header is obsolete, but a server may still send it
        response.headers.set("Set-Cookie2", "");
        Some(response)
    };
    let url = make_server();

    let origin = url.origin();
    let mut request = Request::new(url, Some(origin), false, None);
    request.referrer = Referrer::NoReferrer;
    let fetch_response = fetch_sync(request, &mut handler);

    assert!(!fetch_response.is_network_error());
    assert_eq!(fetch_response.response_type(), ResponseType::Basic);

    let headers = fetch_response.headers();
    assert!(!headers.has("Set-Cookie"));
    assert!(headers.get("Set-Cookie2").is_none());
}

#[test]
fn test_fetch_response_is_cors_filtered() {
    static MESSAGE: &'static [u8] = b"";
    let mut handler = |_: &WireRequest| {
        let mut response = Reply::ok(MESSAGE);
        // this is mandatory for the Cors Check to pass
        response.headers.set("Access-Control-Allow-Origin", "*");

        // these are the headers that should be kept after filtering
        response.headers.set("Cache-Control", "");
        response.headers.set("Content-Language", "");
        response.headers.set("Content-Type", "text/html");
        response.headers.set("Expires", "Thu, 02 Jan 2020 00:00:00 GMT");
        response.headers.set("Last-Modified", "Wed, 01 Jan 2020 00:00:00 GMT");
        response.headers.set("Pragma", "no-cache");

        // these headers should not be kept after filtering, even though they are given a pass
        response.headers.set("Set-Cookie", "");
        response.headers.set("Set-Cookie2", "");
        response.headers.set("Access-Control-Allow-Headers", "set-cookie, set-cookie2");
        Some(response)
    };
    let url = make_server();

    // an origin mis-match will stop it from defaulting to a basic filtered response
    let origin = UrlOrigin::new_opaque(1);
    let mut request = Request::new(url, Some(origin), false, None);
    request.referrer = Referrer::NoReferrer;
    request.mode = RequestMode::CORSMode;
    let fetch_response = fetch_sync(request, &mut handler);

    assert!(!fetch_response.is_network_error());
    assert_eq!(fetch_response.response_type(), ResponseType::CORS);

    let headers = fetch_response.headers();
    assert!(headers.has("Cache-Control"));
    assert!(headers.has("Content-Language"));
    assert!(headers.has("Content-Type"));
    assert!(headers.has("Expires"));
    assert!(headers.has("Last-Modified"));
    assert!(headers.has("Pragma"));

    assert!(!headers.has("Access-Control-Allow-Origin"));
    assert!(!headers.has("Set-Cookie"));
    assert!(headers.get("Set-Cookie2").is_none());
}

#[test]
fn test_fetch_response_is_opaque_filtered() {
    static MESSAGE: &'static [u8] = b"";
    let mut handler = |_: &WireRequest| Some(Reply::ok(MESSAGE));
    let url = make_server();

    // an origin mis-match will fall through to an Opaque filtered response
    let origin = UrlOrigin::new_opaque(1);
    let mut request = Request::new(url, Some(origin), false, None);
    request.referrer = Referrer::NoReferrer;
    let fetch_response = fetch_sync(request, &mut handler);

    assert!(!fetch_response.is_network_error());
    assert_eq!(fetch_response.response_type(), ResponseType::Opaque);

    assert!(fetch_response.url_list().len() == 0);
    assert!(fetch_response.url().is_none());
    // this also asserts that status message is "the empty byte sequence"
    assert!(fetch_response.status().is_none());
    assert_eq!(*fetch_response.headers(), Headers::new());
    match fetch_response.body() {
        ResponseBody::Empty => {},
        _ => panic!(),
    }
    match fetch_response.cache_state() {
        CacheState::Uncached => {},
        _ => panic!(),
    }
}

fn redirect_once(request: &WireRequest) -> Option<Reply> {
    static MESSAGE: &'static [u8] = b"";
    let redirects = redirects_of(request);

    if redirects == 1 {
        Some(Reply::ok(MESSAGE))
    } else {
        let url = format!("{}", 1);
        Some(Reply::redirect(302, "Found", &url))
    }
}

#[test]
fn test_fetch_response_is_opaque_redirect_filtered() {
    let url = make_server();

    let origin = url.origin();
    let mut request = Request::new(url, Some(origin), false, None);
    request.referrer = Referrer::NoReferrer;
    request.redirect_mode = RedirectMode::Manual;
    let fetch_response = fetch_sync(request, &mut redirect_once);

    assert!(!fetch_response.is_network_error());
    assert_eq!(fetch_response.response_type(), ResponseType::OpaqueRedirect);

    // this also asserts that status message is "the empty byte sequence"
    assert!(fetch_response.status().is_none());
    assert_eq!(*fetch_response.headers(), Headers::new());
    match fetch_response.body() {
        ResponseBody::Empty => {},
        _ => panic!(),
    }
    match fetch_response.cache_state() {
        CacheState::Uncached => {},
        _ => panic!(),
    }
}

#[test]
fn test_fetch_with_local_urls_only() {
    // If flag `local_urls_only` is set, fetching a non-local URL must result in network error.

    static MESSAGE: &'static [u8] = b"";
    let server_url = make_server();

    let do_fetch = |url: Url| {
        let origin = url.origin();
        let mut request = Request::new(url, Some(origin), false, None);
        request.referrer = Referrer::NoReferrer;

        // Set the flag.
        request.local_urls_only = true;

        fetch_sync(request, &mut |_: &WireRequest| Some(Reply::ok(MESSAGE)))
    };

    let local_url = Url::parse("about:blank").unwrap();
    let local_response = do_fetch(local_url);
    let server_response = do_fetch(server_url);

    assert!(!local_response.is_network_error());
    assert!(server_response.is_network_error());
}

fn setup_server_and_fetch(message: &'static [u8], redirect_cap: u32) -> Response {
    let mut handler = move |request: &WireRequest| {
        let redirects = redirects_of(request);

        if redirects >= redirect_cap {
            Some(Reply::ok(message))
        } else {
            let url = format!("{redirects}", redirects = redirects + 1);
            Some(Reply::redirect(302, "Found", &url))
        }
    };

    let url = make_server();

    let origin = url.origin();
    let mut request = Request::new(url, Some(origin), false, None);
    request.referrer = Referrer::NoReferrer;
    fetch_sync(request, &mut handler)
}

#[test]
fn test_fetch_redirect_count_ceiling() {
    static MESSAGE: &'static [u8] = b"no more redirects";
    // how many redirects to cause
    let redirect_cap = 20;

    let fetch_response = setup_server_and_fetch(MESSAGE, redirect_cap);

    assert!(!fetch_response.is_network_error());
    assert_eq!(fetch_response.response_type(), ResponseType::Basic);

    match fetch_response.body() {
        ResponseBody::Done(ref body) => {
            assert_eq!(&**body, MESSAGE);
        },
        _ => panic!(),
    };
}

#[test]
fn test_fetch_redirect_count_failure() {
    static MESSAGE: &'static [u8] = b"this message shouldn't be reachable";
    // how many redirects to cause
    let redirect_cap = 21;

    let fetch_response = setup_server_and_fetch(MESSAGE, redirect_cap);

    assert!(fetch_response.is_network_error());

    match fetch_response.body() {
        ResponseBody::Done(_) | ResponseBody::Receiving(_) => panic!(),
        _ => {},
    };
}

fn test_fetch_redirect_updates_method_runner(tx: &mut Vec<bool>, status_code: u16, method: Method) {
    let handler_method = method.clone();

    let mut handler = |request: &WireRequest| {
        let redirects = redirects_of(request);

        let mut test_pass = true;
        let mut response = Reply::ok(b"");

        if redirects == 0 {
            response = Reply::redirect(307, "Temporary Redirect", "1");
        } else if redirects == 1 {
            // this makes sure that the request method does't change from the wrong status code
            if handler_method != Method::Get && request.method == Method::Get {
                test_pass = false;
            }
            response = Reply::redirect(status_code, "", "2");
        } else if request.method != Method::Get {
            test_pass = false;
        }

        // the first time this handler is reached, nothing is being tested, so don't send anything
        if redirects > 0 {
            tx.push(test_pass);
        }
        Some(response)
    };

    let url = make_server();

    let origin = url.origin();
    let mut request = Request::new(url, Some(origin), false, None);
    request.referrer = Referrer::NoReferrer;
    request.method = method;

    let _ = fetch_sync(request, &mut handler);
}

#[test]
fn test_fetch_redirect_updates_method() {
    let mut rx: Vec<bool> = vec![];

    test_fetch_redirect_updates_method_runner(&mut rx, 301, Method::Post);
    assert_eq!(rx.remove(0), true);
    assert_eq!(rx.remove(0), true);
    // make sure the test doesn't send more data than expected
    assert_eq!(rx.is_empty(), true);

    test_fetch_redirect_updates_method_runner(&mut rx, 302, Method::Post);
    assert_eq!(rx.remove(0), true);
    assert_eq!(rx.remove(0), true);
    assert_eq!(rx.is_empty(), true);

    test_fetch_redirect_updates_method_runner(&mut rx, 303, Method::Get);
    assert_eq!(rx.remove(0), true);
    assert_eq!(rx.remove(0), true);
    assert_eq!(rx.is_empty(), true);

    let extension = Method::Extension("FOO".to_owned());

    test_fetch_redirect_updates_method_runner(&mut rx, 301, extension.clone());
    assert_eq!(rx.remove(0), true);
    // for MovedPermanently and Found, Method should only be changed if it was Post
    assert_eq!(rx.remove(0), false);
    assert_eq!(rx.is_empty(), true);

    test_fetch_redirect_updates_method_runner(&mut rx, 302, extension.clone());
    assert_eq!(rx.remove(0), true);
    assert_eq!(rx.remove(0), false);
    assert_eq!(rx.is_empty(), true);

    test_fetch_redirect_updates_method_runner(&mut rx, 303, extension.clone());
    assert_eq!(rx.remove(0), true);
    // for SeeOther, Method should always be changed, so this should be true
    assert_eq!(rx.remove(0), true);
    assert_eq!(rx.is_empty(), true);
}

fn response_is_done(response: &Response) -> bool {
    let response_complete = match response.response_type() {
        ResponseType::Default | ResponseType::Basic | ResponseType::CORS => {
            response.body().is_done()
        },
        // if the internal response cannot have a body, it shouldn't block the "done" state
        ResponseType::Opaque | ResponseType::OpaqueRedirect | ResponseType::Error => true,
    };

    let internal_complete = if let Some(res) = response.internal_response() {
        res.body().is_done()
    } else {
        true
    };

    response_complete && internal_complete
}

fn new_collector() -> FetchResponseCollector {
    FetchResponseCollector { told: vec![], response: None }
}

#[test]
fn test_fetch_async_returns_complete_response() {
    static MESSAGE: &'static [u8] = b"this message should be retrieved in full";
    let mut handler = |_: &WireRequest| Some(Reply::ok(MESSAGE));
    let url = make_server();

    let origin = url.origin();
    let mut request = Request::new(url, Some(origin), false, None);
    request.referrer = Referrer::NoReferrer;

    let listener = fetch_async(request, new_collector(), &mut handler);
    let fetch_response = listener.response.unwrap();

    assert_eq!(response_is_done(&fetch_response), true);
    assert_eq!(fetch_response.is_done(), true);
}

#[test]
fn test_opaque_filtered_fetch_async_returns_complete_response() {
    static MESSAGE: &'static [u8] = b"";
    let mut handler = |_: &WireRequest| Some(Reply::ok(MESSAGE));
    let url = make_server();

    // an origin mis-match will fall through to an Opaque filtered response
    let origin = UrlOrigin::new_opaque(1);
    let mut request = Request::new(url, Some(origin), false, None);
    request.referrer = Referrer::NoReferrer;

    let listener = fetch_async(request, new_collector(), &mut handler);
    let fetch_response = listener.response.unwrap();

    assert_eq!(fetch_response.response_type(), ResponseType::Opaque);
    assert_eq!(response_is_done(&fetch_response), true);
}

#[test]
fn test_opaque_redirect_filtered_fetch_async_returns_complete_response() {
    let url = make_server();

    let origin = url.origin();
    let mut request = Request::new(url, Some(origin), false, None);
    request.referrer = Referrer::NoReferrer;
    request.redirect_mode = RedirectMode::Manual;

    let listener = fetch_async(request, new_collector(), &mut redirect_once);
    let fetch_response = listener.response.unwrap();

    assert_eq!(fetch_response.response_type(), ResponseType::OpaqueRedirect);
    assert_eq!(response_is_done(&fetch_response), true);
}

#[test]
fn test_fetch_with_devtools() {
    static MESSAGE: &'static [u8] = b"Yay!";
    let mut handler = |_: &WireRequest| {
        let mut response = Reply::ok(MESSAGE);
        response.headers.set("Content-Length", "4");
        response.headers.set("Date", "Wed, 01 Jan 2020 00:00:00 GMT");
        Some(response)
    };

    let url = make_server();

    let origin = url.origin();
    let pipeline_id = PipelineId(0);
    let mut request = Request::new(url.clone(), Some(origin), false, Some(pipeline_id));
    request.referrer = Referrer::NoReferrer;

    let fetch = drive(request, &mut CORSCache::new(), &mut None, &mut handler, 1024);

    // notification for devtools
    let timing = Timing { started_date_time: NOW, time_stamp: 0, connect_time: 3, send_time: 2 };
    let (devhttprequest, devhttpresponse) = devtools_records(&fetch, timing).unwrap();

    let httprequest = HttpRequest {
        url: url,
        method: Method::Get,
        headers: Headers::new(),
        has_body: false,
        pipeline_id: pipeline_id,
        timing: timing,
    };

    let content = "Yay!";
    let mut response_headers = Headers::new();
    response_headers.set("Content-Length", &content.len().to_string());

    let httpresponse = HttpResponse {
        headers: response_headers,
        status_code: 200,
        status_reason: "OK".to_owned(),
        pipeline_id: pipeline_id,
    };

    assert_eq!(devhttprequest, httprequest);
    assert_eq!(devhttpresponse, httpresponse);
}

#[test]
fn devtools_see_the_unfiltered_response_of_the_last_hop() {
    let mut handler = |request: &WireRequest| {
        if redirects_of(request) == 0 {
            Some(Reply::redirect(303, "See Other", "1"))
        } else {
            let mut response = Reply::ok(b"secret");
            response.headers.set("Set-Cookie", "a=b");
            Some(response)
        }
    };
    let url = make_server();
    let mut request = Request::new(url, Some(UrlOrigin::new_opaque(1)), false, Some(PipelineId(4)));
    request.method = Method::Put;
    request.body = Some(b"payload".to_vec());
    let fetch = drive(request, &mut CORSCache::new(), &mut None, &mut handler, 1024);
    assert_eq!(fetch.response().response_type(), ResponseType::Opaque);
    let timing = Timing { started_date_time: 1, time_stamp: 2, connect_time: 3, send_time: 4 };
    let (sent, received) = devtools_records(&fetch, timing).unwrap();
    assert_eq!(sent.method, Method::Get);
    assert_eq!(sent.has_body, false);
    assert_eq!(sent.url.as_str(), "http://localhost:8080/1");
    assert_eq!(received.status_code, 200);
    assert_eq!(received.headers.get("Set-Cookie"), Some("a=b"));
    // Without a pipeline there is nothing to tell.
    let mut silent = Request::new(make_server(), None, false, None);
    silent.referrer = Referrer::NoReferrer;
    let fetch = drive(silent, &mut CORSCache::new(), &mut None, &mut handler, 1024);
    assert!(devtools_records(&fetch, timing).is_none());
}

#[test]
fn a_redirect_chain_of_twenty_lists_twenty_one_urls() {
    let fetch_response = setup_server_and_fetch(b"end", 20);
    assert_eq!(fetch_response.url_list().len(), 21);
    assert_eq!(fetch_response.url().unwrap().as_str(), "http://localhost:8080/20");
    let none = setup_server_and_fetch(b"end", 0);
    assert_eq!(none.url_list().len(), 1);
    let three = setup_server_and_fetch(b"end", 3);
    assert_eq!(three.url_list().len(), 4);
    assert_eq!(three.url_list()[0].as_str(), "http://localhost:8080/");
    assert_eq!(three.url_list()[3].as_str(), "http://localhost:8080/3");
}

#[test]
fn the_twenty_first_redirect_is_not_requested() {
    let mut seen: Vec<u32> = vec![];
    let mut handler = |request: &WireRequest| {
        let redirects = redirects_of(request);
        seen.push(redirects);
        Some(Reply::redirect(302, "Found", &format!("{}", redirects + 1)))
    };
    let url = make_server();
    let origin = url.origin();
    let request = Request::new(url, Some(origin), false, None);
    let response = fetch_sync(request, &mut handler);
    assert!(response.is_network_error());
    assert_eq!(seen.len(), 21);
    assert_eq!(seen[20], 20);
}

#[test]
fn redirect_mode_error_makes_a_redirect_a_network_error() {
    let url = make_server();
    let origin = url.origin();
    let mut request = Request::new(url, Some(origin), false, None);
    request.redirect_mode = RedirectMode::Error;
    let response = fetch_sync(request, &mut redirect_once);
    assert!(response.is_network_error());
}

#[test]
fn a_redirect_without_location_is_an_ordinary_response() {
    let mut handler = |_: &WireRequest| {
        Some(Reply { status: 304, reason: "Not Modified", headers: Headers::new(), body: vec![] })
    };
    let url = make_server();
    let origin = url.origin();
    let request = Request::new(url, Some(origin), false, None);
    let response = fetch_sync(request, &mut handler);
    assert_eq!(response.response_type(), ResponseType::Basic);
    assert_eq!(response.status(), Some((304, "Not Modified")));
}

#[test]
fn a_location_that_does_not_resolve_is_a_network_error() {
    let mut handler = |_: &WireRequest| Some(Reply::redirect(302, "Found", "http://[::1"));
    let url = make_server();
    let origin = url.origin();
    let request = Request::new(url, Some(origin), false, None);
    assert!(fetch_sync(request, &mut handler).is_network_error());
}

#[test]
fn a_failing_transport_is_a_network_error() {
    let url = make_server();
    let origin = url.origin();
    let request = Request::new(url, Some(origin), false, None);
    let response = fetch_sync(request, &mut |_: &WireRequest| None);
    assert!(response.is_network_error());
    assert!(response.is_done());
    assert_eq!(response.body(), ResponseBody::Empty);
}

#[test]
fn a_failure_in_the_middle_of_the_body_discards_the_response() {
    let url = make_server();
    let origin = url.origin();
    let request = Request::new(url, Some(origin), false, None);
    let mut cache = CORSCache::new();
    let (mut fetch, step) = Fetch::start_at(request, &cache, NOW);
    assert!(matches!(step.action, Action::Send(_)));
    assert!(step.deliveries.is_empty());
    let step = fetch.handle_at(
        TransportEvent::Head { status: 200, reason: "OK".to_owned(), headers: Headers::new() },
        &mut cache,
        NOW,
    );
    assert_eq!(step.action, Action::Receive);
    assert_eq!(
        step.deliveries,
        vec![Delivery::RequestBody, Delivery::RequestEof, Delivery::Response]
    );
    assert_eq!(fetch.stage(), Stage::Receiving);
    assert!(!fetch.response().is_done());
    let step = fetch.handle_at(TransportEvent::Chunk(b"par".to_vec()), &mut cache, NOW);
    assert_eq!(step.deliveries, vec![Delivery::ResponseChunk(b"par".to_vec())]);
    assert_eq!(fetch.response().body(), ResponseBody::Receiving(b"par".to_vec()));
    let step = fetch.handle_at(TransportEvent::Failure, &mut cache, NOW);
    assert_eq!(step.action, Action::Done);
    assert_eq!(step.deliveries, vec![Delivery::ResponseEof]);
    assert!(fetch.response().is_network_error());
    // A finished fetch stays as it is.
    let step = fetch.handle_at(TransportEvent::End, &mut cache, NOW);
    assert_eq!(step.action, Action::Done);
    assert!(step.deliveries.is_empty());
    assert!(fetch.response().is_network_error());
}

#[test]
fn the_target_is_told_everything_in_order() {
    static MESSAGE: &'static [u8] = b"0123456789";
    let mut handler = |_: &WireRequest| Some(Reply::ok(MESSAGE));
    let url = make_server();
    let origin = url.origin();
    let request = Request::new(url, Some(origin), false, None);
    let listener = fetch_async(request, new_collector(), &mut handler);
    assert_eq!(
        listener.told,
        vec![
            Told::RequestBody,
            Told::RequestEof,
            Told::Response(ResponseType::Basic),
            Told::Chunk(b"0123456".to_vec()),
            Told::Chunk(b"789".to_vec()),
            Told::ResponseEof,
        ]
    );
}

#[test]
fn the_target_of_an_opaque_fetch_gets_no_chunk() {
    static MESSAGE: &'static [u8] = b"0123456789";
    let mut handler = |_: &WireRequest| Some(Reply::ok(MESSAGE));
    let request = Request::new(make_server(), Some(UrlOrigin::new_opaque(3)), false, None);
    let listener = fetch_async(request, new_collector(), &mut handler);
    assert_eq!(
        listener.told,
        vec![
            Told::RequestBody,
            Told::RequestEof,
            Told::Response(ResponseType::Opaque),
            Told::ResponseEof,
        ]
    );
    let response = listener.response.unwrap();
    assert_eq!(response.body(), ResponseBody::Empty);
    // What the server sent is kept inside.
    let inner = response.internal_response().unwrap();
    assert_eq!(inner.body(), ResponseBody::Done(MESSAGE.to_vec()));
    assert_eq!(inner.status(), Some((200, "OK")));
}

#[test]
fn sync_and_async_fetch_agree() {
    static MESSAGE: &'static [u8] = b"the same bytes either way";
    let mut handler = |_: &WireRequest| Some(Reply::ok(MESSAGE));
    let url = make_server();
    let origin = url.origin();
    let request = Request::new(url, Some(origin), false, None);
    let waited = fetch_sync(request.clone(), &mut handler);
    let told = fetch_async(request, new_collector(), &mut handler).response.unwrap();
    assert!(waited.is_done());
    assert!(told.is_done());
    assert_eq!(waited.response_type(), told.response_type());
    assert_eq!(waited.body(), told.body());
    assert_eq!(waited.body(), ResponseBody::Done(MESSAGE.to_vec()));
}

#[test]
fn the_library_collector_keeps_the_final_response() {
    let url = Url::parse("about:blank").unwrap();
    let request = Request::new(url, None, false, None);
    let cache = CORSCache::new();
    let (fetch, step) = Fetch::start_at(request, &cache, NOW);
    assert_eq!(step.action, Action::Done);
    let mut collector = ResponseCollector::new();
    deliver(&mut collector, &fetch, step.deliveries);
    let response = collector.into_response().unwrap();
    assert_eq!(response.response_type(), ResponseType::Basic);
    assert_eq!(response.cache_state(), CacheState::Uncached);
    assert_eq!(response.headers().len(), 0);
    assert_eq!(response.url().unwrap().as_str(), "about:blank");
}

#[test]
fn other_about_urls_and_unknown_schemes_are_network_errors() {
    let about = Url::parse("about:config").unwrap();
    let response = fetch_sync(Request::new(about, None, false, None), &mut no_server);
    assert!(response.is_network_error());
    let ftp = Url::parse("ftp://example.org/file").unwrap();
    let origin = ftp.origin();
    let response = fetch_sync(Request::new(ftp, Some(origin), false, None), &mut no_server);
    assert!(response.is_network_error());
}

#[test]
fn local_urls_only_lets_data_urls_through() {
    let url = Url::parse("data:text/plain,hi").unwrap();
    let mut request = Request::new(url, None, false, None);
    request.local_urls_only = true;
    let response = fetch_sync(request, &mut no_server);
    assert_eq!(response.response_type(), ResponseType::Basic);
    assert_eq!(response.body(), ResponseBody::Done(b"hi".to_vec()));
}

#[test]
fn data_urls_are_read_without_the_driver() {
    let url = Url::parse("data:text/plain;charset=utf-8;base64,SGVsbG8sIFdvcmxkIQ==").unwrap();
    let cache = CORSCache::new();
    let (fetch, step) = Fetch::start_at(Request::new(url, None, false, None), &cache, NOW);
    assert_eq!(step.action, Action::Done);
    let response = fetch.into_response();
    assert_eq!(response.response_type(), ResponseType::Basic);
    assert_eq!(response.status(), Some((200, "OK")));
    assert_eq!(response.headers().get("content-type"), Some("text/plain;charset=utf-8"));
    assert_eq!(response.body(), ResponseBody::Done(b"Hello, World!".to_vec()));
    // Without a comma there is nothing to read.
    let url = Url::parse("data:text/plain").unwrap();
    let (fetch, _) = Fetch::start_at(Request::new(url, None, false, None), &cache, NOW);
    assert!(fetch.response().is_network_error());
}

#[test]
fn the_referrer_is_told_as_the_policy_lets_it() {
    let url = Url::parse("http://localhost:8080/target").unwrap();
    let referrer = Url::parse("https://a.example/page?q=1#part").unwrap();
    let told = |policy: Option<ReferrerPolicy>, referrer: &Url| {
        let mut request = Request::new(url.clone(), None, false, None);
        request.referrer = Referrer::ReferrerUrl(referrer.clone());
        request.referrer_policy = policy;
        let cache = CORSCache::new();
        match Fetch::start_at(request, &cache, NOW).1.action {
            Action::Send(wire) => wire.headers.get("Referer").map(|v| v.to_owned()),
            _ => panic!(),
        }
    };
    assert_eq!(told(Some(ReferrerPolicy::NoReferrer), &referrer), None);
    // From https to http is a downgrade.
    assert_eq!(told(None, &referrer), None);
    assert_eq!(told(Some(ReferrerPolicy::NoReferrerWhenDowngrade), &referrer), None);
    assert_eq!(
        told(Some(ReferrerPolicy::Origin), &referrer),
        Some("https://a.example/".to_owned())
    );
    assert_eq!(told(Some(ReferrerPolicy::SameOrigin), &referrer), None);
    assert_eq!(
        told(Some(ReferrerPolicy::OriginWhenCrossOrigin), &referrer),
        Some("https://a.example/".to_owned())
    );
    assert_eq!(
        told(Some(ReferrerPolicy::UnsafeUrl), &referrer),
        Some("https://a.example/page?q=1".to_owned())
    );
    let near = Url::parse("http://localhost:8080/from#frag").unwrap();
    assert_eq!(told(None, &near), Some("http://localhost:8080/from".to_owned()));
    assert_eq!(
        told(Some(ReferrerPolicy::SameOrigin), &near),
        Some("http://localhost:8080/from".to_owned())
    );
    assert_eq!(
        told(Some(ReferrerPolicy::OriginWhenCrossOrigin), &near),
        Some("http://localhost:8080/from".to_owned())
    );
}

#[test]
fn a_cors_response_without_leave_is_a_network_error() {
    let mut handler = |_: &WireRequest| Some(Reply::ok(b"no leave"));
    let mut request = Request::new(make_server(), Some(UrlOrigin::new_opaque(1)), false, None);
    request.mode = RequestMode::CORSMode;
    assert!(fetch_sync(request, &mut handler).is_network_error());
}

#[test]
fn a_cors_request_names_its_origin_and_is_answered_by_name() {
    let origin = Url::parse("https://app.example:8443/page").unwrap().origin();
    let mut sent_origin = None;
    let mut handler = |request: &WireRequest| {
        sent_origin = request.headers.get("Origin").map(|v| v.to_owned());
        let mut response = Reply::ok(b"shared");
        response.headers.set("Access-Control-Allow-Origin", "https://app.example:8443");
        response.headers.set("Access-Control-Expose-Headers", "X-Visible, x-other");
        response.headers.set("X-Visible", "1");
        response.headers.set("X-Hidden", "2");
        Some(response)
    };
    let mut request = Request::new(make_server(), Some(origin), false, None);
    request.mode = RequestMode::CORSMode;
    let response = fetch_sync(request, &mut handler);
    assert_eq!(sent_origin, Some("https://app.example:8443".to_owned()));
    assert_eq!(response.response_type(), ResponseType::CORS);
    assert_eq!(response.headers().len(), 1);
    assert_eq!(response.headers().get("x-visible"), Some("1"));
    assert_eq!(response.body(), ResponseBody::Done(b"shared".to_vec()));
}

#[test]
fn a_request_with_an_unsafe_header_is_preflighted() {
    let options = std::cell::Cell::new(0);
    let asked = std::cell::RefCell::new(None);
    let mut handler = |request: &WireRequest| {
        let mut response = Reply::ok(b"done");
        response.headers.set("Access-Control-Allow-Origin", "*");
        if request.method == Method::Options {
            options.set(options.get() + 1);
            *asked.borrow_mut() =
                request.headers.get("Access-Control-Request-Headers").map(|v| v.to_owned());
            response.headers.set("Access-Control-Allow-Methods", "PUT");
            response.headers.set("Access-Control-Allow-Headers", "x-token , X-Trace");
        }
        Some(response)
    };
    let mut request = Request::new(make_server(), Some(UrlOrigin::new_opaque(9)), false, None);
    request.mode = RequestMode::CORSMode;
    request.method = Method::Put;
    request.headers.set("Accept", "*/*");
    request.headers.set("X-Token", "t");
    request.headers.set("Content-Type", "text/plain; charset=utf-8");
    request.headers.set("x-trace", "1");
    let response = fetch_sync(request.clone(), &mut handler);
    assert_eq!(response.response_type(), ResponseType::CORS);
    assert_eq!(options.get(), 1);
    assert_eq!(*asked.borrow(), Some("X-Token,x-trace".to_owned()));
    // A header that the server does not list stops the fetch.
    request.headers.set("X-Unlisted", "1");
    assert!(fetch_sync(request, &mut handler).is_network_error());
}

#[test]
fn a_cached_preflight_runs_out() {
    let mut options = 0;
    let mut handler = |request: &WireRequest| {
        let mut response = Reply::ok(b"");
        response.headers.set("Access-Control-Allow-Origin", "*");
        if request.method == Method::Options {
            options += 1;
            response.headers.set("Access-Control-Allow-Methods", "GET");
            response.headers.set("Access-Control-Max-Age", "60");
        }
        Some(response)
    };
    let mut request = Request::new(make_server(), Some(UrlOrigin::new_opaque(1)), false, None);
    request.use_cors_preflight = true;
    request.mode = RequestMode::CORSMode;
    let mut cache = CORSCache::new();
    fetch_with_cors_cache(request.clone(), &mut cache, &mut handler);
    assert!(cache.match_method_at(&request, &Method::Get, NOW + 59));
    assert!(!cache.match_method_at(&request, &Method::Get, NOW + 60));
    assert!(!cache.match_method_at(&request, &Method::Post, NOW));
    // Another origin has no leave.
    let mut other = request.clone();
    other.origin = UrlOrigin::new_opaque(2);
    assert!(!cache.match_method_at(&other, &Method::Get, NOW));
    // At a later time the fetch asks again.
    let (_, step) = Fetch::start_at(request.clone(), &cache, NOW + 60);
    match step.action {
        Action::Send(wire) => assert_eq!(wire.method, Method::Options),
        _ => panic!(),
    }
    let (_, step) = Fetch::start_at(request, &cache, NOW + 59);
    match step.action {
        Action::Send(wire) => assert_eq!(wire.method, Method::Get),
        _ => panic!(),
    }
}

#[test]
fn a_body_that_comes_out_of_order_is_delivered_in_order() {
    let url = make_server();
    let origin = url.origin();
    let request = Request::new(url, Some(origin), false, None);
    let mut cache = CORSCache::new();
    let (mut fetch, _) = Fetch::start_at(request, &cache, NOW);
    fetch.handle_at(
        TransportEvent::Head { status: 200, reason: "OK".to_owned(), headers: Headers::new() },
        &mut cache,
        NOW,
    );
    let mut target = new_collector();
    let mut order = Resequencer::new();
    for (index, bytes) in [(3u64, "lo"), (1, "l"), (0, "he"), (1, "x"), (2, "")] {
        for chunk in order.accept(index, bytes.as_bytes().to_vec()) {
            let step = fetch.handle_at(TransportEvent::Chunk(chunk), &mut cache, NOW);
            deliver(&mut target, &fetch, step.deliveries);
        }
    }
    assert!(order.is_drained());
    let step = fetch.handle_at(TransportEvent::End, &mut cache, NOW);
    deliver(&mut target, &fetch, step.deliveries);
    assert_eq!(
        target.told,
        vec![
            Told::Chunk(b"he".to_vec()),
            Told::Chunk(b"l".to_vec()),
            Told::Chunk(b"".to_vec()),
            Told::Chunk(b"lo".to_vec()),
            Told::ResponseEof,
        ]
    );
    assert_eq!(fetch.response().body(), ResponseBody::Done(b"hello".to_vec()));
}

#[test]
fn a_fetch_tells_where_it_stands() {
    let mut request = Request::new(make_server(), Some(UrlOrigin::new_opaque(1)), false, None);
    request.mode = RequestMode::CORSMode;
    request.use_cors_preflight = true;
    let mut cache = CORSCache::new();
    let (mut fetch, step) = Fetch::start(request.clone(), &cache);
    assert_eq!(fetch.stage(), Stage::AwaitingPreflight);
    assert_eq!(fetch.tainting(), ResponseTainting::CORSTainting);
    assert!(!fetch.is_finished());
    assert_eq!(fetch.request(), &request);
    assert!(fetch.response().is_network_error());
    match step.action {
        Action::Send(wire) => {
            assert_eq!(wire.method, Method::Options);
            assert_eq!(fetch.last_sent(), Some(&wire));
        },
        _ => panic!(),
    }
    let mut headers = Headers::new();
    headers.set("Access-Control-Allow-Origin", "null");
    headers.set("Access-Control-Allow-Methods", "GET");
    headers.set("Access-Control-Max-Age", "600");
    let head = |headers: Headers| TransportEvent::Head { status: 200, reason: "OK".to_owned(), headers };
    let step = fetch.handle(head(headers.clone()), &mut cache);
    assert_eq!(fetch.stage(), Stage::AwaitingHead);
    assert_eq!(cache.len(), 1);
    assert!(cache.match_method(&request, &Method::Get));
    match step.action {
        Action::Send(wire) => {
            assert_eq!(wire.method, Method::Get);
            assert_eq!(wire.headers.get("Origin"), Some("null"));
            assert_eq!(fetch.last_sent(), Some(&wire));
        },
        _ => panic!(),
    }
    let step = fetch.handle(head(headers), &mut cache);
    assert_eq!(step.action, Action::Receive);
    assert_eq!(fetch.stage(), Stage::Receiving);
    assert_eq!(fetch.response().response_type(), ResponseType::CORS);
    let step = fetch.handle(TransportEvent::End, &mut cache);
    assert_eq!(step.action, Action::Done);
    assert!(fetch.is_finished());
    // What the stage does not await ends the fetch with a network error.
    let (mut fetch, _) = Fetch::start(request, &CORSCache::new());
    let step = fetch.handle(TransportEvent::Chunk(vec![1]), &mut cache);
    assert_eq!(step.action, Action::Done);
    assert!(fetch.is_finished() && fetch.response().is_network_error());
    let untainted = Request::new(Url::parse("about:blank").unwrap(), None, false, None);
    assert_eq!(Fetch::start(untainted, &cache).0.tainting(), ResponseTainting::Basic);
    let opaque = Request::new(make_server(), None, false, None);
    assert_eq!(Fetch::start(opaque, &cache).0.tainting(), ResponseTainting::Opaque);
}
