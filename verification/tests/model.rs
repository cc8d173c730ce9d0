use net_fetch::cors::{
    headers_allowed_by, is_simple_header, make_preflight, make_wire_request, max_age_of,
    methods_allowed_by, needs_preflight, passes_cors_check, preflight_gives_leave,
    unsafe_header_names,
};
use net_fetch::cors_cache::CORSCache;
use net_fetch::data_url::{base64_decode, decode, decode_text};
use net_fetch::fetch::{
    is_http, is_local, kind_for, method_after_redirect, rewrites_on_redirect, ResponseTainting,
};
use net_fetch::referrer::{disclosure_for, referer_of, set_referer, Disclosure};
use net_fetch::request::{clone_urls, ReferrerPolicy};
use net_fetch::text::{chars_of, chars_same_ignoring_case};
use net_fetch::headers::{
    is_cors_safelisted_header, is_forbidden_response_header, names_contain, Header, Headers,
};
use net_fetch::method::Method;
use net_fetch::media_type::{guess_media_type, media_type_for_extension};
use net_fetch::request::{CredentialsMode, RedirectMode, Referrer, Request, RequestMode};
use net_fetch::resequence::Resequencer;
use net_fetch::response::{CacheState, Response, ResponseBody, ResponseType};
use net_fetch::web_url::{scheme_default_port, Origin, Url};

#[test]
fn urls_are_parsed_by_their_parts() {
    let url = Url::parse("HTTP://Example.org:80/a/b?x=1#frag").unwrap();
    assert_eq!(url.as_str(), "http://example.org/a/b?x=1#frag");
    assert_eq!(url.scheme(), "http");
    assert_eq!(url.path(), "/a/b");
    assert_eq!(url.query(), Some("x=1"));
    assert_eq!(url.origin(), Origin::Tuple("http".to_owned(), "example.org".to_owned(), 80));
    let blank = Url::parse("about:blank").unwrap();
    assert_eq!(blank.scheme(), "about");
    assert_eq!(blank.path(), "blank");
    assert_eq!(blank.query(), None);
    assert_eq!(blank.origin(), Origin::Unique);
    assert!(Url::parse("no scheme").is_none());
    assert!(Url::parse("").is_none());
}

#[test]
fn references_are_resolved_against_a_url() {
    let base = Url::parse("https://example.net/a/b.html").unwrap();
    assert_eq!(base.join("c.png").unwrap().as_str(), "https://example.net/a/c.png");
    assert_eq!(base.join("/v1/meta").unwrap().as_str(), "https://example.net/v1/meta");
    assert_eq!(base.join("//eve.com/b").unwrap().as_str(), "https://eve.com/b");
    assert_eq!(base.join("http://eve.com/b").unwrap().as_str(), "http://eve.com/b");
    assert_eq!(
        base.join("http://eve.com:8080/b").unwrap().origin(),
        Origin::Tuple("http".to_owned(), "eve.com".to_owned(), 8080)
    );
    assert!(base.join("http://[::1").is_none());
    assert!(base.same_url(&base.join("b.html").unwrap()));
    assert!(!base.same_url(&base.join("c.html").unwrap()));
    assert_eq!(base.clone(), base);
}

#[test]
fn origins_are_the_same_by_scheme_host_and_port() {
    let a = Url::parse("http://example.org/x").unwrap().origin();
    let b = Url::parse("http://example.org:80/y").unwrap().origin();
    let c = Url::parse("https://example.org/x").unwrap().origin();
    let d = Url::parse("http://example.org:81/x").unwrap().origin();
    assert!(a.same_origin(&b));
    assert!(!a.same_origin(&c));
    assert!(!a.same_origin(&d));
    assert!(a.is_tuple());
    assert!(Origin::new_opaque(4).same_origin(&Origin::new_opaque(4)));
    assert!(!Origin::new_opaque(4).same_origin(&Origin::new_opaque(5)));
    assert!(!Origin::new_opaque(4).same_origin(&a));
    assert!(!Origin::new_opaque(4).is_tuple());
    // The origin of a URL that has none is the same as nothing, not even itself.
    assert!(!Origin::Unique.same_origin(&Origin::Unique));
    assert!(!Origin::Unique.same_origin(&a));
    assert!(!a.same_origin(&Origin::Unique));
}

#[test]
fn origins_are_written_without_the_usual_port() {
    let origin = |s: &str| Url::parse(s).unwrap().origin().ascii_serialization();
    assert_eq!(origin("http://example.org/x"), "http://example.org");
    assert_eq!(origin("http://example.org:8080/x"), "http://example.org:8080");
    assert_eq!(origin("https://example.org:443/x"), "https://example.org");
    assert_eq!(origin("https://example.org:80/x"), "https://example.org:80");
    assert_eq!(origin("ftp://example.org/x"), "ftp://example.org");
    assert_eq!(origin("ws://example.org:81/x"), "ws://example.org:81");
    assert_eq!(origin("about:blank"), "null");
    assert_eq!(Origin::new_opaque(1).ascii_serialization(), "null");
    assert_eq!(
        Origin::Tuple("gopher".to_owned(), "h".to_owned(), 70).ascii_serialization(),
        "gopher://h:70"
    );
    assert_eq!(scheme_default_port("wss"), Some(443));
    assert_eq!(scheme_default_port("ftp"), Some(21));
    assert_eq!(scheme_default_port("file"), None);
}

#[test]
fn methods_have_names() {
    assert_eq!(Method::from_name("GET"), Method::Get);
    assert_eq!(Method::from_name("OPTIONS"), Method::Options);
    assert_eq!(Method::from_name("PATCH"), Method::Patch);
    assert_eq!(Method::from_name("get"), Method::Extension("get".to_owned()));
    assert_eq!(Method::from_name("CHICKEN"), Method::Extension("CHICKEN".to_owned()));
    for m in [
        Method::Options,
        Method::Get,
        Method::Post,
        Method::Put,
        Method::Delete,
        Method::Head,
        Method::Trace,
        Method::Connect,
        Method::Patch,
    ] {
        assert_eq!(Method::from_name(&m.name()), m);
        assert!(m.same(&m.clone()));
    }
    assert_eq!(Method::Extension("FOO".to_owned()).name(), "FOO");
    assert!(Method::Get.is_simple() && Method::Head.is_simple() && Method::Post.is_simple());
    assert!(!Method::Put.is_simple() && !Method::Options.is_simple());
    assert!(!Method::Extension("GET".to_owned()).is_simple());
    assert!(!Method::Get.same(&Method::Head));
    assert!(Method::Extension("A".to_owned()).same(&Method::Extension("A".to_owned())));
    assert!(!Method::Extension("A".to_owned()).same(&Method::Extension("B".to_owned())));
}

#[test]
fn redirects_rewrite_the_method() {
    assert_eq!(method_after_redirect(301, &Method::Post), Method::Get);
    assert_eq!(method_after_redirect(302, &Method::Post), Method::Get);
    assert_eq!(method_after_redirect(303, &Method::Post), Method::Get);
    let foo = Method::Extension("FOO".to_owned());
    assert_eq!(method_after_redirect(301, &foo), foo);
    assert_eq!(method_after_redirect(302, &foo), foo);
    assert_eq!(method_after_redirect(303, &foo), Method::Get);
    assert_eq!(method_after_redirect(307, &Method::Post), Method::Post);
    assert_eq!(method_after_redirect(308, &Method::Post), Method::Post);
    assert_eq!(method_after_redirect(301, &Method::Put), Method::Put);
    assert_eq!(method_after_redirect(303, &Method::Head), Method::Get);
    assert_eq!(method_after_redirect(200, &Method::Post), Method::Post);
}

#[test]
fn a_header_list_keeps_one_header_of_each_name() {
    let mut headers = Headers::new();
    assert!(headers.is_empty());
    headers.set("Content-Type", "text/html");
    headers.set("X-A", "1");
    headers.set("content-type", "text/plain");
    assert_eq!(headers.len(), 2);
    assert_eq!(headers.entry(0).name, "X-A");
    assert_eq!(headers.entry(1), &Header { name: "content-type".to_owned(), value: "text/plain".to_owned() });
    assert_eq!(headers.get("CONTENT-TYPE"), Some("text/plain"));
    assert_eq!(headers.get("x-b"), None);
    assert!(headers.has("x-a"));
    assert!(!headers.has("x-"));
    headers.remove("X-a");
    assert_eq!(headers.len(), 1);
    headers.remove("X-a");
    assert_eq!(headers.len(), 1);
    assert_eq!(headers.clone(), headers);
}

#[test]
fn response_headers_are_filtered_by_name() {
    let mut headers = Headers::new();
    for (name, value) in [
        ("Cache-Control", "a"),
        ("SET-COOKIE", "b"),
        ("X-Custom", "c"),
        ("Set-Cookie2", "d"),
        ("Pragma", "e"),
        ("X-Other", "f"),
    ] {
        headers.set(name, value);
    }
    let basic = headers.basic_filtered();
    assert_eq!(basic.len(), 4);
    assert_eq!(basic.entry(0).name, "Cache-Control");
    assert_eq!(basic.entry(1).name, "X-Custom");
    assert_eq!(basic.entry(2).name, "Pragma");
    assert_eq!(basic.entry(3).name, "X-Other");
    let exposed = vec!["x-custom".to_owned(), "set-cookie".to_owned(), "Set-Cookie2".to_owned()];
    let cors = headers.cors_filtered(&exposed);
    assert_eq!(cors.len(), 3);
    assert_eq!(cors.entry(0).name, "Cache-Control");
    assert_eq!(cors.entry(1).name, "X-Custom");
    assert_eq!(cors.entry(2).name, "Pragma");
    assert_eq!(headers.cors_filtered(&vec![]).len(), 2);
    assert!(is_forbidden_response_header("set-cookie2"));
    assert!(!is_forbidden_response_header("set-cookie3"));
    for name in ["Cache-Control", "Content-Language", "Content-Type", "Expires", "Last-Modified", "Pragma"] {
        assert!(is_cors_safelisted_header(name));
        assert!(!is_forbidden_response_header(name));
    }
    assert!(!is_cors_safelisted_header("Content-Length"));
    assert!(names_contain(&exposed, "X-CUSTOM"));
    assert!(!names_contain(&exposed, "X-CUSTO"));
}

#[test]
fn a_new_request_is_a_plain_get() {
    let url = Url::parse("http://example.org/").unwrap();
    let request = Request::new(url.clone(), None, true, None);
    assert_eq!(request.method, Method::Get);
    assert_eq!(request.origin, Origin::Unique);
    assert_eq!(request.mode, RequestMode::NoCORS);
    assert_eq!(request.redirect_mode, RedirectMode::Follow);
    assert_eq!(request.credentials_mode, CredentialsMode::Omit);
    assert_eq!(request.referrer, Referrer::Client);
    assert_eq!(request.referrer_policy, None);
    assert!(!request.use_cors_preflight && !request.local_urls_only);
    assert!(request.is_service_worker_global_scope);
    assert!(request.headers.is_empty() && request.body.is_none());
    assert_eq!(request.current_url(), &url);
    assert_eq!(request.url_list(), vec![url]);
    assert_eq!(request.redirect_count(), 0);
    assert_eq!(request.clone(), request);
}

#[test]
fn a_body_goes_from_empty_to_receiving_to_done() {
    let mut body = ResponseBody::Empty;
    assert!(!body.is_done());
    body.receive(&b"ab".to_vec());
    assert_eq!(body, ResponseBody::Receiving(b"ab".to_vec()));
    body.receive(&b"".to_vec());
    body.receive(&b"cd".to_vec());
    assert_eq!(body, ResponseBody::Receiving(b"abcd".to_vec()));
    assert!(!body.is_done());
    body.finish();
    assert_eq!(body, ResponseBody::Done(b"abcd".to_vec()));
    assert!(body.is_done());
    body.receive(&b"late".to_vec());
    body.finish();
    assert_eq!(body, ResponseBody::Done(b"abcd".to_vec()));
    let mut empty = ResponseBody::Empty;
    empty.finish();
    assert_eq!(empty, ResponseBody::Done(vec![]));
}

fn sample_response() -> Response {
    let url = Url::parse("http://example.org/").unwrap();
    let mut headers = Headers::new();
    headers.set("Content-Type", "text/html");
    headers.set("Set-Cookie", "a=b");
    headers.set("X-Seen", "yes");
    headers.set("Access-Control-Expose-Headers", "X-Seen");
    Response::new(url.clone(), vec![url], 200, "OK".to_owned(), headers)
}

#[test]
fn a_filtered_response_wraps_the_unfiltered_one() {
    let raw = sample_response();
    assert_eq!(raw.response_type(), ResponseType::Default);
    assert!(raw.internal_response().is_none());
    assert!(!raw.is_done());

    let basic = raw.clone().to_filtered(ResponseType::Basic);
    assert_eq!(basic.response_type(), ResponseType::Basic);
    assert_eq!(basic.headers().len(), 3);
    assert_eq!(basic.status(), Some((200, "OK")));
    assert_eq!(basic.url_list().len(), 1);
    assert_eq!(basic.internal_response(), Some(&raw));
    assert_eq!(basic.actual_response(), &raw);

    let cors = raw.clone().to_filtered(ResponseType::CORS);
    assert_eq!(cors.headers().len(), 2);
    assert!(cors.headers().has("content-type") && cors.headers().has("x-seen"));
    assert_eq!(cors.internal_response(), Some(&raw));

    for kind in [ResponseType::Opaque, ResponseType::OpaqueRedirect] {
        let opaque = raw.clone().to_filtered(kind);
        assert_eq!(opaque.response_type(), kind);
        assert!(opaque.url().is_none() && opaque.status().is_none());
        assert!(opaque.url_list().is_empty() && opaque.headers().is_empty());
        assert_eq!(opaque.cache_state(), CacheState::Uncached);
        assert_eq!(opaque.internal_response(), Some(&raw));
    }

    // Filtering a filtered response filters what is inside it.
    let again = cors.to_filtered(ResponseType::Basic);
    assert_eq!(again.internal_response(), Some(&raw));
    assert_eq!(again.headers().len(), 3);

    // The kind `Default` shows the unfiltered response, the kind `Error` an error.
    assert_eq!(again.clone().to_filtered(ResponseType::Default), raw);
    assert!(again.to_filtered(ResponseType::Error).is_network_error());

    // A network error stays one.
    assert!(Response::network_error().to_filtered(ResponseType::Default).is_network_error());
    let error = Response::network_error().to_filtered(ResponseType::Basic);
    assert!(error.is_network_error());
    assert!(error.internal_response().is_none());
    assert!(error.is_done());
}

#[test]
fn a_filtered_response_shows_the_body_of_the_unfiltered_one() {
    let mut basic = sample_response().to_filtered(ResponseType::Basic);
    assert_eq!(basic.body(), ResponseBody::Empty);
    basic.receive(&b"he".to_vec());
    basic.receive(&b"llo".to_vec());
    assert_eq!(basic.body(), ResponseBody::Receiving(b"hello".to_vec()));
    assert!(!basic.is_done());
    basic.finish();
    assert_eq!(basic.body(), ResponseBody::Done(b"hello".to_vec()));
    assert_eq!(basic.internal_response().unwrap().body(), ResponseBody::Done(b"hello".to_vec()));
    assert!(basic.is_done());

    let mut opaque = sample_response().to_filtered(ResponseType::Opaque);
    opaque.receive(&b"hidden".to_vec());
    assert_eq!(opaque.body(), ResponseBody::Empty);
    // The body inside is not complete yet, so neither is the response.
    assert!(!opaque.is_done());
    opaque.finish();
    assert!(opaque.is_done());
    assert_eq!(opaque.body(), ResponseBody::Empty);
    assert_eq!(opaque.actual_response().body(), ResponseBody::Done(b"hidden".to_vec()));
}

#[test]
fn simple_headers_need_no_leave() {
    let header = |name: &str, value: &str| Header { name: name.to_owned(), value: value.to_owned() };
    assert!(is_simple_header(&header("Accept", "*/*")));
    assert!(is_simple_header(&header("accept-language", "en")));
    assert!(is_simple_header(&header("Content-Language", "en")));
    assert!(is_simple_header(&header("Content-Type", "text/plain")));
    assert!(is_simple_header(&header("Content-Type", "Text/Plain; charset=utf-8")));
    assert!(is_simple_header(&header("content-type", "multipart/form-data; boundary=x")));
    assert!(is_simple_header(&header("content-type", "application/x-www-form-urlencoded")));
    assert!(!is_simple_header(&header("Content-Type", "application/json")));
    assert!(!is_simple_header(&header("Content-Type", "")));
    assert!(!is_simple_header(&header("X-Token", "t")));
    let mut headers = Headers::new();
    headers.set("Accept", "*/*");
    headers.set("X-B", "1");
    headers.set("Content-Type", "application/json");
    headers.set("X-A", "2");
    assert_eq!(unsafe_header_names(&headers), vec!["X-B", "Content-Type", "X-A"]);
}

fn cors_request() -> Request {
    let url = Url::parse("http://server.example/data").unwrap();
    let origin = Url::parse("http://page.example/").unwrap().origin();
    let mut request = Request::new(url, Some(origin), false, None);
    request.mode = RequestMode::CORSMode;
    request.referrer = Referrer::NoReferrer;
    request
}

#[test]
fn the_wire_request_of_a_cors_request_names_its_origin() {
    let mut request = cors_request();
    request.method = Method::Delete;
    request.headers.set("X-Token", "t");
    request.headers.set("Origin", "http://forged.example");
    request.body = Some(b"b".to_vec());
    let plain = make_wire_request(&request, false);
    assert_eq!(plain.headers, request.headers);
    assert_eq!(plain.method, Method::Delete);
    assert_eq!(plain.url, request.url);
    assert_eq!(plain.body, Some(b"b".to_vec()));
    let named = make_wire_request(&request, true);
    assert_eq!(named.headers.len(), 2);
    assert_eq!(named.headers.get("origin"), Some("http://page.example"));
    let preflight = make_preflight(&request);
    assert_eq!(preflight.method, Method::Options);
    assert_eq!(preflight.url, request.url);
    assert_eq!(preflight.body, None);
    assert_eq!(preflight.headers.len(), 3);
    assert_eq!(preflight.headers.entry(0), &Header { name: "Origin".to_owned(), value: "http://page.example".to_owned() });
    assert_eq!(preflight.headers.get("Access-Control-Request-Method"), Some("DELETE"));
    assert_eq!(preflight.headers.get("Access-Control-Request-Headers"), Some("X-Token,Origin"));
}

#[test]
fn leave_is_read_from_the_headers_of_a_response() {
    let request = cors_request();
    let mut headers = Headers::new();
    assert!(!passes_cors_check(&request, &headers));
    headers.set("Access-Control-Allow-Origin", "http://other.example");
    assert!(!passes_cors_check(&request, &headers));
    headers.set("Access-Control-Allow-Origin", "http://page.example");
    assert!(passes_cors_check(&request, &headers));
    headers.set("Access-Control-Allow-Origin", "*");
    assert!(passes_cors_check(&request, &headers));
    assert!(methods_allowed_by(&headers).is_empty());
    assert!(headers_allowed_by(&headers).is_empty());
    assert_eq!(max_age_of(&headers), None);
    // A preflight must list the method, a simple one too.
    assert!(!preflight_gives_leave(&request, 200, &headers));
    headers.set("Access-Control-Allow-Methods", "PUT, GET,chicken");
    headers.set("Access-Control-Allow-Headers", "X-One, x-two");
    headers.set("Access-Control-Max-Age", "86400");
    assert_eq!(
        methods_allowed_by(&headers),
        vec![Method::Put, Method::Get, Method::Extension("chicken".to_owned())]
    );
    assert_eq!(headers_allowed_by(&headers), vec!["X-One", "x-two"]);
    assert_eq!(max_age_of(&headers), Some(86400));
    assert!(preflight_gives_leave(&request, 200, &headers));
    assert!(preflight_gives_leave(&request, 204, &headers));
    assert!(preflight_gives_leave(&request, 299, &headers));
    assert!(!preflight_gives_leave(&request, 199, &headers));
    assert!(!preflight_gives_leave(&request, 300, &headers));
    assert!(!preflight_gives_leave(&request, 404, &headers));
    let mut with_header = request.clone();
    with_header.headers.set("x-ONE", "1");
    assert!(preflight_gives_leave(&with_header, 200, &headers));
    with_header.headers.set("x-three", "3");
    assert!(!preflight_gives_leave(&with_header, 200, &headers));
    headers.set("Access-Control-Max-Age", "soon");
    assert_eq!(max_age_of(&headers), None);
}

#[test]
fn the_cache_answers_for_origin_url_and_credentials() {
    let request = cors_request();
    let mut cache = CORSCache::new();
    assert_eq!(cache.len(), 0);
    assert!(!cache.match_method_at(&request, &Method::Put, 10));
    cache.insert_at(&request, 100, vec![Method::Put], vec!["X-Token".to_owned()], 10);
    assert_eq!(cache.len(), 1);
    assert!(cache.match_method_at(&request, &Method::Put, 10));
    assert!(cache.match_method_at(&request, &Method::Put, 109));
    assert!(!cache.match_method_at(&request, &Method::Put, 110));
    assert!(!cache.match_method_at(&request, &Method::Get, 10));
    assert!(cache.match_header_at(&request, "x-token", 50));
    assert!(!cache.match_header_at(&request, "x-token", 110));
    assert!(!cache.match_header_at(&request, "x-other", 50));
    // The method of the request plays no part.
    let mut posted = request.clone();
    posted.method = Method::Post;
    assert!(cache.match_method_at(&posted, &Method::Put, 50));
    // The URL, the origin and the use of credentials do.
    let mut elsewhere = request.clone();
    elsewhere.url = Url::parse("http://server.example/other").unwrap();
    assert!(!cache.match_method_at(&elsewhere, &Method::Put, 50));
    let mut with_credentials = request.clone();
    with_credentials.credentials_mode = CredentialsMode::Include;
    assert!(!cache.match_method_at(&with_credentials, &Method::Put, 50));
    let mut same_origin_credentials = request.clone();
    same_origin_credentials.credentials_mode = CredentialsMode::CredentialsSameOrigin;
    assert!(cache.match_method_at(&same_origin_credentials, &Method::Put, 50));
    let mut nobody = request.clone();
    nobody.origin = Origin::Unique;
    assert!(!cache.match_method_at(&nobody, &Method::Put, 50));
    // Entries add up, and those that have run out are dropped on insertion.
    cache.insert_at(&request, 5, vec![Method::Delete], vec![], 108);
    assert_eq!(cache.len(), 2);
    assert!(cache.match_method_at(&request, &Method::Put, 109));
    assert!(cache.match_method_at(&request, &Method::Delete, 109));
    cache.insert_at(&with_credentials, 1, vec![Method::Get], vec![], 112);
    assert_eq!(cache.len(), 2);
    assert!(cache.match_method_at(&request, &Method::Delete, 112));
    assert!(!cache.match_method_at(&request, &Method::Put, 112));
    assert!(cache.match_method_at(&with_credentials, &Method::Get, 112));
    // The expiry does not wrap round.
    cache.insert_at(&request, 4_000_000_000, vec![Method::Trace], vec![], u64::MAX - 5);
    assert!(cache.match_method_at(&request, &Method::Trace, u64::MAX - 1));
}

#[test]
fn the_cache_goes_by_the_clock() {
    let request = cors_request();
    let mut cache = CORSCache::new();
    assert!(!cache.match_method(&request, &Method::Put));
    cache.insert(&request, 3600, vec![Method::Put], vec!["X-A".to_owned()]);
    assert!(cache.match_method(&request, &Method::Put));
    assert!(cache.match_header(&request, "x-a"));
    assert!(!cache.match_header(&request, "x-b"));
    cache.insert(&request, 0, vec![Method::Delete], vec![]);
    assert!(!cache.match_method(&request, &Method::Delete));
    // The clock is that of the system: an entry made at the start of 2020 has run out.
    cache.insert_at(&request, 60, vec![Method::Patch], vec![], 1_577_836_800);
    assert!(!cache.match_method(&request, &Method::Patch));
    assert!(cache.match_method_at(&request, &Method::Patch, 1_577_836_801));
    assert_eq!(cache.len(), 3);
    cache.cleanup();
    assert_eq!(cache.len(), 1);
    assert!(cache.match_method(&request, &Method::Put));
    assert!(!cache.match_method_at(&request, &Method::Patch, 1_577_836_801));
    cache.cleanup_at(u64::MAX);
    assert_eq!(cache.len(), 0);
}

#[test]
fn a_preflight_is_needed_for_what_the_cache_does_not_allow() {
    let mut request = cors_request();
    let mut cache = CORSCache::new();
    assert!(!needs_preflight(&cache, &request, 10));
    request.use_cors_preflight = true;
    assert!(needs_preflight(&cache, &request, 10));
    request.use_cors_preflight = false;
    request.method = Method::Put;
    assert!(needs_preflight(&cache, &request, 10));
    cache.insert_at(&request, 100, vec![Method::Put], vec!["X-A".to_owned()], 10);
    assert!(!needs_preflight(&cache, &request, 10));
    assert!(needs_preflight(&cache, &request, 110));
    request.headers.set("x-a", "1");
    request.headers.set("Accept", "*/*");
    assert!(!needs_preflight(&cache, &request, 10));
    request.headers.set("x-b", "1");
    assert!(needs_preflight(&cache, &request, 10));
}

#[test]
fn taintings_call_for_kinds() {
    assert_eq!(kind_for(ResponseTainting::Basic), ResponseType::Basic);
    assert_eq!(kind_for(ResponseTainting::CORSTainting), ResponseType::CORS);
    assert_eq!(kind_for(ResponseTainting::Opaque), ResponseType::Opaque);
}

#[test]
fn percent_signs_name_bytes() {
    let decode = |s: &str| decode_text(&format!(",{}", s)).unwrap().bytes;
    assert_eq!(decode("a%20b"), b"a b".to_vec());
    assert_eq!(decode("%41%4a%4A%ff%00"), vec![0x41, 0x4a, 0x4a, 0xff, 0x00]);
    assert_eq!(decode("100%"), b"100%".to_vec());
    assert_eq!(decode("%4"), b"%4".to_vec());
    assert_eq!(decode("%zz%4g%"), b"%zz%4g%".to_vec());
    assert_eq!(decode("%%41"), b"%A".to_vec());
    assert_eq!(decode(""), Vec::<u8>::new());
}

#[test]
fn base64_names_bytes() {
    let decode = |s: &str| base64_decode(&s.as_bytes().to_vec());
    assert_eq!(decode(""), Some(vec![]));
    assert_eq!(decode("Zg=="), Some(b"f".to_vec()));
    assert_eq!(decode("Zm8="), Some(b"fo".to_vec()));
    assert_eq!(decode("Zm9v"), Some(b"foo".to_vec()));
    assert_eq!(decode("Zm9vYg=="), Some(b"foob".to_vec()));
    assert_eq!(decode("Zm9vYmE="), Some(b"fooba".to_vec()));
    assert_eq!(decode("Zm9vYmFy"), Some(b"foobar".to_vec()));
    assert_eq!(decode("Zm9vYg"), Some(b"foob".to_vec()));
    assert_eq!(decode("Zm 9v Ym Fy"), Some(b"foobar".to_vec()));
    assert_eq!(decode("+/+/"), Some(vec![0xfb, 0xff, 0xbf]));
    assert_eq!(decode("AAAA"), Some(vec![0, 0, 0]));
    assert_eq!(decode("////"), Some(vec![255, 255, 255]));
    assert_eq!(decode("Z"), None);
    assert_eq!(decode("Zm9vY"), None);
    assert_eq!(decode("Zm9v-_"), None);
    assert_eq!(decode("Zg==="), None);
    assert_eq!(decode("Z=g="), None);
}

#[test]
fn data_urls_hold_a_media_type_and_content() {
    let read = |s: &str| decode_text(s).map(|c| (c.content_type, c.bytes));
    assert_eq!(read("text/html,<p>Servo</p>"), Some(("text/html".to_owned(), b"<p>Servo</p>".to_vec())));
    assert_eq!(read(",plain"), Some(("text/plain;charset=US-ASCII".to_owned(), b"plain".to_vec())));
    assert_eq!(read(";charset=utf-8,%C3%A9"), Some(("text/plain;charset=utf-8".to_owned(), vec![0xc3, 0xa9])));
    assert_eq!(read("image/png;base64,AAEC"), Some(("image/png".to_owned(), vec![0, 1, 2])));
    assert_eq!(read(";base64,QQ%3D%3D"), Some(("text/plain;charset=US-ASCII".to_owned(), b"A".to_vec())));
    assert_eq!(read("text/plain;base64,a,b"), None);
    assert_eq!(read("a,b,c"), Some(("a".to_owned(), b"b,c".to_vec())));
    assert_eq!(read("text/plain"), None);
    assert_eq!(read(""), None);
    assert_eq!(read("text/plain,é"), None);
    assert_eq!(read("text/plain;BASE64,QQ=="), Some(("text/plain;BASE64".to_owned(), b"QQ==".to_vec())));
    let url = Url::parse("data:text/html,<p>Servo</p>?q=1#frag").unwrap();
    let content = decode(&url).unwrap();
    assert_eq!(content.content_type, "text/html");
    assert_eq!(content.bytes, b"<p>Servo</p>?q=1".to_vec());
}

#[test]
fn chunks_come_out_in_the_order_of_their_numbers() {
    let mut order = Resequencer::new();
    assert_eq!(order.next_index(), 0);
    assert!(order.is_drained());
    assert_eq!(order.accept(2, b"c".to_vec()), Vec::<Vec<u8>>::new());
    assert_eq!(order.accept(1, b"b".to_vec()), Vec::<Vec<u8>>::new());
    assert!(!order.is_drained());
    assert_eq!(order.next_index(), 0);
    assert_eq!(order.accept(0, b"a".to_vec()), vec![b"a".to_vec(), b"b".to_vec(), b"c".to_vec()]);
    assert_eq!(order.next_index(), 3);
    assert!(order.is_drained());
    // A chunk that has come before is dropped, whether it waits or was released.
    assert_eq!(order.accept(1, b"again".to_vec()), Vec::<Vec<u8>>::new());
    assert_eq!(order.accept(5, b"f".to_vec()), Vec::<Vec<u8>>::new());
    assert_eq!(order.accept(5, b"other".to_vec()), Vec::<Vec<u8>>::new());
    assert_eq!(order.accept(3, b"d".to_vec()), vec![b"d".to_vec()]);
    assert_eq!(order.accept(4, b"".to_vec()), vec![b"".to_vec(), b"f".to_vec()]);
    assert_eq!(order.next_index(), 6);
    assert!(order.is_drained());
    // The last number there is cannot be released: nothing could follow it.
    assert_eq!(order.accept(u64::MAX, b"z".to_vec()), Vec::<Vec<u8>>::new());
    assert!(!order.is_drained());
}

#[test]
fn chunks_in_order_pass_straight_through() {
    let mut order = Resequencer::new();
    for i in 0..100u64 {
        assert_eq!(order.accept(i, vec![i as u8]), vec![vec![i as u8]]);
        assert!(order.is_drained());
    }
    let mut order = Resequencer::new();
    let mut out: Vec<Vec<u8>> = vec![];
    for i in (0..100u64).rev() {
        out.extend(order.accept(i, vec![i as u8]));
    }
    assert_eq!(out, (0..100u8).map(|i| vec![i]).collect::<Vec<_>>());
}

#[test]
fn media_types_go_by_the_extension() {
    assert_eq!(guess_media_type("/resources/servo.css"), "text/css");
    assert_eq!(guess_media_type("index.HTML"), "text/html");
    assert_eq!(guess_media_type("a/b.c/page.htm"), "text/html");
    assert_eq!(guess_media_type("lib.min.js"), "application/javascript");
    assert_eq!(guess_media_type("data.json"), "application/json");
    assert_eq!(guess_media_type("notes.txt"), "text/plain");
    assert_eq!(guess_media_type("feed.xml"), "text/xml");
    assert_eq!(guess_media_type("logo.svg"), "image/svg+xml");
    assert_eq!(guess_media_type("logo.png"), "image/png");
    assert_eq!(guess_media_type("logo.gif"), "image/gif");
    assert_eq!(guess_media_type("photo.jpg"), "image/jpeg");
    assert_eq!(guess_media_type("photo.JPEG"), "image/jpeg");
    assert_eq!(guess_media_type("archive.tar.gz"), "application/octet-stream");
    assert_eq!(guess_media_type("dir.css/file"), "application/octet-stream");
    assert_eq!(guess_media_type("css"), "application/octet-stream");
    assert_eq!(guess_media_type("file."), "application/octet-stream");
    assert_eq!(guess_media_type(""), "application/octet-stream");
    assert_eq!(guess_media_type("/"), "application/octet-stream");
    assert_eq!(media_type_for_extension("Css"), "text/css");
    assert_eq!(media_type_for_extension(""), "application/octet-stream");
}

#[test]
fn schemes_are_local_or_fetched_over_http() {
    for scheme in ["about", "data", "file"] {
        assert!(is_local(scheme) && !is_http(scheme));
    }
    for scheme in ["http", "https"] {
        assert!(is_http(scheme) && !is_local(scheme));
    }
    for scheme in ["ftp", "ws", "blob", "HTTP", "", "httpss"] {
        assert!(!is_http(scheme) && !is_local(scheme));
    }
}

#[test]
fn a_redirect_rewrites_a_post_and_everything_after_a_303() {
    assert!(rewrites_on_redirect(301, &Method::Post));
    assert!(rewrites_on_redirect(302, &Method::Post));
    assert!(rewrites_on_redirect(303, &Method::Post));
    assert!(rewrites_on_redirect(303, &Method::Get));
    assert!(rewrites_on_redirect(303, &Method::Extension("FOO".to_owned())));
    assert!(!rewrites_on_redirect(301, &Method::Get));
    assert!(!rewrites_on_redirect(302, &Method::Extension("POST".to_owned())));
    assert!(!rewrites_on_redirect(307, &Method::Post));
    assert!(!rewrites_on_redirect(308, &Method::Post));
    assert!(!rewrites_on_redirect(300, &Method::Post));
}

#[test]
fn the_policy_decides_how_much_of_the_referrer_is_told() {
    let secure = Url::parse("https://a.example/p").unwrap();
    let same = Url::parse("https://a.example/q").unwrap();
    let plain = Url::parse("http://a.example/q").unwrap();
    let other = Url::parse("https://b.example/q").unwrap();
    let (never, downgrade, same_origin, cross, always) = (
        ReferrerPolicy::NoReferrer,
        ReferrerPolicy::NoReferrerWhenDowngrade,
        ReferrerPolicy::SameOrigin,
        ReferrerPolicy::OriginWhenCrossOrigin,
        ReferrerPolicy::UnsafeUrl,
    );
    assert_eq!(disclosure_for(never, &secure, &same), Disclosure::Nothing);
    assert_eq!(disclosure_for(downgrade, &secure, &same), Disclosure::WholeUrl);
    assert_eq!(disclosure_for(downgrade, &secure, &other), Disclosure::WholeUrl);
    assert_eq!(disclosure_for(downgrade, &secure, &plain), Disclosure::Nothing);
    assert_eq!(disclosure_for(downgrade, &plain, &secure), Disclosure::WholeUrl);
    assert_eq!(disclosure_for(ReferrerPolicy::Origin, &secure, &same), Disclosure::OriginOnly);
    assert_eq!(disclosure_for(same_origin, &secure, &same), Disclosure::WholeUrl);
    assert_eq!(disclosure_for(same_origin, &secure, &other), Disclosure::Nothing);
    assert_eq!(disclosure_for(same_origin, &secure, &plain), Disclosure::Nothing);
    assert_eq!(disclosure_for(cross, &secure, &same), Disclosure::WholeUrl);
    assert_eq!(disclosure_for(cross, &secure, &other), Disclosure::OriginOnly);
    assert_eq!(disclosure_for(always, &secure, &plain), Disclosure::WholeUrl);

    let mut request = Request::new(other.clone(), None, false, None);
    assert_eq!(referer_of(&request), None);
    request.referrer = Referrer::NoReferrer;
    assert_eq!(referer_of(&request), None);
    request.referrer = Referrer::ReferrerUrl(Url::parse("https://a.example/p?q#f").unwrap());
    assert_eq!(referer_of(&request), Some("https://a.example/p?q".to_owned()));
    request.referrer_policy = Some(ReferrerPolicy::Origin);
    assert_eq!(referer_of(&request), Some("https://a.example/".to_owned()));
    let mut headers = Headers::new();
    headers.set("referer", "stale");
    headers.set("X-A", "1");
    set_referer(&mut headers, &request);
    assert_eq!(headers.len(), 2);
    assert_eq!(headers.entry(1), &Header { name: "Referer".to_owned(), value: "https://a.example/".to_owned() });
    request.referrer_policy = Some(never);
    set_referer(&mut headers, &request);
    assert_eq!(headers.get("Referer"), Some("https://a.example/"));
    // A referrer that nothing can be resolved against is not told.
    request.referrer = Referrer::ReferrerUrl(Url::parse("about:blank").unwrap());
    request.referrer_policy = Some(ReferrerPolicy::Origin);
    assert_eq!(referer_of(&request), None);
}

#[test]
fn runs_of_urls_and_characters_are_compared_and_copied() {
    let urls = vec![Url::parse("http://a/").unwrap(), Url::parse("http://b/").unwrap()];
    assert_eq!(clone_urls(&urls), urls);
    assert_eq!(clone_urls(&vec![]), vec![]);
    assert!(chars_same_ignoring_case(&chars_of("AbC"), &chars_of("aBc")));
    assert!(!chars_same_ignoring_case(&chars_of("AbC"), &chars_of("aBd")));
    assert!(!chars_same_ignoring_case(&chars_of("AbC"), &chars_of("aB")));
}
