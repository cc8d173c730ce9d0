//! The rules of cross-origin resource sharing: which requests need the
//! server's leave, how it is asked for, and what counts as leave.

use crate::cors_cache::{
    cache_allows_header, cache_allows_method, method_views, CORSCache, EntryView,
};
use crate::headers::{
    header_value, names_contain, names_hold, with_header, Header, HeaderView, Headers,
};
use crate::method::{is_simple_method, method_name, method_named, Method, MethodView};
use crate::referrer::{set_referer, with_referer};
use crate::request::{Request, RequestView};
use crate::text::{
    comma_joined, decimal_value, eq_ignoring_case, join_with_commas, list_items, media_essence,
    media_type_essence, parse_decimal, same_ignoring_case, split_list, text_eq, texts,
};
use crate::transport::{WireRequest, WireRequestView};
use crate::web_url::origin_text;
use vstd::prelude::*;
use vstd::string::*;

verus! {

/// A header that a cross-origin request may carry without the server's
/// leave: `Accept`, `Accept-Language`, `Content-Language`, or a
/// `Content-Type` that names one of the three media types of an HTML form.
pub open spec fn header_is_simple(h: HeaderView) -> bool {
    if same_ignoring_case(h.name, "content-type"@) {
        let essence = media_essence(h.value);
        ||| same_ignoring_case(essence, "application/x-www-form-urlencoded"@)
        ||| same_ignoring_case(essence, "multipart/form-data"@)
        ||| same_ignoring_case(essence, "text/plain"@)
    } else {
        ||| same_ignoring_case(h.name, "accept"@)
        ||| same_ignoring_case(h.name, "accept-language"@)
        ||| same_ignoring_case(h.name, "content-language"@)
    }
}

/// The headers that need the server's leave.
pub open spec fn needs_leave() -> spec_fn(HeaderView) -> bool {
    |h: HeaderView| !header_is_simple(h)
}

/// The names of the headers of a request that need the server's leave, in order.
pub open spec fn unsafe_names(hs: Seq<HeaderView>) -> Seq<Seq<char>> {
    hs.filter(needs_leave()).map_values(|h: HeaderView| h.name)
}

/// The method of the request needs the server's leave.
pub open spec fn method_needs_leave(request: RequestView) -> bool {
    request.use_cors_preflight || !is_simple_method(request.method)
}

/// Some header of the request needs the server's leave, and the cache has none for it.
pub open spec fn header_lacks_leave(cache: Seq<EntryView>, request: RequestView, now: u64) -> bool {
    exists|i: int|
        0 <= i < request.headers.len() && !header_is_simple(#[trigger] request.headers[i])
            && !cache_allows_header(cache, request, request.headers[i].name, now)
}

/// A cross-origin request must be preceded by a preflight: its method or one
/// of its headers needs the server's leave, and the cache holds none.
pub open spec fn preflight_needed(cache: Seq<EntryView>, request: RequestView, now: u64) -> bool {
    ||| (method_needs_leave(request) && !cache_allows_method(cache, request, request.method, now))
    ||| header_lacks_leave(cache, request, now)
}

/// The preflight for a request: `OPTIONS` to the same URL, naming the
/// origin, the method and the headers that leave is asked for, and then the
/// referrer as the request itself tells it.
pub open spec fn preflight_request(request: RequestView) -> WireRequestView {
    WireRequestView {
        method: MethodView::Options,
        url: request.url,
        headers: with_referer(
            seq![
                HeaderView { name: "Origin"@, value: origin_text(request.origin) },
                HeaderView {
                    name: "Access-Control-Request-Method"@,
                    value: method_name(request.method),
                },
                HeaderView {
                    name: "Access-Control-Request-Headers"@,
                    value: comma_joined(unsafe_names(request.headers)),
                },
            ],
            request,
        ),
        body: None,
    }
}

/// The request as it goes out on one hop: with the headers of the request,
/// then its origin where it reads across origins under CORS, then its
/// referrer where it tells one.
pub open spec fn wire_request(request: RequestView, with_origin: bool) -> WireRequestView {
    WireRequestView {
        method: request.method,
        url: request.url,
        headers: with_referer(
            if with_origin {
                with_header(request.headers, "Origin"@, origin_text(request.origin))
            } else {
                request.headers
            },
            request,
        ),
        body: request.body,
    }
}

/// The server shares the response with the origin of the request:
/// `Access-Control-Allow-Origin` is `*` or names that origin.
pub open spec fn cors_check(request: RequestView, headers: Seq<HeaderView>) -> bool {
    match header_value(headers, "access-control-allow-origin"@) {
        Some(v) => v == "*"@ || v == origin_text(request.origin),
        None => false,
    }
}

/// The methods that a preflight response allows.
pub open spec fn allowed_methods(headers: Seq<HeaderView>) -> Seq<MethodView> {
    match header_value(headers, "access-control-allow-methods"@) {
        Some(v) => list_items(v).map_values(|n: Seq<char>| method_named(n)),
        None => Seq::empty(),
    }
}

/// The header names that a preflight response allows.
pub open spec fn allowed_headers(headers: Seq<HeaderView>) -> Seq<Seq<char>> {
    match header_value(headers, "access-control-allow-headers"@) {
        Some(v) => list_items(v),
        None => Seq::empty(),
    }
}

/// For how many seconds a preflight response may be remembered, where it says so.
pub open spec fn max_age(headers: Seq<HeaderView>) -> Option<u32> {
    match header_value(headers, "access-control-max-age"@) {
        Some(v) => decimal_value(v),
        None => None,
    }
}

/// Every header of the request that needs leave is among `allowed`.
pub open spec fn headers_allowed(request: RequestView, allowed: Seq<Seq<char>>) -> bool {
    forall|i: int|
        0 <= i < request.headers.len() && !header_is_simple(#[trigger] request.headers[i])
            ==> names_hold(allowed, request.headers[i].name)
}

/// A preflight response gives leave for the request: its status is in the
/// 200s, it shares with the origin, it lists the method, and it lists every
/// header that needs leave.
pub open spec fn preflight_allows(request: RequestView, status: u16, headers: Seq<
    HeaderView,
>) -> bool {
    &&& 200 <= status < 300
    &&& cors_check(request, headers)
    &&& allowed_methods(headers).contains(request.method)
    &&& headers_allowed(request, allowed_headers(headers))
}

/// Whether a header may go across origins without the server's leave.
pub fn is_simple_header(h: &Header) -> (r: bool)
    ensures
        r == header_is_simple(h@),
{
    let name = h.name.as_str();
    if eq_ignoring_case(name, "content-type") {
        let essence = media_type_essence(h.value.as_str());
        eq_ignoring_case(essence.as_str(), "application/x-www-form-urlencoded")
            || eq_ignoring_case(essence.as_str(), "multipart/form-data") || eq_ignoring_case(
            essence.as_str(),
            "text/plain",
        )
    } else {
        eq_ignoring_case(name, "accept") || eq_ignoring_case(name, "accept-language")
            || eq_ignoring_case(name, "content-language")
    }
}

/// The names of the headers that need the server's leave, in order.
pub fn unsafe_header_names(headers: &Headers) -> (r: Vec<String>)
    ensures
        texts(r@) == unsafe_names(headers@),
{
    let mut out: Vec<String> = Vec::new();
    let n: usize = headers.len();
    let mut i: usize = 0;
    let ghost keep = needs_leave();
    assert(headers@.take(0).filter(keep) =~= Seq::<HeaderView>::empty()) by {
        reveal(Seq::filter);
    }
    assert(texts(out@) =~= headers@.take(0).filter(keep).map_values(|h: HeaderView| h.name));
    while i < n
        invariant
            n == headers@.len(),
            i <= n,
            keep == needs_leave(),
            texts(out@) == headers@.take(i as int).filter(keep).map_values(
                |h: HeaderView| h.name,
            ),
        decreases n - i,
    {
        proof {
            crate::headers::lemma_filter_next(headers@, i as int, keep);
        }
        let ghost before = texts(out@);
        let h = headers.entry(i);
        if !is_simple_header(h) {
            out.push(h.name.clone());
            assert(texts(out@) =~= before.push(headers@[i as int].name));
            assert(headers@.take(i as int).filter(keep).push(headers@[i as int]).map_values(
                |h: HeaderView| h.name,
            ) =~= before.push(headers@[i as int].name));
        }
        i += 1;
    }
    assert(headers@.take(n as int) =~= headers@);
    out
}

/// Whether the cache has no leave for the method of the request or for one
/// of its headers, where leave is needed.
pub fn needs_preflight(cache: &CORSCache, request: &Request, now: u64) -> (r: bool)
    ensures
        r == preflight_needed(cache@, request@, now),
{
    if (request.use_cors_preflight || !request.method.is_simple()) && !cache.match_method_at(
        request,
        &request.method,
        now,
    ) {
        return true;
    }
    let n: usize = request.headers.len();
    let mut i: usize = 0;
    while i < n
        invariant
            n == request@.headers.len(),
            i <= n,
            forall|j: int|
                0 <= j < i ==> !(!header_is_simple(#[trigger] request@.headers[j])
                    && !cache_allows_header(cache@, request@, request@.headers[j].name, now)),
        decreases n - i,
    {
        let h = request.headers.entry(i);
        if !is_simple_header(h) && !cache.match_header_at(request, h.name.as_str(), now) {
            return true;
        }
        i += 1;
    }
    false
}

/// The preflight for a request.
pub fn make_preflight(request: &Request) -> (r: WireRequest)
    ensures
        r@ == preflight_request(request@),
{
    let mut headers = Headers::new();
    let names = unsafe_header_names(&request.headers);
    let origin = request.origin.ascii_serialization();
    let method = request.method.name();
    let joined = join_with_commas(&names);
    headers.set("Origin", origin.as_str());
    headers.set("Access-Control-Request-Method", method.as_str());
    headers.set("Access-Control-Request-Headers", joined.as_str());
    proof {
        lemma_preflight_headers(origin@, method@, joined@);
    }
    set_referer(&mut headers, request);
    WireRequest { method: Method::Options, url: request.url.clone(), headers, body: None }
}

/// The three headers of a preflight have three different names, so setting
/// one leaves the others.
proof fn lemma_preflight_headers(origin: Seq<char>, method: Seq<char>, names: Seq<char>)
    ensures
        with_header(
            with_header(
                with_header(Seq::empty(), "Origin"@, origin),
                "Access-Control-Request-Method"@,
                method,
            ),
            "Access-Control-Request-Headers"@,
            names,
        ) == seq![
            HeaderView { name: "Origin"@, value: origin },
            HeaderView { name: "Access-Control-Request-Method"@, value: method },
            HeaderView { name: "Access-Control-Request-Headers"@, value: names },
        ],
{
    reveal_strlit("Origin");
    reveal_strlit("Access-Control-Request-Method");
    reveal_strlit("Access-Control-Request-Headers");
    reveal_with_fuel(Seq::filter, 3);
    let a = HeaderView { name: "Origin"@, value: origin };
    let b = HeaderView { name: "Access-Control-Request-Method"@, value: method };
    let c = HeaderView { name: "Access-Control-Request-Headers"@, value: names };
    let s0 = Seq::<HeaderView>::empty();
    let k1 = crate::headers::not_named("Origin"@);
    let k2 = crate::headers::not_named("Access-Control-Request-Method"@);
    let k3 = crate::headers::not_named("Access-Control-Request-Headers"@);
    assert(s0.filter(k1) =~= s0);
    let s1 = seq![a];
    assert(s0.filter(k1).push(a) =~= s1);
    assert(s1.drop_last() =~= s0);
    assert(k2(a));
    assert(s1.filter(k2) =~= s1);
    let s2 = seq![a, b];
    assert(s1.filter(k2).push(b) =~= s2);
    assert(s2.drop_last() =~= s1);
    assert(k3(a));
    assert("Access-Control-Request-Method"@.len() != "Access-Control-Request-Headers"@.len());
    assert(k3(b));
    assert(s1.filter(k3) =~= s1);
    assert(s2.filter(k3) =~= s2);
    assert(s2.filter(k3).push(c) =~= seq![a, b, c]);
}

/// The request as it goes out on one hop.
pub fn make_wire_request(request: &Request, with_origin: bool) -> (r: WireRequest)
    ensures
        r@ == wire_request(request@, with_origin),
{
    let mut headers = request.headers.clone();
    if with_origin {
        let origin = request.origin.ascii_serialization();
        headers.set("Origin", origin.as_str());
    }
    set_referer(&mut headers, request);
    WireRequest {
        method: request.method.clone(),
        url: request.url.clone(),
        headers,
        body: match &request.body {
            Some(b) => Some(b.clone()),
            None => None,
        },
    }
}

/// Whether the server shares the response with the origin of the request.
pub fn passes_cors_check(request: &Request, headers: &Headers) -> (r: bool)
    ensures
        r == cors_check(request@, headers@),
{
    match headers.get("access-control-allow-origin") {
        Some(v) => {
            if text_eq(v, "*") {
                true
            } else {
                let origin = request.origin.ascii_serialization();
                text_eq(v, origin.as_str())
            }
        },
        None => false,
    }
}

/// The methods that a preflight response allows.
pub fn methods_allowed_by(headers: &Headers) -> (r: Vec<Method>)
    ensures
        method_views(r@) == allowed_methods(headers@),
{
    let mut out: Vec<Method> = Vec::new();
    match headers.get("access-control-allow-methods") {
        Some(v) => {
            let names = split_list(v);
            let n: usize = names.len();
            let mut i: usize = 0;
            while i < n
                invariant
                    n == names@.len(),
                    i <= n,
                    out@.len() == i,
                    forall|j: int| 0 <= j < i ==> out@[j]@ == method_named(names@[j]@),
                decreases n - i,
            {
                out.push(Method::from_name(names[i].as_str()));
                i += 1;
            }
            assert(method_views(out@) =~= texts(names@).map_values(
                |n: Seq<char>| method_named(n),
            ));
        },
        None => {
            assert(method_views(out@) =~= Seq::<MethodView>::empty());
        },
    }
    out
}

/// The header names that a preflight response allows.
pub fn headers_allowed_by(headers: &Headers) -> (r: Vec<String>)
    ensures
        texts(r@) == allowed_headers(headers@),
{
    match headers.get("access-control-allow-headers") {
        Some(v) => split_list(v),
        None => {
            let out: Vec<String> = Vec::new();
            assert(texts(out@) =~= Seq::<Seq<char>>::empty());
            out
        },
    }
}

/// For how many seconds a preflight response may be remembered, where it says so.
pub fn max_age_of(headers: &Headers) -> (r: Option<u32>)
    ensures
        r == max_age(headers@),
{
    match headers.get("access-control-max-age") {
        Some(v) => parse_decimal(v),
        None => None,
    }
}

/// Whether `methods` holds `method`.
fn methods_contain(methods: &Vec<Method>, method: &Method) -> (r: bool)
    ensures
        r == method_views(methods@).contains(method@),
{
    let n: usize = methods.len();
    let mut i: usize = 0;
    while i < n
        invariant
            n == methods@.len(),
            i <= n,
            forall|j: int| 0 <= j < i ==> method_views(methods@)[j] != method@,
        decreases n - i,
    {
        if methods[i].same(method) {
            assert(method_views(methods@)[i as int] == method@);
            return true;
        }
        i += 1;
    }
    false
}

/// Whether a preflight response gives leave for the request.
pub fn preflight_gives_leave(request: &Request, status: u16, headers: &Headers) -> (r: bool)
    ensures
        r == preflight_allows(request@, status, headers@),
{
    if !(200 <= status && status < 300) {
        return false;
    }
    if !passes_cors_check(request, headers) {
        return false;
    }
    let methods = methods_allowed_by(headers);
    if !methods_contain(&methods, &request.method) {
        return false;
    }
    let allowed = headers_allowed_by(headers);
    let n: usize = request.headers.len();
    let mut i: usize = 0;
    while i < n
        invariant
            n == request@.headers.len(),
            i <= n,
            texts(allowed@) == allowed_headers(headers@),
            forall|j: int|
                0 <= j < i && !header_is_simple(#[trigger] request@.headers[j]) ==> names_hold(
                    texts(allowed@),
                    request@.headers[j].name,
                ),
        decreases n - i,
    {
        let h = request.headers.entry(i);
        if !is_simple_header(h) && !names_contain(&allowed, h.name.as_str()) {
            return false;
        }
        i += 1;
    }
    true
}

} // verus!
