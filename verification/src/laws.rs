//! What holds of every fetch, however it is driven: laws of the state
//! machine, proved from its definition.

use crate::cors::{
    allowed_headers, allowed_methods, cors_check, header_is_simple, header_lacks_leave,
    headers_allowed, max_age, preflight_allows, preflight_needed, preflight_request,
    wire_request,
};
use crate::cors_cache::{
    cache_allows_header, cache_allows_method, cache_with, expiry_of, EntryView,
};
use crate::fetch::{
    filter_kind, fresh, head_delivery, is_http_scheme, is_local_scheme, is_redirect,
    next_tainting, raw_response, redirect_method, redirected, started, whole_delivery,
    ActionView, DeliveryView, FetchView, Outcome, ResponseTainting, Stage, StepView, MAX_REDIRECTS,
};
use crate::headers::{header_value, names_hold, HeaderView};
use crate::method::MethodView;
use crate::request::{CredentialsMode, RedirectMode, RequestMode, RequestView};
use crate::response::{
    lemma_filtered_is_done, lemma_finished_is_done, BodyView, ResponseType, ResponseView,
};
use crate::text::same_ignoring_case;
use crate::transport::EventView;
use crate::web_url::{resolved, same_origin, UrlView};
use vstd::prelude::*;

verus! {

/// A `303` turns every method into `GET`; a `301` or a `302` turns `POST`
/// into `GET`; every other pair of status and method keeps the method.
pub proof fn law_redirect_method(status: u16, method: MethodView)
    ensures
        status == 303 ==> redirect_method(status, method) == MethodView::Get,
        (status == 301 || status == 302) && method is Post ==> redirect_method(status, method)
            == MethodView::Get,
        status != 303 && !((status == 301 || status == 302) && method is Post) ==> redirect_method(
            status,
            method,
        ) == method,
{
}

/// One report from the driver, and the time at which it came.
pub struct Report {
    pub event: EventView,
    pub now: u64,
}

/// What a fetch has come to after one more report: the fetch and the
/// cache as they then are, everything that the target was to be told since
/// the fetch began, and what the driver is to do next.
pub open spec fn step_on(o: Outcome, report: Report) -> Outcome {
    let next = o.fetch.handle(o.cache, report.now, report.event);
    Outcome {
        fetch: next.fetch,
        cache: next.cache,
        step: StepView {
            deliveries: o.step.deliveries + next.step.deliveries,
            action: next.step.action,
        },
    }
}

/// What a fetch has come to after some more reports.
pub open spec fn run_on(o: Outcome, reports: Seq<Report>) -> Outcome
    decreases reports.len(),
{
    if reports.len() == 0 {
        o
    } else {
        run_on(step_on(o, reports[0]), reports.drop_first())
    }
}

/// What the fetch of `request`, begun at `now`, has come to after `reports`.
pub open spec fn fetch_run(
    request: RequestView,
    cache: Seq<EntryView>,
    now: u64,
    reports: Seq<Report>,
) -> Outcome {
    run_on(started(request, cache, now), reports)
}

/// What the target has been told is in order: nothing as long as no
/// response stands; then the request's body and end and the response, then
/// chunks only, and, once the fetch is over, the end of the response last.
pub open spec fn in_order(deliveries: Seq<DeliveryView>, stage: Stage) -> bool {
    match stage {
        Stage::AwaitingPreflight | Stage::AwaitingHead | Stage::AwaitingLocal => deliveries.len()
            == 0,
        Stage::Receiving => {
            &&& deliveries.len() >= 3
            &&& deliveries.take(3) == head_delivery()
            &&& forall|i: int| 3 <= i < deliveries.len() ==> #[trigger] deliveries[i] is ResponseChunk
        },
        Stage::Finished => {
            &&& deliveries.len() >= 4
            &&& deliveries.take(3) == head_delivery()
            &&& forall|i: int|
                3 <= i < deliveries.len() - 1 ==> #[trigger] deliveries[i] is ResponseChunk
            &&& deliveries.last() == DeliveryView::ResponseEof
        },
    }
}

/// What holds of a fetch at every moment: the target has been told things
/// in order, the driver is asked for what the stage awaits, and a fetch that
/// is over has a response that is complete.
pub open spec fn orderly(o: Outcome) -> bool {
    &&& in_order(o.step.deliveries, o.fetch.stage)
    &&& match o.fetch.stage {
        Stage::AwaitingPreflight | Stage::AwaitingHead => o.step.action is Send,
        Stage::AwaitingLocal => o.step.action is Load,
        Stage::Receiving => o.step.action is Receive,
        Stage::Finished => o.step.action is Done,
    }
    &&& o.fetch.stage == Stage::Finished ==> o.fetch.response.is_done()
}

/// A step that sends the request on, by the scheme of its URL, leaves the fetch in order.
proof fn lemma_dispatch_orderly(f: FetchView, cache: Seq<EntryView>, now: u64)
    ensures
        orderly(f.dispatch(cache, now)),
{
    let o = f.dispatch(cache, now);
    assert(whole_delivery().take(3) =~= head_delivery());
    if f.request.url.scheme == "about"@ && f.request.url.path == "blank"@ {
        lemma_filtered_is_done(
            crate::fetch::blank_response(f.request),
            filter_kind(f.tainting),
        );
    }
    match crate::data_url::data_content(crate::data_url::data_text(f.request.url)) {
        Some(data) => {
            lemma_filtered_is_done(
                crate::fetch::local_response(f.request, data.content_type, data.bytes),
                filter_kind(f.tainting),
            );
        },
        None => {},
    }
}

/// The first step of a fetch leaves it in order.
pub proof fn lemma_started_orderly(request: RequestView, cache: Seq<EntryView>, now: u64)
    ensures
        orderly(started(request, cache, now)),
{
    lemma_dispatch_orderly(fresh(request), cache, now);
    assert(whole_delivery().take(3) =~= head_delivery());
}

/// Every step keeps a fetch in order.
pub proof fn lemma_step_orderly(o: Outcome, report: Report)
    requires
        orderly(o),
    ensures
        orderly(step_on(o, report)),
{
    let f = o.fetch;
    let next = f.handle(o.cache, report.now, report.event);
    let before = o.step.deliveries;
    assert(whole_delivery().take(3) =~= head_delivery());
    match f.stage {
        Stage::AwaitingPreflight => {
            assert(before + next.step.deliveries =~= next.step.deliveries);
        },
        Stage::AwaitingHead => {
            assert(before + next.step.deliveries =~= next.step.deliveries);
            match report.event {
                EventView::Head { status, reason, headers } => {
                    if !(f.tainting == ResponseTainting::CORSTainting && !cors_check(
                        f.request,
                        headers,
                    )) && is_redirect(status, headers) && f.request.redirect_mode
                        == RedirectMode::Follow && f.request.redirect_count() < MAX_REDIRECTS {
                        let target = resolved(
                            Some(f.request.url.serialization),
                            header_value(headers, "location"@)->0,
                        );
                        if target is Some {
                            lemma_dispatch_orderly(
                                FetchView {
                                    request: redirected(f.request, status, target->0),
                                    ..f
                                },
                                o.cache,
                                report.now,
                            );
                        }
                    }
                    assert(head_delivery().take(3) =~= head_delivery());
                },
                _ => {},
            }
        },
        Stage::AwaitingLocal => {
            assert(before + next.step.deliveries =~= next.step.deliveries);
            match report.event {
                EventView::Local { content_type, bytes } => {
                    lemma_filtered_is_done(
                        crate::fetch::local_response(f.request, content_type, bytes),
                        filter_kind(f.tainting),
                    );
                },
                _ => {},
            }
        },
        Stage::Receiving => {
            let all = before + next.step.deliveries;
            assert(all.take(3) =~= before.take(3));
            match report.event {
                EventView::End => {
                    lemma_finished_is_done(f.response);
                },
                _ => {},
            }
        },
        Stage::Finished => {
            assert(before + next.step.deliveries =~= before);
        },
    }
}

/// Every run of a fetch leaves it in order: what the target is told comes in
/// the order of the protocol, and the response of a fetch that is over is
/// complete, whoever drives it and however the reports come.
pub proof fn law_run_orderly(o: Outcome, reports: Seq<Report>)
    requires
        orderly(o),
    ensures
        orderly(run_on(o, reports)),
    decreases reports.len(),
{
    if reports.len() > 0 {
        lemma_step_orderly(o, reports[0]);
        law_run_orderly(step_on(o, reports[0]), reports.drop_first());
    }
}

/// The response of a fetch that is over is complete: whether the driver
/// waits for the end or is told of it, it holds the same response, of the
/// same kind, with the same body, and that response is done.
pub proof fn law_fetch_ends_done(
    request: RequestView,
    cache: Seq<EntryView>,
    now: u64,
    reports: Seq<Report>,
)
    ensures
        orderly(fetch_run(request, cache, now, reports)),
        fetch_run(request, cache, now, reports).fetch.stage == Stage::Finished ==> fetch_run(
            request,
            cache,
            now,
            reports,
        ).fetch.response.is_done(),
{
    lemma_started_orderly(request, cache, now);
    law_run_orderly(started(request, cache, now), reports);
}

/// A scheme that is fetched over HTTP is not resolved locally.
pub proof fn lemma_http_is_not_local(scheme: Seq<char>)
    requires
        is_http_scheme(scheme),
    ensures
        !is_local_scheme(scheme),
        scheme != "about"@,
        scheme != "data"@,
        scheme != "file"@,
{
    reveal_strlit("about");
    reveal_strlit("data");
    reveal_strlit("file");
    reveal_strlit("http");
    reveal_strlit("https");
    assert("about"@[0] == 'a');
    assert("data"@[0] == 'd');
    assert("file"@[0] == 'f');
    assert("http"@[0] == 'h');
    assert("https"@[0] == 'h');
    assert("about"@.len() == 5);
    assert("https"@.len() == 5);
    assert("http"@.len() == 4);
}

/// A response that shows nothing of what the server sent.
pub open spec fn shows_nothing(response: ResponseView) -> bool {
    &&& response.response_type == ResponseType::Opaque || response.response_type
        == ResponseType::OpaqueRedirect || response.response_type == ResponseType::Error
    &&& response.url is None
    &&& response.url_list.len() == 0
    &&& response.status is None
    &&& response.headers.len() == 0
    &&& response.visible_body() == BodyView::Empty
}

/// A fetch that has left the origin of its request without `CORSMode`, and
/// has shown nothing since.
pub open spec fn sealed(o: Outcome) -> bool {
    &&& o.fetch.tainting == ResponseTainting::Opaque
    &&& o.fetch.request.mode != RequestMode::CORSMode
    &&& shows_nothing(o.fetch.response)
    &&& forall|i: int| 0 <= i < o.step.deliveries.len() ==> !(#[trigger] o.step.deliveries[i]
        is ResponseChunk)
}

proof fn lemma_dispatch_sealed(f: FetchView, cache: Seq<EntryView>, now: u64)
    requires
        f.tainting == ResponseTainting::Opaque,
        f.request.mode != RequestMode::CORSMode,
        shows_nothing(f.response),
    ensures
        f.dispatch(cache, now).fetch.tainting == ResponseTainting::Opaque,
        f.dispatch(cache, now).fetch.request == f.request,
        shows_nothing(f.dispatch(cache, now).fetch.response),
        forall|i: int|
            0 <= i < f.dispatch(cache, now).step.deliveries.len() ==> !(#[trigger] f.dispatch(
                cache,
                now,
            ).step.deliveries[i] is ResponseChunk),
{
}

/// Once sealed, a fetch stays sealed.
pub proof fn lemma_step_sealed(o: Outcome, report: Report)
    requires
        sealed(o),
    ensures
        sealed(step_on(o, report)),
{
    let f = o.fetch;
    match f.stage {
        Stage::AwaitingHead => {
            match report.event {
                EventView::Head { status, reason, headers } => {
                    if is_redirect(status, headers) && f.request.redirect_mode
                        == RedirectMode::Follow && f.request.redirect_count() < MAX_REDIRECTS {
                        let target = resolved(
                            Some(f.request.url.serialization),
                            header_value(headers, "location"@)->0,
                        );
                        if target is Some {
                            lemma_dispatch_sealed(
                                FetchView {
                                    request: redirected(f.request, status, target->0),
                                    ..f
                                },
                                o.cache,
                                report.now,
                            );
                        }
                    }
                },
                _ => {},
            }
        },
        _ => {},
    }
}

/// A fetch that goes over the network to another origin than that of its
/// request, without `CORSMode`, never shows anything of what the server
/// sends: whatever is reported, its response is opaque or an error, without
/// URL, status, headers or body, and the target is handed no chunk.
pub proof fn law_cross_origin_stays_sealed(
    request: RequestView,
    cache: Seq<EntryView>,
    now: u64,
    reports: Seq<Report>,
)
    requires
        request.mode != RequestMode::CORSMode,
        !request.local_urls_only,
        is_http_scheme(request.url.scheme),
        !same_origin(request.origin, request.url.origin),
    ensures
        sealed(fetch_run(request, cache, now, reports)),
{
    lemma_http_is_not_local(request.url.scheme);
    let o = started(request, cache, now);
    assert(sealed(o));
    lemma_run_sealed(o, reports);
}

proof fn lemma_run_sealed(o: Outcome, reports: Seq<Report>)
    requires
        sealed(o),
    ensures
        sealed(run_on(o, reports)),
    decreases reports.len(),
{
    if reports.len() > 0 {
        lemma_step_sealed(o, reports[0]);
        lemma_run_sealed(step_on(o, reports[0]), reports.drop_first());
    }
}

/// The answer to a request that went to another origin without `CORSMode`
/// is an opaque response: whatever status, headers and body the server
/// sends, the response is of kind `Opaque`, has no URL, no status and no
/// header, shows no body while the body comes in and none when it is
/// complete, and keeps what the server sent inside, out of sight.
pub proof fn law_cross_origin_is_opaque(
    request: RequestView,
    cache: Seq<EntryView>,
    now: u64,
    status: u16,
    reason: Seq<char>,
    headers: Seq<HeaderView>,
    chunks: Seq<Seq<u8>>,
)
    requires
        request.mode != RequestMode::CORSMode,
        !request.local_urls_only,
        is_http_scheme(request.url.scheme),
        !same_origin(request.origin, request.url.origin),
        !is_redirect(status, headers),
    ensures
        started(request, cache, now).step.action == ActionView::Send(wire_request(request, false)),
        ({
            let head = Report { event: EventView::Head { status, reason, headers }, now };
            let o = fetch_run(request, cache, now, seq![head] + body_reports(chunks, now));
            &&& o.fetch.stage == Stage::Finished
            &&& o.fetch.response.response_type == ResponseType::Opaque
            &&& o.fetch.response.url is None
            &&& o.fetch.response.status is None
            &&& o.fetch.response.headers.len() == 0
            &&& o.fetch.response.visible_body() == BodyView::Empty
            &&& o.fetch.response.is_done()
            &&& o.fetch.response.actual().status == Some((status, reason))
            &&& o.fetch.response.actual().headers == headers
            &&& o.fetch.response.actual().body == BodyView::Done(chunks.flatten())
        }),
{
    lemma_http_is_not_local(request.url.scheme);
    let head = Report { event: EventView::Head { status, reason, headers }, now };
    let o0 = started(request, cache, now);
    let o1 = step_on(o0, head);
    let all = seq![head] + body_reports(chunks, now);
    assert(all[0] == head);
    assert(all.drop_first() =~= body_reports(chunks, now));
    assert(o1.fetch.stage == Stage::Receiving);
    assert(o1.fetch.response == raw_response(request, status, reason, headers).filtered(
        ResponseType::Opaque,
    ));
    lemma_body_run(o1, chunks, now);
    assert(Seq::<u8>::empty() + chunks.flatten() =~= chunks.flatten());
}

/// The reports of a body that comes in the given chunks and then ends.
pub open spec fn body_reports(chunks: Seq<Seq<u8>>, now: u64) -> Seq<Report> {
    chunks.map_values(|c: Seq<u8>| Report { event: EventView::Chunk(c), now }).push(
        Report { event: EventView::End, now },
    )
}

/// The response once its body is complete, with `bytes` after what had come
/// before: nothing has changed but the body of the unfiltered response.
pub open spec fn completed(response: ResponseView, bytes: Seq<u8>) -> ResponseView {
    match response.internal {
        Some(inner) => ResponseView {
            internal: Some(
                Box::new(ResponseView { body: BodyView::Done(inner.body.bytes() + bytes), ..*inner }),
            ),
            ..response
        },
        None => ResponseView { body: BodyView::Done(response.body.bytes() + bytes), ..response },
    }
}

/// A response while its body comes in, chunk by chunk, and then ends:
/// nothing changes but the body of the unfiltered response, which in the end
/// holds what it held before and then the chunks, in order.
pub proof fn lemma_body_run(o: Outcome, chunks: Seq<Seq<u8>>, now: u64)
    requires
        o.fetch.stage == Stage::Receiving,
        !(o.fetch.response.actual().body is Done),
    ensures
        run_on(o, body_reports(chunks, now)).fetch == (FetchView {
            stage: Stage::Finished,
            response: completed(o.fetch.response, chunks.flatten()),
            ..o.fetch
        }),
        run_on(o, body_reports(chunks, now)).cache == o.cache,
    decreases chunks.len(),
{
    let reports = body_reports(chunks, now);
    let b = o.fetch.response.actual().body.bytes();
    if chunks.len() == 0 {
        assert(reports.drop_first() =~= Seq::<Report>::empty());
        assert(reports[0].event == EventView::End);
        assert(chunks.flatten() =~= Seq::<u8>::empty());
        let end = run_on(o, reports);
        assert(end == step_on(o, reports[0])) by {
            reveal_with_fuel(run_on, 2);
        }
        assert(b + Seq::<u8>::empty() =~= b);
    } else {
        let first = Report { event: EventView::Chunk(chunks[0]), now };
        assert(reports[0] == first);
        assert(reports.drop_first() =~= body_reports(chunks.drop_first(), now));
        let o1 = step_on(o, first);
        lemma_body_run(o1, chunks.drop_first(), now);
        lemma_flatten_first(chunks);
        assert((b + chunks[0]) + chunks.drop_first().flatten() =~= b + (chunks[0]
            + chunks.drop_first().flatten()));
        assert(Seq::<u8>::empty() + chunks[0] =~= chunks[0]);
        assert(o1.fetch.response.actual().body.bytes() =~= b + chunks[0]);
    }
}

/// However the transport cuts a body into chunks, the fetch ends the same:
/// with the same response, holding the same bytes.
pub proof fn law_chunks_do_not_matter(
    o: Outcome,
    chunks: Seq<Seq<u8>>,
    others: Seq<Seq<u8>>,
    now: u64,
    then: u64,
)
    requires
        o.fetch.stage == Stage::Receiving,
        !(o.fetch.response.actual().body is Done),
        chunks.flatten() == others.flatten(),
    ensures
        run_on(o, body_reports(chunks, now)).fetch == run_on(o, body_reports(others, then)).fetch,
        run_on(o, body_reports(chunks, now)).fetch.stage == Stage::Finished,
        run_on(o, body_reports(chunks, now)).fetch.response.is_done(),
{
    lemma_body_run(o, chunks, now);
    lemma_body_run(o, others, then);
}

/// The first of several runs of bytes comes first when they are laid end to end.
pub proof fn lemma_flatten_first(chunks: Seq<Seq<u8>>)
    requires
        chunks.len() > 0,
    ensures
        chunks.flatten() == chunks[0] + chunks.drop_first().flatten(),
{
}

/// A run of reports can be taken in two parts.
pub proof fn lemma_run_append(o: Outcome, first: Seq<Report>, then: Seq<Report>)
    ensures
        run_on(o, first + then) == run_on(run_on(o, first), then),
    decreases first.len(),
{
    if first.len() == 0 {
        assert(first + then =~= then);
    } else {
        assert((first + then)[0] == first[0]);
        assert((first + then).drop_first() =~= first.drop_first() + then);
        lemma_run_append(step_on(o, first[0]), first.drop_first(), then);
    }
}

/// A fetch that is over stays as it is, whatever is reported.
pub proof fn lemma_finished_stays(o: Outcome, reports: Seq<Report>)
    requires
        o.fetch.stage == Stage::Finished,
    ensures
        run_on(o, reports).fetch == o.fetch,
        run_on(o, reports).cache == o.cache,
        run_on(o, reports).step.deliveries == o.step.deliveries,
    decreases reports.len(),
{
    if reports.len() > 0 {
        let next = step_on(o, reports[0]);
        assert(next.step.deliveries =~= o.step.deliveries);
        lemma_finished_stays(next, reports.drop_first());
    }
}

/// The first time that a request which asks for a preflight goes to another
/// origin, one `OPTIONS` request goes out before it. Once the server has
/// given leave and said for how long, a second request with the same
/// origin, URL and use of credentials, whose method and headers that leave
/// covers, goes out at once for as long as the leave lasts: no `OPTIONS`
/// request is sent for it.
pub proof fn law_preflight_is_remembered(
    first: RequestView,
    second: RequestView,
    cache: Seq<EntryView>,
    now: u64,
    status: u16,
    reason: Seq<char>,
    headers: Seq<HeaderView>,
    age: u32,
    later: u64,
)
    requires
        first.mode == RequestMode::CORSMode,
        first.use_cors_preflight,
        !first.local_urls_only,
        is_http_scheme(first.url.scheme),
        !same_origin(first.origin, first.url.origin),
        !cache_allows_method(cache, first, first.method, now),
        preflight_allows(first, status, headers),
        max_age(headers) == Some(age),
        second.mode == RequestMode::CORSMode,
        !second.local_urls_only,
        second.url == first.url,
        second.origin == first.origin,
        !(first.origin is Unique),
        (second.credentials_mode == CredentialsMode::Include) == (first.credentials_mode
            == CredentialsMode::Include),
        allowed_methods(headers).contains(second.method),
        headers_allowed(second, allowed_headers(headers)),
        later < expiry_of(now, age),
    ensures
        started(first, cache, now).step.action == ActionView::Send(preflight_request(first)),
        preflight_request(first).method == MethodView::Options,
        ({
            let head = Report { event: EventView::Head { status, reason, headers }, now };
            let o = step_on(started(first, cache, now), head);
            &&& o.step.action == ActionView::Send(wire_request(first, true))
            &&& o.cache == cache_with(
                cache,
                first,
                age,
                allowed_methods(headers),
                allowed_headers(headers),
                now,
            )
            &&& !preflight_needed(o.cache, second, later)
            &&& started(second, o.cache, later).step.action == ActionView::Send(
                wire_request(second, true),
            )
        }),
{
    lemma_http_is_not_local(first.url.scheme);
    let head = Report { event: EventView::Head { status, reason, headers }, now };
    let o0 = started(first, cache, now);
    assert(o0.fetch.stage == Stage::AwaitingPreflight);
    let o = step_on(o0, head);
    let after = cache_with(
        cache,
        first,
        age,
        allowed_methods(headers),
        allowed_headers(headers),
        now,
    );
    assert(o.cache == after);
    let last = after.len() - 1;
    let entry = after[last];
    assert(entry.is_for(second));
    assert(entry.live(later));
    assert(entry.allows_method(second, second.method, later));
    assert(cache_allows_method(after, second, second.method, later));
    assert forall|i: int|
        0 <= i < second.headers.len() && !header_is_simple(
            #[trigger] second.headers[i],
        ) implies cache_allows_header(after, second, second.headers[i].name, later) by {
        assert(names_hold(allowed_headers(headers), second.headers[i].name));
        let j = choose|j: int|
            0 <= j < allowed_headers(headers).len() && same_ignoring_case(
                #[trigger] allowed_headers(headers)[j],
                second.headers[i].name,
            );
        assert(same_ignoring_case(entry.headers[j], second.headers[i].name));
        assert(entry.allows_header(second, second.headers[i].name, later));
    }
    assert(!header_lacks_leave(after, second, later));
}

/// One hop of a chain of redirects: the head of a response that sends the
/// fetch on, and the URL that its `Location` resolves to.
pub struct Hop {
    pub status: u16,
    pub reason: Seq<char>,
    pub headers: Seq<HeaderView>,
    pub target: UrlView,
}

/// The report of the head of a hop.
pub open spec fn hop_report(hop: Hop, now: u64) -> Report {
    Report {
        event: EventView::Head { status: hop.status, reason: hop.reason, headers: hop.headers },
        now,
    }
}

/// The reports of the heads of a chain of hops.
pub open spec fn hop_reports(hops: Seq<Hop>, now: u64) -> Seq<Report> {
    hops.map_values(|h: Hop| hop_report(h, now))
}

/// The fetch once it has followed a hop and sent the request on.
pub open spec fn followed(f: FetchView, hop: Hop) -> FetchView {
    let request = redirected(f.request, hop.status, hop.target);
    let tainting = next_tainting(f.tainting, request);
    FetchView {
        request,
        tainting,
        stage: Stage::AwaitingHead,
        sent: Some(wire_request(request, tainting == ResponseTainting::CORSTainting)),
        ..f
    }
}

/// The hop is one that a fetch follows: the fetch awaits a head and follows
/// redirects, the head is a redirect that the fetch may read, its `Location`
/// resolves to the target, and the target is fetched over HTTP without a
/// preflight.
pub open spec fn leads_on(f: FetchView, cache: Seq<EntryView>, now: u64, hop: Hop) -> bool {
    &&& f.stage == Stage::AwaitingHead
    &&& f.request.redirect_mode == RedirectMode::Follow
    &&& is_redirect(hop.status, hop.headers)
    &&& f.tainting == ResponseTainting::CORSTainting ==> cors_check(f.request, hop.headers)
    &&& resolved(Some(f.request.url.serialization), header_value(hop.headers, "location"@)->0)
        == Some(hop.target)
    &&& is_http_scheme(hop.target.scheme)
    &&& !(followed(f, hop).tainting == ResponseTainting::CORSTainting && preflight_needed(
        cache,
        followed(f, hop).request,
        now,
    ))
}

/// A chain of redirects: each hop is one that the fetch, having followed the
/// hops before it, follows.
pub open spec fn is_chain(f: FetchView, cache: Seq<EntryView>, now: u64, hops: Seq<Hop>) -> bool
    decreases hops.len(),
{
    hops.len() == 0 || (leads_on(f, cache, now, hops[0]) && is_chain(
        followed(f, hops[0]),
        cache,
        now,
        hops.drop_first(),
    ))
}

/// The fetch once it has followed every hop of a chain.
pub open spec fn followed_all(f: FetchView, hops: Seq<Hop>) -> FetchView
    decreases hops.len(),
{
    if hops.len() == 0 {
        f
    } else {
        followed_all(followed(f, hops[0]), hops.drop_first())
    }
}

/// Following a chain adds one URL to the list for each hop, and leaves the
/// fetch waiting for a head.
pub proof fn lemma_followed_all(f: FetchView, hops: Seq<Hop>)
    requires
        f.stage == Stage::AwaitingHead,
    ensures
        followed_all(f, hops).stage == Stage::AwaitingHead,
        followed_all(f, hops).request.redirect_count() == f.request.redirect_count() + hops.len(),
        followed_all(f, hops).request.url_list().len() == f.request.url_list().len() + hops.len(),
        followed_all(f, hops).request.mode == f.request.mode,
        followed_all(f, hops).request.origin == f.request.origin,
        followed_all(f, hops).response == f.response,
        hops.len() > 0 ==> followed_all(f, hops).request.url == hops.last().target,
        hops.len() == 0 ==> followed_all(f, hops) == f,
        f.request.mode == RequestMode::CORSMode && f.tainting != ResponseTainting::Opaque
            ==> followed_all(f, hops).tainting != ResponseTainting::Opaque,
    decreases hops.len(),
{
    if hops.len() > 0 {
        lemma_followed_all(followed(f, hops[0]), hops.drop_first());
        if hops.len() > 1 {
            assert(hops.drop_first().last() == hops.last());
        }
    }
}

/// As long as the limit is not reached, a fetch follows a chain of
/// redirects hop by hop, and tells the target nothing meanwhile.
pub proof fn lemma_chain_followed(o: Outcome, now: u64, hops: Seq<Hop>)
    requires
        is_chain(o.fetch, o.cache, now, hops),
        o.fetch.request.redirect_count() + hops.len() <= MAX_REDIRECTS,
    ensures
        run_on(o, hop_reports(hops, now)).fetch == followed_all(o.fetch, hops),
        run_on(o, hop_reports(hops, now)).cache == o.cache,
        run_on(o, hop_reports(hops, now)).step.deliveries == o.step.deliveries,
    decreases hops.len(),
{
    let reports = hop_reports(hops, now);
    if hops.len() > 0 {
        let f = o.fetch;
        let hop = hops[0];
        assert(reports[0] == hop_report(hop, now));
        assert(reports.drop_first() =~= hop_reports(hops.drop_first(), now));
        lemma_http_is_not_local(hop.target.scheme);
        let next = step_on(o, reports[0]);
        assert(next.fetch == followed(f, hop));
        assert(next.step.deliveries =~= o.step.deliveries);
        lemma_chain_followed(next, now, hops.drop_first());
    }
}

/// Past the limit, a chain of redirects ends the fetch with a network error.
pub proof fn lemma_chain_too_long(o: Outcome, now: u64, hops: Seq<Hop>)
    requires
        is_chain(o.fetch, o.cache, now, hops),
        o.fetch.request.redirect_count() + hops.len() > MAX_REDIRECTS,
        o.fetch.request.redirect_count() <= MAX_REDIRECTS,
    ensures
        run_on(o, hop_reports(hops, now)).fetch.stage == Stage::Finished,
        run_on(o, hop_reports(hops, now)).fetch.response == ResponseView::network_error(),
    decreases hops.len(),
{
    let reports = hop_reports(hops, now);
    let f = o.fetch;
    let hop = hops[0];
    assert(reports[0] == hop_report(hop, now));
    assert(reports.drop_first() =~= hop_reports(hops.drop_first(), now));
    let next = step_on(o, reports[0]);
    if f.request.redirect_count() >= MAX_REDIRECTS {
        assert(next.fetch.stage == Stage::Finished);
        lemma_finished_stays(next, reports.drop_first());
    } else {
        lemma_http_is_not_local(hop.target.scheme);
        assert(next.fetch == followed(f, hop));
        lemma_chain_too_long(next, now, hops.drop_first());
    }
}

/// A fetch follows a chain of up to twenty redirects to its end. The
/// response is that of the last URL: `Basic` where the fetch has stayed in
/// the origin of the request, `CORS` where it has left it under `CORSMode`;
/// its list of URLs has one URL more than the chain has hops; and its body
/// is what the last server sent.
pub proof fn law_redirects_are_followed(
    request: RequestView,
    cache: Seq<EntryView>,
    now: u64,
    hops: Seq<Hop>,
    status: u16,
    reason: Seq<char>,
    headers: Seq<HeaderView>,
    chunks: Seq<Seq<u8>>,
)
    requires
        request.visited.len() == 0,
        started(request, cache, now).fetch.stage == Stage::AwaitingHead,
        is_chain(started(request, cache, now).fetch, cache, now, hops),
        hops.len() <= MAX_REDIRECTS,
        !is_redirect(status, headers),
        followed_all(started(request, cache, now).fetch, hops).tainting
            == ResponseTainting::CORSTainting ==> cors_check(
            followed_all(started(request, cache, now).fetch, hops).request,
            headers,
        ),
    ensures
        ({
            let last = followed_all(started(request, cache, now).fetch, hops);
            let head = Report { event: EventView::Head { status, reason, headers }, now };
            let o = fetch_run(
                request,
                cache,
                now,
                hop_reports(hops, now) + (seq![head] + body_reports(chunks, now)),
            );
            &&& o.fetch.stage == Stage::Finished
            &&& o.fetch.response.response_type == filter_kind(last.tainting)
            &&& o.fetch.response.actual() == (ResponseView {
                body: BodyView::Done(chunks.flatten()),
                ..raw_response(last.request, status, reason, headers)
            })
            &&& last.tainting != ResponseTainting::Opaque ==> {
                &&& o.fetch.response.response_type == ResponseType::Basic
                    || o.fetch.response.response_type == ResponseType::CORS
                &&& o.fetch.response.url_list.len() == hops.len() + 1
                &&& o.fetch.response.url == Some(last.request.url)
                &&& o.fetch.response.status == Some((status, reason))
                &&& o.fetch.response.visible_body() == BodyView::Done(chunks.flatten())
            }
            &&& request.mode == RequestMode::CORSMode ==> last.tainting
                != ResponseTainting::Opaque
            &&& hops.len() > 0 ==> last.request.url == hops.last().target
            &&& o.fetch.response.is_done()
        }),
{
    let o0 = started(request, cache, now);
    let last = followed_all(o0.fetch, hops);
    let head = Report { event: EventView::Head { status, reason, headers }, now };
    lemma_started_orderly(request, cache, now);
    assert(o0.step.deliveries.len() == 0);
    assert(o0.cache == cache);
    assert(o0.fetch.request.visited.len() == 0) by {
        if request.local_urls_only && !is_local_scheme(request.url.scheme) {
        } else {
        }
    }
    lemma_followed_all(o0.fetch, hops);
    lemma_chain_followed(o0, now, hops);
    let o1 = run_on(o0, hop_reports(hops, now));
    lemma_run_append(o0, hop_reports(hops, now), seq![head] + body_reports(chunks, now));
    let rest = seq![head] + body_reports(chunks, now);
    assert(rest[0] == head);
    assert(rest.drop_first() =~= body_reports(chunks, now));
    let o2 = step_on(o1, head);
    assert(o2.fetch.stage == Stage::Receiving);
    let raw = raw_response(last.request, status, reason, headers);
    assert(o2.fetch.response == raw.filtered(filter_kind(last.tainting)));
    lemma_body_run(o2, chunks, now);
    assert(Seq::<u8>::empty() + chunks.flatten() =~= chunks.flatten());
    let o = run_on(o2, body_reports(chunks, now));
    lemma_finished_is_done(o2.fetch.response);
    assert(o0.fetch.tainting != ResponseTainting::Opaque || request.mode
        != RequestMode::CORSMode);
    assert(o.fetch.response.is_done());
}

/// A chain of more than twenty redirects is not followed to its end: the
/// fetch stops at the twenty-first with a network error, and stays there
/// whatever is reported after.
pub proof fn law_redirects_are_limited(
    request: RequestView,
    cache: Seq<EntryView>,
    now: u64,
    hops: Seq<Hop>,
    after: Seq<Report>,
)
    requires
        request.visited.len() == 0,
        started(request, cache, now).fetch.stage == Stage::AwaitingHead,
        is_chain(started(request, cache, now).fetch, cache, now, hops),
        hops.len() > MAX_REDIRECTS,
    ensures
        fetch_run(request, cache, now, hop_reports(hops, now) + after).fetch.stage
            == Stage::Finished,
        fetch_run(
            request,
            cache,
            now,
            hop_reports(hops, now) + after,
        ).fetch.response.response_type == ResponseType::Error,
{
    let o0 = started(request, cache, now);
    assert(o0.cache == cache);
    lemma_chain_too_long(o0, now, hops);
    lemma_run_append(o0, hop_reports(hops, now), after);
    lemma_finished_stays(run_on(o0, hop_reports(hops, now)), after);
}

} // verus!
