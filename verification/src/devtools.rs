//! Records of what a fetch sent and received, for tools that watch the network.
//!
//! The records are made from a finished fetch and tell of it; making them
//! changes nothing.

use crate::fetch::{Fetch, FetchView, Stage};
use crate::headers::{not_named, HeaderView, Headers};
use crate::method::{Method, MethodView};
use crate::request::PipelineId;
use crate::web_url::{Url, UrlView};
use vstd::prelude::*;
use vstd::string::*;

verus! {

/// When a request was made and how long it took, as the driver measured it.
#[derive(Clone, Copy, Debug, PartialEq, Eq, Structural)]
pub struct Timing {
    /// Seconds since the Unix epoch at which the request began.
    pub started_date_time: u64,
    pub time_stamp: i64,
    /// Milliseconds that the connection took.
    pub connect_time: u64,
    /// Milliseconds that the sending took.
    pub send_time: u64,
}

/// The record of a request as it went out.
#[derive(Debug, PartialEq, Eq)]
pub struct HttpRequest {
    pub url: Url,
    pub method: Method,
    pub headers: Headers,
    /// Whether the request had a body.
    pub has_body: bool,
    pub pipeline_id: PipelineId,
    pub timing: Timing,
}

/// The mathematical value of a [`HttpRequest`].
pub struct HttpRequestView {
    pub url: UrlView,
    pub method: MethodView,
    pub headers: Seq<HeaderView>,
    pub has_body: bool,
    pub pipeline_id: PipelineId,
    pub timing: Timing,
}

impl View for HttpRequest {
    type V = HttpRequestView;

    open spec fn view(&self) -> HttpRequestView {
        HttpRequestView {
            url: self.url@,
            method: self.method@,
            headers: self.headers@,
            has_body: self.has_body,
            pipeline_id: self.pipeline_id,
            timing: self.timing,
        }
    }
}

/// The record of a response as it came in.
#[derive(Debug, PartialEq, Eq)]
pub struct HttpResponse {
    /// The headers, without `Date`.
    pub headers: Headers,
    pub status_code: u16,
    pub status_reason: String,
    pub pipeline_id: PipelineId,
}

/// The mathematical value of a [`HttpResponse`].
pub struct HttpResponseView {
    pub headers: Seq<HeaderView>,
    pub status_code: u16,
    pub status_reason: Seq<char>,
    pub pipeline_id: PipelineId,
}

impl View for HttpResponse {
    type V = HttpResponseView;

    open spec fn view(&self) -> HttpResponseView {
        HttpResponseView {
            headers: self.headers@,
            status_code: self.status_code,
            status_reason: self.status_reason@,
            pipeline_id: self.pipeline_id,
        }
    }
}

/// The records of a fetch: there are some once the fetch is over, for a
/// request that belongs to a pipeline and went to the network, with a
/// response that is no network error. They tell of the request that was
/// sent last, after all redirects, and of the response as the server sent it,
/// before any filtering, without its `Date`.
pub open spec fn records_of(f: FetchView, timing: Timing) -> Option<
    (HttpRequestView, HttpResponseView),
> {
    if f.stage == Stage::Finished {
        match (f.request.pipeline_id, f.sent, f.response.actual().status) {
            (Some(pipeline_id), Some(sent), Some((code, reason))) => Some(
                (
                    HttpRequestView {
                        url: sent.url,
                        method: sent.method,
                        headers: sent.headers,
                        has_body: sent.body is Some,
                        pipeline_id,
                        timing,
                    },
                    HttpResponseView {
                        headers: f.response.actual().headers.filter(not_named("date"@)),
                        status_code: code,
                        status_reason: reason,
                        pipeline_id,
                    },
                ),
            ),
            _ => None,
        }
    } else {
        None
    }
}

/// The view of an optional pair of records.
pub open spec fn records_view(r: Option<(HttpRequest, HttpResponse)>) -> Option<
    (HttpRequestView, HttpResponseView),
> {
    match r {
        Some((q, p)) => Some((q@, p@)),
        None => None,
    }
}

/// The records of a fetch, where there are some, with the timing that the
/// driver measured.
pub fn devtools_records(fetch: &Fetch, timing: Timing) -> (r: Option<(HttpRequest, HttpResponse)>)
    ensures
        records_view(r) == records_of(fetch@, timing),
{
    if !fetch.is_finished() {
        return None;
    }
    let pipeline_id = match fetch.request().pipeline_id {
        Some(id) => id,
        None => {
            return None;
        },
    };
    let sent = match fetch.last_sent() {
        Some(w) => w,
        None => {
            return None;
        },
    };
    let actual = fetch.response().actual_response();
    let (code, reason) = match actual.status() {
        Some((code, reason)) => (code, reason.to_owned()),
        None => {
            return None;
        },
    };
    let mut headers = actual.headers().clone();
    headers.remove("date");
    let request = HttpRequest {
        url: sent.url.clone(),
        method: sent.method.clone(),
        headers: sent.headers.clone(),
        has_body: sent.body.is_some(),
        pipeline_id,
        timing,
    };
    let response = HttpResponse {
        headers,
        status_code: code,
        status_reason: reason,
        pipeline_id,
    };
    Some((request, response))
}

} // verus!
