//! What goes to the transport and what comes back from it.
//!
//! The library does no I/O. A driver sends each [`WireRequest`] that the
//! fetch asks for, and reports what happened as [`TransportEvent`]s.

use crate::headers::{HeaderView, Headers};
use crate::method::{Method, MethodView};
use crate::request::bytes_view;
use crate::web_url::{Url, UrlView};
use vstd::prelude::*;

verus! {

/// One request as it goes out: one hop of a fetch, or a preflight.
#[derive(Debug, PartialEq, Eq)]
pub struct WireRequest {
    pub method: Method,
    pub url: Url,
    pub headers: Headers,
    pub body: Option<Vec<u8>>,
}

/// The mathematical value of a [`WireRequest`].
pub struct WireRequestView {
    pub method: MethodView,
    pub url: UrlView,
    pub headers: Seq<HeaderView>,
    pub body: Option<Seq<u8>>,
}

impl View for WireRequest {
    type V = WireRequestView;

    open spec fn view(&self) -> WireRequestView {
        WireRequestView {
            method: self.method@,
            url: self.url@,
            headers: self.headers@,
            body: bytes_view(self.body),
        }
    }
}

impl Clone for WireRequest {
    fn clone(&self) -> (r: Self)
        ensures
            r@ == self@,
    {
        WireRequest {
            method: self.method.clone(),
            url: self.url.clone(),
            headers: self.headers.clone(),
            body: match &self.body {
                Some(b) => Some(b.clone()),
                None => None,
            },
        }
    }
}

/// What the driver reports of the work that the fetch last asked for.
#[derive(Debug, PartialEq, Eq)]
pub enum TransportEvent {
    /// The status line and the headers of the response have come.
    Head { status: u16, reason: String, headers: Headers },
    /// Some more bytes of the body have come.
    Chunk(Vec<u8>),
    /// The body is complete.
    End,
    /// The content of the file behind a `file:` URL, and its media type.
    Local { content_type: String, bytes: Vec<u8> },
    /// The work failed: no connection, a broken stream, no such file, a timeout.
    Failure,
}

/// The mathematical value of a [`TransportEvent`].
pub enum EventView {
    Head { status: u16, reason: Seq<char>, headers: Seq<HeaderView> },
    Chunk(Seq<u8>),
    End,
    Local { content_type: Seq<char>, bytes: Seq<u8> },
    Failure,
}

impl View for TransportEvent {
    type V = EventView;

    open spec fn view(&self) -> EventView {
        match *self {
            TransportEvent::Head { status, reason, headers } => EventView::Head {
                status,
                reason: reason@,
                headers: headers@,
            },
            TransportEvent::Chunk(b) => EventView::Chunk(b@),
            TransportEvent::End => EventView::End,
            TransportEvent::Local { content_type, bytes } => EventView::Local {
                content_type: content_type@,
                bytes: bytes@,
            },
            TransportEvent::Failure => EventView::Failure,
        }
    }
}

} // verus!
