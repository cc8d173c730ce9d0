//! The delivery target: who is told how a fetch goes.

use crate::fetch::{delivery_views, Delivery, DeliveryView, Fetch, FetchView};
use crate::request::{Request, RequestView};
use crate::response::{Response, ResponseView};
use vstd::prelude::*;

verus! {

/// One thing that a target was told, with what it was shown.
pub enum Told {
    RequestBody(RequestView),
    RequestEof(RequestView),
    Response(ResponseView),
    ResponseChunk(Seq<u8>),
    ResponseEof(ResponseView),
}

/// What a target is told for a delivery of a step of `fetch`.
pub open spec fn told_for(delivery: DeliveryView, fetch: FetchView) -> Told {
    match delivery {
        DeliveryView::RequestBody => Told::RequestBody(fetch.request),
        DeliveryView::RequestEof => Told::RequestEof(fetch.request),
        DeliveryView::Response => Told::Response(fetch.response),
        DeliveryView::ResponseChunk(bytes) => Told::ResponseChunk(bytes),
        DeliveryView::ResponseEof => Told::ResponseEof(fetch.response),
    }
}

/// What a target is told for the deliveries of a step of `fetch`, in order.
pub open spec fn all_told_for(deliveries: Seq<DeliveryView>, fetch: FetchView) -> Seq<Told> {
    deliveries.map_values(|d: DeliveryView| told_for(d, fetch))
}

/// What an observer of a fetch is told. Each operation may do nothing.
///
/// The operations come in this order: the body of the request and its end,
/// then the response once, then the chunks of its body as they come, then the
/// end of the response once.
///
/// A target may keep a history of what it was told, so that it can be said
/// of a caller what it tells the target, and in what order. A target that
/// keeps none, which is the default, is held to nothing.
pub trait FetchTaskTarget {
    /// Whether the target keeps a history of what it is told.
    open spec fn keeps_history(&self) -> bool {
        false
    }

    /// Everything that the target was told so far, oldest first, where it
    /// keeps a history.
    open spec fn told(&self) -> Seq<Told> {
        Seq::empty()
    }

    /// The body of the request has been handed to the network.
    fn process_request_body(&mut self, request: &Request)
        ensures
            final(self).keeps_history() == old(self).keeps_history(),
            old(self).keeps_history() ==> final(self).told() == old(self).told().push(
                Told::RequestBody(request@),
            ),
    ;

    /// The request has been sent whole.
    fn process_request_eof(&mut self, request: &Request)
        ensures
            final(self).keeps_history() == old(self).keeps_history(),
            old(self).keeps_history() ==> final(self).told() == old(self).told().push(
                Told::RequestEof(request@),
            ),
    ;

    /// The status and the headers of the response are known.
    fn process_response(&mut self, response: &Response)
        ensures
            final(self).keeps_history() == old(self).keeps_history(),
            old(self).keeps_history() ==> final(self).told() == old(self).told().push(
                Told::Response(response@),
            ),
    ;

    /// Some more bytes of the body have come.
    fn process_response_chunk(&mut self, chunk: Vec<u8>)
        ensures
            final(self).keeps_history() == old(self).keeps_history(),
            old(self).keeps_history() ==> final(self).told() == old(self).told().push(
                Told::ResponseChunk(chunk@),
            ),
    ;

    /// The response is complete.
    fn process_response_eof(&mut self, response: &Response)
        ensures
            final(self).keeps_history() == old(self).keeps_history(),
            old(self).keeps_history() ==> final(self).told() == old(self).told().push(
                Told::ResponseEof(response@),
            ),
    ;
}

/// Tells `target` what one step of `fetch` lists, each thing once, in the
/// order of the list.
pub fn deliver<T: FetchTaskTarget>(target: &mut T, fetch: &Fetch, deliveries: Vec<Delivery>)
    ensures
        final(target).keeps_history() == old(target).keeps_history(),
        old(target).keeps_history() ==> final(target).told() == old(target).told() + all_told_for(
            delivery_views(deliveries@),
            fetch@,
        ),
{
    let mut pending = deliveries;
    let ghost all = all_told_for(delivery_views(deliveries@), fetch@);
    let ghost mut done: int = 0;
    assert(old(target).told() + all.take(0) =~= old(target).told());
    assert(all_told_for(delivery_views(pending@), fetch@) =~= all.skip(0));
    while pending.len() > 0
        invariant
            0 <= done <= all.len(),
            target.keeps_history() == old(target).keeps_history(),
            target.keeps_history() ==> target.told() == old(target).told() + all.take(done),
            all_told_for(delivery_views(pending@), fetch@) == all.skip(done),
        decreases pending@.len(),
    {
        let ghost before = pending@;
        let ghost said = target.told();
        let ghost rest = all.skip(done);
        let first = pending.remove(0);
        let ghost next = told_for(first@, fetch@);
        assert(delivery_views(before)[0] == first@);
        assert(next == rest[0]);
        assert(delivery_views(pending@) =~= delivery_views(before).remove(0));
        assert(all_told_for(delivery_views(pending@), fetch@) =~= rest.remove(0));
        assert(rest.remove(0) =~= all.skip(done + 1));
        match first {
            Delivery::RequestBody => target.process_request_body(fetch.request()),
            Delivery::RequestEof => target.process_request_eof(fetch.request()),
            Delivery::Response => target.process_response(fetch.response()),
            Delivery::ResponseChunk(bytes) => target.process_response_chunk(bytes),
            Delivery::ResponseEof => target.process_response_eof(fetch.response()),
        }
        proof {
            assert(all.take(done + 1) =~= all.take(done).push(next));
            if target.keeps_history() {
                assert(target.told() == said.push(next));
                assert(target.told() =~= old(target).told() + all.take(done + 1));
            }
        }
        proof {
            done = done + 1;
        }
    }
    assert(all.skip(done).len() == 0);
    assert(all.take(done) =~= all);
}

/// A target that keeps the response of a finished fetch: what a caller that
/// waits for the end of a fetch takes the result from.
pub struct ResponseCollector {
    response: Option<Response>,
    history: Ghost<Seq<Told>>,
}

impl ResponseCollector {
    /// The response that was kept, if the end of one has come.
    pub closed spec fn collected(&self) -> Option<ResponseView> {
        match self.response {
            Some(r) => Some(r@),
            None => None,
        }
    }

    /// A collector that has seen nothing.
    pub fn new() -> (r: ResponseCollector)
        ensures
            r.collected() is None,
            r.told() == Seq::<Told>::empty(),
    {
        ResponseCollector { response: None, history: Ghost(Seq::empty()) }
    }

    /// The response that was kept, if the end of one has come.
    pub fn response(&self) -> (r: Option<&Response>)
        ensures
            match r {
                Some(x) => self.collected() == Some(x@),
                None => self.collected() is None,
            },
    {
        match &self.response {
            Some(r) => Some(r),
            None => None,
        }
    }

    /// Hands out the response that was kept, if the end of one has come.
    pub fn into_response(self) -> (r: Option<Response>)
        ensures
            match r {
                Some(x) => self.collected() == Some(x@),
                None => self.collected() is None,
            },
    {
        self.response
    }
}

impl FetchTaskTarget for ResponseCollector {
    open spec fn keeps_history(&self) -> bool {
        true
    }

    closed spec fn told(&self) -> Seq<Told> {
        self.history@
    }

    fn process_request_body(&mut self, request: &Request)
        ensures
            final(self).collected() == old(self).collected(),
    {
        proof {
            self.history@ = self.history@.push(Told::RequestBody(request@));
        }
    }

    fn process_request_eof(&mut self, request: &Request)
        ensures
            final(self).collected() == old(self).collected(),
    {
        proof {
            self.history@ = self.history@.push(Told::RequestEof(request@));
        }
    }

    fn process_response(&mut self, response: &Response)
        ensures
            final(self).collected() == old(self).collected(),
    {
        proof {
            self.history@ = self.history@.push(Told::Response(response@));
        }
    }

    fn process_response_chunk(&mut self, chunk: Vec<u8>)
        ensures
            final(self).collected() == old(self).collected(),
    {
        proof {
            self.history@ = self.history@.push(Told::ResponseChunk(chunk@));
        }
    }

    fn process_response_eof(&mut self, response: &Response)
        ensures
            final(self).collected() == Some(response@),
    {
        self.response = Some(response.clone());
        proof {
            self.history@ = self.history@.push(Told::ResponseEof(response@));
        }
    }
}

} // verus!
