//! Tracking of the loads that hold back a document's load event.
//!
//! The loader keeps the list of loads in progress and makes up the message
//! that asks for each new one. It sends nothing: whoever owns the channel to
//! the resource threads sends the message that it is handed.

use crate::request::{PipelineId, ReferrerPolicy, Request, RequestView};
use crate::web_url::{url_view, Url, UrlView};
use vstd::prelude::*;

verus! {

/// A load that a document waits for, by what is loaded.
#[derive(Debug, PartialEq, Eq)]
pub enum LoadType {
    Image(Url),
    Script(Url),
    Subframe(Url),
    Stylesheet(Url),
    PageSource(Url),
    Media(Url),
}

/// The kind of a [`LoadType`], without its URL.
#[derive(Clone, Copy, Debug, PartialEq, Eq, Structural)]
pub enum LoadKind {
    Image,
    Script,
    Subframe,
    Stylesheet,
    PageSource,
    Media,
}

/// What a load is for, as the resource threads are told.
#[derive(Clone, Copy, Debug, PartialEq, Eq, Structural)]
pub enum LoadContext {
    Browsing,
    Image,
    AudioVideo,
    Plugin,
    Style,
    Script,
    Font,
    TextTrack,
    CacheManifest,
}

/// The mathematical value of a [`LoadType`].
pub struct LoadView {
    pub kind: LoadKind,
    pub url: UrlView,
}

impl View for LoadType {
    type V = LoadView;

    open spec fn view(&self) -> LoadView {
        match *self {
            LoadType::Image(u) => LoadView { kind: LoadKind::Image, url: u@ },
            LoadType::Script(u) => LoadView { kind: LoadKind::Script, url: u@ },
            LoadType::Subframe(u) => LoadView { kind: LoadKind::Subframe, url: u@ },
            LoadType::Stylesheet(u) => LoadView { kind: LoadKind::Stylesheet, url: u@ },
            LoadType::PageSource(u) => LoadView { kind: LoadKind::PageSource, url: u@ },
            LoadType::Media(u) => LoadView { kind: LoadKind::Media, url: u@ },
        }
    }
}

/// Two loads are the same load: of the same kind, from the same URL.
pub open spec fn same_load(a: LoadView, b: LoadView) -> bool {
    a.kind == b.kind && a.url.serialization == b.url.serialization
}

/// The context in which a load of the given kind is made.
pub open spec fn context_of(kind: LoadKind) -> LoadContext {
    match kind {
        LoadKind::Image => LoadContext::Image,
        LoadKind::Script => LoadContext::Script,
        LoadKind::Subframe | LoadKind::PageSource => LoadContext::Browsing,
        LoadKind::Stylesheet => LoadContext::Style,
        LoadKind::Media => LoadContext::AudioVideo,
    }
}

/// The position of the first load in `loads` that is the same as `load`, or
/// the length of `loads` where there is none.
pub open spec fn first_match(loads: Seq<LoadView>, load: LoadView) -> nat
    decreases loads.len(),
{
    if loads.len() == 0 || same_load(loads[0], load) {
        0
    } else {
        1 + first_match(loads.drop_first(), load)
    }
}

/// Whether `loads` holds a load that is the same as `load`.
pub open spec fn is_pending(loads: Seq<LoadView>, load: LoadView) -> bool {
    first_match(loads, load) < loads.len()
}

/// Where the first match is, given a position before which there is none.
pub proof fn lemma_first_match(loads: Seq<LoadView>, load: LoadView, k: int)
    requires
        0 <= k <= loads.len(),
        forall|j: int| 0 <= j < k ==> !same_load(#[trigger] loads[j], load),
        k == loads.len() || same_load(loads[k], load),
    ensures
        first_match(loads, load) == k,
    decreases k,
{
    if k > 0 {
        let rest = loads.drop_first();
        assert(!same_load(loads[0], load));
        assert forall|j: int| 0 <= j < k - 1 implies !same_load(#[trigger] rest[j], load) by {
            assert(rest[j] == loads[j + 1]);
        }
        lemma_first_match(rest, load, k - 1);
    }
}

impl Clone for LoadType {
    fn clone(&self) -> (r: Self)
        ensures
            r@ == self@,
    {
        match self {
            LoadType::Image(u) => LoadType::Image(u.clone()),
            LoadType::Script(u) => LoadType::Script(u.clone()),
            LoadType::Subframe(u) => LoadType::Subframe(u.clone()),
            LoadType::Stylesheet(u) => LoadType::Stylesheet(u.clone()),
            LoadType::PageSource(u) => LoadType::PageSource(u.clone()),
            LoadType::Media(u) => LoadType::Media(u.clone()),
        }
    }
}

impl LoadType {
    /// The URL that is loaded.
    pub fn url(&self) -> (r: &Url)
        ensures
            r@ == self@.url,
    {
        match self {
            LoadType::Image(url)
            | LoadType::Script(url)
            | LoadType::Subframe(url)
            | LoadType::Stylesheet(url)
            | LoadType::Media(url)
            | LoadType::PageSource(url) => url,
        }
    }

    /// The kind of the load.
    pub fn kind(&self) -> (r: LoadKind)
        ensures
            r == self@.kind,
    {
        match self {
            LoadType::Image(_) => LoadKind::Image,
            LoadType::Script(_) => LoadKind::Script,
            LoadType::Subframe(_) => LoadKind::Subframe,
            LoadType::Stylesheet(_) => LoadKind::Stylesheet,
            LoadType::PageSource(_) => LoadKind::PageSource,
            LoadType::Media(_) => LoadKind::Media,
        }
    }

    /// The context in which the load is made.
    pub fn to_load_context(&self) -> (r: LoadContext)
        ensures
            r == context_of(self@.kind),
    {
        match self {
            LoadType::Image(_) => LoadContext::Image,
            LoadType::Script(_) => LoadContext::Script,
            LoadType::Subframe(_) | LoadType::PageSource(_) => LoadContext::Browsing,
            LoadType::Stylesheet(_) => LoadContext::Style,
            LoadType::Media(_) => LoadContext::AudioVideo,
        }
    }

    /// Whether this load and `other` are the same load.
    pub fn same(&self, other: &LoadType) -> (r: bool)
        ensures
            r == same_load(self@, other@),
    {
        self.kind() == other.kind() && self.url().same_url(other.url())
    }
}

/// What the resource threads are asked for when a load begins.
#[derive(Debug, PartialEq, Eq)]
pub struct LoadData {
    pub context: LoadContext,
    pub url: Url,
    pub pipeline_id: Option<PipelineId>,
    pub referrer_policy: Option<ReferrerPolicy>,
    pub referrer_url: Option<Url>,
}

/// The mathematical value of a [`LoadData`].
pub struct LoadDataView {
    pub context: LoadContext,
    pub url: UrlView,
    pub pipeline_id: Option<PipelineId>,
    pub referrer_policy: Option<ReferrerPolicy>,
    pub referrer_url: Option<UrlView>,
}

impl View for LoadData {
    type V = LoadDataView;

    open spec fn view(&self) -> LoadDataView {
        LoadDataView {
            context: self.context,
            url: self.url@,
            pipeline_id: self.pipeline_id,
            referrer_policy: self.referrer_policy,
            referrer_url: url_view(self.referrer_url),
        }
    }
}

/// A message to the resource threads.
#[derive(Debug, PartialEq, Eq)]
pub enum CoreResourceMsg {
    /// Load a resource and stream it to a listener.
    Load(LoadData),
    /// Fetch a request.
    Fetch(Request),
}

/// The mathematical value of a [`CoreResourceMsg`].
pub enum CoreResourceMsgView {
    Load(LoadDataView),
    Fetch(RequestView),
}

impl View for CoreResourceMsg {
    type V = CoreResourceMsgView;

    open spec fn view(&self) -> CoreResourceMsgView {
        match *self {
            CoreResourceMsg::Load(d) => CoreResourceMsgView::Load(d@),
            CoreResourceMsg::Fetch(r) => CoreResourceMsgView::Fetch(r@),
        }
    }
}

/// The views of a run of loads.
pub open spec fn load_views(v: Seq<LoadType>) -> Seq<LoadView> {
    v.map_values(|l: LoadType| l@)
}

/// The loads in progress of one document, with the handle to the resource
/// threads, which the loader keeps and never looks into.
pub struct DocumentLoader<R> {
    resource_threads: R,
    pipeline: Option<PipelineId>,
    blocking_loads: Vec<LoadType>,
    events_inhibited: bool,
}

impl<R> DocumentLoader<R> {
    /// The loads that the document waits for, oldest first.
    pub closed spec fn blocking_loads(&self) -> Seq<LoadView> {
        load_views(self.blocking_loads@)
    }

    /// The pipeline that the document belongs to.
    pub closed spec fn pipeline(&self) -> Option<PipelineId> {
        self.pipeline
    }

    /// Whether the document's events are held back.
    pub closed spec fn inhibited(&self) -> bool {
        self.events_inhibited
    }

    /// The handle to the resource threads.
    pub closed spec fn threads(&self) -> R {
        self.resource_threads
    }

    /// A loader that shares the resource threads of `existing`, and waits for nothing.
    pub fn new(existing: &DocumentLoader<R>) -> (r: DocumentLoader<R>) where R: Clone
        ensures
            r.blocking_loads() == Seq::<LoadView>::empty(),
            r.pipeline() is None,
            !r.inhibited(),
    {
        DocumentLoader::new_with_threads(existing.resource_threads.clone(), None, None)
    }

    /// A loader with the given resource threads, that waits for the source
    /// of the page where `initial_load` names it, and for nothing else.
    pub fn new_with_threads(
        resource_threads: R,
        pipeline: Option<PipelineId>,
        initial_load: Option<Url>,
    ) -> (r: DocumentLoader<R>)
        ensures
            r.threads() == resource_threads,
            r.pipeline() == pipeline,
            !r.inhibited(),
            r.blocking_loads() == match initial_load {
                Some(url) => seq![LoadView { kind: LoadKind::PageSource, url: url@ }],
                None => Seq::empty(),
            },
    {
        let mut initial_loads: Vec<LoadType> = Vec::new();
        match initial_load {
            Some(url) => {
                initial_loads.push(LoadType::PageSource(url));
            },
            None => {},
        }
        let r = DocumentLoader {
            resource_threads,
            pipeline,
            blocking_loads: initial_loads,
            events_inhibited: false,
        };
        assert(r.blocking_loads() =~= match initial_load {
            Some(url) => seq![LoadView { kind: LoadKind::PageSource, url: url@ }],
            None => Seq::empty(),
        });
        r
    }

    /// Adds a load to the list of blocking loads.
    pub fn add_blocking_load(&mut self, load: LoadType)
        ensures
            final(self).blocking_loads() == old(self).blocking_loads().push(load@),
            final(self).pipeline() == old(self).pipeline(),
            final(self).inhibited() == old(self).inhibited(),
            final(self).threads() == old(self).threads(),
    {
        self.blocking_loads.push(load);
        assert(self.blocking_loads() =~= old(self).blocking_loads().push(load@));
    }

    /// Begins a load: the document now waits for it, and the message that
    /// asks the resource threads for it is handed back. The referrer policy
    /// is the one given, or else the document's.
    pub fn load_async(
        &mut self,
        load: LoadType,
        referrer_url: &Url,
        document_policy: Option<ReferrerPolicy>,
        referrer_policy: Option<ReferrerPolicy>,
    ) -> (r: CoreResourceMsg)
        ensures
            final(self).blocking_loads() == old(self).blocking_loads().push(load@),
            final(self).pipeline() == old(self).pipeline(),
            final(self).inhibited() == old(self).inhibited(),
            final(self).threads() == old(self).threads(),
            r@ == CoreResourceMsgView::Load(
                LoadDataView {
                    context: context_of(load@.kind),
                    url: load@.url,
                    pipeline_id: old(self).pipeline(),
                    referrer_policy: match referrer_policy {
                        Some(p) => Some(p),
                        None => document_policy,
                    },
                    referrer_url: Some(referrer_url@),
                },
            ),
    {
        let context = load.to_load_context();
        let url = load.url().clone();
        self.add_blocking_load(load);
        CoreResourceMsg::Load(
            LoadData {
                context,
                url,
                pipeline_id: self.pipeline,
                referrer_policy: match referrer_policy {
                    Some(p) => Some(p),
                    None => document_policy,
                },
                referrer_url: Some(referrer_url.clone()),
            },
        )
    }

    /// Begins a fetch: the document now waits for the load, and the message
    /// that asks the resource threads for the request is handed back.
    pub fn fetch_async(&mut self, load: LoadType, request: Request) -> (r: CoreResourceMsg)
        ensures
            final(self).blocking_loads() == old(self).blocking_loads().push(load@),
            final(self).pipeline() == old(self).pipeline(),
            final(self).inhibited() == old(self).inhibited(),
            final(self).threads() == old(self).threads(),
            r@ == CoreResourceMsgView::Fetch(request@),
    {
        self.add_blocking_load(load);
        CoreResourceMsg::Fetch(request)
    }

    /// Whether the document waits for a load that is the same as `load`.
    pub fn is_blocked_on(&self, load: &LoadType) -> (r: bool)
        ensures
            r == is_pending(self.blocking_loads(), load@),
    {
        self.position(load) < self.blocking_loads.len()
    }

    fn position(&self, load: &LoadType) -> (r: usize)
        ensures
            r == first_match(self.blocking_loads(), load@),
            r <= self.blocking_loads().len(),
            self.blocking_loads().len() == self.blocking_loads@.len(),
    {
        let n: usize = self.blocking_loads.len();
        let mut i: usize = 0;
        while i < n && !self.blocking_loads[i].same(load)
            invariant
                n == self.blocking_loads@.len(),
                n == self.blocking_loads().len(),
                i <= n,
                forall|j: int| 0 <= j < i ==> !same_load(#[trigger] self.blocking_loads()[j], load@),
            decreases n - i,
        {
            i += 1;
        }
        proof {
            lemma_first_match(self.blocking_loads(), load@, i as int);
        }
        i
    }

    /// Marks a load as complete: the first load that is the same as `load`
    /// leaves the list, and the others keep their order.
    pub fn finish_load(&mut self, load: &LoadType)
        requires
            is_pending(old(self).blocking_loads(), load@),
        ensures
            final(self).blocking_loads() == old(self).blocking_loads().remove(
                first_match(old(self).blocking_loads(), load@) as int,
            ),
            final(self).pipeline() == old(self).pipeline(),
            final(self).inhibited() == old(self).inhibited(),
            final(self).threads() == old(self).threads(),
    {
        let idx = self.position(load);
        self.blocking_loads.remove(idx);
        assert(self.blocking_loads() =~= old(self).blocking_loads().remove(idx as int));
    }

    /// Whether the document still waits for a load.
    pub fn is_blocked(&self) -> (r: bool)
        ensures
            r == (self.blocking_loads().len() > 0),
    {
        !self.blocking_loads.is_empty()
    }

    /// Holds the document's events back from now on.
    pub fn inhibit_events(&mut self)
        ensures
            final(self).inhibited(),
            final(self).blocking_loads() == old(self).blocking_loads(),
            final(self).pipeline() == old(self).pipeline(),
            final(self).threads() == old(self).threads(),
    {
        self.events_inhibited = true;
    }

    /// Whether the document's events are held back.
    pub fn events_inhibited(&self) -> (r: bool)
        ensures
            r == self.inhibited(),
    {
        self.events_inhibited
    }

    /// The handle to the resource threads.
    pub fn resource_threads(&self) -> (r: &R)
        ensures
            *r == self.threads(),
    {
        &self.resource_threads
    }
}

/// A token for a load that was added by hand: it is to be terminated before
/// it goes away, so that the document does not wait for ever.
#[derive(Debug, PartialEq, Eq)]
pub struct LoadBlocker {
    /// The load that holds the document's load event back; `None` once it is over.
    load: Option<LoadType>,
}

impl LoadBlocker {
    /// The load that the blocker stands for, as long as it is not over.
    pub closed spec fn load(&self) -> Option<LoadView> {
        match self.load {
            Some(l) => Some(l@),
            None => None,
        }
    }

    /// Marks the document's load event as blocked on this new load.
    pub fn new<R>(loader: &mut DocumentLoader<R>, load: LoadType) -> (r: LoadBlocker)
        ensures
            r.load() == Some(load@),
            final(loader).blocking_loads() == old(loader).blocking_loads().push(load@),
            final(loader).pipeline() == old(loader).pipeline(),
            final(loader).inhibited() == old(loader).inhibited(),
            final(loader).threads() == old(loader).threads(),
    {
        loader.add_blocking_load(load.clone());
        LoadBlocker { load: Some(load) }
    }

    /// Removes this load from the document's list of blocking loads, and
    /// takes the blocker away. Without a blocker nothing happens.
    pub fn terminate<R>(blocker: &mut Option<LoadBlocker>, loader: &mut DocumentLoader<R>)
        requires
            *old(blocker) matches Some(b) ==> b.load() matches Some(l) && is_pending(
                old(loader).blocking_loads(),
                l,
            ),
        ensures
            *final(blocker) is None,
            final(loader).blocking_loads() == match *old(blocker) {
                Some(b) => old(loader).blocking_loads().remove(
                    first_match(old(loader).blocking_loads(), b.load()->0) as int,
                ),
                None => old(loader).blocking_loads(),
            },
            final(loader).pipeline() == old(loader).pipeline(),
            final(loader).inhibited() == old(loader).inhibited(),
            final(loader).threads() == old(loader).threads(),
    {
        let mut taken: Option<LoadBlocker> = None;
        std::mem::swap(blocker, &mut taken);
        match taken {
            Some(this) => match this.load {
                Some(load) => {
                    loader.finish_load(&load);
                },
                None => {},
            },
            None => {},
        }
    }

    /// The load that the blocker stands for, as long as it is not over.
    pub fn load_type(&self) -> (r: Option<&LoadType>)
        ensures
            match r {
                Some(l) => self.load() == Some(l@),
                None => self.load() is None,
            },
    {
        match &self.load {
            Some(load) => Some(load),
            None => None,
        }
    }

    /// The URL of the load, as long as it is not over.
    pub fn url(&self) -> (r: Option<&Url>)
        ensures
            match r {
                Some(u) => self.load() matches Some(l) && l.url == u@,
                None => self.load() is None,
            },
    {
        match &self.load {
            Some(load) => Some(load.url()),
            None => None,
        }
    }
}

} // verus!
