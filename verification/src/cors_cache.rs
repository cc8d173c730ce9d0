//! The CORS-preflight cache: what servers have allowed, and until when.

use crate::method::{Method, MethodView};
use crate::request::{CredentialsMode, Request, RequestView};
use crate::text::{eq_ignoring_case, same_ignoring_case, texts};
use crate::web_url::{same_origin, Origin, OriginView, Url, UrlView};
use vstd::prelude::*;
use vstd::string::*;

verus! {

/// One authorization: the methods and header names that a server allowed
/// for requests from `origin` to `url`, with or without credentials, and the
/// second at which the leave runs out.
#[derive(Debug, PartialEq, Eq)]
pub struct CORSCacheEntry {
    pub origin: Origin,
    pub url: Url,
    pub credentials: bool,
    pub methods: Vec<Method>,
    pub headers: Vec<String>,
    /// Seconds since the Unix epoch; the entry counts as long as the clock is before it.
    pub expiry: u64,
}

/// The mathematical value of a [`CORSCacheEntry`].
pub struct EntryView {
    pub origin: OriginView,
    pub url: UrlView,
    pub credentials: bool,
    pub methods: Seq<MethodView>,
    pub headers: Seq<Seq<char>>,
    pub expiry: u64,
}

/// The views of a run of methods.
pub open spec fn method_views(v: Seq<Method>) -> Seq<MethodView> {
    v.map_values(|m: Method| m@)
}

impl View for CORSCacheEntry {
    type V = EntryView;

    open spec fn view(&self) -> EntryView {
        EntryView {
            origin: self.origin@,
            url: self.url@,
            credentials: self.credentials,
            methods: method_views(self.methods@),
            headers: texts(self.headers@),
            expiry: self.expiry,
        }
    }
}

impl EntryView {
    /// The entry was made for requests like `request`: same origin, same
    /// URL, same use of credentials. The method of the request plays no part.
    pub open spec fn is_for(self, request: RequestView) -> bool {
        &&& same_origin(self.origin, request.origin)
        &&& self.url.serialization == request.url.serialization
        &&& self.credentials == (request.credentials_mode == CredentialsMode::Include)
    }

    /// The entry still counts at `now`.
    pub open spec fn live(self, now: u64) -> bool {
        now < self.expiry
    }

    /// The entry allows `method` for `request` at `now`.
    pub open spec fn allows_method(self, request: RequestView, method: MethodView, now: u64) -> bool {
        self.is_for(request) && self.live(now) && self.methods.contains(method)
    }

    /// The entry allows the header `name` for `request` at `now`.
    pub open spec fn allows_header(self, request: RequestView, name: Seq<char>, now: u64) -> bool {
        &&& self.is_for(request)
        &&& self.live(now)
        &&& exists|j: int|
            0 <= j < self.headers.len() && same_ignoring_case(#[trigger] self.headers[j], name)
    }
}

/// Some entry of the cache allows `method` for `request` at `now`.
pub open spec fn cache_allows_method(
    cache: Seq<EntryView>,
    request: RequestView,
    method: MethodView,
    now: u64,
) -> bool {
    exists|i: int| 0 <= i < cache.len() && (#[trigger] cache[i]).allows_method(request, method, now)
}

/// Some entry of the cache allows the header `name` for `request` at `now`.
pub open spec fn cache_allows_header(
    cache: Seq<EntryView>,
    request: RequestView,
    name: Seq<char>,
    now: u64,
) -> bool {
    exists|i: int| 0 <= i < cache.len() && (#[trigger] cache[i]).allows_header(request, name, now)
}

/// The entries that still count at `now`.
pub open spec fn live_at(now: u64) -> spec_fn(EntryView) -> bool {
    |e: EntryView| e.live(now)
}

/// The second at which leave given at `now` for `max_age` seconds runs out.
pub open spec fn expiry_of(now: u64, max_age: u32) -> u64 {
    if now + max_age <= u64::MAX {
        (now + max_age) as u64
    } else {
        u64::MAX
    }
}

/// The cache after `request` was given leave at `now`: what had run out is
/// gone, and the new entry stands at the end.
pub open spec fn cache_with(
    cache: Seq<EntryView>,
    request: RequestView,
    max_age: u32,
    methods: Seq<MethodView>,
    headers: Seq<Seq<char>>,
    now: u64,
) -> Seq<EntryView> {
    cache.filter(live_at(now)).push(
        EntryView {
            origin: request.origin,
            url: request.url,
            credentials: request.credentials_mode == CredentialsMode::Include,
            methods,
            headers,
            expiry: expiry_of(now, max_age),
        },
    )
}

/// The time by the system's clock, in seconds since the Unix epoch, read
/// with `std::time::SystemTime::now`; zero where the clock stands before the
/// epoch. Nothing is promised of the result.
#[verifier::external_body]
pub(crate) fn unix_now() -> u64 {
    match std::time::SystemTime::now().duration_since(std::time::UNIX_EPOCH) {
        Ok(d) => d.as_secs(),
        Err(_) => 0,
    }
}

impl CORSCacheEntry {
    fn is_for(&self, request: &Request) -> (r: bool)
        ensures
            r == self@.is_for(request@),
    {
        let credentials = match request.credentials_mode {
            CredentialsMode::Include => true,
            _ => false,
        };
        self.origin.same_origin(&request.origin) && self.url.same_url(&request.url)
            && self.credentials == credentials
    }

    fn holds_method(&self, method: &Method) -> (r: bool)
        ensures
            r == self@.methods.contains(method@),
    {
        let n: usize = self.methods.len();
        let mut i: usize = 0;
        while i < n
            invariant
                n == self.methods@.len(),
                i <= n,
                forall|j: int| 0 <= j < i ==> self@.methods[j] != method@,
            decreases n - i,
        {
            if self.methods[i].same(method) {
                assert(self@.methods[i as int] == method@);
                return true;
            }
            i += 1;
        }
        false
    }

    fn holds_header(&self, name: &str) -> (r: bool)
        ensures
            r == exists|j: int|
                0 <= j < self@.headers.len() && same_ignoring_case(
                    #[trigger] self@.headers[j],
                    name@,
                ),
    {
        let n: usize = self.headers.len();
        let mut i: usize = 0;
        while i < n
            invariant
                n == self.headers@.len(),
                i <= n,
                forall|j: int| 0 <= j < i ==> !same_ignoring_case(#[trigger] self@.headers[j], name@),
            decreases n - i,
        {
            if eq_ignoring_case(self.headers[i].as_str(), name) {
                assert(same_ignoring_case(self@.headers[i as int], name@));
                return true;
            }
            i += 1;
        }
        false
    }
}

/// The cache of CORS-preflight results.
#[derive(Debug, PartialEq, Eq)]
pub struct CORSCache {
    entries: Vec<CORSCacheEntry>,
}

impl View for CORSCache {
    type V = Seq<EntryView>;

    closed spec fn view(&self) -> Seq<EntryView> {
        self.entries@.map_values(|e: CORSCacheEntry| e@)
    }
}

impl CORSCache {
    /// An empty cache.
    pub fn new() -> (r: CORSCache)
        ensures
            r@ == Seq::<EntryView>::empty(),
    {
        let r = CORSCache { entries: Vec::new() };
        assert(r@ =~= Seq::<EntryView>::empty());
        r
    }

    /// The number of entries, those that have run out included.
    pub fn len(&self) -> (r: usize)
        ensures
            r == self@.len(),
    {
        self.entries.len()
    }

    /// Whether an entry that counts at `now` allows `method` for `request`.
    pub fn match_method_at(&self, request: &Request, method: &Method, now: u64) -> (r: bool)
        ensures
            r == cache_allows_method(self@, request@, method@, now),
    {
        let n: usize = self.entries.len();
        let mut i: usize = 0;
        while i < n
            invariant
                n == self.entries@.len(),
                n == self@.len(),
                i <= n,
                forall|j: int| 0 <= j < i ==> !(#[trigger] self@[j]).allows_method(request@, method@, now),
            decreases n - i,
        {
            let e = &self.entries[i];
            assert(e@ == self@[i as int]);
            if e.is_for(request) && now < e.expiry && e.holds_method(method) {
                return true;
            }
            i += 1;
        }
        false
    }

    /// Whether an entry that counts at `now` allows the header `name` for `request`.
    pub fn match_header_at(&self, request: &Request, name: &str, now: u64) -> (r: bool)
        ensures
            r == cache_allows_header(self@, request@, name@, now),
    {
        let n: usize = self.entries.len();
        let mut i: usize = 0;
        while i < n
            invariant
                n == self.entries@.len(),
                n == self@.len(),
                i <= n,
                forall|j: int| 0 <= j < i ==> !(#[trigger] self@[j]).allows_header(request@, name@, now),
            decreases n - i,
        {
            let e = &self.entries[i];
            assert(e@ == self@[i as int]);
            if e.is_for(request) && now < e.expiry && e.holds_header(name) {
                return true;
            }
            i += 1;
        }
        false
    }

    /// Drops the entries that have run out at `now`. The others keep their order.
    pub fn cleanup_at(&mut self, now: u64)
        ensures
            final(self)@ == old(self)@.filter(live_at(now)),
    {
        let ghost all = old(self)@;
        let ghost keep = live_at(now);
        let ghost mut seen: int = 0;
        let mut i: usize = 0;
        assert(all.take(0).filter(keep) =~= Seq::<EntryView>::empty()) by {
            reveal(Seq::filter);
        }
        assert(all.take(0).filter(keep) + all.skip(0) =~= all);
        while i < self.entries.len()
            invariant
                keep == live_at(now),
                0 <= seen <= all.len(),
                i == all.take(seen).filter(keep).len(),
                self@ == all.take(seen).filter(keep) + all.skip(seen),
                self@.len() == self.entries@.len(),
            decreases all.len() - seen,
        {
            let ghost before = self@;
            assert(before[i as int] == all.skip(seen)[0]);
            proof {
                lemma_filter_last(all, seen, keep);
            }
            if now < self.entries[i].expiry {
                assert(before =~= all.take(seen + 1).filter(keep) + all.skip(seen + 1));
                i += 1;
            } else {
                self.entries.remove(i);
                assert(self@ =~= before.remove(i as int));
                assert(before.remove(i as int) =~= all.take(seen + 1).filter(keep) + all.skip(
                    seen + 1,
                ));
            }
            proof {
                seen = seen + 1;
            }
        }
        assert(all.skip(seen).len() == 0);
        assert(all.take(seen) =~= all);
        assert(all.filter(keep) + all.skip(seen) =~= all.filter(keep));
    }

    /// Records at `now` that the server allows `methods` and `headers` for
    /// requests like `request` for `max_age` seconds. Entries that have run
    /// out at `now` are dropped.
    pub fn insert_at(
        &mut self,
        request: &Request,
        max_age: u32,
        methods: Vec<Method>,
        headers: Vec<String>,
        now: u64,
    )
        ensures
            final(self)@ == cache_with(
                old(self)@,
                request@,
                max_age,
                method_views(methods@),
                texts(headers@),
                now,
            ),
    {
        self.cleanup_at(now);
        let credentials = match request.credentials_mode {
            CredentialsMode::Include => true,
            _ => false,
        };
        let expiry: u64 = if now <= u64::MAX - (max_age as u64) {
            now + max_age as u64
        } else {
            u64::MAX
        };
        let ghost before = self@;
        self.entries.push(
            CORSCacheEntry {
                origin: request.origin.clone(),
                url: request.url.clone(),
                credentials,
                methods,
                headers,
                expiry,
            },
        );
        assert(self@ =~= before.push(
            EntryView {
                origin: request@.origin,
                url: request@.url,
                credentials: request@.credentials_mode == CredentialsMode::Include,
                methods: method_views(methods@),
                headers: texts(headers@),
                expiry: expiry_of(now, max_age),
            },
        ));
    }

    /// Whether an entry that counts now, by the system's clock, allows
    /// `method` for `request`.
    pub fn match_method(&self, request: &Request, method: &Method) -> (r: bool)
        ensures
            exists|now: u64| r == #[trigger] cache_allows_method(self@, request@, method@, now),
    {
        let now = unix_now();
        self.match_method_at(request, method, now)
    }

    /// Whether an entry that counts now, by the system's clock, allows the
    /// header `name` for `request`.
    pub fn match_header(&self, request: &Request, name: &str) -> (r: bool)
        ensures
            exists|now: u64| r == #[trigger] cache_allows_header(self@, request@, name@, now),
    {
        let now = unix_now();
        self.match_header_at(request, name, now)
    }

    /// Drops the entries that have run out now, by the system's clock.
    pub fn cleanup(&mut self)
        ensures
            exists|now: u64| final(self)@ == old(self)@.filter(#[trigger] live_at(now)),
    {
        let now = unix_now();
        self.cleanup_at(now);
    }

    /// Records that the server allows `methods` and `headers` for requests
    /// like `request` for `max_age` seconds from now, by the system's clock.
    pub fn insert(
        &mut self,
        request: &Request,
        max_age: u32,
        methods: Vec<Method>,
        headers: Vec<String>,
    )
        ensures
            exists|now: u64|
                final(self)@ == #[trigger] cache_with(
                    old(self)@,
                    request@,
                    max_age,
                    method_views(methods@),
                    texts(headers@),
                    now,
                ),
    {
        let now = unix_now();
        self.insert_at(request, max_age, methods, headers, now);
    }
}

/// One more element at the end of a filter.
proof fn lemma_filter_last(all: Seq<EntryView>, i: int, keep: spec_fn(EntryView) -> bool)
    requires
        0 <= i < all.len(),
    ensures
        all.take(i + 1).filter(keep) == if keep(all[i]) {
            all.take(i).filter(keep).push(all[i])
        } else {
            all.take(i).filter(keep)
        },
{
    reveal(Seq::filter);
    assert(all.take(i + 1).drop_last() =~= all.take(i));
}

/// Leave that the cache holds is not taken away by recording more: what
/// the cache allowed at a time, it still allows at that time after an
/// insertion made no later.
pub proof fn law_cache_is_additive(
    cache: Seq<EntryView>,
    request: RequestView,
    method: MethodView,
    at: u64,
    inserted: RequestView,
    max_age: u32,
    methods: Seq<MethodView>,
    headers: Seq<Seq<char>>,
    now: u64,
)
    requires
        cache_allows_method(cache, request, method, at),
        now <= at,
    ensures
        cache_allows_method(cache_with(cache, inserted, max_age, methods, headers, now), request, method, at),
{
    let i = choose|i: int|
        0 <= i < cache.len() && (#[trigger] cache[i]).allows_method(request, method, at);
    let keep = live_at(now);
    assert(keep(cache[i]));
    cache.lemma_filter_contains(keep, i);
    let kept = cache.filter(keep);
    let j = choose|j: int| 0 <= j < kept.len() && kept[j] == cache[i];
    let after = cache_with(cache, inserted, max_age, methods, headers, now);
    assert(after[j] == cache[i]);
}


/// What was recorded is allowed until it runs out: a method that an
/// insertion lists is allowed for the request that it was made for, from the
/// time of the insertion to the second before its expiry.
pub proof fn law_cache_remembers(
    cache: Seq<EntryView>,
    request: RequestView,
    max_age: u32,
    methods: Seq<MethodView>,
    headers: Seq<Seq<char>>,
    now: u64,
    method: MethodView,
    at: u64,
)
    requires
        !(request.origin is Unique),
        methods.contains(method),
    ensures
        cache_allows_method(cache_with(cache, request, max_age, methods, headers, now), request, method, at)
            == (at < expiry_of(now, max_age) || cache_allows_method(
            cache.filter(live_at(now)),
            request,
            method,
            at,
        )),
{
    let kept = cache.filter(live_at(now));
    let after = cache_with(cache, request, max_age, methods, headers, now);
    let last = after.len() - 1;
    assert(after[last].is_for(request));
    if at < expiry_of(now, max_age) {
        assert(after[last].allows_method(request, method, at));
    }
    if cache_allows_method(kept, request, method, at) {
        let i = choose|i: int|
            0 <= i < kept.len() && (#[trigger] kept[i]).allows_method(request, method, at);
        assert(after[i] == kept[i]);
    }
    if cache_allows_method(after, request, method, at) {
        let i = choose|i: int|
            0 <= i < after.len() && (#[trigger] after[i]).allows_method(request, method, at);
        if i < last {
            assert(kept[i] == after[i]);
        }
    }
}

} // verus!
