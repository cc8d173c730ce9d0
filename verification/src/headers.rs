//! Header lists: ordered, with names that compare without regard to ASCII case.

use crate::text::{
    eq_ignoring_case, law_same_ignoring_case_symmetric, law_same_ignoring_case_transitive,
    same_ignoring_case, texts,
};
use vstd::prelude::*;
use vstd::string::*;

verus! {

/// One header: a name and a value.
#[derive(Debug, PartialEq, Eq)]
pub struct Header {
    pub name: String,
    pub value: String,
}

/// The mathematical value of a [`Header`].
pub struct HeaderView {
    pub name: Seq<char>,
    pub value: Seq<char>,
}

impl View for Header {
    type V = HeaderView;

    open spec fn view(&self) -> HeaderView {
        HeaderView { name: self.name@, value: self.value@ }
    }
}

impl Clone for Header {
    fn clone(&self) -> (r: Self)
        ensures
            r@ == self@,
    {
        Header { name: self.name.clone(), value: self.value.clone() }
    }
}

/// The value of the first header of `hs` with the given name, if there is one.
pub open spec fn header_value(hs: Seq<HeaderView>, name: Seq<char>) -> Option<Seq<char>>
    decreases hs.len(),
{
    if hs.len() == 0 {
        None
    } else if same_ignoring_case(hs[0].name, name) {
        Some(hs[0].value)
    } else {
        header_value(hs.drop_first(), name)
    }
}

/// Whether `hs` holds a header with the given name.
pub open spec fn has_header(hs: Seq<HeaderView>, name: Seq<char>) -> bool {
    exists|i: int| 0 <= i < hs.len() && same_ignoring_case(#[trigger] hs[i].name, name)
}

/// The headers that do not have the given name.
pub open spec fn not_named(name: Seq<char>) -> spec_fn(HeaderView) -> bool {
    |h: HeaderView| !same_ignoring_case(h.name, name)
}

/// `hs` with a single header of the given name, at the end: what `set` leaves.
pub open spec fn with_header(hs: Seq<HeaderView>, name: Seq<char>, value: Seq<char>) -> Seq<
    HeaderView,
> {
    hs.filter(not_named(name)).push(HeaderView { name, value })
}

/// A response header that no script may see: `Set-Cookie` or `Set-Cookie2`.
pub open spec fn is_forbidden_response_name(name: Seq<char>) -> bool {
    same_ignoring_case(name, "set-cookie"@) || same_ignoring_case(name, "set-cookie2"@)
}

/// A response header that a cross-origin reader may always see.
pub open spec fn is_cors_safelisted_name(name: Seq<char>) -> bool {
    ||| same_ignoring_case(name, "cache-control"@)
    ||| same_ignoring_case(name, "content-language"@)
    ||| same_ignoring_case(name, "content-type"@)
    ||| same_ignoring_case(name, "expires"@)
    ||| same_ignoring_case(name, "last-modified"@)
    ||| same_ignoring_case(name, "pragma"@)
}

/// Whether `names` holds `name`, up to ASCII case.
pub open spec fn names_hold(names: Seq<Seq<char>>, name: Seq<char>) -> bool {
    exists|i: int| 0 <= i < names.len() && same_ignoring_case(#[trigger] names[i], name)
}

/// The headers that a same-origin reader may see: all but the forbidden ones.
pub open spec fn basic_visible() -> spec_fn(HeaderView) -> bool {
    |h: HeaderView| !is_forbidden_response_name(h.name)
}

/// The headers that a cross-origin reader may see: the safelisted ones, and
/// those that the server exposes by name, the forbidden ones excepted.
pub open spec fn cors_visible(exposed: Seq<Seq<char>>) -> spec_fn(HeaderView) -> bool {
    |h: HeaderView|
        is_cors_safelisted_name(h.name) || (!is_forbidden_response_name(h.name) && names_hold(
            exposed,
            h.name,
        ))
}

/// One more element in front of a filter.
pub proof fn lemma_filter_next(hs: Seq<HeaderView>, i: int, keep: spec_fn(HeaderView) -> bool)
    requires
        0 <= i < hs.len(),
    ensures
        hs.take(i + 1).filter(keep) == if keep(hs[i]) {
            hs.take(i).filter(keep).push(hs[i])
        } else {
            hs.take(i).filter(keep)
        },
{
    reveal(Seq::filter);
    assert(hs.take(i + 1).drop_last() =~= hs.take(i));
}

/// A header with the name is found exactly where the first value is.
pub proof fn lemma_has_header(hs: Seq<HeaderView>, name: Seq<char>)
    ensures
        has_header(hs, name) == (header_value(hs, name) is Some),
    decreases hs.len(),
{
    if hs.len() > 0 {
        let rest = hs.drop_first();
        lemma_has_header(rest, name);
        if same_ignoring_case(hs[0].name, name) {
        } else {
            if has_header(hs, name) {
                let i = choose|i: int|
                    0 <= i < hs.len() && same_ignoring_case(#[trigger] hs[i].name, name);
                assert(same_ignoring_case(rest[i - 1].name, name));
            }
            if has_header(rest, name) {
                let i = choose|i: int|
                    0 <= i < rest.len() && same_ignoring_case(#[trigger] rest[i].name, name);
                assert(same_ignoring_case(hs[i + 1].name, name));
            }
        }
    }
}

/// Whether `name` is `Set-Cookie` or `Set-Cookie2`.
pub fn is_forbidden_response_header(name: &str) -> (r: bool)
    ensures
        r == is_forbidden_response_name(name@),
{
    eq_ignoring_case(name, "set-cookie") || eq_ignoring_case(name, "set-cookie2")
}

/// Whether `name` is one of the six headers that a cross-origin reader may always see.
pub fn is_cors_safelisted_header(name: &str) -> (r: bool)
    ensures
        r == is_cors_safelisted_name(name@),
{
    eq_ignoring_case(name, "cache-control") || eq_ignoring_case(name, "content-language")
        || eq_ignoring_case(name, "content-type") || eq_ignoring_case(name, "expires")
        || eq_ignoring_case(name, "last-modified") || eq_ignoring_case(name, "pragma")
}

/// Whether `names` holds `name`, up to ASCII case.
pub fn names_contain(names: &Vec<String>, name: &str) -> (r: bool)
    ensures
        r == names_hold(texts(names@), name@),
{
    let n: usize = names.len();
    let mut i: usize = 0;
    while i < n
        invariant
            n == names@.len(),
            i <= n,
            forall|j: int| 0 <= j < i ==> !same_ignoring_case(#[trigger] texts(names@)[j], name@),
        decreases n - i,
    {
        if eq_ignoring_case(names[i].as_str(), name) {
            assert(same_ignoring_case(texts(names@)[i as int], name@));
            return true;
        }
        i += 1;
    }
    false
}

/// An ordered list of headers.
#[derive(Debug, PartialEq, Eq)]
pub struct Headers {
    entries: Vec<Header>,
}

impl View for Headers {
    type V = Seq<HeaderView>;

    closed spec fn view(&self) -> Seq<HeaderView> {
        self.entries@.map_values(|h: Header| h@)
    }
}

impl Clone for Headers {
    fn clone(&self) -> (r: Self)
        ensures
            r@ == self@,
    {
        let mut out: Vec<Header> = Vec::new();
        let n: usize = self.entries.len();
        let mut i: usize = 0;
        while i < n
            invariant
                n == self.entries@.len(),
                i <= n,
                out@.len() == i,
                forall|j: int| 0 <= j < i ==> out@[j]@ == self.entries@[j]@,
            decreases n - i,
        {
            out.push(self.entries[i].clone());
            i += 1;
        }
        let r = Headers { entries: out };
        assert(r@ =~= self@);
        r
    }
}

impl Headers {
    /// An empty list.
    pub fn new() -> (r: Headers)
        ensures
            r@ == Seq::<HeaderView>::empty(),
    {
        let r = Headers { entries: Vec::new() };
        assert(r@ =~= Seq::<HeaderView>::empty());
        r
    }

    /// The number of headers.
    pub fn len(&self) -> (r: usize)
        ensures
            r == self@.len(),
    {
        self.entries.len()
    }

    /// Whether the list is empty.
    pub fn is_empty(&self) -> (r: bool)
        ensures
            r == (self@.len() == 0),
    {
        self.entries.len() == 0
    }

    /// The header at position `i`.
    pub fn entry(&self, i: usize) -> (r: &Header)
        requires
            i < self@.len(),
        ensures
            r@ == self@[i as int],
    {
        &self.entries[i]
    }

    /// The value of the first header with the given name, if there is one.
    pub fn get(&self, name: &str) -> (r: Option<&str>)
        ensures
            crate::web_url::text_view(r) == header_value(self@, name@),
    {
        let n: usize = self.entries.len();
        let mut i: usize = 0;
        assert(self@.skip(0) =~= self@);
        while i < n
            invariant
                n == self@.len(),
                n == self.entries@.len(),
                i <= n,
                header_value(self@, name@) == header_value(self@.skip(i as int), name@),
            decreases n - i,
        {
            assert(self@.skip(i as int)[0] == self.entries@[i as int]@);
            if eq_ignoring_case(self.entries[i].name.as_str(), name) {
                return Some(self.entries[i].value.as_str());
            }
            assert(self@.skip(i as int).drop_first() =~= self@.skip(i + 1));
            i += 1;
        }
        None
    }

    /// Whether the list holds a header with the given name.
    pub fn has(&self, name: &str) -> (r: bool)
        ensures
            r == has_header(self@, name@),
    {
        proof {
            lemma_has_header(self@, name@);
        }
        self.get(name).is_some()
    }

    /// Takes away every header with the given name.
    pub fn remove(&mut self, name: &str)
        ensures
            final(self)@ == old(self)@.filter(not_named(name@)),
    {
        let mut out: Vec<Header> = Vec::new();
        let n: usize = self.entries.len();
        let mut i: usize = 0;
        let ghost keep = not_named(name@);
        assert(self@.take(0).filter(keep) =~= Seq::<HeaderView>::empty()) by {
            reveal(Seq::filter);
        }
        while i < n
            invariant
                n == self.entries@.len(),
                n == self@.len(),
                i <= n,
                keep == not_named(name@),
                out@.map_values(|h: Header| h@) == self@.take(i as int).filter(keep),
            decreases n - i,
        {
            proof {
                lemma_filter_next(self@, i as int, keep);
            }
            let ghost before = out@.map_values(|h: Header| h@);
            if !eq_ignoring_case(self.entries[i].name.as_str(), name) {
                out.push(self.entries[i].clone());
                assert(out@.map_values(|h: Header| h@) =~= before.push(self@[i as int]));
            }
            i += 1;
        }
        assert(self@.take(n as int) =~= self@);
        self.entries = out;
    }

    /// Sets the header with the given name: every header of that name is
    /// taken away, and one with the new value is added at the end.
    pub fn set(&mut self, name: &str, value: &str)
        ensures
            final(self)@ == with_header(old(self)@, name@, value@),
    {
        self.remove(name);
        let ghost before = self@;
        self.entries.push(Header { name: name.to_owned(), value: value.to_owned() });
        assert(self@ =~= before.push(HeaderView { name: name@, value: value@ }));
    }

    /// The headers that a same-origin reader may see.
    pub fn basic_filtered(&self) -> (r: Headers)
        ensures
            r@ == self@.filter(basic_visible()),
    {
        let mut out: Vec<Header> = Vec::new();
        let n: usize = self.entries.len();
        let mut i: usize = 0;
        let ghost keep = basic_visible();
        assert(self@.take(0).filter(keep) =~= Seq::<HeaderView>::empty()) by {
            reveal(Seq::filter);
        }
        while i < n
            invariant
                n == self.entries@.len(),
                n == self@.len(),
                i <= n,
                keep == basic_visible(),
                out@.map_values(|h: Header| h@) == self@.take(i as int).filter(keep),
            decreases n - i,
        {
            proof {
                lemma_filter_next(self@, i as int, keep);
            }
            let ghost before = out@.map_values(|h: Header| h@);
            if !is_forbidden_response_header(self.entries[i].name.as_str()) {
                out.push(self.entries[i].clone());
                assert(out@.map_values(|h: Header| h@) =~= before.push(self@[i as int]));
            }
            i += 1;
        }
        assert(self@.take(n as int) =~= self@);
        Headers { entries: out }
    }

    /// The headers that a cross-origin reader may see, where the server
    /// exposes the headers named in `exposed`.
    pub fn cors_filtered(&self, exposed: &Vec<String>) -> (r: Headers)
        ensures
            r@ == self@.filter(cors_visible(texts(exposed@))),
    {
        let mut out: Vec<Header> = Vec::new();
        let n: usize = self.entries.len();
        let mut i: usize = 0;
        let ghost keep = cors_visible(texts(exposed@));
        assert(self@.take(0).filter(keep) =~= Seq::<HeaderView>::empty()) by {
            reveal(Seq::filter);
        }
        while i < n
            invariant
                n == self.entries@.len(),
                n == self@.len(),
                i <= n,
                keep == cors_visible(texts(exposed@)),
                out@.map_values(|h: Header| h@) == self@.take(i as int).filter(keep),
            decreases n - i,
        {
            proof {
                lemma_filter_next(self@, i as int, keep);
            }
            let ghost before = out@.map_values(|h: Header| h@);
            let name = self.entries[i].name.as_str();
            if is_cors_safelisted_header(name) || (!is_forbidden_response_header(name)
                && names_contain(exposed, name)) {
                out.push(self.entries[i].clone());
                assert(out@.map_values(|h: Header| h@) =~= before.push(self@[i as int]));
            }
            i += 1;
        }
        assert(self@.take(n as int) =~= self@);
        Headers { entries: out }
    }
}

/// No header that a cross-origin reader may always see is a forbidden one.
pub proof fn lemma_safelisted_not_forbidden(name: Seq<char>)
    requires
        is_cors_safelisted_name(name),
    ensures
        !is_forbidden_response_name(name),
{
    reveal_strlit("cache-control");
    reveal_strlit("content-language");
    reveal_strlit("content-type");
    reveal_strlit("expires");
    reveal_strlit("last-modified");
    reveal_strlit("pragma");
    reveal_strlit("set-cookie");
    reveal_strlit("set-cookie2");
}


/// What is left when the headers of one name are taken away has no header
/// of that name, and keeps the first value of every other name.
pub proof fn law_remove_header(hs: Seq<HeaderView>, name: Seq<char>, other: Seq<char>)
    ensures
        !has_header(hs.filter(not_named(name)), name),
        !same_ignoring_case(name, other) ==> header_value(hs.filter(not_named(name)), other)
            == header_value(hs, other),
    decreases hs.len(),
{
    let keep = not_named(name);
    let out = hs.filter(keep);
    assert forall|i: int| 0 <= i < out.len() implies !same_ignoring_case(
        #[trigger] out[i].name,
        name,
    ) by {
        hs.lemma_filter_pred(keep, i);
        assert(keep(out[i]));
    }
    if hs.len() > 0 && !same_ignoring_case(name, other) {
        let rest = hs.drop_first();
        law_remove_header(rest, name, other);
        assert(hs =~= seq![hs[0]] + rest);
        Seq::filter_distributes_over_add(seq![hs[0]], rest, keep);
        reveal_with_fuel(Seq::filter, 2);
        assert(seq![hs[0]].drop_last() =~= Seq::<HeaderView>::empty());
        if keep(hs[0]) {
            assert(seq![hs[0]].filter(keep) =~= seq![hs[0]]);
            assert(out =~= seq![hs[0]] + rest.filter(keep));
            assert(out.drop_first() =~= rest.filter(keep));
        } else {
            assert(seq![hs[0]].filter(keep) =~= Seq::<HeaderView>::empty());
            assert(out =~= rest.filter(keep));
            if same_ignoring_case(hs[0].name, other) {
                law_same_ignoring_case_symmetric(hs[0].name, name);
                law_same_ignoring_case_symmetric(hs[0].name, other);
                law_same_ignoring_case_transitive(name, hs[0].name, other);
            }
        }
    } else if !same_ignoring_case(name, other) {
        assert(out =~= hs) by {
            reveal(Seq::filter);
        }
    }
}


/// The value of a header where no header of the list before it has the name.
proof fn lemma_value_at_end(hs: Seq<HeaderView>, last: HeaderView, name: Seq<char>)
    ensures
        header_value(hs.push(last), name) == if header_value(hs, name) is Some {
            header_value(hs, name)
        } else if same_ignoring_case(last.name, name) {
            Some(last.value)
        } else {
            None
        },
    decreases hs.len(),
{
    let all = hs.push(last);
    if hs.len() == 0 {
        assert(all.drop_first() =~= Seq::<HeaderView>::empty());
    } else {
        assert(all[0] == hs[0]);
        assert(all.drop_first() =~= hs.drop_first().push(last));
        lemma_value_at_end(hs.drop_first(), last, name);
    }
}


/// A header that was set is the one header of its name, with the value
/// that it was set to; the first value of every other name stays what it was.
pub proof fn law_set_header(hs: Seq<HeaderView>, name: Seq<char>, value: Seq<char>, other: Seq<char>)
    ensures
        header_value(with_header(hs, name, value), name) == Some(value),
        has_header(with_header(hs, name, value), name),
        !same_ignoring_case(name, other) ==> header_value(with_header(hs, name, value), other)
            == header_value(hs, other),
{
    let rest = hs.filter(not_named(name));
    let set = HeaderView { name, value };
    law_remove_header(hs, name, name);
    law_remove_header(hs, name, other);
    lemma_has_header(rest, name);
    lemma_value_at_end(rest, set, name);
    lemma_value_at_end(rest, set, other);
    lemma_has_header(with_header(hs, name, value), name);
}

} // verus!
