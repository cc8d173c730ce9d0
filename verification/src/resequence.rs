//! Putting the chunks of a body in order.
//!
//! A transport may hand over the chunks of a body in another order than
//! theirs. Each chunk has a number, from zero on; the [`Resequencer`] holds
//! back what comes early and releases the chunks in the order of their
//! numbers, each once.

use std::collections::HashMap;
use vstd::prelude::*;

verus! {

broadcast use vstd::std_specs::hash::group_hash_axioms;

/// The chunks that wait, by their numbers, and the number of the chunk that
/// is released next.
pub struct Resequencer {
    next: u64,
    waiting: HashMap<u64, Vec<u8>>,
}

/// The mathematical value of a [`Resequencer`].
pub struct ResequencerView {
    pub next: u64,
    pub waiting: Map<u64, Seq<u8>>,
}

impl View for Resequencer {
    type V = ResequencerView;

    closed spec fn view(&self) -> ResequencerView {
        ResequencerView {
            next: self.next,
            waiting: Map::new(
                |k: u64| self.waiting@.contains_key(k),
                |k: u64| self.waiting@[k]@,
            ),
        }
    }
}

/// The views of a run of chunks.
pub open spec fn chunk_views(v: Seq<Vec<u8>>) -> Seq<Seq<u8>> {
    v.map_values(|c: Vec<u8>| c@)
}

/// The chunks among `waiting` that can be released when the chunk that is
/// due has the number `next`: those with the numbers `next`, `next + 1` and
/// so on, as far as none is missing.
pub open spec fn ready(waiting: Map<u64, Seq<u8>>, next: u64) -> Seq<Seq<u8>>
    decreases u64::MAX - next,
{
    if waiting.contains_key(next) && next < u64::MAX {
        seq![waiting[next]] + ready(waiting, (next + 1) as u64)
    } else {
        Seq::empty()
    }
}

/// What is left of `waiting` once the chunks with the numbers from `from` up
/// to `to` have been released.
pub open spec fn left(waiting: Map<u64, Seq<u8>>, from: u64, to: u64) -> Map<u64, Seq<u8>> {
    Map::new(|k: u64| waiting.contains_key(k) && !(from <= k < to), |k: u64| waiting[k])
}

impl ResequencerView {
    /// Whether the chunk with the number `index` has come before: it has been
    /// released, or it waits.
    pub open spec fn has_seen(self, index: u64) -> bool {
        index < self.next || self.waiting.contains_key(index)
    }

    /// The chunks that are released when the chunk with the number `index` comes.
    pub open spec fn released(self, index: u64, bytes: Seq<u8>) -> Seq<Seq<u8>> {
        if self.has_seen(index) {
            Seq::empty()
        } else {
            ready(self.waiting.insert(index, bytes), self.next)
        }
    }

    /// The resequencer after the chunk with the number `index` has come. A
    /// chunk that has come before changes nothing.
    pub open spec fn accepted(self, index: u64, bytes: Seq<u8>) -> ResequencerView {
        if self.has_seen(index) {
            self
        } else {
            let waiting = self.waiting.insert(index, bytes);
            let next = (self.next + ready(waiting, self.next).len()) as u64;
            ResequencerView { next, waiting: left(waiting, self.next, next) }
        }
    }
}

/// What is released is one chunk for each number from `next` on, as far as
/// none is missing.
pub proof fn lemma_ready(waiting: Map<u64, Seq<u8>>, next: u64)
    ensures
        next + ready(waiting, next).len() <= u64::MAX,
        forall|j: u64|
            next <= j < next + ready(waiting, next).len() ==> #[trigger] waiting.contains_key(j),
        forall|k: int|
            0 <= k < ready(waiting, next).len() ==> #[trigger] ready(waiting, next)[k]
                == waiting[(next + k) as u64],
        next + ready(waiting, next).len() == u64::MAX || !waiting.contains_key(
            (next + ready(waiting, next).len()) as u64,
        ),
    decreases u64::MAX - next,
{
    let all = ready(waiting, next);
    if waiting.contains_key(next) && next < u64::MAX {
        let after = (next + 1) as u64;
        lemma_ready(waiting, after);
        let rest = ready(waiting, after);
        assert(all =~= seq![waiting[next]] + rest);
        assert(all.len() == rest.len() + 1);
        assert forall|k: int| 0 <= k < all.len() implies #[trigger] all[k] == waiting[(next
            + k) as u64] by {
            if k > 0 {
                assert(all[k] == rest[k - 1]);
                assert((after + (k - 1)) as u64 == (next + k) as u64);
            } else {
                assert(all[0] == waiting[next]);
                assert((next + 0) as u64 == next);
            }
        }
        assert((after + rest.len()) as u64 == (next + all.len()) as u64);
    } else {
        assert(all =~= Seq::<Seq<u8>>::empty());
        assert((next + 0) as u64 == next);
    }
}

impl Resequencer {
    /// A resequencer that waits for the chunk with the number zero.
    pub fn new() -> (r: Resequencer)
        ensures
            r@ == (ResequencerView { next: 0, waiting: Map::empty() }),
    {
        let r = Resequencer { next: 0, waiting: HashMap::new() };
        assert(r@.waiting =~= Map::<u64, Seq<u8>>::empty());
        r
    }

    /// The number of the chunk that is due.
    pub fn next_index(&self) -> (r: u64)
        ensures
            r == self@.next,
    {
        self.next
    }

    /// Whether no chunk waits.
    pub fn is_drained(&self) -> (r: bool)
        ensures
            r == (self@.waiting.dom() =~= Set::<u64>::empty()),
    {
        let r = self.waiting.is_empty();
        proof {
            if r {
                assert(self@.waiting.dom() =~= Set::<u64>::empty());
            } else {
                assert(self.waiting@.dom().len() > 0);
                let k = self.waiting@.dom().choose();
                assert(self.waiting@.dom().contains(k)) by {
                    if !self.waiting@.dom().contains(k) {
                        assert(self.waiting@.dom() =~= Set::<u64>::empty());
                    }
                }
                assert(self@.waiting.contains_key(k));
            }
        }
        r
    }

    /// Takes the chunk with the number `index`, and hands out the chunks
    /// that can be released now, in order. A chunk whose number has come
    /// before is dropped.
    pub fn accept(&mut self, index: u64, bytes: Vec<u8>) -> (r: Vec<Vec<u8>>)
        ensures
            chunk_views(r@) == old(self)@.released(index, bytes@),
            final(self)@ == old(self)@.accepted(index, bytes@),
    {
        let mut out: Vec<Vec<u8>> = Vec::new();
        assert(chunk_views(out@) =~= Seq::<Seq<u8>>::empty());
        if index < self.next || self.waiting.contains_key(&index) {
            return out;
        }
        self.waiting.insert(index, bytes);
        let ghost first = self.next;
        let ghost all = self@.waiting;
        assert(all =~= old(self)@.waiting.insert(index, bytes@));
        assert(self@.waiting =~= left(all, first, first));
        loop
            invariant
                first <= self.next,
                self@.waiting == left(all, first, self.next),
                chunk_views(out@) + ready(all, self.next) == ready(all, first),
                self.next == first + out@.len(),
            ensures
                chunk_views(out@) == ready(all, first),
                self@.waiting == left(all, first, self.next),
                self.next == first + out@.len(),
            decreases u64::MAX - self.next,
        {
            if self.next == u64::MAX {
                assert(chunk_views(out@) + Seq::<Seq<u8>>::empty() =~= chunk_views(out@));
                break ;
            }
            let ghost before = chunk_views(out@);
            let ghost held = self@.waiting;
            let ghost raw = self.waiting@;
            let ghost due = self.next;
            assert(held.contains_key(due) == all.contains_key(due));
            assert(held.contains_key(due) == raw.contains_key(due));
            match self.waiting.remove(&self.next) {
                Some(chunk) => {
                    assert(raw.contains_key(due));
                    assert(chunk == raw[due]);
                    assert(held[due] == all[due]);
                    assert(chunk@ == all[due]);
                    assert(self.waiting@ == raw.remove(due));
                    out.push(chunk);
                    self.next = self.next + 1;
                    assert(chunk_views(out@) =~= before.push(all[due]));
                    assert(before.push(all[due]) + ready(all, self.next) =~= before + (seq![
                        all[due],
                    ] + ready(all, self.next)));
                    assert forall|k: u64| self@.waiting.contains_key(k) == left(
                        all,
                        first,
                        self.next,
                    ).contains_key(k) by {
                        assert(self.waiting@.contains_key(k) == (raw.contains_key(k) && k != due));
                        assert(held.contains_key(k) == raw.contains_key(k));
                    }
                    assert forall|k: u64| self@.waiting.contains_key(k) implies self@.waiting[k]
                        == left(all, first, self.next)[k] by {
                        assert(self.waiting@[k] == raw[k]);
                        assert(held[k] == raw[k]@);
                    }
                    assert(self@.waiting =~= left(all, first, self.next));
                },
                None => {
                    assert(!raw.contains_key(due));
                    assert(self.waiting@ == raw);
                    assert(chunk_views(out@) + Seq::<Seq<u8>>::empty() =~= chunk_views(out@));
                    assert(self@.waiting =~= held);
                    break ;
                },
            }
        }
        out
    }
}

/// A chunk as it comes from the transport: its number and its bytes.
pub struct Arrival {
    pub index: u64,
    pub bytes: Seq<u8>,
}

/// The resequencer after a run of arrivals.
pub open spec fn after_arrivals(v: ResequencerView, arrivals: Seq<Arrival>) -> ResequencerView
    decreases arrivals.len(),
{
    if arrivals.len() == 0 {
        v
    } else {
        after_arrivals(v.accepted(arrivals[0].index, arrivals[0].bytes), arrivals.drop_first())
    }
}

/// Everything that is released in a run of arrivals, in the order of its release.
pub open spec fn released_by(v: ResequencerView, arrivals: Seq<Arrival>) -> Seq<Seq<u8>>
    decreases arrivals.len(),
{
    if arrivals.len() == 0 {
        Seq::empty()
    } else {
        v.released(arrivals[0].index, arrivals[0].bytes) + released_by(
            v.accepted(arrivals[0].index, arrivals[0].bytes),
            arrivals.drop_first(),
        )
    }
}

/// The chunks that have come, each as it came first, by their numbers.
pub open spec fn first_arrivals(arrivals: Seq<Arrival>) -> Map<u64, Seq<u8>>
    decreases arrivals.len(),
{
    if arrivals.len() == 0 {
        Map::empty()
    } else {
        let before = first_arrivals(arrivals.drop_last());
        if before.contains_key(arrivals.last().index) {
            before
        } else {
            before.insert(arrivals.last().index, arrivals.last().bytes)
        }
    }
}

/// What links a resequencer to the chunks that have come and to what it has
/// released: the chunks below the one that is due have been released, in
/// order; the one that is due has not come; those above it that have come
/// wait.
pub open spec fn in_step(v: ResequencerView, first: Map<u64, Seq<u8>>, out: Seq<Seq<u8>>) -> bool {
    &&& forall|k: u64| v.waiting.contains_key(k) <==> first.contains_key(k) && k >= v.next
    &&& forall|k: u64| v.waiting.contains_key(k) ==> v.waiting[k] == first[k]
    &&& forall|k: u64| k < v.next ==> first.contains_key(k)
    &&& v.next == u64::MAX || !first.contains_key(v.next)
    &&& out.len() == v.next
    &&& forall|k: int| 0 <= k < out.len() ==> #[trigger] out[k] == first[k as u64]
}

/// One arrival keeps the resequencer in step.
proof fn lemma_accept_in_step(
    v: ResequencerView,
    first: Map<u64, Seq<u8>>,
    out: Seq<Seq<u8>>,
    arrival: Arrival,
)
    requires
        in_step(v, first, out),
        arrival.index < u64::MAX,
    ensures
        in_step(
            v.accepted(arrival.index, arrival.bytes),
            if first.contains_key(arrival.index) {
                first
            } else {
                first.insert(arrival.index, arrival.bytes)
            },
            out + v.released(arrival.index, arrival.bytes),
        ),
{
    let i = arrival.index;
    let after = v.accepted(i, arrival.bytes);
    let total = out + v.released(i, arrival.bytes);
    if v.has_seen(i) {
        assert(first.contains_key(i));
        assert(total =~= out);
        assert(in_step(after, first, total));
    } else {
        assert(!first.contains_key(i));
        let waiting = v.waiting.insert(i, arrival.bytes);
        let more = first.insert(i, arrival.bytes);
        lemma_ready(waiting, v.next);
        let r = ready(waiting, v.next);
        let next = after.next;
        assert(next == v.next + r.len());
        assert(after.waiting == left(waiting, v.next, next));
        assert forall|k: u64| after.waiting.contains_key(k) <==> more.contains_key(k) && k
            >= next by {
            if v.next <= k < next {
                assert(waiting.contains_key(k));
            }
        }
        assert forall|k: u64| after.waiting.contains_key(k) implies after.waiting[k]
            == more[k] by {
            assert(waiting.contains_key(k));
        }
        assert forall|k: u64| k < next implies more.contains_key(k) by {
            if k >= v.next {
                assert(waiting.contains_key(k));
            }
        }
        assert(next == u64::MAX || !more.contains_key(next)) by {
            if next != u64::MAX {
                assert(!waiting.contains_key(next));
            }
        }
        assert(total.len() == next);
        assert forall|k: int| 0 <= k < total.len() implies #[trigger] total[k] == more[k as u64] by {
            if k >= out.len() {
                assert(total[k] == r[k - v.next]);
                assert((v.next + (k - v.next)) as u64 == k as u64);
                assert(waiting.contains_key(k as u64));
                if k as u64 != i {
                    assert(v.waiting.contains_key(k as u64));
                }
                assert(waiting[k as u64] == more[k as u64]);
            } else {
                assert(total[k] == out[k]);
                assert(first.contains_key(k as u64));
            }
        }
        assert(in_step(after, more, total));
    }
}

/// Whatever the order in which the chunks of a body come, and however
/// often each comes, they are released in the order of their numbers, each
/// once and as it came first, as far as none is missing: after any run of
/// arrivals, what has been released is the chunks with the numbers below the
/// one that is due, and the one that is due has not come.
pub proof fn law_chunks_come_out_in_order(arrivals: Seq<Arrival>)
    requires
        forall|i: int| 0 <= i < arrivals.len() ==> (#[trigger] arrivals[i]).index < u64::MAX,
    ensures
        in_step(
            after_arrivals(ResequencerView { next: 0, waiting: Map::empty() }, arrivals),
            first_arrivals(arrivals),
            released_by(ResequencerView { next: 0, waiting: Map::empty() }, arrivals),
        ),
    decreases arrivals.len(),
{
    let start = ResequencerView { next: 0, waiting: Map::empty() };
    if arrivals.len() > 0 {
        let before = arrivals.drop_last();
        law_chunks_come_out_in_order(before);
        let v = after_arrivals(start, before);
        lemma_runs_end(start, before, arrivals.last());
        assert(before.push(arrivals.last()) =~= arrivals);
        lemma_accept_in_step(v, first_arrivals(before), released_by(start, before), arrivals.last());
    }
}

/// A run of arrivals and one more.
proof fn lemma_runs_end(v: ResequencerView, arrivals: Seq<Arrival>, last: Arrival)
    ensures
        after_arrivals(v, arrivals.push(last)) == after_arrivals(v, arrivals).accepted(
            last.index,
            last.bytes,
        ),
        released_by(v, arrivals.push(last)) == released_by(v, arrivals) + after_arrivals(
            v,
            arrivals,
        ).released(last.index, last.bytes),
    decreases arrivals.len(),
{
    let all = arrivals.push(last);
    reveal_with_fuel(after_arrivals, 2);
    reveal_with_fuel(released_by, 2);
    if arrivals.len() == 0 {
        assert(all.drop_first() =~= Seq::<Arrival>::empty());
        assert(all[0] == last);
        let r = v.released(last.index, last.bytes);
        assert(r + Seq::<Seq<u8>>::empty() =~= Seq::<Seq<u8>>::empty() + r);
        assert(released_by(v, all) == r + released_by(
            v.accepted(last.index, last.bytes),
            all.drop_first(),
        ));
    } else {
        assert(all[0] == arrivals[0]);
        assert(all.drop_first() =~= arrivals.drop_first().push(last));
        let w = v.accepted(arrivals[0].index, arrivals[0].bytes);
        lemma_runs_end(w, arrivals.drop_first(), last);
        let a = v.released(arrivals[0].index, arrivals[0].bytes);
        let b = released_by(w, arrivals.drop_first());
        let c = after_arrivals(w, arrivals.drop_first()).released(last.index, last.bytes);
        assert(a + (b + c) =~= (a + b) + c);
    }
}

/// When every chunk of a body of `count` chunks has come, in whatever
/// order, exactly these have been released, in the order of their numbers.
pub proof fn law_all_chunks_come_out(arrivals: Seq<Arrival>, count: u64)
    requires
        forall|i: int| 0 <= i < arrivals.len() ==> (#[trigger] arrivals[i]).index < count,
        forall|k: u64| k < count ==> first_arrivals(arrivals).contains_key(k),
    ensures
        released_by(ResequencerView { next: 0, waiting: Map::empty() }, arrivals).len() == count,
        forall|k: int|
            0 <= k < count ==> #[trigger] released_by(
                ResequencerView { next: 0, waiting: Map::empty() },
                arrivals,
            )[k] == first_arrivals(arrivals)[k as u64],
        after_arrivals(ResequencerView { next: 0, waiting: Map::empty() }, arrivals).next == count,
        after_arrivals(
            ResequencerView { next: 0, waiting: Map::empty() },
            arrivals,
        ).waiting.dom() =~= Set::<u64>::empty(),
{
    law_chunks_come_out_in_order(arrivals);
    lemma_first_arrivals_dom(arrivals, count);
    let v = after_arrivals(ResequencerView { next: 0, waiting: Map::empty() }, arrivals);
    assert(v.next >= count) by {
        if v.next < count {
            assert(first_arrivals(arrivals).contains_key(v.next));
        }
    }
    assert(v.next <= count) by {
        if v.next > count {
            assert(first_arrivals(arrivals).contains_key(count));
        }
    }
    assert forall|k: u64| !v.waiting.contains_key(k) by {
        if v.waiting.contains_key(k) {
            assert(first_arrivals(arrivals).contains_key(k));
        }
    }
}

/// Only chunks that have come are among the first arrivals.
proof fn lemma_first_arrivals_dom(arrivals: Seq<Arrival>, count: u64)
    requires
        forall|i: int| 0 <= i < arrivals.len() ==> (#[trigger] arrivals[i]).index < count,
    ensures
        forall|k: u64| first_arrivals(arrivals).contains_key(k) ==> k < count,
    decreases arrivals.len(),
{
    if arrivals.len() > 0 {
        let before = arrivals.drop_last();
        assert forall|i: int| 0 <= i < before.len() implies (#[trigger] before[i]).index
            < count by {
            assert(before[i] == arrivals[i]);
        }
        lemma_first_arrivals_dom(before, count);
        let last = arrivals[arrivals.len() - 1];
        assert(arrivals.last() == last);
        assert forall|k: u64| first_arrivals(arrivals).contains_key(k) implies k < count by {
            if !first_arrivals(before).contains_key(k) {
                assert(k == last.index);
            }
        }
    }
}

} // verus!
