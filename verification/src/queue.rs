//! A queue of pending work: either first-in first-out over a list sorted at
//! construction, or a priority queue that always hands out the earliest item.

use vstd::prelude::*;
use std::collections::VecDeque;

verus! {

broadcast use vstd::seq_lib::group_to_multiset_ensures;

/// The key by which queued items are ordered: smaller keys come first.
pub trait QueueKey {
    spec fn spec_key(&self) -> int;

    fn key(&self) -> (k: i128)
        ensures
            k as int == self.spec_key(),
    ;
}

impl QueueKey for u64 {
    open spec fn spec_key(&self) -> int {
        *self as int
    }

    fn key(&self) -> (k: i128) {
        *self as i128
    }
}

impl QueueKey for i64 {
    open spec fn spec_key(&self) -> int {
        *self as int
    }

    fn key(&self) -> (k: i128) {
        *self as i128
    }
}

/// Whether the keys of `s` never decrease.
pub open spec fn sorted_by_key<T: QueueKey>(s: Seq<T>) -> bool {
    forall|i: int, j: int| 0 <= i < j < s.len() ==> s[i].spec_key() <= s[j].spec_key()
}

/// `out[i]` is `input[perm[i]]`, `perm` picks each input position once, and
/// `out` is ordered by key, items of equal key in their input order: `out`
/// is the stable sort of `input` by key.
pub open spec fn stable_sort_of<T: QueueKey>(input: Seq<T>, out: Seq<T>, perm: Seq<int>) -> bool {
    &&& perm.len() == input.len()
    &&& out.len() == input.len()
    &&& forall|i: int| 0 <= i < perm.len() ==> 0 <= #[trigger] perm[i] < input.len()
    &&& forall|i: int| 0 <= i < out.len() ==> #[trigger] out[i] == input[perm[i]]
    &&& forall|i: int, j: int| 0 <= i < j < perm.len() ==> perm[i] != perm[j]
    &&& forall|i: int, j: int|
        0 <= i < j < out.len() ==> {
            ||| out[i].spec_key() < out[j].spec_key()
            ||| out[i].spec_key() == out[j].spec_key() && perm[i] < perm[j]
        }
}

/// `q` is a queue that `from_iter` builds of `items`: a priority queue of
/// them, or a first-in first-out queue of them stably sorted by key.
pub open spec fn queue_of<T: QueueKey>(items: Seq<T>, use_priority_queue: bool, q: QueueType<T>) -> bool {
    &&& q.is_priority() == use_priority_queue
    &&& q.contents() == items.to_multiset()
    &&& !use_priority_queue ==> exists|perm: Seq<int>| stable_sort_of(items, q.items(), perm)
}

/// `after` is `before` with `x` added as `enqueue` adds it.
pub open spec fn enqueued<T: QueueKey>(before: QueueType<T>, x: T, after: QueueType<T>) -> bool {
    &&& after.is_priority() == before.is_priority()
    &&& after.contents() == before.contents().insert(x)
    &&& !before.is_priority() ==> after.items() == before.items().push(x)
}

/// `r` is what `dequeue` may hand out of `before`, leaving `after`.
pub open spec fn dequeued<T: QueueKey>(before: QueueType<T>, r: Option<T>, after: QueueType<T>) -> bool {
    &&& after.is_priority() == before.is_priority()
    &&& r is None <==> before.items().len() == 0
    &&& r is None ==> after.items() == before.items()
    &&& r matches Some(x) ==> {
        &&& before.contents().count(x) > 0
        &&& after.contents() == before.contents().remove(x)
    }
    &&& !before.is_priority() ==> (r matches Some(x) ==> {
        &&& x == before.items()[0]
        &&& after.items() == before.items().drop_first()
    })
    &&& (before.is_priority() || sorted_by_key(before.items())) ==> (r matches Some(x) ==> forall|
        y: T,
    | before.contents().count(y) > 0 ==> x.spec_key() <= y.spec_key())
    &&& sorted_by_key(before.items()) && !before.is_priority() ==> sorted_by_key(after.items())
}

/// Pending items, in one of two disciplines.
pub enum QueueType<T> {
    /// First in, first out.
    Queue(VecDeque<T>),
    /// Earliest key out first.
    PriorityQueue(Vec<T>),
}

impl<T: QueueKey> QueueType<T> {
    /// The items held, in the order in which they are kept.
    pub open spec fn items(&self) -> Seq<T> {
        match self {
            QueueType::Queue(q) => q@,
            QueueType::PriorityQueue(v) => v@,
        }
    }

    /// The items held, as a multiset.
    pub open spec fn contents(&self) -> vstd::multiset::Multiset<T> {
        self.items().to_multiset()
    }

    /// Whether this is the priority discipline.
    pub open spec fn is_priority(&self) -> bool {
        self is PriorityQueue
    }

    /// A queue of `items`: a priority queue of them, or a first-in first-out
    /// queue of them stably sorted by key.
    pub fn from_iter(items: Vec<T>, use_priority_queue: bool) -> (q: Self)
        ensures
            queue_of(items@, use_priority_queue, q),
    {
        if use_priority_queue {
            QueueType::PriorityQueue(items)
        } else {
            let sorted = stable_sort(items);
            let ghost s = sorted@;
            let mut rest = sorted;
            let mut q: VecDeque<T> = VecDeque::new();
            while rest.len() > 0
                invariant
                    s == rest@ + q@,
                decreases rest.len(),
            {
                let x = rest.pop().unwrap();
                q.push_front(x);
                assert(s =~= rest@ + q@);
            }
            assert(q@ =~= s);
            QueueType::Queue(q)
        }
    }

    /// Adds `item`: at the back of a first-in first-out queue.
    pub fn enqueue(&mut self, item: T)
        ensures
            enqueued(*old(self), item, *final(self)),
    {
        match self {
            QueueType::Queue(q) => q.push_back(item),
            QueueType::PriorityQueue(v) => v.push(item),
        }
    }

    /// Takes the next item out: the front of a first-in first-out queue, an
    /// item of least key from a priority queue; `None` where it is empty.
    pub fn dequeue(&mut self) -> (r: Option<T>)
        ensures
            dequeued(*old(self), r, *final(self)),
    {
        match self {
            QueueType::Queue(q) => {
                let ghost before = q@;
                let r = q.pop_front();
                proof {
                    if before.len() > 0 {
                        assert(before.drop_first() =~= before.remove(0));
                        assert forall|y: T| before.to_multiset().count(y) > 0 && sorted_by_key(
                            before,
                        ) implies before[0].spec_key() <= y.spec_key() by {
                            let j = choose|j: int| 0 <= j < before.len() && before[j] == y;
                            assert(before[j] == y);
                        }
                    }
                }
                r
            },
            QueueType::PriorityQueue(v) => {
                if v.len() == 0 {
                    return None;
                }
                let ghost before = v@;
                let mut best: usize = 0;
                let mut best_key = v[0].key();
                let mut i: usize = 1;
                while i < v.len()
                    invariant
                        v@ == before,
                        0 < i <= v@.len(),
                        best < v@.len(),
                        best_key == v@[best as int].spec_key(),
                        forall|j: int| 0 <= j < i ==> best_key <= #[trigger] v@[j].spec_key(),
                    decreases v@.len() - i,
                {
                    let k = v[i].key();
                    if k < best_key {
                        best = i;
                        best_key = k;
                    }
                    i = i + 1;
                }
                let x = v.remove(best);
                proof {
                    assert forall|y: T| before.to_multiset().count(y) > 0 implies x.spec_key()
                        <= y.spec_key() by {
                        let j = choose|j: int| 0 <= j < before.len() && before[j] == y;
                        assert(before[j] == y);
                    }
                }
                Some(x)
            },
        }
    }

    /// Whether nothing is queued.
    pub fn is_empty(&self) -> (r: bool)
        ensures
            r == (self.items().len() == 0),
    {
        match self {
            QueueType::Queue(q) => q.len() == 0,
            QueueType::PriorityQueue(v) => v.len() == 0,
        }
    }
}

/// `items` stably sorted by key.
fn stable_sort<T: QueueKey>(items: Vec<T>) -> (out: Vec<T>)
    ensures
        exists|perm: Seq<int>| stable_sort_of(items@, out@, perm),
        out@.to_multiset() == items@.to_multiset(),
{
    let ghost input = items@;
    let mut rest = items;
    let mut out: Vec<T> = Vec::new();
    let ghost mut perm: Seq<int> = Seq::empty();
    while rest.len() > 0
        invariant
            rest@ == input.take(rest@.len() as int),
            rest@.len() <= input.len(),
            perm.len() == out@.len(),
            out@.len() + rest@.len() == input.len(),
            forall|i: int| 0 <= i < perm.len() ==> rest@.len() <= #[trigger] perm[i] < input.len(),
            forall|i: int| 0 <= i < out@.len() ==> #[trigger] out@[i] == input[perm[i]],
            forall|i: int, j: int| 0 <= i < j < perm.len() ==> perm[i] != perm[j],
            forall|i: int, j: int|
                0 <= i < j < out@.len() ==> {
                    ||| out@[i].spec_key() < out@[j].spec_key()
                    ||| out@[i].spec_key() == out@[j].spec_key() && perm[i] < perm[j]
                },
            out@.to_multiset().add(rest@.to_multiset()) == input.to_multiset(),
        decreases rest.len(),
    {
        let ghost k = rest@.len() - 1;
        let ghost rest_before = rest@;
        let x = rest.pop().unwrap();
        assert(rest@ =~= input.take(k));
        assert(rest_before =~= rest@.push(x));
        let kx = x.key();
        let mut pos: usize = 0;
        while pos < out.len() && out[pos].key() < kx
            invariant
                pos <= out@.len(),
                kx == x.spec_key(),
                forall|i: int| 0 <= i < pos ==> #[trigger] out@[i].spec_key() < kx,
            decreases out@.len() - pos,
        {
            pos = pos + 1;
        }
        let ghost old_out = out@;
        out.insert(pos, x);
        proof {
            perm = perm.insert(pos as int, k);
            assert forall|i: int, j: int| 0 <= i < j < out@.len() implies {
                ||| out@[i].spec_key() < out@[j].spec_key()
                ||| out@[i].spec_key() == out@[j].spec_key() && perm[i] < perm[j]
            } by {
                if j < pos {
                } else if j == pos {
                    assert(out@[i] == old_out[i]);
                } else if i < pos {
                    assert(out@[j] == old_out[j - 1]);
                    if pos < old_out.len() {
                        assert(old_out[pos as int].spec_key() >= kx);
                    }
                } else if i == pos {
                    assert(out@[j] == old_out[j - 1]);
                    assert(old_out[pos as int].spec_key() >= kx);
                    if pos < j - 1 {
                        assert(old_out[pos as int].spec_key() <= old_out[j - 1].spec_key());
                    }
                } else {
                    assert(out@[i] == old_out[i - 1]);
                    assert(out@[j] == old_out[j - 1]);
                }
            }
            assert(rest_before.to_multiset() == rest@.to_multiset().insert(x));
            assert(out@.to_multiset() == old_out.to_multiset().insert(x));
            assert(out@.to_multiset().add(rest@.to_multiset()) =~= old_out.to_multiset().add(
                rest_before.to_multiset(),
            ));
        }
    }
    assert(stable_sort_of(input, out@, perm));
    assert(rest@.to_multiset() =~= vstd::multiset::Multiset::empty());
    assert(out@.to_multiset().add(rest@.to_multiset()) =~= out@.to_multiset());
    out
}

} // verus!

verus! {

/// A queue that `from_iter` builds hands its items out earliest first: it is
/// a priority queue, or its items are sorted by key.
pub proof fn law_fresh_queue_is_ordered<T: QueueKey>(items: Seq<T>, use_priority_queue: bool, q: QueueType<T>)
    requires
        queue_of(items, use_priority_queue, q),
    ensures
        q.is_priority() || sorted_by_key(q.items()),
{
    if !use_priority_queue {
        let perm = choose|perm: Seq<int>| stable_sort_of(items, q.items(), perm);
        assert forall|i: int, j: int| 0 <= i < j < q.items().len() implies q.items()[i].spec_key()
            <= q.items()[j].spec_key() by {
            assert(stable_sort_of(items, q.items(), perm));
        }
    }
}

/// Taking items out of an ordered queue, without adding any, hands them out
/// in order of key: each is no later than anything left, and what is left
/// stays ordered.
pub proof fn law_dequeue_keeps_order<T: QueueKey>(before: QueueType<T>, x: T, after: QueueType<T>)
    requires
        before.is_priority() || sorted_by_key(before.items()),
        dequeued(before, Some(x), after),
    ensures
        forall|y: T| #[trigger] after.contents().count(y) > 0 ==> x.spec_key() <= y.spec_key(),
        after.is_priority() || sorted_by_key(after.items()),
{
    assert forall|y: T| #[trigger] after.contents().count(y) > 0 implies x.spec_key()
        <= y.spec_key() by {
        assert(before.contents().count(y) >= after.contents().count(y));
    }
}

/// What is put into an empty queue is the next thing taken out, and the
/// queue is empty again after it.
pub proof fn law_enqueue_then_dequeue_on_empty<T: QueueKey>(
    q0: QueueType<T>,
    x: T,
    q1: QueueType<T>,
    r: Option<T>,
    q2: QueueType<T>,
)
    requires
        q0.items().len() == 0,
        enqueued(q0, x, q1),
        dequeued(q1, r, q2),
    ensures
        r == Some(x),
        q2.items().len() == 0,
{
    broadcast use vstd::multiset::group_multiset_axioms;

    assert(q0.items() =~= Seq::<T>::empty());
    assert(q0.contents() =~= vstd::multiset::Multiset::empty());
    assert(q1.contents() =~= vstd::multiset::Multiset::singleton(x));
    assert(q1.items().len() == q1.contents().len());
    let y = r->Some_0;
    assert(q1.contents().count(y) > 0);
    assert(y == x);
    assert(q2.contents() =~= vstd::multiset::Multiset::empty());
    assert(q2.items().len() == q2.contents().len());
}

/// `after` is `before` after one dequeue that handed out `r`, or, where `r`
/// is `None`, `before` with the same items.
pub open spec fn took_or_kept<T: QueueKey>(before: QueueType<T>, r: Option<T>, after: QueueType<T>) -> bool {
    match r {
        Some(_) => dequeued(before, r, after),
        None => after.items() == before.items() && after.is_priority() == before.is_priority(),
    }
}

/// The items handed out in `outs`, in order.
pub open spec fn taken_items<T>(outs: Seq<Option<T>>) -> Seq<T>
    decreases outs.len(),
{
    if outs.len() == 0 {
        Seq::empty()
    } else {
        match outs.last() {
            Some(x) => taken_items(outs.drop_last()).push(x),
            None => taken_items(outs.drop_last()),
        }
    }
}

/// Whether every item of `taken` has a key no later than every item of `q`.
pub open spec fn all_before<T: QueueKey>(taken: Seq<T>, q: QueueType<T>) -> bool {
    forall|i: int, y: T|
        0 <= i < taken.len() && #[trigger] q.contents().count(y) > 0 ==> #[trigger] taken[i].spec_key()
            <= y.spec_key()
}

/// What every prefix of a run of dequeues from an ordered queue keeps: the
/// items taken are in order of key, none later than what is left, and
/// together with what is left they are what the queue held.
pub proof fn lemma_run_prefix<T: QueueKey>(qs: Seq<QueueType<T>>, outs: Seq<Option<T>>, k: int)
    requires
        qs.len() == outs.len() + 1,
        0 <= k <= outs.len(),
        qs[0].is_priority() || sorted_by_key(qs[0].items()),
        forall|i: int| 0 <= i < outs.len() ==> took_or_kept(#[trigger] qs[i], outs[i], qs[i + 1]),
    ensures
        ({
            let taken = taken_items(outs.take(k));
            &&& qs[k].is_priority() == qs[0].is_priority()
            &&& qs[k].is_priority() || sorted_by_key(qs[k].items())
            &&& sorted_by_key(taken)
            &&& all_before(taken, qs[k])
            &&& qs[k].contents().add(taken.to_multiset()) == qs[0].contents()
            &&& !qs[0].is_priority() ==> qs[0].items() == taken + qs[k].items()
        }),
    decreases k,
{
    broadcast use vstd::multiset::group_multiset_axioms;

    if k == 0 {
        assert(outs.take(0) =~= Seq::<Option<T>>::empty());
        assert(taken_items(outs.take(0)) =~= Seq::<T>::empty());
        assert(qs[0].contents().add(Seq::<T>::empty().to_multiset()) =~= qs[0].contents());
        assert(qs[0].items() =~= Seq::<T>::empty() + qs[0].items());
    } else {
        lemma_run_prefix(qs, outs, k - 1);
        let prev = taken_items(outs.take(k - 1));
        assert(outs.take(k).drop_last() =~= outs.take(k - 1));
        assert(outs.take(k).last() == outs[k - 1]);
        let a = qs[k - 1];
        let b = qs[k];
        assert(took_or_kept(a, outs[k - 1], b));
        match outs[k - 1] {
            None => {
                assert(taken_items(outs.take(k)) == prev);
                assert(b.contents() == a.contents());
            },
            Some(x) => {
                let taken = prev.push(x);
                assert(taken_items(outs.take(k)) == taken);
                law_dequeue_keeps_order(a, x, b);
                assert(dequeued(a, Some(x), b));
                assert forall|i: int, j: int| 0 <= i < j < taken.len() implies taken[i].spec_key()
                    <= taken[j].spec_key() by {
                    if j == taken.len() - 1 {
                        assert(taken[i] == prev[i]);
                        assert(a.contents().count(x) > 0);
                    } else {
                        assert(taken[i] == prev[i] && taken[j] == prev[j]);
                    }
                }
                assert forall|i: int, y: T|
                    0 <= i < taken.len() && #[trigger] b.contents().count(y) > 0 implies #[trigger] taken[i].spec_key()
                    <= y.spec_key() by {
                    assert(a.contents().count(y) >= b.contents().count(y));
                    if i < prev.len() {
                        assert(taken[i] == prev[i]);
                    }
                }
                assert(taken.to_multiset() =~= prev.to_multiset().insert(x));
                assert(b.contents().add(taken.to_multiset()) =~= a.contents().add(prev.to_multiset()));
                if !qs[0].is_priority() {
                    assert(a.items() =~= seq![x] + b.items());
                    assert(qs[0].items() =~= taken + b.items());
                }
            },
        }
    }
}

/// Taking every item out of a queue that `from_iter` built, until `dequeue`
/// gives `None`, hands out each item once and in order of key; a first-in
/// first-out queue hands them out in the stable sort of the items.
pub proof fn law_drain_in_key_order<T: QueueKey>(
    items: Seq<T>,
    use_priority_queue: bool,
    qs: Seq<QueueType<T>>,
    outs: Seq<Option<T>>,
)
    requires
        queue_of(items, use_priority_queue, qs[0]),
        qs.len() == outs.len() + 1,
        outs.len() > 0,
        outs.last() is None,
        forall|i: int| 0 <= i < outs.len() ==> dequeued(#[trigger] qs[i], outs[i], qs[i + 1]),
    ensures
        taken_items(outs).len() == items.len(),
        taken_items(outs).to_multiset() == items.to_multiset(),
        sorted_by_key(taken_items(outs)),
        !use_priority_queue ==> exists|perm: Seq<int>| stable_sort_of(items, taken_items(outs), perm),
{
    broadcast use vstd::multiset::group_multiset_axioms;

    law_fresh_queue_is_ordered(items, use_priority_queue, qs[0]);
    let n = outs.len() as int;
    assert forall|i: int| 0 <= i < outs.len() implies took_or_kept(#[trigger] qs[i], outs[i], qs[i + 1]) by {
        assert(dequeued(qs[i], outs[i], qs[i + 1]));
    }
    lemma_run_prefix(qs, outs, n);
    assert(outs.take(n) =~= outs);
    let taken = taken_items(outs);
    assert(dequeued(qs[n - 1], outs[n - 1], qs[n]));
    assert(qs[n].items().len() == 0);
    assert(qs[n].items() =~= Seq::<T>::empty());
    assert(qs[n].contents() =~= vstd::multiset::Multiset::empty());
    assert(qs[n].contents().add(taken.to_multiset()) =~= taken.to_multiset());
    assert(taken.len() == taken.to_multiset().len());
    assert(items.len() == items.to_multiset().len());
    if !use_priority_queue {
        assert(qs[0].items() =~= taken);
    }
}

/// How many of `puts` are `true`.
pub open spec fn put_count(puts: Seq<bool>) -> nat
    decreases puts.len(),
{
    if puts.len() == 0 {
        0
    } else {
        put_count(puts.drop_last()) + if puts.last() {
            1nat
        } else {
            0nat
        }
    }
}

/// Each step of a run of calls: an `enqueue` of `xs[i]` where `puts[i]`, a
/// `dequeue` that gave `xs[i]` where not.
pub open spec fn queue_calls<T: QueueKey>(qs: Seq<QueueType<T>>, puts: Seq<bool>, xs: Seq<T>) -> bool {
    &&& qs.len() == puts.len() + 1
    &&& xs.len() == puts.len()
    &&& forall|i: int|
        0 <= i < puts.len() ==> if puts[i] {
            enqueued(#[trigger] qs[i], xs[i], qs[i + 1])
        } else {
            dequeued(qs[i], Some(xs[i]), qs[i + 1])
        }
}

/// After a run of calls, a queue holds what it held, plus one item for each
/// `enqueue`, less one for each `dequeue` that gave an item; so it is empty
/// exactly when those counts cancel.
pub proof fn law_item_count<T: QueueKey>(qs: Seq<QueueType<T>>, puts: Seq<bool>, xs: Seq<T>)
    requires
        queue_calls(qs, puts, xs),
    ensures
        qs.last().items().len() == qs[0].items().len() + put_count(puts) - (puts.len() - put_count(
            puts,
        )),
    decreases puts.len(),
{
    broadcast use vstd::multiset::group_multiset_axioms;

    let n = puts.len() as int;
    if n > 0 {
        let qs1 = qs.drop_last();
        let puts1 = puts.drop_last();
        let xs1 = xs.drop_last();
        assert forall|i: int| 0 <= i < puts1.len() implies if puts1[i] {
            enqueued(#[trigger] qs1[i], xs1[i], qs1[i + 1])
        } else {
            dequeued(qs1[i], Some(xs1[i]), qs1[i + 1])
        } by {
            assert(qs1[i] == qs[i] && qs1[i + 1] == qs[i + 1]);
        }
        law_item_count(qs1, puts1, xs1);
        let a = qs[n - 1];
        let b = qs[n];
        assert(a.items().len() == a.contents().len());
        assert(b.items().len() == b.contents().len());
        if puts[n - 1] {
            assert(enqueued(qs[n - 1], xs[n - 1], qs[n]));
        } else {
            assert(dequeued(qs[n - 1], Some(xs[n - 1]), qs[n]));
        }
    }
}

} // verus!
