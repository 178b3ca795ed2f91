//! Stable ordering of bugs and events by time.
use vstd::prelude::*;

use crate::bug::{ts_before, Bug, Timestamp};
use crate::event::Event;

verus! {

/// `a` goes strictly before `b` in the chosen order: by time, oldest first,
/// or, when `newest_first`, newest first.
pub open spec fn goes_before(a: Timestamp, b: Timestamp, newest_first: bool) -> bool {
    if newest_first {
        ts_before(b, a)
    } else {
        ts_before(a, b)
    }
}

/// Where an item with key `k` is inserted into `s`: after the last item that
/// does not go strictly after it.
pub open spec fn insert_pos<T>(
    s: Seq<T>,
    key: spec_fn(T) -> Timestamp,
    k: Timestamp,
    newest_first: bool,
) -> int
    decreases s.len(),
{
    if s.len() == 0 {
        0
    } else if goes_before(k, key(s.last()), newest_first) {
        insert_pos(s.drop_last(), key, k, newest_first)
    } else {
        s.len() as int
    }
}

/// `s` with `x` inserted at `insert_pos`.
pub open spec fn insert_sorted<T>(
    s: Seq<T>,
    key: spec_fn(T) -> Timestamp,
    x: T,
    newest_first: bool,
) -> Seq<T> {
    let p = insert_pos(s, key, key(x), newest_first);
    s.take(p) + seq![x] + s.skip(p)
}

/// `s` ordered by insertion: each item in turn is inserted after the items
/// already placed that do not go after it. This is a stable sort.
pub open spec fn sorted_by<T>(
    s: Seq<T>,
    key: spec_fn(T) -> Timestamp,
    newest_first: bool,
) -> Seq<T>
    decreases s.len(),
{
    if s.len() == 0 {
        s
    } else {
        insert_sorted(sorted_by(s.drop_last(), key, newest_first), key, s.last(), newest_first)
    }
}

/// No item of `s` goes strictly before an item earlier in `s`.
pub open spec fn is_ordered<T>(s: Seq<T>, key: spec_fn(T) -> Timestamp, newest_first: bool) -> bool {
    forall|i: int, j: int|
        0 <= i < j < s.len() ==> !goes_before(#[trigger] key(s[j]), #[trigger] key(s[i]), newest_first)
}

/// Decides `goes_before`.
fn before(a: &Timestamp, b: &Timestamp, newest_first: bool) -> (r: bool)
    ensures
        r == goes_before(*a, *b, newest_first),
{
    if newest_first {
        b.is_before(a)
    } else {
        a.is_before(b)
    }
}

proof fn lemma_insert_pos<T>(
    s: Seq<T>,
    key: spec_fn(T) -> Timestamp,
    k: Timestamp,
    newest_first: bool,
)
    ensures
        0 <= insert_pos(s, key, k, newest_first) <= s.len(),
        forall|i: int|
            insert_pos(s, key, k, newest_first) <= i < s.len() ==> goes_before(
                k,
                #[trigger] key(s[i]),
                newest_first,
            ),
        insert_pos(s, key, k, newest_first) > 0 ==> !goes_before(
            k,
            key(s[insert_pos(s, key, k, newest_first) - 1]),
            newest_first,
        ),
    decreases s.len(),
{
    if s.len() > 0 && goes_before(k, key(s.last()), newest_first) {
        let p = s.drop_last();
        lemma_insert_pos(p, key, k, newest_first);
        assert forall|i: int| insert_pos(s, key, k, newest_first) <= i < s.len() implies goes_before(
            k,
            #[trigger] key(s[i]),
            newest_first,
        ) by {
            if i < s.len() - 1 {
                assert(s[i] == p[i]);
            }
        }
        if insert_pos(s, key, k, newest_first) > 0 {
            assert(s[insert_pos(s, key, k, newest_first) - 1] == p[insert_pos(
                s,
                key,
                k,
                newest_first,
            ) - 1]);
        }
    }
}

/// The items whose key is `k`.
pub open spec fn at_time<T>(key: spec_fn(T) -> Timestamp, k: Timestamp) -> spec_fn(T) -> bool {
    |x: T| key(x) == k
}

/// Sorting by insertion yields an ordered arrangement of the same items, in
/// which the items of each time keep the order they had.
pub proof fn lemma_sorted_by<T>(s: Seq<T>, key: spec_fn(T) -> Timestamp, newest_first: bool)
    ensures
        is_ordered(sorted_by(s, key, newest_first), key, newest_first),
        sorted_by(s, key, newest_first).to_multiset() == s.to_multiset(),
        forall|k: Timestamp|
            #[trigger] sorted_by(s, key, newest_first).filter(at_time(key, k)) == s.filter(
                at_time(key, k),
            ),
    decreases s.len(),
{
    broadcast use vstd::seq_lib::group_seq_properties;
    broadcast use vstd::multiset::group_multiset_axioms;

    if s.len() > 0 {
        let q = s.drop_last();
        let x = s.last();
        lemma_sorted_by(q, key, newest_first);
        let t = sorted_by(q, key, newest_first);
        let p = insert_pos(t, key, key(x), newest_first);
        lemma_insert_pos(t, key, key(x), newest_first);
        let a = t.take(p);
        let b = t.skip(p);
        let r = a + seq![x] + b;
        assert(sorted_by(s, key, newest_first) == r);
        assert(t =~= a + b);
        // ordered
        assert forall|i: int, j: int| 0 <= i < j < r.len() implies !goes_before(
            #[trigger] key(r[j]),
            #[trigger] key(r[i]),
            newest_first,
        ) by {
            if j < p {
                assert(r[i] == t[i] && r[j] == t[j]);
            } else if i > p {
                assert(r[i] == t[i - 1] && r[j] == t[j - 1]);
            } else if i < p && j > p {
                assert(r[i] == t[i] && r[j] == t[j - 1]);
            } else if i < p && j == p {
                assert(r[i] == t[i] && r[j] == x);
                assert(!goes_before(key(x), key(t[p - 1]), newest_first));
                if i < p - 1 {
                    assert(!goes_before(key(t[p - 1]), key(t[i]), newest_first));
                }
            } else {
                assert(i == p && r[i] == x && r[j] == t[j - 1]);
                assert(goes_before(key(x), key(t[j - 1]), newest_first));
            }
        }
        // same items
        vstd::seq_lib::lemma_multiset_commutative(a + seq![x], b);
        vstd::seq_lib::lemma_multiset_commutative(a, seq![x]);
        vstd::seq_lib::lemma_multiset_commutative(a, b);
        vstd::seq_lib::lemma_multiset_commutative(q, seq![x]);
        assert(s =~= q + seq![x]);
        assert(r.to_multiset() =~= s.to_multiset());
        // stable
        assert forall|k: Timestamp| #[trigger]
            r.filter(at_time(key, k)) == s.filter(at_time(key, k)) by {
            let pred = at_time(key, k);
            Seq::filter_distributes_over_add(a + seq![x], b, pred);
            Seq::filter_distributes_over_add(a, seq![x], pred);
            Seq::filter_distributes_over_add(a, b, pred);
            q.lemma_filter_push(x, pred);
            assert(s == q.push(x));
            Seq::<T>::empty().lemma_filter_push(x, pred);
            assert(Seq::<T>::empty().push(x) =~= seq![x]);
            assert(Seq::<T>::empty().filter(pred) =~= Seq::<T>::empty()) by {
                reveal(Seq::filter);
            }
            if key(x) == k {
                assert forall|i: int| 0 <= i < b.len() implies !pred(#[trigger] b[i]) by {
                    assert(b[i] == t[p + i]);
                    assert(goes_before(key(x), key(t[p + i]), newest_first));
                }
                assert(b.all(|y: T| !pred(y)));
                b.lemma_all_neg_filter_empty(pred);
                assert(b.filter(pred) =~= Seq::<T>::empty());
                assert(r.filter(pred) =~= t.filter(pred).push(x));
            } else {
                assert(r.filter(pred) =~= t.filter(pred));
            }
        }
    }
}

/// Sorts `items`, whose keys are `keys`, stably by time.
fn sort_by_time<T>(
    items: Vec<T>,
    keys: Vec<Timestamp>,
    Ghost(key): Ghost<spec_fn(T) -> Timestamp>,
    newest_first: bool,
) -> (r: Vec<T>)
    requires
        items.len() == keys.len(),
        forall|i: int| 0 <= i < items.len() ==> keys@[i] == key(#[trigger] items@[i]),
    ensures
        r@ == sorted_by(items@, key, newest_first),
{
    let ghost orig = items@;
    let n: usize = items.len();
    let mut rest = items;
    let mut out: Vec<T> = Vec::new();
    let mut out_keys: Vec<Timestamp> = Vec::new();
    let mut i: usize = 0;
    while i < n
        invariant
            n == orig.len() == keys.len(),
            i <= n,
            rest@ == orig.skip(i as int),
            forall|m: int| 0 <= m < n ==> keys@[m] == key(#[trigger] orig[m]),
            out@ == sorted_by(orig.take(i as int), key, newest_first),
            out_keys.len() == out.len(),
            forall|m: int| 0 <= m < out.len() ==> out_keys@[m] == key(#[trigger] out@[m]),
        decreases n - i,
    {
        assert(rest@[0] == orig[i as int]);
        let x = rest.remove(0);
        let k = keys[i];
        let mut j: usize = out.len();
        assert(out@.take(j as int) =~= out@);
        while j > 0 && before(&k, &out_keys[j - 1], newest_first)
            invariant
                j <= out.len() == out_keys.len(),
                forall|m: int| 0 <= m < out.len() ==> out_keys@[m] == key(#[trigger] out@[m]),
                insert_pos(out@, key, k, newest_first) == insert_pos(
                    out@.take(j as int),
                    key,
                    k,
                    newest_first,
                ),
            decreases j,
        {
            assert(out@.take(j as int).drop_last() =~= out@.take(j - 1));
            assert(out@.take(j as int).last() == out@[j - 1]);
            j = j - 1;
        }
        proof {
            if j > 0 {
                assert(out@.take(j as int).last() == out@[j - 1]);
            }
            assert(out@.take(j as int).len() == j);
        }
        let ghost before_insert = out@;
        out.insert(j, x);
        out_keys.insert(j, k);
        proof {
            assert(orig.take(i + 1).drop_last() =~= orig.take(i as int));
            assert(orig.take(i + 1).last() == x);
            assert(out@ =~= insert_sorted(before_insert, key, x, newest_first));
            assert(rest@ =~= orig.skip(i + 1));
            assert forall|m: int| 0 <= m < out.len() implies out_keys@[m] == key(
                #[trigger] out@[m],
            ) by {
                if m < j {
                    assert(out@[m] == before_insert[m]);
                } else if m > j {
                    assert(out@[m] == before_insert[m - 1]);
                }
            }
        }
        i = i + 1;
    }
    assert(orig.take(n as int) =~= orig);
    out
}

/// The time at which an event happened.
pub open spec fn event_time(e: Event) -> Timestamp {
    e.timestamp
}

/// The time at which a bug was created.
pub open spec fn bug_time(b: Bug) -> Timestamp {
    b.metadata.created
}

/// The key by which events are ordered: their time.
pub open spec fn event_key() -> spec_fn(Event) -> Timestamp {
    |e: Event| event_time(e)
}

/// The key by which bugs are ordered: their creation time.
pub open spec fn bug_key() -> spec_fn(Bug) -> Timestamp {
    |b: Bug| bug_time(b)
}

/// Orders an event log by time, oldest first; events at the same time keep
/// their order.
pub fn sort_events(events: Vec<Event>) -> (r: Vec<Event>)
    ensures
        r@ == sorted_by(events@, event_key(), false),
        r@.to_multiset() == events@.to_multiset(),
        forall|i: int, j: int|
            0 <= i < j < r@.len() ==> !ts_before(r@[j].timestamp, r@[i].timestamp),
        forall|k: Timestamp|
            #[trigger] r@.filter(at_time(event_key(), k)) == events@.filter(at_time(event_key(), k)),
{
    let mut keys: Vec<Timestamp> = Vec::new();
    let mut i: usize = 0;
    while i < events.len()
        invariant
            i <= events.len(),
            keys.len() == i,
            forall|m: int| 0 <= m < i ==> keys@[m] == event_time(#[trigger] events@[m]),
        decreases events.len() - i,
    {
        keys.push(events[i].timestamp);
        i = i + 1;
    }
    let r = sort_by_time(events, keys, Ghost(event_key()), false);
    proof {
        lemma_sorted_by(events@, event_key(), false);
        assert forall|i: int, j: int| 0 <= i < j < r@.len() implies !ts_before(
            r@[j].timestamp,
            r@[i].timestamp,
        ) by {
            assert(!goes_before(event_key()(r@[j]), event_key()(r@[i]), false));
        }
    }
    r
}

/// Orders bugs by creation time, newest first; bugs created at the same time
/// keep their order.
pub fn sort_bugs_newest_first(bugs: Vec<Bug>) -> (r: Vec<Bug>)
    ensures
        r@ == sorted_by(bugs@, bug_key(), true),
        r@.to_multiset() == bugs@.to_multiset(),
        forall|i: int, j: int|
            0 <= i < j < r@.len() ==> !ts_before(r@[i].metadata.created, r@[j].metadata.created),
        forall|k: Timestamp|
            #[trigger] r@.filter(at_time(bug_key(), k)) == bugs@.filter(at_time(bug_key(), k)),
{
    let mut keys: Vec<Timestamp> = Vec::new();
    let mut i: usize = 0;
    while i < bugs.len()
        invariant
            i <= bugs.len(),
            keys.len() == i,
            forall|m: int| 0 <= m < i ==> keys@[m] == bug_time(#[trigger] bugs@[m]),
        decreases bugs.len() - i,
    {
        keys.push(bugs[i].metadata.created);
        i = i + 1;
    }
    let r = sort_by_time(bugs, keys, Ghost(bug_key()), true);
    proof {
        lemma_sorted_by(bugs@, bug_key(), true);
        assert forall|i: int, j: int| 0 <= i < j < r@.len() implies !ts_before(
            r@[i].metadata.created,
            r@[j].metadata.created,
        ) by {
            assert(!goes_before(bug_key()(r@[j]), bug_key()(r@[i]), true));
        }
    }
    r
}

/// An event log ordered by time lists no event after a later one, holds the
/// same events, and keeps the order of events at the same time.
pub proof fn lemma_events_oldest_first(events: Seq<Event>)
    ensures
        ({
            let r = sorted_by(events, event_key(), false);
            &&& r.to_multiset() == events.to_multiset()
            &&& forall|i: int, j: int|
                0 <= i < j < r.len() ==> !ts_before(r[j].timestamp, r[i].timestamp)
        }),
{
    lemma_sorted_by(events, event_key(), false);
    let r = sorted_by(events, event_key(), false);
    assert forall|i: int, j: int| 0 <= i < j < r.len() implies !ts_before(
        r[j].timestamp,
        r[i].timestamp,
    ) by {
        assert(!goes_before(event_key()(r[j]), event_key()(r[i]), false));
    }
}

/// A bug list ordered newest first lists no bug before a newer one, and holds
/// the same bugs.
pub proof fn lemma_bugs_newest_first(bugs: Seq<Bug>)
    ensures
        ({
            let r = sorted_by(bugs, bug_key(), true);
            &&& r.to_multiset() == bugs.to_multiset()
            &&& forall|i: int, j: int|
                0 <= i < j < r.len() ==> !ts_before(r[i].metadata.created, r[j].metadata.created)
        }),
{
    lemma_sorted_by(bugs, bug_key(), true);
    let r = sorted_by(bugs, bug_key(), true);
    assert forall|i: int, j: int| 0 <= i < j < r.len() implies !ts_before(
        r[i].metadata.created,
        r[j].metadata.created,
    ) by {
        assert(!goes_before(bug_key()(r[j]), bug_key()(r[i]), true));
    }
}

} // verus!
