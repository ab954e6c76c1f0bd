//! The order in which events are consumed: highest priority first, and
//! among equal priorities in the order in which they arrived.
use vstd::prelude::*;
use vstd::seq_lib::group_to_multiset_ensures;

use crate::event::BoxedEvent;

verus! {

/// The events of `s` whose priority is `p`, in their order in `s`.
pub open spec fn with_priority(s: Seq<BoxedEvent>, p: u64) -> Seq<BoxedEvent> {
    s.filter(priority_is(p))
}

/// Whether an event has priority `p`.
pub open spec fn priority_is(p: u64) -> spec_fn(BoxedEvent) -> bool {
    |e: BoxedEvent| e.priority == p
}

/// No event of `s` comes before one of higher priority.
pub open spec fn sorted_by_priority(s: Seq<BoxedEvent>) -> bool {
    forall|i: int, j: int| 0 <= i < j < s.len() ==> s[i].priority >= s[j].priority
}

/// `a` and `b` hold the same events of each priority, in the same order.
pub open spec fn same_per_priority(a: Seq<BoxedEvent>, b: Seq<BoxedEvent>) -> bool {
    forall|p: u64| #[trigger] with_priority(a, p) == with_priority(b, p)
}

/// `r` is `s` in consumption order: highest priority first, ties kept in
/// their order in `s`.
pub open spec fn consumption_order(r: Seq<BoxedEvent>, s: Seq<BoxedEvent>) -> bool {
    sorted_by_priority(r) && same_per_priority(r, s)
}

proof fn lemma_none_with_priority(s: Seq<BoxedEvent>, p: u64)
    requires
        forall|i: int| 0 <= i < s.len() ==> s[i].priority != p,
    ensures
        with_priority(s, p) == Seq::<BoxedEvent>::empty(),
{
    let pred = priority_is(p);
    assert(s.all(|e: BoxedEvent| !pred(e)));
    s.lemma_all_neg_filter_empty(pred);
    assert(with_priority(s, p) =~= Seq::<BoxedEvent>::empty());
}

/// Two sequences with the same events per priority are empty together.
pub proof fn lemma_empty_together(r: Seq<BoxedEvent>, s: Seq<BoxedEvent>)
    requires
        same_per_priority(r, s),
    ensures
        r.len() == 0 <==> s.len() == 0,
{
    if r.len() == 0 {
        lemma_same_as_empty(r, s);
    }
    if s.len() == 0 {
        lemma_same_as_empty(s, r);
    }
}

proof fn lemma_same_as_empty(r: Seq<BoxedEvent>, s: Seq<BoxedEvent>)
    requires
        forall|p: u64| #[trigger] with_priority(r, p) == with_priority(s, p),
        r.len() == 0,
    ensures
        s.len() == 0,
{
    if s.len() > 0 {
        let p = s[0].priority;
        let pred = priority_is(p);
        assert(s =~= seq![s[0]] + s.drop_first());
        s.drop_first().lemma_filter_prepend(s[0], pred);
        assert(with_priority(s, p).len() > 0);
        assert(r =~= Seq::<BoxedEvent>::empty());
        reveal(Seq::filter);
        assert(with_priority(r, p).len() == 0);
    }
}

/// There is one consumption order of a sequence: any two are equal.
pub proof fn lemma_consumption_order_unique(r1: Seq<BoxedEvent>, r2: Seq<BoxedEvent>, s: Seq<BoxedEvent>)
    requires
        consumption_order(r1, s),
        consumption_order(r2, s),
    ensures
        r1 == r2,
{
    assert forall|p: u64| #[trigger] with_priority(r1, p) == with_priority(r2, p) by {
        assert(with_priority(r1, p) == with_priority(s, p));
        assert(with_priority(r2, p) == with_priority(s, p));
    }
    lemma_sorted_same_equal(r1, r2);
}

/// A sequence in priority order is its own consumption order.
pub proof fn lemma_sorted_is_own_order(s: Seq<BoxedEvent>)
    requires
        sorted_by_priority(s),
    ensures
        consumption_order(s, s),
{
}

/// A sequence whose first event has priority `p` keeps, among the events of
/// priority `p`, that event first.
proof fn lemma_head_with_priority(a: Seq<BoxedEvent>, q: u64)
    requires
        a.len() > 0,
    ensures
        a =~= seq![a[0]] + a.drop_first(),
        with_priority(a, q) == (if a[0].priority == q {
            seq![a[0]]
        } else {
            Seq::<BoxedEvent>::empty()
        }) + with_priority(a.drop_first(), q),
{
    assert(a =~= seq![a[0]] + a.drop_first());
    a.drop_first().lemma_filter_prepend(a[0], priority_is(q));
}

/// In a sorted sequence holding an event of priority `p`, the first event
/// has priority at least `p`.
proof fn lemma_first_is_highest(b: Seq<BoxedEvent>, p: u64)
    requires
        sorted_by_priority(b),
        with_priority(b, p).len() > 0,
    ensures
        b.len() > 0,
        b[0].priority >= p,
{
    let x = with_priority(b, p)[0];
    assert(with_priority(b, p)[0] == x);
    assert(with_priority(b, p).contains(x));
    b.lemma_filter_contains_rev(priority_is(p), x);
    let k = choose|k: int| 0 <= k < b.len() && b[k] == x;
    assert(b[k].priority == p);
    if k > 0 {
        assert(b[0].priority >= b[k].priority);
    }
}

proof fn lemma_sorted_same_equal(a: Seq<BoxedEvent>, b: Seq<BoxedEvent>)
    requires
        sorted_by_priority(a),
        sorted_by_priority(b),
        forall|p: u64| #[trigger] with_priority(a, p) == with_priority(b, p),
    ensures
        a == b,
    decreases a.len() + b.len(),
{
    if a.len() == 0 {
        lemma_same_as_empty(a, b);
        assert(a =~= b);
    } else if b.len() == 0 {
        lemma_same_as_empty(b, a);
        assert(a =~= b);
    } else {
        let pa = a[0].priority;
        let pb = b[0].priority;
        lemma_head_with_priority(a, pa);
        lemma_head_with_priority(b, pb);
        assert(with_priority(b, pa) == with_priority(a, pa));
        lemma_first_is_highest(b, pa);
        assert(with_priority(a, pb) == with_priority(b, pb));
        lemma_first_is_highest(a, pb);
        let p = pa;
        assert(pa == pb);
        let a1 = a.drop_first();
        let b1 = b.drop_first();
        assert(with_priority(a, p)[0] == a[0]);
        assert(with_priority(b, p)[0] == b[0]);
        assert(a[0] == b[0]);
        assert forall|q: u64| #[trigger] with_priority(a1, q) == with_priority(b1, q) by {
            lemma_head_with_priority(a, q);
            lemma_head_with_priority(b, q);
            assert(with_priority(a, q) == with_priority(b, q));
            if q == p {
                assert(with_priority(a1, q) =~= with_priority(a, q).drop_first());
                assert(with_priority(b1, q) =~= with_priority(b, q).drop_first());
            } else {
                assert(with_priority(a1, q) =~= with_priority(a, q));
                assert(with_priority(b1, q) =~= with_priority(b, q));
            }
        }
        lemma_sorted_same_equal(a1, b1);
        assert(a =~= b);
    }
}

/// The events of priority `x.priority` hold `x` as often as the whole
/// sequence does.
proof fn lemma_count_within_priority(s: Seq<BoxedEvent>, x: BoxedEvent)
    ensures
        s.to_multiset().count(x) == with_priority(s, x.priority).to_multiset().count(x),
    decreases s.len(),
{
    broadcast use group_to_multiset_ensures;

    if s.len() == 0 {
        reveal(Seq::filter);
        assert(with_priority(s, x.priority) =~= Seq::<BoxedEvent>::empty());
    } else {
        let init = s.drop_last();
        let y = s.last();
        assert(s =~= init.push(y));
        init.lemma_filter_push(y, priority_is(x.priority));
        lemma_count_within_priority(init, x);
    }
}

/// Consuming loses and duplicates nothing: a consumption order of `s` holds
/// exactly the events of `s`, as many times each, so it is as long as `s`.
pub proof fn lemma_consumption_keeps_events(r: Seq<BoxedEvent>, s: Seq<BoxedEvent>)
    requires
        consumption_order(r, s),
    ensures
        r.to_multiset() == s.to_multiset(),
        r.len() == s.len(),
{
    broadcast use group_to_multiset_ensures;

    assert forall|x: BoxedEvent| r.to_multiset().count(x) == s.to_multiset().count(x) by {
        lemma_count_within_priority(r, x);
        lemma_count_within_priority(s, x);
        assert(with_priority(r, x.priority) == with_priority(s, x.priority));
    }
    assert(r.to_multiset() =~= s.to_multiset());
    assert(r.len() == r.to_multiset().len());
    assert(s.len() == s.to_multiset().len());
}

/// Appending the same events to two sequences with the same events per
/// priority keeps them so.
pub proof fn lemma_append_same(a: Seq<BoxedEvent>, b: Seq<BoxedEvent>, c: Seq<BoxedEvent>)
    requires
        same_per_priority(a, b),
    ensures
        same_per_priority(a + c, b + c),
{
    assert forall|p: u64| #[trigger] with_priority(a + c, p) == with_priority(b + c, p) by {
        Seq::filter_distributes_over_add(a, c, priority_is(p));
        Seq::filter_distributes_over_add(b, c, priority_is(p));
        assert(with_priority(a, p) == with_priority(b, p));
    }
}

/// Placing `x` in front of every event of no higher priority, in a
/// consumption order of `s`, gives a consumption order of `x` followed by `s`.
proof fn lemma_insert_in_order(out: Seq<BoxedEvent>, s: Seq<BoxedEvent>, pos: int, x: BoxedEvent)
    requires
        consumption_order(out, s),
        0 <= pos <= out.len(),
        forall|i: int| 0 <= i < pos ==> out[i].priority > x.priority,
        forall|i: int| pos <= i < out.len() ==> out[i].priority <= x.priority,
    ensures
        consumption_order(out.insert(pos, x), seq![x] + s),
{
    let a = out.subrange(0, pos);
    let b = out.subrange(pos, out.len() as int);
    let n = out.insert(pos, x);
    assert(out =~= a + b);
    assert(n =~= a + (seq![x] + b));
    assert forall|p: u64| #[trigger] with_priority(n, p) == with_priority(seq![x] + s, p) by {
        let pred = priority_is(p);
        Seq::filter_distributes_over_add(a, seq![x] + b, pred);
        Seq::filter_distributes_over_add(a, b, pred);
        b.lemma_filter_prepend(x, pred);
        s.lemma_filter_prepend(x, pred);
        assert(with_priority(out, p) == with_priority(s, p));
        if p == x.priority {
            lemma_none_with_priority(a, p);
            assert(with_priority(n, p) =~= seq![x] + with_priority(b, p));
            assert(with_priority(out, p) =~= with_priority(b, p));
        } else {
            assert(with_priority(n, p) =~= with_priority(a, p) + with_priority(b, p));
        }
    }
}

/// `s` in consumption order.
pub fn sort_by_priority(v: Vec<BoxedEvent>) -> (r: Vec<BoxedEvent>)
    ensures
        consumption_order(r@, v@),
{
    let ghost s = v@;
    let mut rest = v;
    let mut out: Vec<BoxedEvent> = Vec::new();
    proof {
        assert(out@ =~= s.subrange(rest@.len() as int, s.len() as int));
    }
    while rest.len() > 0
        invariant
            rest@ == s.subrange(0, rest@.len() as int),
            rest@.len() <= s.len(),
            consumption_order(out@, s.subrange(rest@.len() as int, s.len() as int)),
        decreases rest@.len(),
    {
        let x = rest.pop().unwrap();
        let mut pos: usize = 0;
        while pos < out.len() && out[pos].priority > x.priority
            invariant
                pos <= out@.len(),
                forall|i: int| 0 <= i < pos ==> out@[i].priority > x.priority,
            decreases out@.len() - pos,
        {
            pos = pos + 1;
        }
        proof {
            let k = rest@.len() as int;
            assert(s.subrange(k, s.len() as int) =~= seq![x] + s.subrange(k + 1, s.len() as int));
            assert forall|i: int| pos <= i < out@.len() implies out@[i].priority <= x.priority by {
                if pos < out@.len() {
                    assert(out@[pos as int].priority <= x.priority);
                }
            }
            lemma_insert_in_order(out@, s.subrange(k + 1, s.len() as int), pos as int, x);
        }
        out.insert(pos, x);
    }
    proof {
        assert(s.subrange(0, s.len() as int) =~= s);
    }
    out
}

} // verus!
