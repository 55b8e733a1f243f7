//! Two FIFO queue engines behind one capability contract.
//!
//! [`bound::BoundQueue`] is a fixed-capacity circular buffer; one slot of its
//! storage is permanently reserved so that "full" and "empty" stay
//! distinguishable by index comparison alone. [`unbound::UnboundQueue`] is an
//! unbounded chain of individually stored nodes linked by slot indices.
//! Both engines implement the [`Queue`] trait, whose contracts pin down the
//! first-in-first-out behaviour of `push`, `pop` and `is_empty`.
use vstd::prelude::*;

pub mod bound;
pub mod unbound;

verus! {

/// The capability contract shared by both storage engines.
///
/// `contents()` is the abstract state: the elements currently held, oldest
/// first. `cap_limit()` is the engine's element-count limit, if it has one;
/// a push on an engine that has reached its limit silently discards the item.
pub trait Queue<T>: Sized {
    /// Structural well-formedness of the engine's internal state.
    spec fn wf(&self) -> bool;

    /// The elements currently held, oldest first.
    spec fn contents(&self) -> Seq<T>;

    /// The element-count limit, if the engine has one.
    spec fn cap_limit(&self) -> Option<nat>;

    /// Accepts ownership of `item` and appends it at the logical tail,
    /// unless the engine is at its capacity limit, in which case the item
    /// is discarded and the state is unchanged.
    fn push(&mut self, item: T)
        requires
            old(self).wf(),
        ensures
            final(self).wf(),
            final(self).cap_limit() == old(self).cap_limit(),
            final(self).contents() == (match old(self).cap_limit() {
                Some(c) => if old(self).contents().len() >= c {
                    old(self).contents()
                } else {
                    old(self).contents().push(item)
                },
                None => old(self).contents().push(item),
            }),
    ;

    /// Removes and returns the oldest element, or `None` if the queue is
    /// empty.
    fn pop(&mut self) -> (r: Option<T>)
        requires
            old(self).wf(),
        ensures
            final(self).wf(),
            final(self).cap_limit() == old(self).cap_limit(),
            old(self).contents().len() == 0 ==> r is None
                && final(self).contents() == old(self).contents(),
            old(self).contents().len() > 0 ==> r == Some(old(self).contents().first())
                && final(self).contents() == old(self).contents().drop_first(),
    ;

    /// Reports whether the queue holds no elements, without mutating it.
    fn is_empty(&self) -> (r: bool)
        requires
            self.wf(),
        ensures
            r <==> self.contents().len() == 0,
    ;
}

/// Pushes every element of `items`, oldest first, onto a queue with room
/// for them all: afterwards the queue holds its previous elements followed
/// by `items`, in order.
pub fn push_all<T, Q: Queue<T>>(q: &mut Q, items: Vec<T>)
    requires
        old(q).wf(),
        match old(q).cap_limit() {
            Some(c) => old(q).contents().len() + items@.len() <= c,
            None => true,
        },
    ensures
        final(q).wf(),
        final(q).cap_limit() == old(q).cap_limit(),
        final(q).contents() == old(q).contents() + items@,
{
    let ghost base = q.contents();
    let ghost limit0 = q.cap_limit();
    let ghost items_seq = items@;
    let mut items = items;
    let n = items.len();
    let mut i: usize = 0;
    while i < n
        invariant
            q.wf(),
            q.cap_limit() == limit0,
            i <= n,
            n == items_seq.len(),
            items@ == items_seq.skip(i as int),
            q.contents() == base + items_seq.take(i as int),
            match limit0 {
                Some(c) => base.len() + items_seq.len() <= c,
                None => true,
            },
        decreases n - i,
    {
        let item = items.remove(0);
        q.push(item);
        i += 1;
        proof {
            assert(q.contents() =~= base + items_seq.take(i as int));
            assert(items@ =~= items_seq.skip(i as int));
        }
    }
    proof {
        assert(q.contents() =~= base + items_seq);
    }
}

/// Drains the queue by popping until empty; what comes out is exactly what
/// the queue held, oldest first.
pub fn drain_all<T, Q: Queue<T>>(q: &mut Q) -> (out: Vec<T>)
    requires
        old(q).wf(),
    ensures
        final(q).wf(),
        final(q).cap_limit() == old(q).cap_limit(),
        final(q).contents().len() == 0,
        out@ == old(q).contents(),
{
    let ghost full0 = q.contents();
    let ghost limit0 = q.cap_limit();
    let mut out: Vec<T> = Vec::new();
    loop
        invariant
            q.wf(),
            q.cap_limit() == limit0,
            out@ + q.contents() == full0,
        ensures
            q.wf(),
            q.cap_limit() == limit0,
            out@ + q.contents() == full0,
            q.contents().len() == 0,
        decreases q.contents().len(),
    {
        match q.pop() {
            None => {
                break ;
            },
            Some(v) => {
                out.push(v);
                proof {
                    assert(out@ + q.contents() =~= full0);
                }
            },
        }
    }
    proof {
        assert(out@ =~= full0);
    }
    out
}

/// FIFO law: pushing the elements of `items` in order onto an empty queue
/// with room for them all, and then popping until empty, returns exactly
/// `items` in the order they were pushed — on either engine.
pub fn pushes_then_pops<T, Q: Queue<T>>(q: &mut Q, items: Vec<T>) -> (out: Vec<T>)
    requires
        old(q).wf(),
        old(q).contents().len() == 0,
        match old(q).cap_limit() {
            Some(c) => items@.len() <= c,
            None => true,
        },
    ensures
        out@ == items@,
        final(q).wf(),
        final(q).contents().len() == 0,
{
    let ghost items_seq = items@;
    push_all(q, items);
    proof {
        assert(q.contents() =~= items_seq);
    }
    drain_all(q)
}

/// Round-trip law: pushing `v` onto an empty queue that is below its
/// capacity and popping immediately yields `Some(v)` and leaves the queue
/// empty again.
pub fn push_pop_round_trip<T, Q: Queue<T>>(q: &mut Q, v: T) -> (r: Option<T>)
    requires
        old(q).wf(),
        old(q).contents().len() == 0,
        match old(q).cap_limit() {
            Some(c) => c > 0,
            None => true,
        },
    ensures
        r == Some(v),
        final(q).wf(),
        final(q).contents().len() == 0,
{
    q.push(v);
    q.pop()
}

/// Empty-after-drain law: after popping until empty, `is_empty()` reports
/// true and one further `pop()` still returns `None`.
pub fn drained_queue_is_empty<T, Q: Queue<T>>(q: &mut Q) -> (r: (Vec<T>, bool, Option<T>))
    requires
        old(q).wf(),
    ensures
        r.0@ == old(q).contents(),
        r.1 == true,
        r.2 is None,
        final(q).wf(),
        final(q).contents().len() == 0,
{
    let drained = drain_all(q);
    let empty_now = q.is_empty();
    let extra = q.pop();
    (drained, empty_now, extra)
}

} // verus!
