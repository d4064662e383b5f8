use vstd::prelude::*;

use vstd::arithmetic::div_mod::lemma_fundamental_div_mod_converse;

verus! {

/// Abstract state of an instancing session: the batches already handed to the
/// GPU (in draw order), the records waiting in the scratch buffer, and the
/// buffer's fixed capacity.
pub struct BatchState<T> {
    pub drawn: Seq<Seq<T>>,
    pub pending: Seq<T>,
    pub capacity: nat,
}

impl<T> BatchState<T> {
    /// A fresh session over an empty buffer of the given capacity.
    pub open spec fn start(capacity: nat) -> Self {
        BatchState { drawn: Seq::empty(), pending: Seq::empty(), capacity }
    }

    /// Every drawn batch is non-empty and fits the buffer; so do the pending records.
    pub open spec fn wf(self) -> bool {
        &&& self.capacity >= 1
        &&& self.pending.len() <= self.capacity
        &&& forall|i: int|
            0 <= i < self.drawn.len() ==> 1 <= #[trigger] self.drawn[i].len() <= self.capacity
    }

    /// Explicit flush: one draw call for the pending records, if there are any.
    pub open spec fn flushed(self) -> Self {
        if self.pending.len() == 0 {
            self
        } else {
            BatchState { drawn: self.drawn.push(self.pending), pending: Seq::empty(), ..self }
        }
    }

    /// Flush first when the buffer has no empty slot left.
    pub open spec fn with_room(self) -> Self {
        if self.pending.len() >= self.capacity {
            self.flushed()
        } else {
            self
        }
    }

    /// Auto-flushing append of one record.
    pub open spec fn pushed(self, x: T) -> Self {
        BatchState { pending: self.with_room().pending.push(x), ..self.with_room() }
    }

    /// Pending records discarded, nothing drawn.
    pub open spec fn cleared(self) -> Self {
        BatchState { pending: Seq::empty(), ..self }
    }

    /// Every record that went into the session so far, drawn or pending, in order.
    pub open spec fn records(self) -> Seq<T> {
        self.drawn.flatten() + self.pending
    }

    /// The state after auto-flushing appends of `recs`, one by one.
    pub open spec fn pushed_all(self, recs: Seq<T>) -> Self
        decreases recs.len(),
    {
        if recs.len() == 0 {
            self
        } else {
            self.pushed_all(recs.drop_last()).pushed(recs.last())
        }
    }
}

/// Total number of instances over a sequence of draw calls.
pub open spec fn total_instances<T>(calls: Seq<Seq<T>>) -> nat
    decreases calls.len(),
{
    if calls.len() == 0 {
        0
    } else {
        total_instances(calls.drop_last()) + calls.last().len()
    }
}

proof fn lemma_total_is_flat_len<T>(calls: Seq<Seq<T>>)
    ensures
        total_instances(calls) == calls.flatten().len(),
    decreases calls.len(),
{
    if calls.len() > 0 {
        let init = calls.drop_last();
        lemma_total_is_flat_len(init);
        assert(init.push(calls.last()) =~= calls);
        init.lemma_flatten_push(calls.last());
    }
}

/// Order is kept by every step: an append adds its record at the end of the
/// session's records (drawn batches in draw order, then the pending ones), and
/// a flush neither reorders, duplicates nor drops any of them.
pub proof fn lemma_steps_keep_order<T>(s: BatchState<T>, x: T)
    ensures
        s.pushed(x).records() == s.records().push(x),
        s.flushed().records() == s.records(),
{
    if s.pending.len() > 0 {
        s.drawn.lemma_flatten_push(s.pending);
        assert(s.flushed().records() =~= s.records());
    }
    assert(s.with_room().records() == s.records());
    assert(s.pushed(x).records() =~= s.with_room().records().push(x));
}

/// Every step keeps the state well formed.
pub proof fn lemma_steps_keep_wf<T>(s: BatchState<T>, x: T)
    requires
        s.wf(),
    ensures
        s.flushed().wf(),
        s.with_room().wf(),
        s.pushed(x).wf(),
        s.cleared().wf(),
        s.with_room().pending.len() < s.capacity,
{
    if s.pending.len() > 0 {
        let f = s.flushed();
        assert forall|i: int| 0 <= i < f.drawn.len() implies 1 <= #[trigger] f.drawn[i].len()
            <= f.capacity by {
            if i < s.drawn.len() {
                assert(f.drawn[i] == s.drawn[i]);
            }
        }
    }
}

/// Shape of a session after `recs` were appended to a fresh buffer of
/// capacity `k`: every drawn batch is full, and the pending records are the
/// non-empty remainder.
proof fn lemma_run_shape<T>(k: nat, recs: Seq<T>)
    requires
        k >= 1,
    ensures
        ({
            let s = BatchState::<T>::start(k).pushed_all(recs);
            &&& s.wf()
            &&& s.capacity == k
            &&& s.records() == recs
            &&& forall|i: int| 0 <= i < s.drawn.len() ==> #[trigger] s.drawn[i].len() == k
            &&& recs.len() == k * s.drawn.len() + s.pending.len()
            &&& recs.len() > 0 ==> s.pending.len() >= 1
        }),
    decreases recs.len(),
{
    let s0 = BatchState::<T>::start(k);
    if recs.len() == 0 {
        assert(s0.drawn.flatten() =~= Seq::<T>::empty());
        assert(s0.records() =~= recs);
    } else {
        let init = recs.drop_last();
        let x = recs.last();
        lemma_run_shape(k, init);
        let s = s0.pushed_all(init);
        let t = s.pushed(x);
        lemma_steps_keep_wf(s, x);
        lemma_steps_keep_order(s, x);
        assert(init.push(x) =~= recs);
        let d = s.drawn.len();
        if s.pending.len() >= k {
            assert(k * (d + 1) == k * d + k) by (nonlinear_arith);
            assert forall|i: int| 0 <= i < t.drawn.len() implies #[trigger] t.drawn[i].len()
                == k by {
                if i < d {
                    assert(t.drawn[i] == s.drawn[i]);
                }
            }
        }
    }
}

/// With no explicit flush in between, appending `N` records to a fresh buffer of
/// capacity `k` and ending the session makes exactly `ceil(N / k)` draw calls,
/// each of a full buffer but the last, whose instance counts add up to `N` and
/// whose records, in draw order, are the appended records in the order they
/// came.
pub proof fn lemma_auto_flush_draw_calls<T>(k: nat, recs: Seq<T>)
    requires
        k >= 1,
    ensures
        ({
            let e = BatchState::<T>::start(k).pushed_all(recs).flushed();
            &&& e.drawn.len() == (recs.len() + k - 1) / (k as int)
            &&& forall|i: int| 0 <= i < e.drawn.len() - 1 ==> #[trigger] e.drawn[i].len() == k
            &&& total_instances(e.drawn) == recs.len()
            &&& e.drawn.flatten() == recs
            &&& e.pending.len() == 0
        }),
{
    lemma_run_shape::<T>(k, recs);
    let s = BatchState::<T>::start(k).pushed_all(recs);
    let e = s.flushed();
    let n = recs.len() as int;
    let d = s.drawn.len() as int;
    let p = s.pending.len() as int;
    lemma_steps_keep_order(s, recs.last());
    if n == 0 {
        lemma_fundamental_div_mod_converse(k - 1, k as int, 0, k - 1);
        assert(e.drawn.flatten() =~= recs);
    } else {
        assert(n + k - 1 == (d + 1) * k + (p - 1)) by (nonlinear_arith)
            requires
                n == k * d + p,
        ;
        lemma_fundamental_div_mod_converse(n + k - 1, k as int, d + 1, p - 1);
        assert(e.drawn.flatten() =~= e.records());
    }
    lemma_total_is_flat_len(e.drawn);
}

/// Ending a session with pending records makes exactly one more draw call, and
/// it holds those records.
pub proof fn lemma_end_flushes_pending<T>(s: BatchState<T>)
    requires
        s.pending.len() > 0,
    ensures
        s.flushed().drawn == s.drawn.push(s.pending),
        s.flushed().drawn.len() == s.drawn.len() + 1,
        s.flushed().pending.len() == 0,
{
}

/// A flush of an empty buffer makes no draw call, and a flush right after a
/// flush makes none either.
pub proof fn lemma_empty_flush_is_noop<T>(s: BatchState<T>)
    ensures
        s.pending.len() == 0 ==> s.flushed() == s,
        s.flushed().flushed() == s.flushed(),
{
}

} // verus!
