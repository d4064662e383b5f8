use vstd::prelude::*;

use crate::batch::BatchState;

verus! {

/// One instanced draw call: `instances` are uploaded at offset 0 of the
/// instance buffer and the mesh is drawn once per record.
pub struct DrawCall<T> {
    pub instances: Vec<T>,
}

impl<T> DrawCall<T> {
    /// Number of instances that this call draws.
    pub fn count(&self) -> (r: usize)
        ensures
            r == self.instances@.len(),
    {
        self.instances.len()
    }
}

/// Host-side scratch buffer of instance records with a fixed capacity.
///
/// Slots past the fill count keep whatever an earlier batch wrote there; they
/// are reused by `pull` and never drawn.
pub struct Instancer<T> {
    slots: Vec<T>,
    fill: usize,
    cap: usize,
}

impl<T> Instancer<T> {
    /// The capacity is at least one, and the fill count and the written slots
    /// stay within it.
    pub closed spec fn wf(&self) -> bool {
        &&& 1 <= self.cap
        &&& self.fill <= self.slots@.len() <= self.cap
    }

    /// The records written since the last flush or clear.
    pub closed spec fn pending(&self) -> Seq<T> {
        self.slots@.subrange(0, self.fill as int)
    }

    /// Number of records that the buffer holds when full.
    pub closed spec fn spec_capacity(&self) -> nat {
        self.cap as nat
    }

    /// Creates an instancer whose buffer holds `size` records.
    pub fn new(size: usize) -> (r: Self)
        requires
            size >= 1,
        ensures
            r.wf(),
            r.spec_capacity() == size,
            r.pending() == Seq::<T>::empty(),
    {
        let r = Instancer { slots: Vec::with_capacity(size), fill: 0, cap: size };
        assert(r.pending() =~= Seq::<T>::empty());
        r
    }

    /// Number of records waiting in the buffer.
    pub fn fill_count(&self) -> (r: usize)
        requires
            self.wf(),
        ensures
            r == self.pending().len(),
    {
        self.fill
    }

    /// Number of records that still fit before the buffer is full.
    pub fn empty_count(&self) -> (r: usize)
        requires
            self.wf(),
        ensures
            r == self.spec_capacity() - self.pending().len(),
    {
        self.cap - self.fill
    }

    /// Number of records that the buffer holds when full.
    pub fn capacity(&self) -> (r: usize)
        ensures
            r == self.spec_capacity(),
    {
        self.cap
    }

    /// Discards the pending records.
    fn clear(&mut self)
        requires
            old(self).wf(),
        ensures
            final(self).wf(),
            final(self).spec_capacity() == old(self).spec_capacity(),
            final(self).pending() == Seq::<T>::empty(),
    {
        self.fill = 0;
        assert(self.pending() =~= Seq::<T>::empty());
    }
}

impl<T: Copy> Instancer<T> {
    /// Copies the pending records out as one draw call and empties the buffer.
    fn take_batch(&mut self) -> (r: DrawCall<T>)
        requires
            old(self).wf(),
        ensures
            final(self).wf(),
            final(self).spec_capacity() == old(self).spec_capacity(),
            final(self).pending() == Seq::<T>::empty(),
            r.instances@ == old(self).pending(),
    {
        let mut out: Vec<T> = Vec::with_capacity(self.fill);
        let mut i: usize = 0;
        while i < self.fill
            invariant
                self.wf(),
                i <= self.fill,
                out@ == self.slots@.subrange(0, i as int),
            decreases self.fill - i,
        {
            let x: T = self.slots[i];
            out.push(x);
            i = i + 1;
        }
        self.clear();
        DrawCall { instances: out }
    }

    /// Appends a record; the buffer must have an empty slot.
    fn push_record(&mut self, obj: T)
        requires
            old(self).wf(),
            old(self).pending().len() < old(self).spec_capacity(),
        ensures
            final(self).wf(),
            final(self).spec_capacity() == old(self).spec_capacity(),
            final(self).pending() == old(self).pending().push(obj),
    {
        if self.fill < self.slots.len() {
            self.slots.set(self.fill, obj);
        } else {
            self.slots.push(obj);
        }
        self.fill = self.fill + 1;
        assert(self.pending() =~= old(self).pending().push(obj));
    }
}

impl<T: Copy + Default> Instancer<T> {
    /// Hands out the next slot for the caller to fill in. A slot that an earlier
    /// batch used keeps its old contents; a slot never used before starts as
    /// `T::default()`.
    fn next_slot(&mut self) -> (r: &mut T)
        requires
            old(self).wf(),
            old(self).pending().len() < old(self).spec_capacity(),
        ensures
            final(self).wf(),
            final(self).spec_capacity() == old(self).spec_capacity(),
            final(self).pending() == old(self).pending().push(*final(r)),
    {
        if self.fill == self.slots.len() {
            let d = T::default();
            self.slots.push(d);
        }
        let i = self.fill;
        self.fill = i + 1;
        let ghost s = self.slots@;
        assert forall|x: T| #[trigger] s.update(i as int, x).subrange(0, i + 1) =~= s.subrange(
            0,
            i as int,
        ).push(x) by {}
        assert(s.subrange(0, i as int) =~= old(self).pending());
        &mut self.slots[i]
    }
}

impl<T> Instancer<T> {
    /// Starts a batch on `mesh`: the buffer is cleared and the instancer moves
    /// into the session, which hands it back when it ends.
    pub fn bind<'a, M>(self, mesh: &'a M) -> (r: BoundInstancer<'a, T, M>)
        requires
            self.wf(),
        ensures
            r.wf(),
            r@ == BatchState::<T>::start(self.spec_capacity()),
            r.spec_mesh() == mesh,
    {
        let mut base = self;
        base.clear();
        let r = BoundInstancer { base, mesh, calls: Vec::new() };
        assert(r@.drawn =~= Seq::<Seq<T>>::empty());
        r
    }
}

/// An instancer bound to one mesh for one batch of draw calls.
///
/// Records go in through `push`, `pull` and `pull_default`; whenever the buffer
/// is full the pending records become one draw call before the new record is
/// written. The draw calls made so far wait in the session, in order, until
/// `take_calls` or `end` hands them out.
pub struct BoundInstancer<'a, T, M> {
    base: Instancer<T>,
    mesh: &'a M,
    calls: Vec<DrawCall<T>>,
}

impl<'a, T, M> View for BoundInstancer<'a, T, M> {
    type V = BatchState<T>;

    closed spec fn view(&self) -> BatchState<T> {
        BatchState {
            drawn: self.calls@.map_values(|c: DrawCall<T>| c.instances@),
            pending: self.base.pending(),
            capacity: self.base.spec_capacity(),
        }
    }
}

impl<'a, T, M> BoundInstancer<'a, T, M> {
    /// The buffer and the session's abstract state are both well formed.
    pub closed spec fn wf(&self) -> bool {
        &&& self.base.wf()
        &&& self@.wf()
    }

    /// The mesh that the session was bound to.
    pub closed spec fn spec_mesh(&self) -> &'a M {
        self.mesh
    }

    /// The mesh that every draw call of this session draws.
    pub fn mesh(&self) -> (r: &'a M)
        ensures
            r == self.spec_mesh(),
    {
        self.mesh
    }

    /// Number of records waiting in the buffer.
    pub fn fill_count(&self) -> (r: usize)
        requires
            self.wf(),
        ensures
            r == self@.pending.len(),
    {
        self.base.fill_count()
    }

    /// Number of records that still fit before the next automatic flush.
    pub fn empty_count(&self) -> (r: usize)
        requires
            self.wf(),
        ensures
            r == self@.capacity - self@.pending.len(),
    {
        self.base.empty_count()
    }

    /// Discards the pending records without drawing them.
    pub fn clear(&mut self)
        requires
            old(self).wf(),
        ensures
            final(self).wf(),
            final(self)@ == old(self)@.cleared(),
            final(self).spec_mesh() == old(self).spec_mesh(),
    {
        self.base.clear();
        assert(self@ =~= old(self)@.cleared());
    }

    /// Hands out the draw calls made so far, oldest first, and forgets them.
    pub fn take_calls(&mut self) -> (r: Vec<DrawCall<T>>)
        requires
            old(self).wf(),
        ensures
            final(self).wf(),
            r@.map_values(|c: DrawCall<T>| c.instances@) == old(self)@.drawn,
            final(self)@ == (BatchState { drawn: Seq::empty(), ..old(self)@ }),
            final(self).spec_mesh() == old(self).spec_mesh(),
    {
        let mut r: Vec<DrawCall<T>> = Vec::new();
        std::mem::swap(&mut r, &mut self.calls);
        assert(self@.drawn =~= Seq::<Seq<T>>::empty());
        r
    }
}

impl<'a, T: Copy, M> BoundInstancer<'a, T, M> {
    /// Flushes the pending records as one draw call; does nothing when there
    /// are none.
    pub fn draw(&mut self)
        requires
            old(self).wf(),
        ensures
            final(self).wf(),
            final(self)@ == old(self)@.flushed(),
            final(self).spec_mesh() == old(self).spec_mesh(),
    {
        if self.base.fill_count() > 0 {
            let call = self.base.take_batch();
            self.calls.push(call);
            assert(self@.drawn =~= old(self)@.drawn.push(old(self)@.pending));
            assert(self@.pending =~= Seq::<T>::empty());
        }
    }

    /// Flushes first if the buffer has no empty slot.
    fn make_room(&mut self)
        requires
            old(self).wf(),
        ensures
            final(self).wf(),
            final(self)@ == old(self)@.with_room(),
            final(self)@.pending.len() < final(self)@.capacity,
            final(self).spec_mesh() == old(self).spec_mesh(),
    {
        if self.base.empty_count() == 0 {
            self.draw();
        }
    }

    /// Appends a record, drawing the full buffer first if needed.
    pub fn push(&mut self, obj: T)
        requires
            old(self).wf(),
        ensures
            final(self).wf(),
            final(self)@ == old(self)@.pushed(obj),
            final(self).spec_mesh() == old(self).spec_mesh(),
    {
        self.make_room();
        self.base.push_record(obj);
    }

    /// Ends the session: pending records are drawn, and the instancer comes
    /// back with every draw call not yet taken, oldest first.
    pub fn end(self) -> (r: (Instancer<T>, Vec<DrawCall<T>>))
        requires
            self.wf(),
        ensures
            r.0.wf(),
            r.0.pending() == Seq::<T>::empty(),
            r.0.spec_capacity() == self@.capacity,
            r.1@.map_values(|c: DrawCall<T>| c.instances@) == self@.flushed().drawn,
    {
        let mut s = self;
        s.draw();
        (s.base, s.calls)
    }
}

impl<'a, T: Copy + Default, M> BoundInstancer<'a, T, M> {
    /// Appends a record for the caller to fill in, drawing the full buffer first
    /// if needed. Its initial contents are unspecified; the record that counts
    /// is the one the caller leaves behind.
    pub fn pull(&mut self) -> (r: &mut T)
        requires
            old(self).wf(),
        ensures
            final(self).wf(),
            final(self)@ == old(self)@.pushed(*final(r)),
            final(self).spec_mesh() == old(self).spec_mesh(),
    {
        self.make_room();
        self.base.next_slot()
    }

    /// As `pull`, with the record set to `T::default()`.
    pub fn pull_default(&mut self) -> (r: &mut T)
        requires
            old(self).wf(),
        ensures
            call_ensures(T::default, (), *r),
            final(self).wf(),
            final(self)@ == old(self)@.pushed(*final(r)),
            final(self).spec_mesh() == old(self).spec_mesh(),
    {
        let r = self.pull();
        *r = T::default();
        r
    }
}

} // verus!
