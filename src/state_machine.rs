use vstd::prelude::*;

use std::marker::PhantomData;

verus! {

/// What the top state asks of the machine at the end of a frame.
pub enum Transition<S> {
    /// Stop the top state and resume the one below it.
    Pop,
    /// Pause the top state and start a new one above it.
    Push(S),
    /// Stop the top state and start a new one in its place.
    Switch(S),
}

/// A state of the machine, written by the application. `I` is the data that
/// every callback may read, `E` the events handed to the top state.
pub trait State<I, E>: Sized {
    fn on_start(&mut self, _immut_data: &I) {
    }

    fn on_stop(&mut self, _immut_data: &I) {
    }

    fn on_pause(&mut self, _immut_data: &I) {
    }

    fn on_resume(&mut self, _immut_data: &I) {
    }

    fn handle_event(&mut self, _immut_data: &I, _ev: &E) {
    }

    fn frame(&mut self, _immut_data: &I) -> Option<Transition<Self>> {
        None
    }

    fn fixed_frame(&mut self, _immut_data: &I) {
    }

    fn frame_hidden(&mut self, _immut_data: &I) {
    }

    fn fixed_frame_hidden(&mut self, _immut_data: &I) {
    }
}

/// Number of states on the stack after `t` is carried out on a stack of `n`.
pub open spec fn depth_after<S>(t: Option<Transition<S>>, n: nat) -> nat {
    match t {
        Some(Transition::Pop) => (n - 1) as nat,
        Some(Transition::Push(_)) => n + 1,
        _ => n,
    }
}

/// Number of states at the bottom of a stack of `n` that carrying out `t`
/// leaves untouched.
pub open spec fn kept_below<S>(t: Option<Transition<S>>, n: nat) -> int {
    match t {
        Some(Transition::Pop) => n - 2,
        Some(_) => n - 1,
        None => n as int,
    }
}

/// A stack of states. Only the top state runs frames and receives events;
/// the ones below it run their hidden callbacks. The stack never becomes
/// empty, and only the states themselves change it, through the transition
/// that the top state returns from `frame`.
pub struct StateMachine<I, E, S> {
    states: Vec<S>,
    transition: Option<Transition<S>>,
    _data: PhantomData<(I, E)>,
}

impl<I, E, S: State<I, E>> StateMachine<I, E, S> {
    /// The stack, bottom first.
    pub closed spec fn stack(&self) -> Seq<S> {
        self.states@
    }

    /// The transition waiting to be carried out, if any.
    pub closed spec fn pending(&self) -> Option<Transition<S>> {
        self.transition
    }

    pub open spec fn wf(&self) -> bool {
        self.stack().len() >= 1
    }

    /// A machine whose stack holds `initial_state` alone.
    pub fn new(initial_state: S) -> (r: Self)
        ensures
            r.wf(),
            r.stack() == seq![initial_state],
            r.pending().is_none(),
    {
        let mut states: Vec<S> = Vec::new();
        states.push(initial_state);
        let r = StateMachine { states, transition: None, _data: PhantomData };
        assert(r.stack() =~= seq![initial_state]);
        r
    }

    /// Number of states on the stack.
    pub fn depth(&self) -> (r: usize)
        ensures
            r == self.stack().len(),
    {
        self.states.len()
    }

    /// Whether a transition waits to be carried out.
    pub fn has_transition(&self) -> (r: bool)
        ensures
            r == self.pending().is_some(),
    {
        self.transition.is_some()
    }

    /// Runs the top state's `on_start`.
    pub fn start(&mut self, immut_data: &I)
        requires
            old(self).wf(),
        ensures
            final(self).stack().len() == old(self).stack().len(),
            final(self).stack().drop_last() == old(self).stack().drop_last(),
            final(self).pending() == old(self).pending(),
    {
        let n = self.states.len() - 1;
        self.states[n].on_start(immut_data);
        assert(self.stack().drop_last() =~= old(self).stack().drop_last());
    }

    /// Hands `ev` to the top state.
    pub fn handle_event(&mut self, immut_data: &I, ev: &E)
        requires
            old(self).wf(),
        ensures
            final(self).stack().len() == old(self).stack().len(),
            final(self).stack().drop_last() == old(self).stack().drop_last(),
            final(self).pending() == old(self).pending(),
    {
        let n = self.states.len() - 1;
        self.states[n].handle_event(immut_data, ev);
        assert(self.stack().drop_last() =~= old(self).stack().drop_last());
    }

    /// Runs `frame_hidden` on every state below the top, bottom first, then
    /// `frame` on the top state, whose answer becomes the pending transition.
    pub fn frame(&mut self, immut_data: &I)
        requires
            old(self).wf(),
        ensures
            final(self).stack().len() == old(self).stack().len(),
    {
        let n = self.states.len() - 1;
        let mut i: usize = 0;
        while i < n
            invariant
                n + 1 == self.states@.len(),
                i <= n,
            decreases n - i,
        {
            self.states[i].frame_hidden(immut_data);
            i = i + 1;
        }
        self.transition = self.states[n].frame(immut_data);
    }

    /// Runs `fixed_frame_hidden` on every state below the top, bottom first,
    /// then `fixed_frame` on the top state.
    pub fn fixed_frame(&mut self, immut_data: &I)
        requires
            old(self).wf(),
        ensures
            final(self).stack().len() == old(self).stack().len(),
            final(self).pending() == old(self).pending(),
    {
        let n = self.states.len() - 1;
        let mut i: usize = 0;
        while i < n
            invariant
                n + 1 == self.states@.len(),
                i <= n,
                self.transition == old(self).transition,
            decreases n - i,
        {
            self.states[i].fixed_frame_hidden(immut_data);
            i = i + 1;
        }
        self.states[n].fixed_frame(immut_data);
    }

    /// Carries out the pending transition, if any, and clears it. Popping the
    /// last state is not allowed.
    pub fn maybe_do_transition(&mut self, immut_data: &I)
        requires
            old(self).wf(),
            old(self).pending() is Some && old(self).pending()->0 is Pop ==> old(
                self,
            ).stack().len() >= 2,
        ensures
            final(self).wf(),
            final(self).pending().is_none(),
            final(self).stack().len() == depth_after(old(self).pending(), old(self).stack().len()),
            final(self).stack().subrange(0, kept_below(old(self).pending(), old(self).stack().len()))
                == old(self).stack().subrange(
                0,
                kept_below(old(self).pending(), old(self).stack().len()),
            ),
    {
        let tr = self.transition.take();
        match tr {
            Some(Transition::Pop) => self.pop(immut_data),
            Some(Transition::Push(st)) => self.push(st, immut_data),
            Some(Transition::Switch(st)) => self.switch(st, immut_data),
            None => {
                assert(self.stack().subrange(0, self.stack().len() as int) =~= self.stack());
            },
        }
    }

    /// Stops and removes the top state, then resumes the new top.
    fn pop(&mut self, immut_data: &I)
        requires
            old(self).stack().len() >= 2,
        ensures
            final(self).stack().len() == old(self).stack().len() - 1,
            final(self).stack().subrange(0, old(self).stack().len() - 2) == old(
                self,
            ).stack().subrange(0, old(self).stack().len() - 2),
            final(self).pending() == old(self).pending(),
    {
        match self.states.pop() {
            Some(mut prev) => prev.on_stop(immut_data),
            None => {},
        }
        let n = self.states.len() - 1;
        self.states[n].on_resume(immut_data);
        assert(self.stack().subrange(0, n as int) =~= old(self).stack().subrange(0, n as int));
    }

    /// Pauses the top state, then starts `next` and puts it on top.
    fn push(&mut self, next: S, immut_data: &I)
        requires
            old(self).wf(),
        ensures
            final(self).stack().len() == old(self).stack().len() + 1,
            final(self).stack().subrange(0, old(self).stack().len() - 1) == old(
                self,
            ).stack().subrange(0, old(self).stack().len() - 1),
            final(self).pending() == old(self).pending(),
    {
        let n = self.states.len() - 1;
        self.states[n].on_pause(immut_data);
        let mut next = next;
        next.on_start(immut_data);
        self.states.push(next);
        assert(self.stack().subrange(0, n as int) =~= old(self).stack().subrange(0, n as int));
    }

    /// Stops and removes the top state, then starts `next` in its place.
    fn switch(&mut self, next: S, immut_data: &I)
        requires
            old(self).wf(),
        ensures
            final(self).stack().len() == old(self).stack().len(),
            final(self).stack().drop_last() == old(self).stack().drop_last(),
            final(self).pending() == old(self).pending(),
    {
        match self.states.pop() {
            Some(mut prev) => prev.on_stop(immut_data),
            None => {},
        }
        let mut next = next;
        next.on_start(immut_data);
        self.states.push(next);
        assert(self.stack().drop_last() =~= old(self).stack().drop_last());
    }
}

} // verus!
