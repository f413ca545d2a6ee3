//! The multi-worker scheduler: per-worker ready and parked queues, a
//! routine-id registry, and the park/unpark race tiebreaker.
//!
//! [`Scheduler`] is the decision core of the runtime. Each worker thread of
//! the unverified shell is bound to one [`Context`]; it repeatedly asks
//! [`Scheduler::worker_poll`] what to do, performs the outside action
//! (resume a coroutine stack, sleep on the context's condition variable, or
//! exit), and reports the outcome back through [`Scheduler::dispatch`].
//!
//! The central invariant, [`Scheduler::wf`], pins down that every queued id
//! names a registered routine pinned to that very context, that a routine
//! occupies at most one queue slot anywhere, and that queue membership
//! agrees with the routine's lifecycle state.

use vstd::prelude::*;

use crate::routine::{valid_transition, Routine, RoutineState};

verus! {

/// No id occurs twice in the sequence.
pub open spec fn nodup(s: Seq<u64>) -> bool {
    forall|k1: int, k2: int| 0 <= k1 < k2 < s.len() ==> s[k1] != s[k2]
}

/// The context a spawned routine is pinned to: the requested one, or
/// `id % N` when the caller asked for none (the sentinel `usize::MAX`).
pub open spec fn spawn_context(id: u64, requested: usize, n: int) -> int {
    if requested == usize::MAX {
        ((id as usize) as int) % n
    } else {
        requested as int
    }
}

/// No id occurs in both sequences.
pub open spec fn disjoint(a: Seq<u64>, b: Seq<u64>) -> bool {
    forall|k1: int, k2: int| 0 <= k1 < a.len() && 0 <= k2 < b.len() ==> a[k1] != b[k2]
}

/// The exact effect of [`Scheduler::suspend`]: the routine ends parked with
/// the latch clear — on the ready FIFO when a resume had raced in
/// (`requeued`), on the suspended queue otherwise.
pub open spec fn suspend_post(pre: Scheduler, post: Scheduler, id: u64, requeued: bool) -> bool {
    let c = pre.routine_of(id).context_id as int;
    let updated = Routine {
        state: RoutineState::Suspended,
        is_pending_resume: false,
        ..pre.routine_of(id)
    };
    &&& post.routines@ == pre.routines@.update(pre.index_of(id), updated)
    &&& post.next_id == pre.next_id
    &&& post.contexts.len() == pre.contexts.len()
    &&& forall|c2: int|
        0 <= c2 < pre.contexts.len() && c2 != c ==> post.contexts[c2] == pre.contexts[c2]
    &&& requeued == pre.routine_of(id).is_pending_resume
    &&& post.contexts[c].is_running == pre.contexts[c].is_running
    &&& if requeued {
        &&& post.contexts[c].pending_routines@ == pre.contexts[c].pending_routines@.push(id)
        &&& post.contexts[c].suspended_routines@ == pre.contexts[c].suspended_routines@
    } else {
        &&& post.contexts[c].pending_routines@ == pre.contexts[c].pending_routines@
        &&& post.contexts[c].suspended_routines@ == pre.contexts[c].suspended_routines@.push(id)
    }
}

/// The exact effect of [`Scheduler::resume`]: a parked routine moves from
/// its context's suspended queue to the ready FIFO (`woken`); one that has
/// not finished parking gets its pending-resume latch set instead.
pub open spec fn resume_post(pre: Scheduler, post: Scheduler, id: u64, woken: bool) -> bool {
    let c = pre.routine_of(id).context_id as int;
    &&& woken == pre.contexts[c].suspended_routines@.contains(id)
    &&& post.next_id == pre.next_id
    &&& post.contexts.len() == pre.contexts.len()
    &&& forall|c2: int|
        0 <= c2 < pre.contexts.len() && c2 != c ==> post.contexts[c2] == pre.contexts[c2]
    &&& if woken {
        &&& post.routines == pre.routines
        &&& post.contexts[c].pending_routines@ == pre.contexts[c].pending_routines@.push(id)
        &&& post.contexts[c].suspended_routines@ == pre.contexts[c].suspended_routines@.remove(
            pre.contexts[c].suspended_routines@.index_of(id),
        )
        &&& !post.contexts[c].suspended_routines@.contains(id)
        &&& post.contexts[c].is_running == pre.contexts[c].is_running
    } else {
        &&& post.routines@ == pre.routines@.update(
            pre.index_of(id),
            (Routine { is_pending_resume: true, ..pre.routine_of(id) }),
        )
        &&& post.contexts[c] == pre.contexts[c]
    }
}

/// The exact effect of [`Scheduler::wait`]: when the target is still
/// registered, the promise is appended to its completion list; when it has
/// already terminated and left the registry, nothing changes.
pub open spec fn wait_post(
    pre: Scheduler,
    post: Scheduler,
    id: u64,
    promise_id: u64,
    found: bool,
) -> bool {
    &&& found == pre.registered(id)
    &&& post.contexts == pre.contexts
    &&& post.next_id == pre.next_id
    &&& if found {
        &&& post.routines@ == pre.routines@.update(
            pre.index_of(id),
            (Routine {
                wait_promises: post.routine_of(id).wait_promises,
                ..pre.routine_of(id)
            }),
        )
        &&& post.routine_of(id).wait_promises@ == pre.routine_of(id).wait_promises@.push(
            promise_id,
        )
    } else {
        post.routines == pre.routines
    }
}

/// What a worker is told to do next: resume a ready routine, sleep on the
/// context's condition variable until more work arrives, or exit because
/// shutdown was requested and the context is drained.
#[derive(Clone, Copy, Debug, PartialEq, Eq, Structural)]
pub enum WorkerAction {
    Run(u64),
    Sleep,
    Exit,
}

/// What became of a routine a worker just advanced: it terminated and its
/// completion promises must now be resolved; it parked; or it is back on
/// the ready FIFO (with whether the context's condition variable must be
/// signalled).
#[derive(Debug)]
pub enum DispatchOutcome {
    Destroyed(Vec<u64>),
    Parked,
    Requeued(bool),
}

/// One worker's share of the scheduler: a shutdown flag, the FIFO of ready
/// routines and the set (kept in park order) of parked routines. The
/// condition variable the worker sleeps on belongs to the unverified shell.
pub struct Context {
    /// Cleared when shutdown is requested.
    pub is_running: bool,
    /// Ids of routines ready to run on this worker, in FIFO order.
    pub pending_routines: Vec<u64>,
    /// Ids of routines parked on this worker.
    pub suspended_routines: Vec<u64>,
}

impl Context {
    /// A fresh, running context with empty queues.
    pub fn new() -> (c: Context)
        ensures
            c.is_running,
            c.pending_routines@ == Seq::<u64>::empty(),
            c.suspended_routines@ == Seq::<u64>::empty(),
    {
        Context {
            is_running: true,
            pending_routines: Vec::new(),
            suspended_routines: Vec::new(),
        }
    }
}

/// The scheduler state: `N` contexts, the registry of live scheduled
/// routines, and the monotonic id counter (starting at 1, never reused).
pub struct Scheduler {
    /// One entry per worker thread.
    pub contexts: Vec<Context>,
    /// The registry: every live scheduled routine, each id unique.
    pub routines: Vec<Routine>,
    /// The next id `spawn` hands out; above every registered id.
    pub next_id: u64,
}

impl Scheduler {
    /// The registry holds a routine with this id.
    pub open spec fn registered(self, id: u64) -> bool {
        exists|i: int| 0 <= i < self.routines.len() && self.routines[i].id == id
    }

    /// The registry index of the routine with this id (meaningful only
    /// when `registered(id)` holds and ids are unique).
    pub open spec fn index_of(self, id: u64) -> int {
        choose|i: int| 0 <= i < self.routines.len() && self.routines[i].id == id
    }

    /// The registered routine with this id.
    pub open spec fn routine_of(self, id: u64) -> Routine {
        self.routines[self.index_of(id)]
    }

    /// The id sits in no context's ready or parked queue.
    pub open spec fn not_queued(self, id: u64) -> bool {
        forall|c: int| 0 <= c < self.contexts.len() ==> {
            &&& !self.contexts[c].pending_routines@.contains(id)
            &&& !self.contexts[c].suspended_routines@.contains(id)
        }
    }

    /// Distinct registry entries carry distinct ids.
    pub open spec fn ids_unique(self) -> bool {
        forall|i: int, j: int|
            0 <= i < j < self.routines.len() ==> self.routines[i].id != self.routines[j].id
    }

    /// Every registered id is below the counter, so a fresh id collides
    /// with nothing.
    pub open spec fn ids_below_next(self) -> bool {
        forall|i: int| 0 <= i < self.routines.len() ==> self.routines[i].id < self.next_id
    }

    /// Every routine is pinned to an existing context.
    pub open spec fn affinities_valid(self) -> bool {
        forall|i: int|
            0 <= i < self.routines.len() ==> self.routines[i].context_id < self.contexts.len()
    }

    /// A ready-queue slot is sound: the id is registered, the routine is
    /// pinned to this very context, and its state lets a worker advance it
    /// (never `Complete`, never the unobserved `PendingSuspend`).
    pub open spec fn pending_entry_ok(self, c: int, id: u64) -> bool {
        &&& self.registered(id)
        &&& self.routine_of(id).context_id == c
        &&& self.routine_of(id).state != RoutineState::Complete
        &&& self.routine_of(id).state != RoutineState::PendingSuspend
    }

    /// A parked-queue slot is sound: registered, pinned here, and parked.
    pub open spec fn suspended_entry_ok(self, c: int, id: u64) -> bool {
        &&& self.registered(id)
        &&& self.routine_of(id).context_id == c
        &&& self.routine_of(id).state == RoutineState::Suspended
    }

    /// Every queue slot of every context is sound.
    pub open spec fn queues_wf(self) -> bool {
        &&& forall|c: int, k: int|
            0 <= c < self.contexts.len() && 0 <= k < self.contexts[c].pending_routines@.len()
                ==> self.pending_entry_ok(c, #[trigger] self.contexts[c].pending_routines@[k])
        &&& forall|c: int, k: int|
            0 <= c < self.contexts.len() && 0 <= k < self.contexts[c].suspended_routines@.len()
                ==> self.suspended_entry_ok(c, #[trigger] self.contexts[c].suspended_routines@[k])
    }

    /// Within each context, no id is queued twice: the ready FIFO and the
    /// parked queue are duplicate-free and disjoint.
    pub open spec fn queues_nodup(self) -> bool {
        forall|c: int| 0 <= c < self.contexts.len() ==> {
            &&& nodup(#[trigger] self.contexts[c].pending_routines@)
            &&& nodup(self.contexts[c].suspended_routines@)
            &&& disjoint(self.contexts[c].pending_routines@, self.contexts[c].suspended_routines@)
        }
    }

    /// Well-formedness: established by [`Scheduler::new`] and preserved by
    /// every operation. Together with affinity soundness, the per-context
    /// duplicate freedom makes a routine occupy at most one queue slot
    /// across the whole scheduler (see [`lemma_queued_at_most_once`]).
    pub open spec fn wf(self) -> bool {
        &&& 1 <= self.contexts.len()
        &&& 1 <= self.next_id
        &&& self.ids_unique()
        &&& self.ids_below_next()
        &&& self.affinities_valid()
        &&& self.queues_wf()
        &&& self.queues_nodup()
    }

    /// A scheduler for `thread_count` workers: all contexts running and
    /// empty, no routine registered, ids starting at 1.
    pub fn new(thread_count: usize) -> (s: Scheduler)
        requires
            1 <= thread_count,
        ensures
            s.wf(),
            s.contexts.len() == thread_count,
            s.routines@ == Seq::<Routine>::empty(),
            s.next_id == 1,
            forall|c: int| 0 <= c < thread_count ==> {
                &&& (#[trigger] s.contexts[c]).is_running
                &&& s.contexts[c].pending_routines@ == Seq::<u64>::empty()
                &&& s.contexts[c].suspended_routines@ == Seq::<u64>::empty()
            },
    {
        let mut contexts: Vec<Context> = Vec::new();
        let mut i: usize = 0;
        while i < thread_count
            invariant
                i <= thread_count,
                contexts.len() == i,
                forall|c: int| 0 <= c < i ==> {
                    &&& (#[trigger] contexts[c]).is_running
                    &&& contexts[c].pending_routines@ == Seq::<u64>::empty()
                    &&& contexts[c].suspended_routines@ == Seq::<u64>::empty()
                },
            decreases thread_count - i,
        {
            contexts.push(Context::new());
            i = i + 1;
        }
        Scheduler { contexts, routines: Vec::new(), next_id: 1 }
    }

    /// How many workers the scheduler drives.
    pub fn thread_count(&self) -> (r: usize)
        ensures
            r == self.contexts.len(),
    {
        self.contexts.len()
    }

    /// Whether this context's ready FIFO is non-empty.
    pub fn has_pending_routines(&self, context_id: usize) -> (r: bool)
        requires
            context_id < self.contexts.len(),
        ensures
            r == (self.contexts[context_id as int].pending_routines@.len() > 0),
    {
        self.contexts[context_id].pending_routines.len() > 0
    }

    /// Registry lookup: the index of the routine with this id.
    fn find_routine(&self, id: u64) -> (r: Option<usize>)
        ensures
            match r {
                Some(i) => i < self.routines.len() && self.routines[i as int].id == id,
                None => !self.registered(id),
            },
    {
        let mut i: usize = 0;
        while i < self.routines.len()
            invariant
                i <= self.routines.len(),
                forall|j: int| 0 <= j < i ==> self.routines[j].id != id,
            decreases self.routines.len() - i,
        {
            if self.routines[i].id() == id {
                return Some(i);
            }
            i = i + 1;
        }
        None
    }

    /// Whether a routine with this id is still registered (it is removed
    /// when it terminates).
    pub fn is_registered(&self, id: u64) -> (r: bool)
        ensures
            r == self.registered(id),
    {
        self.find_routine(id).is_some()
    }

    /// The state of the registered routine with this id, or `None` when it
    /// has already terminated and left the registry.
    pub fn routine_state(&self, id: u64) -> (r: Option<RoutineState>)
        requires
            self.ids_unique(),
        ensures
            match r {
                Some(state) => self.registered(id) && state == self.routine_of(id).state,
                None => !self.registered(id),
            },
    {
        match self.find_routine(id) {
            Some(i) => {
                proof {
                    self.lemma_index_of(i as int);
                }
                Some(self.routines[i].state())
            },
            None => None,
        }
    }

    /// Registry lookups depend only on the registry: schedulers holding the
    /// same routines agree on them.
    pub proof fn lemma_same_routines_lookup(self, other: Scheduler)
        requires
            self.ids_unique(),
            self.routines == other.routines,
        ensures
            other.ids_unique(),
            forall|id: u64| #[trigger] other.registered(id) <==> self.registered(id),
            forall|id: u64|
                self.registered(id) ==> #[trigger] other.index_of(id) == self.index_of(id),
            forall|id: u64|
                self.registered(id) ==> #[trigger] other.routine_of(id) == self.routine_of(id),
    {
        assert forall|i: int, j: int| 0 <= i < j < other.routines.len() implies other.routines[i].id
            != other.routines[j].id by {
            assert(self.routines[i].id != self.routines[j].id);
        }
        assert forall|id: u64| #[trigger] other.registered(id) <==> self.registered(id) by {
            if self.registered(id) {
                let k = self.index_of(id);
                assert(0 <= k < self.routines.len() && self.routines[k].id == id);
                assert(other.routines[k].id == id);
            }
            if other.registered(id) {
                let k = choose|k: int|
                    0 <= k < other.routines.len() && other.routines[k].id == id;
                assert(self.routines[k].id == id);
            }
        }
        assert forall|id: u64| self.registered(id) implies #[trigger] other.index_of(id)
            == self.index_of(id) && other.routine_of(id) == self.routine_of(id) by {
            let k = self.index_of(id);
            assert(0 <= k < self.routines.len() && self.routines[k].id == id);
            self.lemma_index_of(k);
            assert(other.routines[k].id == id);
            other.lemma_index_of(k);
        }
    }

    /// Updating one registry entry in place, keeping its id, moves no other
    /// entry: every lookup is preserved.
    pub proof fn lemma_lookup_after_update(self, post: Scheduler, i: int)
        requires
            self.ids_unique(),
            0 <= i < self.routines.len(),
            post.routines@ == self.routines@.update(i, post.routines[i]),
            post.routines[i].id == self.routines[i].id,
        ensures
            post.ids_unique(),
            post.routines.len() == self.routines.len(),
            forall|id: u64| #[trigger] post.registered(id) <==> self.registered(id),
            forall|id: u64|
                self.registered(id) ==> #[trigger] post.index_of(id) == self.index_of(id),
            forall|id: u64|
                self.registered(id) && id != self.routines[i].id
                    ==> #[trigger] post.routine_of(id) == self.routine_of(id),
            post.index_of(self.routines[i].id) == i,
            post.routine_of(self.routines[i].id) == post.routines[i],
    {
        assert forall|id: u64| #[trigger] post.registered(id) <==> self.registered(id) by {
            if self.registered(id) {
                let k = choose|k: int|
                    0 <= k < self.routines.len() && self.routines[k].id == id;
                assert(post.routines[k].id == id);
            }
            if post.registered(id) {
                let k = choose|k: int|
                    0 <= k < post.routines.len() && post.routines[k].id == id;
                assert(self.routines[k].id == id);
            }
        }
        assert forall|id: u64| self.registered(id) implies #[trigger] post.index_of(id)
            == self.index_of(id) by {
            let k = self.index_of(id);
            assert(0 <= k < self.routines.len() && self.routines[k].id == id);
            assert(post.routines[k].id == id);
            post.lemma_index_of(k);
            self.lemma_index_of(k);
        }
        self.lemma_index_of(i);
        post.lemma_index_of(i);
    }

    /// Removing one registry entry unregisters exactly its id; every other
    /// lookup is preserved.
    pub proof fn lemma_lookup_after_remove(self, post: Scheduler, i: int)
        requires
            self.ids_unique(),
            0 <= i < self.routines.len(),
            post.routines@ == self.routines@.remove(i),
        ensures
            post.ids_unique(),
            !post.registered(self.routines[i].id),
            forall|id: u64|
                id != self.routines[i].id
                    ==> (#[trigger] post.registered(id) <==> self.registered(id)),
            forall|id: u64|
                #[trigger] post.registered(id) ==> post.routine_of(id) == self.routine_of(id),
    {
        let n = self.routines.len() as int;
        assert(post.routines.len() == n - 1);
        assert forall|k: int| 0 <= k < n - 1 implies #[trigger] post.routines[k]
            == (if k < i { self.routines[k] } else { self.routines[k + 1] }) by {
            assert(post.routines@ == self.routines@.subrange(0, i)
                + self.routines@.subrange(i + 1, n));
        }
        assert forall|k1: int, k2: int| 0 <= k1 < k2 < n - 1 implies post.routines[k1].id
            != post.routines[k2].id by {
            let o1: int = if k1 < i { k1 } else { k1 + 1 };
            let o2: int = if k2 < i { k2 } else { k2 + 1 };
            assert(self.routines[o1].id != self.routines[o2].id);
        }
        assert forall|k: int| 0 <= k < n - 1 implies post.routines[k].id
            != self.routines[i].id by {
            let o: int = if k < i { k } else { k + 1 };
            assert(self.routines[o].id != self.routines[i].id || o == i);
        }
        assert forall|id: u64| id != self.routines[i].id implies (#[trigger] post.registered(id)
            <==> self.registered(id)) by {
            if self.registered(id) {
                let k = self.index_of(id);
                assert(0 <= k < n && self.routines[k].id == id);
                let p: int = if k < i { k } else { k - 1 };
                assert(post.routines[p].id == id);
            }
            if post.registered(id) {
                let k = choose|k: int| 0 <= k < n - 1 && post.routines[k].id == id;
                let o: int = if k < i { k } else { k + 1 };
                assert(self.routines[o].id == id);
            }
        }
        assert forall|id: u64| #[trigger] post.registered(id) implies post.routine_of(id)
            == self.routine_of(id) by {
            let k = post.index_of(id);
            assert(0 <= k < n - 1 && post.routines[k].id == id);
            post.lemma_index_of(k);
            let o: int = if k < i { k } else { k + 1 };
            assert(self.routines[o].id == id);
            self.lemma_index_of(o);
            assert(post.routines[k] == self.routines[o]);
        }
    }

    /// Appending a routine with a fresh id registers exactly that id;
    /// every other lookup is preserved.
    pub proof fn lemma_lookup_after_push(self, post: Scheduler, r: Routine)
        requires
            self.ids_unique(),
            !self.registered(r.id),
            post.routines@ == self.routines@.push(r),
        ensures
            post.ids_unique(),
            post.registered(r.id),
            post.routine_of(r.id) == r,
            post.index_of(r.id) == self.routines.len(),
            forall|id: u64|
                id != r.id ==> (#[trigger] post.registered(id) <==> self.registered(id)),
            forall|id: u64|
                self.registered(id) ==> #[trigger] post.routine_of(id) == self.routine_of(id),
    {
        let n = self.routines.len() as int;
        assert forall|k: int| 0 <= k < n implies self.routines[k].id != r.id by {
            if self.routines[k].id == r.id {
                assert(self.registered(r.id));
            }
        }
        assert(post.routines[n] == r);
        assert(post.registered(r.id));
        post.lemma_index_of(n);
        assert forall|id: u64| id != r.id implies (#[trigger] post.registered(id)
            <==> self.registered(id)) by {
            if self.registered(id) {
                let k = self.index_of(id);
                assert(post.routines[k].id == id);
            }
            if post.registered(id) {
                let k = choose|k: int| 0 <= k < n + 1 && post.routines[k].id == id;
                assert(k < n);
                assert(self.routines[k].id == id);
            }
        }
        assert forall|id: u64| self.registered(id) implies #[trigger] post.routine_of(id)
            == self.routine_of(id) by {
            let k = self.index_of(id);
            assert(0 <= k < n && self.routines[k].id == id);
            self.lemma_index_of(k);
            assert(post.routines[k].id == id);
            post.lemma_index_of(k);
        }
    }

    /// Push a routine onto its owning context's ready FIFO. Returns whether
    /// the FIFO was empty, in which case the shell must signal the context's
    /// condition variable.
    pub fn queue(&mut self, id: u64) -> (notify: bool)
        requires
            old(self).wf(),
            old(self).registered(id),
            old(self).not_queued(id),
            old(self).routine_of(id).state != RoutineState::Complete,
            old(self).routine_of(id).state != RoutineState::PendingSuspend,
        ensures
            final(self).wf(),
            final(self).routines == old(self).routines,
            final(self).next_id == old(self).next_id,
            final(self).contexts.len() == old(self).contexts.len(),
            ({
                let c = old(self).routine_of(id).context_id as int;
                &&& notify == (old(self).contexts[c].pending_routines@.len() == 0)
                &&& final(self).contexts[c].pending_routines@
                    == old(self).contexts[c].pending_routines@.push(id)
                &&& final(self).contexts[c].suspended_routines@
                    == old(self).contexts[c].suspended_routines@
                &&& final(self).contexts[c].is_running == old(self).contexts[c].is_running
                &&& forall|c2: int|
                    0 <= c2 < old(self).contexts.len() && c2 != c
                        ==> final(self).contexts[c2] == old(self).contexts[c2]
            }),
    {
        let i = self.find_routine(id).unwrap();
        proof {
            self.lemma_index_of(i as int);
        }
        let c = self.routines[i].context_id();
        let mut ctx = self.contexts.remove(c);
        let notify = ctx.pending_routines.len() == 0;
        ctx.pending_routines.push(id);
        self.contexts.insert(c, ctx);
        proof {
            assert(self.contexts@ =~= old(self).contexts@.update(c as int, self.contexts@[c as int]));
            assert(self.wf()) by {
                old(self).lemma_queue_shape(*self, c as int, id);
            }
        }
        notify
    }

    /// Announce the current routine's intent to park: the step a waiter
    /// queue takes under its lock, before the stack is yielded.
    pub fn pending_suspend(&mut self, id: u64)
        requires
            old(self).wf(),
            old(self).registered(id),
            old(self).not_queued(id),
            old(self).routine_of(id).state == RoutineState::Running,
        ensures
            final(self).wf(),
            final(self).contexts == old(self).contexts,
            final(self).next_id == old(self).next_id,
            final(self).routines@ == old(self).routines@.update(
                old(self).index_of(id),
                (Routine { state: RoutineState::PendingSuspend, ..old(self).routine_of(id) }),
            ),
            final(self).registered(id),
            final(self).routine_of(id)
                == (Routine { state: RoutineState::PendingSuspend, ..old(self).routine_of(id) }),
            valid_transition(old(self).routine_of(id).state, RoutineState::PendingSuspend),
            forall|id2: u64|
                old(self).registered(id2) && id2 != id
                    ==> #[trigger] final(self).routine_of(id2) == old(self).routine_of(id2),
            forall|id2: u64| #[trigger] final(self).registered(id2) <==> old(self).registered(id2),
            final(self).not_queued(id),
    {
        let i = self.find_routine(id).unwrap();
        proof {
            self.lemma_index_of(i as int);
        }
        let mut r = self.routines.remove(i);
        r.pending_suspend();
        self.routines.insert(i, r);
        proof {
            assert(self.routines@ =~= old(self).routines@.update(i as int, self.routines@[i as int]));
            old(self).lemma_lookup_after_update(*self, i as int);
            assert(self.wf()) by {
                old(self).lemma_routines_update_wf(*self, i as int);
            }
        }
    }

    /// Register a fresh routine and enqueue it on its owning context.
    ///
    /// `context_id` is the requested affinity; the sentinel `usize::MAX`
    /// means none, in which case the worker is chosen as `id % N`. The
    /// coroutine stack behind the new id is allocated by the shell; this is
    /// the bookkeeping the registry and the ready FIFO see.
    pub fn spawn(&mut self, context_id: usize) -> (id: u64)
        requires
            old(self).wf(),
            old(self).next_id < u64::MAX,
            context_id == usize::MAX || context_id < old(self).contexts.len(),
        ensures
            final(self).wf(),
            id == old(self).next_id,
            !old(self).registered(id),
            final(self).next_id == old(self).next_id + 1,
            final(self).registered(id),
            ({
                let r = final(self).routine_of(id);
                &&& r.id == id
                &&& r.context_id == spawn_context(id, context_id, old(self).contexts.len() as int)
                &&& r.state == RoutineState::Pending
                &&& !r.is_pending_resume
                &&& r.wait_promises@ == Seq::<u64>::empty()
            }),
            final(self).routines@ == old(self).routines@.push(final(self).routine_of(id)),
            forall|id2: u64|
                old(self).registered(id2) ==> #[trigger] final(self).registered(id2)
                    && final(self).routine_of(id2) == old(self).routine_of(id2),
            final(self).contexts.len() == old(self).contexts.len(),
            ({
                let c = spawn_context(id, context_id, old(self).contexts.len() as int);
                &&& final(self).contexts[c].pending_routines@
                    == old(self).contexts[c].pending_routines@.push(id)
                &&& final(self).contexts[c].suspended_routines@
                    == old(self).contexts[c].suspended_routines@
                &&& final(self).contexts[c].is_running == old(self).contexts[c].is_running
                &&& forall|c2: int|
                    0 <= c2 < old(self).contexts.len() && c2 != c
                        ==> final(self).contexts[c2] == old(self).contexts[c2]
            }),
    {
        let id = self.next_id;
        self.next_id = self.next_id + 1;
        let n = self.contexts.len();
        let c = if context_id == usize::MAX {
            (#[verifier::truncate] (id as usize)) % n
        } else {
            context_id
        };
        proof {
            assert(!old(self).registered(id)) by {
                if old(self).registered(id) {
                    let k = old(self).index_of(id);
                    assert(old(self).routines[k].id < old(self).next_id);
                }
            }
        }
        let r = Routine::new(id, c);
        self.routines.push(r);
        let ghost mid = *self;
        proof {
            old(self).lemma_lookup_after_push(mid, mid.routines@.last());
            assert(mid.wf()) by {
                assert forall|c2: int, k: int|
                    0 <= c2 < mid.contexts.len() && 0 <= k
                        < mid.contexts[c2].pending_routines@.len() implies mid.pending_entry_ok(
                    c2,
                    #[trigger] mid.contexts[c2].pending_routines@[k],
                ) by {
                    let qid = mid.contexts[c2].pending_routines@[k];
                    assert(old(self).pending_entry_ok(c2, qid));
                }
                assert forall|c2: int, k: int|
                    0 <= c2 < mid.contexts.len() && 0 <= k
                        < mid.contexts[c2].suspended_routines@.len() implies mid.suspended_entry_ok(
                    c2,
                    #[trigger] mid.contexts[c2].suspended_routines@[k],
                ) by {
                    let qid = mid.contexts[c2].suspended_routines@[k];
                    assert(old(self).suspended_entry_ok(c2, qid));
                }
            }
            assert(mid.not_queued(id)) by {
                assert forall|c2: int| 0 <= c2 < mid.contexts.len() implies {
                    &&& !mid.contexts[c2].pending_routines@.contains(id)
                    &&& !mid.contexts[c2].suspended_routines@.contains(id)
                } by {
                    if mid.contexts[c2].pending_routines@.contains(id) {
                        let k = choose|k: int|
                            0 <= k < mid.contexts[c2].pending_routines@.len()
                                && mid.contexts[c2].pending_routines@[k] == id;
                        assert(old(self).pending_entry_ok(c2, id));
                        let j = old(self).index_of(id);
                        assert(old(self).routines[j].id < old(self).next_id);
                    }
                    if mid.contexts[c2].suspended_routines@.contains(id) {
                        let k = choose|k: int|
                            0 <= k < mid.contexts[c2].suspended_routines@.len()
                                && mid.contexts[c2].suspended_routines@[k] == id;
                        assert(old(self).suspended_entry_ok(c2, id));
                        let j = old(self).index_of(id);
                        assert(old(self).routines[j].id < old(self).next_id);
                    }
                }
            }
        }
        self.queue(id);
        proof {
            mid.lemma_same_routines_lookup(*self);
        }
        id
    }

    /// Park a routine whose intent to suspend its worker has observed —
    /// unless a resume raced in first, in which case the routine goes
    /// straight back on the ready FIFO and the latch is cleared.
    ///
    /// Returns whether the routine was requeued (the race case), in which
    /// case the shell must signal the context's condition variable.
    pub fn suspend(&mut self, id: u64) -> (requeued: bool)
        requires
            old(self).wf(),
            old(self).registered(id),
            old(self).not_queued(id),
            old(self).routine_of(id).state == RoutineState::PendingSuspend,
        ensures
            final(self).wf(),
            suspend_post(*old(self), *final(self), id, requeued),
            valid_transition(old(self).routine_of(id).state, RoutineState::Suspended),
            final(self).registered(id),
            final(self).routine_of(id) == (Routine {
                state: RoutineState::Suspended,
                is_pending_resume: false,
                ..old(self).routine_of(id)
            }),
            forall|id2: u64|
                old(self).registered(id2) && id2 != id
                    ==> #[trigger] final(self).routine_of(id2) == old(self).routine_of(id2)
                        && final(self).registered(id2),
    {
        let i = self.find_routine(id).unwrap();
        proof {
            self.lemma_index_of(i as int);
        }
        let mut r = self.routines.remove(i);
        r.set_state(RoutineState::Suspended);
        let requeued = r.is_pending_resume();
        r.set_pending_resume(false);
        let c = r.context_id();
        self.routines.insert(i, r);
        let ghost mid = *self;
        proof {
            assert(mid.routines@ =~= old(self).routines@.update(i as int, mid.routines@[i as int]));
            old(self).lemma_lookup_after_update(mid, i as int);
            assert(mid.wf() && mid.not_queued(id)) by {
                old(self).lemma_routines_update_wf(mid, i as int);
                assert forall|c2: int| 0 <= c2 < mid.contexts.len() implies {
                    &&& !mid.contexts[c2].pending_routines@.contains(id)
                    &&& !mid.contexts[c2].suspended_routines@.contains(id)
                } by {
                    assert(!old(self).contexts[c2].pending_routines@.contains(id));
                    assert(!old(self).contexts[c2].suspended_routines@.contains(id));
                }
            }
        }
        if requeued {
            let _ = self.queue(id);
            proof {
                mid.lemma_same_routines_lookup(*self);
            }
            true
        } else {
            let mut ctx = self.contexts.remove(c);
            ctx.suspended_routines.push(id);
            self.contexts.insert(c, ctx);
            proof {
                assert(self.contexts@ =~= mid.contexts@.update(
                    c as int,
                    self.contexts@[c as int],
                ));
                mid.lemma_park_shape(*self, c as int, id);
                mid.lemma_same_routines_lookup(*self);
            }
            false
        }
    }

    /// Proof helper: pushing a registered, parked-state, unqueued routine
    /// onto its own context's suspended queue preserves well-formedness.
    proof fn lemma_park_shape(self, post: Scheduler, c: int, id: u64)
        requires
            self.wf(),
            self.registered(id),
            self.not_queued(id),
            self.routine_of(id).state == RoutineState::Suspended,
            self.routine_of(id).context_id == c,
            post.routines == self.routines,
            post.next_id == self.next_id,
            post.contexts@ == self.contexts@.update(
                c,
                (Context {
                    suspended_routines: post.contexts[c].suspended_routines,
                    ..self.contexts[c]
                }),
            ),
            post.contexts[c].suspended_routines@ == self.contexts[c].suspended_routines@.push(id),
        ensures
            post.wf(),
    {
        assert(!self.contexts[c].pending_routines@.contains(id));
        assert(!self.contexts[c].suspended_routines@.contains(id));
        let newq = post.contexts[c].suspended_routines@;
        assert forall|c2: int, k: int|
            0 <= c2 < post.contexts.len() && 0 <= k < post.contexts[c2].pending_routines@.len()
            implies post.pending_entry_ok(c2, #[trigger] post.contexts[c2].pending_routines@[k]) by {
            assert(self.pending_entry_ok(c2, post.contexts[c2].pending_routines@[k]));
        }
        assert forall|c2: int, k: int|
            0 <= c2 < post.contexts.len() && 0 <= k < post.contexts[c2].suspended_routines@.len()
            implies post.suspended_entry_ok(
            c2,
            #[trigger] post.contexts[c2].suspended_routines@[k],
        ) by {
            let qid = post.contexts[c2].suspended_routines@[k];
            if c2 == c && k == newq.len() - 1 {
                assert(qid == id);
            } else {
                assert(self.suspended_entry_ok(c2, qid));
            }
        }
        assert forall|c2: int| 0 <= c2 < post.contexts.len() implies {
            &&& nodup(#[trigger] post.contexts[c2].pending_routines@)
            &&& nodup(post.contexts[c2].suspended_routines@)
            &&& disjoint(
                post.contexts[c2].pending_routines@,
                post.contexts[c2].suspended_routines@,
            )
        } by {
            if c2 == c {
                assert forall|k1: int, k2: int| 0 <= k1 < k2 < newq.len() implies newq[k1]
                    != newq[k2] by {
                    if k2 == newq.len() - 1 {
                        assert(self.contexts[c].suspended_routines@[k1] != id);
                    }
                }
                assert forall|k1: int, k2: int|
                    0 <= k1 < post.contexts[c2].pending_routines@.len() && 0 <= k2
                        < newq.len() implies post.contexts[c2].pending_routines@[k1]
                    != newq[k2] by {
                    if k2 == newq.len() - 1 {
                        assert(!self.contexts[c].pending_routines@.contains(id));
                    }
                }
            }
        }
    }

    /// Wake a routine: if it is parked on its context, move it to the ready
    /// FIFO (the shell must then signal the context's condition variable);
    /// otherwise the routine has not finished parking yet, so latch the
    /// pending resume that its eventual park will observe.
    pub fn resume(&mut self, id: u64) -> (woken: bool)
        requires
            old(self).wf(),
            old(self).registered(id),
        ensures
            final(self).wf(),
            resume_post(*old(self), *final(self), id, woken),
            final(self).registered(id),
            forall|id2: u64|
                old(self).registered(id2) && id2 != id
                    ==> #[trigger] final(self).routine_of(id2) == old(self).routine_of(id2)
                        && final(self).registered(id2),
    {
        let i = self.find_routine(id).unwrap();
        proof {
            self.lemma_index_of(i as int);
        }
        let c = self.routines[i].context_id();
        let mut ctx = self.contexts.remove(c);
        let ghost oldsus = ctx.suspended_routines@;
        let mut k: usize = 0;
        let mut found: Option<usize> = None;
        while k < ctx.suspended_routines.len()
            invariant
                k <= ctx.suspended_routines.len(),
                ctx.suspended_routines@ == oldsus,
                match found {
                    Some(f) => 0 <= f < k && oldsus[f as int] == id && (forall|j: int|
                        0 <= j < f ==> oldsus[j] != id),
                    None => forall|j: int| 0 <= j < k ==> oldsus[j] != id,
                },
            decreases ctx.suspended_routines.len() - k,
        {
            if found.is_none() && ctx.suspended_routines[k] == id {
                found = Some(k);
            }
            k = k + 1;
        }
        match found {
            Some(f) => {
                ctx.suspended_routines.remove(f);
                ctx.pending_routines.push(id);
                self.contexts.insert(c, ctx);
                proof {
                    assert(self.contexts@ =~= old(self).contexts@.update(
                        c as int,
                        self.contexts@[c as int],
                    ));
                    assert(old(self).contexts[c as int].suspended_routines@.contains(id));
                    old(self).lemma_wake_shape(*self, c as int, id, f as int);
                    old(self).lemma_same_routines_lookup(*self);
                }
                true
            },
            None => {
                self.contexts.insert(c, ctx);
                proof {
                    assert(self.contexts@ =~= old(self).contexts@);
                    assert(oldsus == old(self).contexts[c as int].suspended_routines@);
                    assert(!oldsus.contains(id)) by {
                        if oldsus.contains(id) {
                            let j = choose|j: int| 0 <= j < oldsus.len() && oldsus[j] == id;
                            assert(oldsus[j] != id);
                        }
                    }
                }
                let mut r = self.routines.remove(i);
                r.set_pending_resume(true);
                self.routines.insert(i, r);
                proof {
                    assert(self.routines@ =~= old(self).routines@.update(
                        i as int,
                        self.routines@[i as int],
                    ));
                    old(self).lemma_lookup_after_update(*self, i as int);
                    old(self).lemma_routines_update_wf(*self, i as int);
                }
                false
            },
        }
    }

    /// Proof helper: moving a parked routine from its own context's
    /// suspended queue to the ready FIFO preserves well-formedness and has
    /// exactly the shape `resume_post` states for a wakeup.
    proof fn lemma_wake_shape(self, post: Scheduler, c: int, id: u64, f: int)
        requires
            self.wf(),
            self.registered(id),
            self.routine_of(id).context_id == c,
            0 <= f < self.contexts[c].suspended_routines@.len(),
            self.contexts[c].suspended_routines@[f] == id,
            forall|j: int| 0 <= j < f ==> self.contexts[c].suspended_routines@[j] != id,
            post.routines == self.routines,
            post.next_id == self.next_id,
            post.contexts@ == self.contexts@.update(
                c,
                (Context {
                    pending_routines: post.contexts[c].pending_routines,
                    suspended_routines: post.contexts[c].suspended_routines,
                    ..self.contexts[c]
                }),
            ),
            post.contexts[c].suspended_routines@ == self.contexts[c].suspended_routines@.remove(f),
            post.contexts[c].pending_routines@ == self.contexts[c].pending_routines@.push(id),
        ensures
            post.wf(),
            post.contexts[c].suspended_routines@ == self.contexts[c].suspended_routines@.remove(
                self.contexts[c].suspended_routines@.index_of(id),
            ),
            !post.contexts[c].suspended_routines@.contains(id),
    {
        let oldsus = self.contexts[c].suspended_routines@;
        let oldpen = self.contexts[c].pending_routines@;
        let newsus = post.contexts[c].suspended_routines@;
        let newpen = post.contexts[c].pending_routines@;
        oldsus.remove_ensures(f);
        assert(self.suspended_entry_ok(c, id));
        assert(!oldpen.contains(id));
        // the found position is the unique one, hence `index_of` picks it
        let io = oldsus.index_of(id);
        assert(oldsus.contains(id));
        assert(0 <= io < oldsus.len() && oldsus[io] == id);
        assert(io == f) by {
            if io < f {
                assert(oldsus[io] != id);
            } else if io > f {
                assert(oldsus[f] != oldsus[io]);
            }
        }
        assert forall|j: int| 0 <= j < newsus.len() implies newsus[j] != id by {
            if j < f {
                assert(newsus[j] == oldsus[j]);
            } else {
                assert(newsus[j] == oldsus[j + 1]);
                assert(oldsus[f] != oldsus[j + 1]);
            }
        }
        assert forall|c2: int, k: int|
            0 <= c2 < post.contexts.len() && 0 <= k < post.contexts[c2].pending_routines@.len()
            implies post.pending_entry_ok(c2, #[trigger] post.contexts[c2].pending_routines@[k]) by {
            let qid = post.contexts[c2].pending_routines@[k];
            if c2 == c && k == newpen.len() - 1 {
                assert(qid == id);
                assert(self.suspended_entry_ok(c, id));
            } else {
                assert(self.pending_entry_ok(c2, qid));
            }
        }
        assert forall|c2: int, k: int|
            0 <= c2 < post.contexts.len() && 0 <= k < post.contexts[c2].suspended_routines@.len()
            implies post.suspended_entry_ok(
            c2,
            #[trigger] post.contexts[c2].suspended_routines@[k],
        ) by {
            let qid = post.contexts[c2].suspended_routines@[k];
            if c2 == c {
                if k < f {
                    assert(qid == oldsus[k]);
                } else {
                    assert(qid == oldsus[k + 1]);
                }
                assert(oldsus.contains(qid));
                let j = choose|j: int| 0 <= j < oldsus.len() && oldsus[j] == qid;
                assert(self.suspended_entry_ok(c2, qid));
            } else {
                assert(self.suspended_entry_ok(c2, qid));
            }
        }
        assert forall|c2: int| 0 <= c2 < post.contexts.len() implies {
            &&& nodup(#[trigger] post.contexts[c2].pending_routines@)
            &&& nodup(post.contexts[c2].suspended_routines@)
            &&& disjoint(
                post.contexts[c2].pending_routines@,
                post.contexts[c2].suspended_routines@,
            )
        } by {
            if c2 == c {
                assert forall|k1: int, k2: int| 0 <= k1 < k2 < newpen.len() implies newpen[k1]
                    != newpen[k2] by {
                    if k2 == newpen.len() - 1 {
                        assert(oldpen[k1] != id);
                    }
                }
                assert forall|k1: int, k2: int| 0 <= k1 < k2 < newsus.len() implies newsus[k1]
                    != newsus[k2] by {
                    let o1: int = if k1 < f { k1 } else { k1 + 1 };
                    let o2: int = if k2 < f { k2 } else { k2 + 1 };
                    assert(newsus[k1] == oldsus[o1] && newsus[k2] == oldsus[o2]);
                }
                assert forall|k1: int, k2: int|
                    0 <= k1 < newpen.len() && 0 <= k2 < newsus.len() implies newpen[k1]
                    != newsus[k2] by {
                    let o2: int = if k2 < f { k2 } else { k2 + 1 };
                    assert(newsus[k2] == oldsus[o2]);
                    if k1 == newpen.len() - 1 {
                        assert(newpen[k1] == id);
                        assert(newsus[k2] != id);
                    } else {
                        assert(oldpen[k1] != oldsus[o2]);
                    }
                }
            }
        }
    }

    /// Proof helper: a registry update that keeps an entry's id and context
    /// preserves well-formedness, provided the entry either keeps its state
    /// or is in no queue.
    proof fn lemma_routines_update_wf(self, post: Scheduler, i: int)
        requires
            self.wf(),
            0 <= i < self.routines.len(),
            post.routines@ == self.routines@.update(i, post.routines[i]),
            post.routines[i].id == self.routines[i].id,
            post.routines[i].context_id == self.routines[i].context_id,
            post.routines[i].state == self.routines[i].state || self.not_queued(
                self.routines[i].id,
            ),
            post.contexts@ == self.contexts@,
            post.next_id == self.next_id,
        ensures
            post.wf(),
            self.not_queued(self.routines[i].id) ==> post.not_queued(self.routines[i].id),
    {
        self.lemma_lookup_after_update(post, i);
        let id = self.routines[i].id;
        self.lemma_index_of(i);
        assert forall|c: int, k: int|
            0 <= c < post.contexts.len() && 0 <= k < post.contexts[c].pending_routines@.len()
            implies post.pending_entry_ok(c, #[trigger] post.contexts[c].pending_routines@[k]) by {
            let qid = post.contexts[c].pending_routines@[k];
            assert(self.pending_entry_ok(c, qid));
            if qid == id {
                assert(self.contexts[c].pending_routines@.contains(qid));
                assert(post.routines[i].state == self.routines[i].state);
                assert(post.routine_of(qid) == post.routines[i]);
            }
        }
        assert forall|c: int, k: int|
            0 <= c < post.contexts.len() && 0 <= k < post.contexts[c].suspended_routines@.len()
            implies post.suspended_entry_ok(
            c,
            #[trigger] post.contexts[c].suspended_routines@[k],
        ) by {
            let qid = post.contexts[c].suspended_routines@[k];
            assert(self.suspended_entry_ok(c, qid));
            if qid == id {
                assert(self.contexts[c].suspended_routines@.contains(qid));
                assert(post.routines[i].state == self.routines[i].state);
                assert(post.routine_of(qid) == post.routines[i]);
            }
        }
        if self.not_queued(id) {
            assert forall|c: int| 0 <= c < post.contexts.len() implies {
                &&& !post.contexts[c].pending_routines@.contains(id)
                &&& !post.contexts[c].suspended_routines@.contains(id)
            } by {
                assert(!self.contexts[c].pending_routines@.contains(id));
                assert(!self.contexts[c].suspended_routines@.contains(id));
            }
        }
    }

    /// Proof helper: pushing a registered, advanceable, unqueued routine
    /// onto its own context's ready FIFO preserves well-formedness.
    proof fn lemma_queue_shape(self, post: Scheduler, c: int, id: u64)
        requires
            self.wf(),
            self.registered(id),
            self.not_queued(id),
            self.routine_of(id).state != RoutineState::Complete,
            self.routine_of(id).state != RoutineState::PendingSuspend,
            self.routine_of(id).context_id == c,
            post.routines == self.routines,
            post.next_id == self.next_id,
            post.contexts@ == self.contexts@.update(
                c,
                (Context {
                    pending_routines: post.contexts[c].pending_routines,
                    ..self.contexts[c]
                }),
            ),
            post.contexts[c].pending_routines@ == self.contexts[c].pending_routines@.push(id),
        ensures
            post.wf(),
    {
        assert(!self.contexts[c].pending_routines@.contains(id));
        assert(!self.contexts[c].suspended_routines@.contains(id));
        let newq = post.contexts[c].pending_routines@;
        assert forall|c2: int, k: int|
            0 <= c2 < post.contexts.len() && 0 <= k < post.contexts[c2].pending_routines@.len()
            implies post.pending_entry_ok(c2, #[trigger] post.contexts[c2].pending_routines@[k]) by {
            let qid = post.contexts[c2].pending_routines@[k];
            if c2 == c && k == newq.len() - 1 {
                assert(qid == id);
            } else {
                assert(self.pending_entry_ok(c2, qid));
            }
        }
        assert forall|c2: int, k: int|
            0 <= c2 < post.contexts.len() && 0 <= k < post.contexts[c2].suspended_routines@.len()
            implies post.suspended_entry_ok(
            c2,
            #[trigger] post.contexts[c2].suspended_routines@[k],
        ) by {
            assert(self.suspended_entry_ok(c2, post.contexts[c2].suspended_routines@[k]));
        }
        assert forall|c2: int| 0 <= c2 < post.contexts.len() implies {
            &&& nodup(#[trigger] post.contexts[c2].pending_routines@)
            &&& nodup(post.contexts[c2].suspended_routines@)
            &&& disjoint(
                post.contexts[c2].pending_routines@,
                post.contexts[c2].suspended_routines@,
            )
        } by {
            if c2 == c {
                assert forall|k1: int, k2: int| 0 <= k1 < k2 < newq.len() implies newq[k1]
                    != newq[k2] by {
                    if k2 == newq.len() - 1 {
                        assert(self.contexts[c].pending_routines@[k1] != id);
                    }
                }
                assert forall|k1: int, k2: int|
                    0 <= k1 < newq.len() && 0 <= k2
                        < post.contexts[c2].suspended_routines@.len() implies newq[k1]
                    != post.contexts[c2].suspended_routines@[k2] by {
                    if k1 == newq.len() - 1 {
                        assert(!self.contexts[c].suspended_routines@.contains(id));
                    }
                }
            }
        }
    }

    /// Begin one quantum of a routine a worker just popped: it runs now,
    /// and any latched resume is consumed — the routine is awake, so the
    /// signal is spent.
    pub fn advance(&mut self, id: u64)
        requires
            old(self).wf(),
            old(self).registered(id),
            old(self).not_queued(id),
            old(self).routine_of(id).state != RoutineState::Complete,
            old(self).routine_of(id).state != RoutineState::PendingSuspend,
        ensures
            final(self).wf(),
            final(self).contexts == old(self).contexts,
            final(self).next_id == old(self).next_id,
            final(self).registered(id),
            final(self).not_queued(id),
            final(self).routine_of(id) == (Routine {
                state: RoutineState::Running,
                is_pending_resume: false,
                ..old(self).routine_of(id)
            }),
            valid_transition(old(self).routine_of(id).state, RoutineState::Running),
            forall|id2: u64|
                old(self).registered(id2) && id2 != id
                    ==> #[trigger] final(self).routine_of(id2) == old(self).routine_of(id2),
            forall|id2: u64| #[trigger] final(self).registered(id2) <==> old(self).registered(id2),
    {
        let i = self.find_routine(id).unwrap();
        proof {
            self.lemma_index_of(i as int);
        }
        let mut r = self.routines.remove(i);
        r.advance();
        self.routines.insert(i, r);
        proof {
            assert(self.routines@ =~= old(self).routines@.update(i as int, self.routines@[i as int]));
            old(self).lemma_lookup_after_update(*self, i as int);
            old(self).lemma_routines_update_wf(*self, i as int);
        }
    }

    /// A routine's body returned: record its terminal transition. The
    /// worker's dispatch then destroys it and hands out its promises.
    pub fn complete(&mut self, id: u64)
        requires
            old(self).wf(),
            old(self).registered(id),
            old(self).not_queued(id),
            old(self).routine_of(id).state == RoutineState::Running,
        ensures
            final(self).wf(),
            final(self).contexts == old(self).contexts,
            final(self).next_id == old(self).next_id,
            final(self).registered(id),
            final(self).not_queued(id),
            final(self).routine_of(id) == (Routine {
                state: RoutineState::Complete,
                ..old(self).routine_of(id)
            }),
            valid_transition(old(self).routine_of(id).state, RoutineState::Complete),
            forall|id2: u64|
                old(self).registered(id2) && id2 != id
                    ==> #[trigger] final(self).routine_of(id2) == old(self).routine_of(id2),
            forall|id2: u64| #[trigger] final(self).registered(id2) <==> old(self).registered(id2),
    {
        let i = self.find_routine(id).unwrap();
        proof {
            self.lemma_index_of(i as int);
        }
        let mut r = self.routines.remove(i);
        r.complete();
        self.routines.insert(i, r);
        proof {
            assert(self.routines@ =~= old(self).routines@.update(i as int, self.routines@[i as int]));
            old(self).lemma_lookup_after_update(*self, i as int);
            old(self).lemma_routines_update_wf(*self, i as int);
        }
    }

    /// One worker's poll: take the next ready routine off this context's
    /// FIFO, or report that the worker should sleep, or that it may exit —
    /// which it may exactly when shutdown was requested and both the ready
    /// FIFO and the suspended queue are empty.
    pub fn worker_poll(&mut self, context_id: usize) -> (action: WorkerAction)
        requires
            old(self).wf(),
            context_id < old(self).contexts.len(),
        ensures
            final(self).wf(),
            ({
                let ctx = old(self).contexts[context_id as int];
                if ctx.pending_routines@.len() > 0 {
                    let id = ctx.pending_routines@[0];
                    &&& action == WorkerAction::Run(id)
                    &&& final(self).routines == old(self).routines
                    &&& final(self).next_id == old(self).next_id
                    &&& final(self).contexts.len() == old(self).contexts.len()
                    &&& final(self).contexts[context_id as int].pending_routines@
                        == ctx.pending_routines@.subrange(1, ctx.pending_routines@.len() as int)
                    &&& final(self).contexts[context_id as int].suspended_routines@
                        == ctx.suspended_routines@
                    &&& final(self).contexts[context_id as int].is_running == ctx.is_running
                    &&& forall|c2: int|
                        0 <= c2 < old(self).contexts.len() && c2 != context_id
                            ==> final(self).contexts[c2] == old(self).contexts[c2]
                    &&& final(self).registered(id)
                    &&& final(self).routine_of(id) == old(self).routine_of(id)
                    &&& final(self).routine_of(id).context_id == context_id
                    &&& final(self).routine_of(id).state != RoutineState::Complete
                    &&& final(self).routine_of(id).state != RoutineState::PendingSuspend
                    &&& final(self).not_queued(id)
                } else if !ctx.is_running && ctx.suspended_routines@.len() == 0 {
                    &&& action == WorkerAction::Exit
                    &&& *final(self) == *old(self)
                } else {
                    &&& action == WorkerAction::Sleep
                    &&& *final(self) == *old(self)
                }
            }),
    {
        if self.contexts[context_id].pending_routines.len() > 0 {
            let mut ctx = self.contexts.remove(context_id);
            let id = ctx.pending_routines.remove(0);
            self.contexts.insert(context_id, ctx);
            proof {
                assert(self.contexts@ =~= old(self).contexts@.update(
                    context_id as int,
                    self.contexts@[context_id as int],
                ));
                old(self).lemma_pop_shape(*self, context_id as int, id);
                old(self).lemma_same_routines_lookup(*self);
            }
            WorkerAction::Run(id)
        } else if !self.contexts[context_id].is_running
            && self.contexts[context_id].suspended_routines.len() == 0 {
            WorkerAction::Exit
        } else {
            WorkerAction::Sleep
        }
    }

    /// Proof helper: popping the front of a context's ready FIFO preserves
    /// well-formedness and leaves the popped routine queued nowhere.
    proof fn lemma_pop_shape(self, post: Scheduler, c: int, id: u64)
        requires
            self.wf(),
            0 <= c < self.contexts.len(),
            self.contexts[c].pending_routines@.len() > 0,
            id == self.contexts[c].pending_routines@[0],
            post.routines == self.routines,
            post.next_id == self.next_id,
            post.contexts@ == self.contexts@.update(
                c,
                (Context {
                    pending_routines: post.contexts[c].pending_routines,
                    ..self.contexts[c]
                }),
            ),
            post.contexts[c].pending_routines@ == self.contexts[c].pending_routines@.remove(0),
        ensures
            post.wf(),
            post.not_queued(id),
            post.registered(id),
            post.contexts[c].pending_routines@ == self.contexts[c].pending_routines@.subrange(
                1,
                self.contexts[c].pending_routines@.len() as int,
            ),
    {
        let oldpen = self.contexts[c].pending_routines@;
        let newpen = post.contexts[c].pending_routines@;
        oldpen.remove_ensures(0);
        assert(newpen =~= oldpen.subrange(1, oldpen.len() as int));
        assert(self.pending_entry_ok(c, id)) by {
            assert(oldpen[0] == id);
        }
        self.lemma_same_routines_lookup(post);
        assert forall|c2: int, k: int|
            0 <= c2 < post.contexts.len() && 0 <= k < post.contexts[c2].pending_routines@.len()
            implies post.pending_entry_ok(c2, #[trigger] post.contexts[c2].pending_routines@[k]) by {
            let qid = post.contexts[c2].pending_routines@[k];
            if c2 == c {
                assert(qid == oldpen[k + 1]);
            }
            assert(self.pending_entry_ok(c2, qid));
        }
        assert forall|c2: int, k: int|
            0 <= c2 < post.contexts.len() && 0 <= k < post.contexts[c2].suspended_routines@.len()
            implies post.suspended_entry_ok(
            c2,
            #[trigger] post.contexts[c2].suspended_routines@[k],
        ) by {
            assert(self.suspended_entry_ok(c2, post.contexts[c2].suspended_routines@[k]));
        }
        assert forall|c2: int| 0 <= c2 < post.contexts.len() implies {
            &&& nodup(#[trigger] post.contexts[c2].pending_routines@)
            &&& nodup(post.contexts[c2].suspended_routines@)
            &&& disjoint(
                post.contexts[c2].pending_routines@,
                post.contexts[c2].suspended_routines@,
            )
        } by {
            if c2 == c {
                assert forall|k1: int, k2: int| 0 <= k1 < k2 < newpen.len() implies newpen[k1]
                    != newpen[k2] by {
                    assert(newpen[k1] == oldpen[k1 + 1] && newpen[k2] == oldpen[k2 + 1]);
                }
                assert forall|k1: int, k2: int|
                    0 <= k1 < newpen.len() && 0 <= k2
                        < post.contexts[c2].suspended_routines@.len() implies newpen[k1]
                    != post.contexts[c2].suspended_routines@[k2] by {
                    assert(newpen[k1] == oldpen[k1 + 1]);
                }
            }
        }
        // the popped id sits nowhere: its own context held it only at the
        // front, and every other context's entries are pinned elsewhere
        assert forall|c2: int| 0 <= c2 < post.contexts.len() implies {
            &&& !post.contexts[c2].pending_routines@.contains(id)
            &&& !post.contexts[c2].suspended_routines@.contains(id)
        } by {
            if post.contexts[c2].pending_routines@.contains(id) {
                let k = choose|k: int|
                    0 <= k < post.contexts[c2].pending_routines@.len()
                        && post.contexts[c2].pending_routines@[k] == id;
                if c2 == c {
                    assert(oldpen[k + 1] == id);
                    assert(oldpen[0] == oldpen[k + 1]);
                } else {
                    assert(self.pending_entry_ok(c2, id));
                    assert(self.routine_of(id).context_id == c2);
                    assert(self.routine_of(id).context_id == c);
                }
            }
            if post.contexts[c2].suspended_routines@.contains(id) {
                let k = choose|k: int|
                    0 <= k < post.contexts[c2].suspended_routines@.len()
                        && post.contexts[c2].suspended_routines@[k] == id;
                assert(self.suspended_entry_ok(c2, id));
                if c2 == c {
                    assert(oldpen[0] != self.contexts[c].suspended_routines@[k]);
                } else {
                    assert(self.routine_of(id).context_id == c2);
                    assert(self.routine_of(id).context_id == c);
                }
            }
        }
    }

    /// Decide what to do with a routine a worker just advanced, from the
    /// state its quantum ended in: destroy it and hand back its completion
    /// promises (`Complete`), park it — or requeue it when a resume raced
    /// in (`PendingSuspend`), or requeue it after a plain yield (`Running`).
    pub fn dispatch(&mut self, id: u64) -> (outcome: DispatchOutcome)
        requires
            old(self).wf(),
            old(self).registered(id),
            old(self).not_queued(id),
            old(self).routine_of(id).state == RoutineState::Running || old(self).routine_of(
                id,
            ).state == RoutineState::PendingSuspend || old(self).routine_of(id).state
                == RoutineState::Complete,
        ensures
            final(self).wf(),
            final(self).next_id == old(self).next_id,
            final(self).contexts.len() == old(self).contexts.len(),
            forall|id2: u64|
                old(self).registered(id2) && id2 != id ==> #[trigger] final(self).registered(id2)
                    && final(self).routine_of(id2) == old(self).routine_of(id2),
            old(self).routine_of(id).state == RoutineState::Complete ==> ({
                &&& outcome matches DispatchOutcome::Destroyed(p) && p@ == old(self).routine_of(
                    id,
                ).wait_promises@
                &&& !final(self).registered(id)
                &&& final(self).routines@ == old(self).routines@.remove(old(self).index_of(id))
                &&& final(self).contexts == old(self).contexts
            }),
            old(self).routine_of(id).state == RoutineState::PendingSuspend ==> ({
                &&& suspend_post(
                    *old(self),
                    *final(self),
                    id,
                    old(self).routine_of(id).is_pending_resume,
                )
                &&& if old(self).routine_of(id).is_pending_resume {
                    outcome matches DispatchOutcome::Requeued(n) && n
                } else {
                    outcome matches DispatchOutcome::Parked
                }
            }),
            old(self).routine_of(id).state == RoutineState::Running ==> ({
                let c = old(self).routine_of(id).context_id as int;
                &&& outcome matches DispatchOutcome::Requeued(n) && n == (old(
                    self,
                ).contexts[c].pending_routines@.len() == 0)
                &&& final(self).routines == old(self).routines
                &&& final(self).contexts[c].pending_routines@
                    == old(self).contexts[c].pending_routines@.push(id)
                &&& final(self).contexts[c].suspended_routines@
                    == old(self).contexts[c].suspended_routines@
                &&& final(self).contexts[c].is_running == old(self).contexts[c].is_running
                &&& forall|c2: int|
                    0 <= c2 < old(self).contexts.len() && c2 != c
                        ==> final(self).contexts[c2] == old(self).contexts[c2]
            }),
    {
        let i = self.find_routine(id).unwrap();
        proof {
            self.lemma_index_of(i as int);
        }
        let state = self.routines[i].state();
        if state == RoutineState::Complete {
            let mut r = self.routines.remove(i);
            let promises = r.take_wait_promises();
            proof {
                old(self).lemma_lookup_after_remove(*self, i as int);
                assert(self.wf()) by {
                    assert forall|c2: int, k: int|
                        0 <= c2 < self.contexts.len() && 0 <= k
                            < self.contexts[c2].pending_routines@.len()
                        implies self.pending_entry_ok(
                        c2,
                        #[trigger] self.contexts[c2].pending_routines@[k],
                    ) by {
                        let qid = self.contexts[c2].pending_routines@[k];
                        assert(old(self).pending_entry_ok(c2, qid));
                        assert(old(self).contexts[c2].pending_routines@.contains(qid));
                        assert(qid != id);
                    }
                    assert forall|c2: int, k: int|
                        0 <= c2 < self.contexts.len() && 0 <= k
                            < self.contexts[c2].suspended_routines@.len()
                        implies self.suspended_entry_ok(
                        c2,
                        #[trigger] self.contexts[c2].suspended_routines@[k],
                    ) by {
                        let qid = self.contexts[c2].suspended_routines@[k];
                        assert(old(self).suspended_entry_ok(c2, qid));
                        assert(old(self).contexts[c2].suspended_routines@.contains(qid));
                        assert(qid != id);
                    }
                }
            }
            DispatchOutcome::Destroyed(promises)
        } else if state == RoutineState::PendingSuspend {
            let requeued = self.suspend(id);
            if requeued {
                DispatchOutcome::Requeued(true)
            } else {
                DispatchOutcome::Parked
            }
        } else {
            let notify = self.queue(id);
            DispatchOutcome::Requeued(notify)
        }
    }

    /// Register a completion promise on routine `id` on behalf of
    /// `current_id`, which must not wait on itself. Returns whether the
    /// target was still registered; when it was not, it has already
    /// terminated and the caller must not block.
    pub fn wait(&mut self, current_id: u64, id: u64, promise_id: u64) -> (found: bool)
        requires
            old(self).wf(),
            current_id != id,
        ensures
            final(self).wf(),
            wait_post(*old(self), *final(self), id, promise_id, found),
            found ==> final(self).registered(id),
            forall|id2: u64|
                old(self).registered(id2) && id2 != id ==> #[trigger] final(self).registered(id2)
                    && final(self).routine_of(id2) == old(self).routine_of(id2),
    {
        match self.find_routine(id) {
            Some(i) => {
                proof {
                    self.lemma_index_of(i as int);
                }
                let mut r = self.routines.remove(i);
                r.wait(promise_id);
                self.routines.insert(i, r);
                proof {
                    assert(self.routines@ =~= old(self).routines@.update(
                        i as int,
                        self.routines@[i as int],
                    ));
                    old(self).lemma_lookup_after_update(*self, i as int);
                    old(self).lemma_routines_update_wf(*self, i as int);
                }
                true
            },
            None => false,
        }
    }

    /// Request shutdown: clear every context's running flag. The shell then
    /// signals every condition variable and joins the workers, which exit
    /// as [`Scheduler::worker_poll`] drains their queues.
    pub fn stop(&mut self)
        requires
            old(self).wf(),
        ensures
            final(self).wf(),
            final(self).routines == old(self).routines,
            final(self).next_id == old(self).next_id,
            final(self).contexts.len() == old(self).contexts.len(),
            forall|c: int|
                0 <= c < old(self).contexts.len() ==> final(self).contexts[c] == (Context {
                    is_running: false,
                    ..old(self).contexts[c]
                }),
    {
        let mut i: usize = 0;
        while i < self.contexts.len()
            invariant
                old(self).wf(),
                i <= self.contexts.len(),
                self.contexts.len() == old(self).contexts.len(),
                self.routines == old(self).routines,
                self.next_id == old(self).next_id,
                forall|c: int|
                    0 <= c < i ==> self.contexts[c] == (Context {
                        is_running: false,
                        ..old(self).contexts[c]
                    }),
                forall|c: int|
                    i <= c < self.contexts.len() ==> self.contexts[c] == old(self).contexts[c],
            decreases self.contexts.len() - i,
        {
            let mut ctx = self.contexts.remove(i);
            ctx.is_running = false;
            self.contexts.insert(i, ctx);
            i = i + 1;
        }
        proof {
            old(self).lemma_same_routines_lookup(*self);
            assert(self.wf()) by {
                assert forall|c2: int, k: int|
                    0 <= c2 < self.contexts.len() && 0 <= k
                        < self.contexts[c2].pending_routines@.len() implies self.pending_entry_ok(
                    c2,
                    #[trigger] self.contexts[c2].pending_routines@[k],
                ) by {
                    assert(self.contexts[c2].pending_routines@
                        == old(self).contexts[c2].pending_routines@);
                    assert(old(self).pending_entry_ok(
                        c2,
                        old(self).contexts[c2].pending_routines@[k],
                    ));
                }
                assert forall|c2: int, k: int|
                    0 <= c2 < self.contexts.len() && 0 <= k
                        < self.contexts[c2].suspended_routines@.len()
                    implies self.suspended_entry_ok(
                    c2,
                    #[trigger] self.contexts[c2].suspended_routines@[k],
                ) by {
                    assert(self.contexts[c2].suspended_routines@
                        == old(self).contexts[c2].suspended_routines@);
                    assert(old(self).suspended_entry_ok(
                        c2,
                        old(self).contexts[c2].suspended_routines@[k],
                    ));
                }
                assert forall|c2: int| 0 <= c2 < self.contexts.len() implies {
                    &&& nodup(#[trigger] self.contexts[c2].pending_routines@)
                    &&& nodup(self.contexts[c2].suspended_routines@)
                    &&& disjoint(
                        self.contexts[c2].pending_routines@,
                        self.contexts[c2].suspended_routines@,
                    )
                } by {
                    assert(self.contexts[c2].pending_routines@
                        == old(self).contexts[c2].pending_routines@);
                    assert(self.contexts[c2].suspended_routines@
                        == old(self).contexts[c2].suspended_routines@);
                }
            }
        }
    }

    /// How many routines are ready on this context.
    pub fn pending_count(&self, context_id: usize) -> (r: usize)
        requires
            context_id < self.contexts.len(),
        ensures
            r == self.contexts[context_id as int].pending_routines@.len(),
    {
        self.contexts[context_id].pending_routines.len()
    }

    /// How many routines are parked on this context.
    pub fn suspended_count(&self, context_id: usize) -> (r: usize)
        requires
            context_id < self.contexts.len(),
        ensures
            r == self.contexts[context_id as int].suspended_routines@.len(),
    {
        self.contexts[context_id].suspended_routines.len()
    }

    /// Whether shutdown has not been requested on this context.
    pub fn is_running(&self, context_id: usize) -> (r: bool)
        requires
            context_id < self.contexts.len(),
        ensures
            r == self.contexts[context_id as int].is_running,
    {
        self.contexts[context_id].is_running
    }

    /// The context the registered routine with this id is pinned to, or
    /// `None` when it has already terminated and left the registry.
    pub fn routine_context(&self, id: u64) -> (r: Option<usize>)
        requires
            self.ids_unique(),
        ensures
            match r {
                Some(c) => self.registered(id) && c == self.routine_of(id).context_id,
                None => !self.registered(id),
            },
    {
        match self.find_routine(id) {
            Some(i) => {
                proof {
                    self.lemma_index_of(i as int);
                }
                Some(self.routines[i].context_id())
            },
            None => None,
        }
    }

    /// With unique ids, the registry index of `routines[k].id` is `k`.
    pub proof fn lemma_index_of(self, k: int)
        requires
            self.ids_unique(),
            0 <= k < self.routines.len(),
        ensures
            self.registered(self.routines[k].id),
            self.index_of(self.routines[k].id) == k,
            self.routine_of(self.routines[k].id) == self.routines[k],
    {
        let id = self.routines[k].id;
        assert(self.registered(id));
        let j = self.index_of(id);
        assert(0 <= j < self.routines.len() && self.routines[j].id == id);
        if j != k {
            if j < k {
                assert(self.routines[j].id != self.routines[k].id);
            } else {
                assert(self.routines[k].id != self.routines[j].id);
            }
        }
    }
}

/// Schedule a new routine with no affinity preference: the form user code
/// calls. The worker becomes `id % N`.
pub fn spawn(scheduler: &mut Scheduler) -> (id: u64)
    requires
        old(scheduler).wf(),
        old(scheduler).next_id < u64::MAX,
    ensures
        final(scheduler).wf(),
        id == old(scheduler).next_id,
        final(scheduler).registered(id),
        final(scheduler).routine_of(id).state == RoutineState::Pending,
        final(scheduler).routine_of(id).context_id == spawn_context(
            id,
            usize::MAX,
            old(scheduler).contexts.len() as int,
        ),
        final(scheduler).contexts.len() == old(scheduler).contexts.len(),
        ({
            let c = spawn_context(id, usize::MAX, old(scheduler).contexts.len() as int);
            final(scheduler).contexts[c].pending_routines@
                == old(scheduler).contexts[c].pending_routines@.push(id)
        }),
        forall|id2: u64|
            old(scheduler).registered(id2) ==> #[trigger] final(scheduler).registered(id2)
                && final(scheduler).routine_of(id2) == old(scheduler).routine_of(id2),
{
    scheduler.spawn(usize::MAX)
}

/// Yield the current routine back to its worker without parking: the worker
/// will observe it still `Running` and requeue it. Nothing the routine can
/// observe changes — the scheduler state is preserved exactly.
pub fn defer(scheduler: &mut Scheduler, current_id: u64)
    requires
        old(scheduler).wf(),
        old(scheduler).registered(current_id),
        old(scheduler).routine_of(current_id).state == RoutineState::Running,
    ensures
        *final(scheduler) == *old(scheduler),
{
}

/// Block the caller until routine `id` terminates: register `promise_id` on
/// its completion list and report whether it was still registered. When it
/// was, the shell parks the caller on the promise's linked future; when it
/// was not, the routine is already gone and the caller returns at once.
/// A routine must not wait on itself — that would never return.
pub fn wait(scheduler: &mut Scheduler, current_id: u64, id: u64, promise_id: u64) -> (found: bool)
    requires
        old(scheduler).wf(),
        current_id != id,
    ensures
        final(scheduler).wf(),
        wait_post(*old(scheduler), *final(scheduler), id, promise_id, found),
{
    scheduler.wait(current_id, id, promise_id)
}

/// Record the current routine into `slot` and announce its park: the
/// primitive for building custom wakers. The shell yields the stack after
/// the announcement; a later `resume` of the recorded id completes the pair.
pub fn suspend_into(slot: &mut u64, scheduler: &mut Scheduler, current_id: u64)
    requires
        old(scheduler).wf(),
        old(scheduler).registered(current_id),
        old(scheduler).not_queued(current_id),
        old(scheduler).routine_of(current_id).state == RoutineState::Running,
    ensures
        *final(slot) == current_id,
        final(scheduler).wf(),
        final(scheduler).registered(current_id),
        final(scheduler).not_queued(current_id),
        final(scheduler).contexts == old(scheduler).contexts,
        final(scheduler).routine_of(current_id) == (Routine {
            state: RoutineState::PendingSuspend,
            ..old(scheduler).routine_of(current_id)
        }),
        forall|id2: u64|
            old(scheduler).registered(id2) && id2 != current_id
                ==> #[trigger] final(scheduler).routine_of(id2) == old(scheduler).routine_of(id2),
{
    *slot = current_id;
    scheduler.pending_suspend(current_id);
}

/// Law: a routine occupies at most one slot across every context's ready
/// and parked queues — two occupied slots holding the same id are the same
/// slot of the same queue of the same context.
pub proof fn lemma_queued_at_most_once(
    s: Scheduler,
    c1: int,
    c2: int,
    k1: int,
    k2: int,
    pending1: bool,
    pending2: bool,
)
    requires
        s.wf(),
        0 <= c1 < s.contexts.len(),
        0 <= c2 < s.contexts.len(),
        0 <= k1 < (if pending1 {
            s.contexts[c1].pending_routines@.len()
        } else {
            s.contexts[c1].suspended_routines@.len()
        }),
        0 <= k2 < (if pending2 {
            s.contexts[c2].pending_routines@.len()
        } else {
            s.contexts[c2].suspended_routines@.len()
        }),
        (if pending1 {
            s.contexts[c1].pending_routines@[k1]
        } else {
            s.contexts[c1].suspended_routines@[k1]
        }) == (if pending2 {
            s.contexts[c2].pending_routines@[k2]
        } else {
            s.contexts[c2].suspended_routines@[k2]
        }),
    ensures
        c1 == c2,
        pending1 == pending2,
        k1 == k2,
{
    let id = if pending1 {
        s.contexts[c1].pending_routines@[k1]
    } else {
        s.contexts[c1].suspended_routines@[k1]
    };
    assert(nodup(s.contexts[c1].pending_routines@));
    assert(nodup(s.contexts[c2].pending_routines@));
    if pending1 {
        assert(s.pending_entry_ok(c1, id));
    } else {
        assert(s.suspended_entry_ok(c1, id));
    }
    if pending2 {
        assert(s.pending_entry_ok(c2, id));
    } else {
        assert(s.suspended_entry_ok(c2, id));
    }
    assert(c1 == s.routine_of(id).context_id && c2 == s.routine_of(id).context_id);
    if pending1 != pending2 {
        assert(disjoint(s.contexts[c1].pending_routines@, s.contexts[c1].suspended_routines@));
    } else if pending1 {
        assert(nodup(s.contexts[c1].pending_routines@));
        if k1 < k2 {
            assert(s.contexts[c1].pending_routines@[k1] != s.contexts[c1].pending_routines@[k2]);
        } else if k2 < k1 {
            assert(s.contexts[c1].pending_routines@[k2] != s.contexts[c1].pending_routines@[k1]);
        }
    } else {
        assert(nodup(s.contexts[c1].suspended_routines@));
        if k1 < k2 {
            assert(s.contexts[c1].suspended_routines@[k1]
                != s.contexts[c1].suspended_routines@[k2]);
        } else if k2 < k1 {
            assert(s.contexts[c1].suspended_routines@[k2]
                != s.contexts[c1].suspended_routines@[k1]);
        }
    }
}

/// Law: shutdown completes exactly when every context's ready FIFO and
/// suspended queue are empty. Once [`Scheduler::stop`] has cleared the
/// running flags, every worker's poll answers `Exit` — and all of them do —
/// if and only if every context is drained.
pub proof fn lemma_shutdown_drains(s: Scheduler)
    requires
        s.wf(),
        forall|c: int| 0 <= c < s.contexts.len() ==> !(#[trigger] s.contexts[c]).is_running,
    ensures
        (forall|c: int|
            0 <= c < s.contexts.len() ==> ((#[trigger] s.contexts[c]).pending_routines@.len() == 0
                && s.contexts[c].suspended_routines@.len() == 0)) <==> (forall|c: int|
            0 <= c < s.contexts.len() ==> worker_exits(s, c)),
{
    if forall|c: int|
        0 <= c < s.contexts.len() ==> ((#[trigger] s.contexts[c]).pending_routines@.len() == 0
            && s.contexts[c].suspended_routines@.len() == 0) {
        assert forall|c: int| 0 <= c < s.contexts.len() implies worker_exits(s, c) by {
            assert(s.contexts[c].pending_routines@.len() == 0);
        }
    }
    if forall|c: int| 0 <= c < s.contexts.len() ==> worker_exits(s, c) {
        assert forall|c: int| 0 <= c < s.contexts.len() implies ((
        #[trigger] s.contexts[c]).pending_routines@.len() == 0
            && s.contexts[c].suspended_routines@.len() == 0) by {
            assert(worker_exits(s, c));
        }
    }
}

/// The condition under which [`Scheduler::worker_poll`] answers `Exit` for
/// context `c`: shutdown requested, nothing ready, nothing parked.
pub open spec fn worker_exits(s: Scheduler, c: int) -> bool {
    &&& !s.contexts[c].is_running
    &&& s.contexts[c].pending_routines@.len() == 0
    &&& s.contexts[c].suspended_routines@.len() == 0
}

/// Law (no lost wakeup, resume first): a routine has announced its park
/// when a resume arrives — the resume finds it in no suspended queue and
/// latches the pending resume; the park then observes the latch and puts
/// the routine straight back on its context's ready FIFO.
pub proof fn lemma_park_race_resume_first(pre: Scheduler, mid: Scheduler, post: Scheduler, id: u64)
    requires
        pre.wf(),
        pre.registered(id),
        pre.not_queued(id),
        pre.routine_of(id).state == RoutineState::PendingSuspend,
        resume_post(pre, mid, id, false),
        mid.wf(),
        mid.registered(id),
        suspend_post(mid, post, id, true),
    ensures
        post.contexts[pre.routine_of(id).context_id as int].pending_routines@.last() == id,
        post.contexts[pre.routine_of(id).context_id as int].pending_routines@.contains(id),
{
    let c = pre.routine_of(id).context_id as int;
    pre.lemma_index_of(pre.index_of(id));
    pre.lemma_lookup_after_update(mid, pre.index_of(id));
    assert(mid.routine_of(id) == (Routine { is_pending_resume: true, ..pre.routine_of(id) }));
    let newpen = post.contexts[c].pending_routines@;
    assert(newpen == mid.contexts[c].pending_routines@.push(id));
    assert(newpen[newpen.len() - 1] == id);
}

/// Law (no lost wakeup, park first): the park completes and the routine
/// sits in its context's suspended queue; the resume that follows finds it
/// there and moves it to the ready FIFO.
pub proof fn lemma_park_race_park_first(pre: Scheduler, mid: Scheduler, post: Scheduler, id: u64)
    requires
        pre.wf(),
        pre.registered(id),
        pre.not_queued(id),
        pre.routine_of(id).state == RoutineState::PendingSuspend,
        !pre.routine_of(id).is_pending_resume,
        suspend_post(pre, mid, id, false),
        mid.wf(),
        mid.registered(id),
        mid.routine_of(id).context_id == pre.routine_of(id).context_id,
        resume_post(mid, post, id, mid.contexts[pre.routine_of(id).context_id as int]
            .suspended_routines@.contains(id)),
    ensures
        post.contexts[pre.routine_of(id).context_id as int].pending_routines@.last() == id,
        post.contexts[pre.routine_of(id).context_id as int].pending_routines@.contains(id),
{
    let c = pre.routine_of(id).context_id as int;
    let midsus = mid.contexts[c].suspended_routines@;
    assert(midsus == pre.contexts[c].suspended_routines@.push(id));
    assert(midsus[midsus.len() - 1] == id);
    assert(midsus.contains(id));
    let newpen = post.contexts[c].pending_routines@;
    assert(newpen == mid.contexts[c].pending_routines@.push(id));
    assert(newpen[newpen.len() - 1] == id);
}

/// Law: a completion promise registered by `wait` is among the promises
/// handed out for resolution when the routine is destroyed, provided the
/// steps in between left the routine's completion list alone.
pub proof fn lemma_wait_promise_delivered(
    s1: Scheduler,
    s2: Scheduler,
    s3: Scheduler,
    id: u64,
    promise_id: u64,
    promises: Seq<u64>,
)
    requires
        s1.wf(),
        wait_post(s1, s2, id, promise_id, true),
        s3.registered(id),
        s3.routine_of(id).wait_promises@ == s2.routine_of(id).wait_promises@,
        promises == s3.routine_of(id).wait_promises@,
    ensures
        promises.contains(promise_id),
{
    let w = s2.routine_of(id).wait_promises@;
    assert(w[w.len() - 1] == promise_id);
    assert(promises[promises.len() - 1] == promise_id);
}

} // verus!
