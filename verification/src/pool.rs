//! The worker pool's bookkeeping: which task starts next, and when the
//! caller has to wait for one to end.
//!
//! The pool itself runs nothing. The caller asks it what to do, starts the
//! task that it names, and reports each task that has ended.

use vstd::prelude::*;

verus! {

/// What the caller of the pool does next.
#[derive(Clone, Copy, Debug, PartialEq, Eq, Structural)]
pub enum PoolAction {
    /// Start the task with this index; it holds a permit until it is
    /// reported as finished.
    Launch(usize),
    /// Every permit is taken, or every task is started: wait for a running
    /// task to end and report it.
    Wait,
    /// Every task has been started and has ended.
    Done,
}

/// The counters of a pool.
pub struct PoolView {
    /// The number of tasks.
    pub total: nat,
    /// The number of permits.
    pub limit: nat,
    /// How many tasks have been started.
    pub launched: nat,
    /// How many tasks have ended.
    pub finished: nat,
}

impl PoolView {
    /// The number of tasks that hold a permit.
    pub open spec fn in_flight(self) -> nat {
        (self.launched - self.finished) as nat
    }

    /// The counters are in order, and no more tasks run than there are
    /// permits.
    pub open spec fn valid(self) -> bool {
        &&& self.limit >= 1
        &&& self.finished <= self.launched <= self.total
        &&& self.in_flight() <= self.limit
    }

    /// A task may start: one is left, and a permit is free.
    pub open spec fn can_launch(self) -> bool {
        self.launched < self.total && self.in_flight() < self.limit
    }

    /// What the caller does next.
    pub open spec fn next_action(self) -> PoolAction {
        if self.can_launch() {
            PoolAction::Launch(self.launched as usize)
        } else if self.in_flight() > 0 {
            PoolAction::Wait
        } else {
            PoolAction::Done
        }
    }

    /// The counters after the next task has started.
    pub open spec fn launch(self) -> PoolView {
        PoolView { launched: self.launched + 1, ..self }
    }

    /// The counters after a running task has ended.
    pub open spec fn finish(self) -> PoolView {
        PoolView { finished: self.finished + 1, ..self }
    }

    /// The counters after the caller has followed `next_action` once: a
    /// launch starts the task, anything else changes nothing.
    pub open spec fn step(self) -> PoolView {
        if self.can_launch() {
            self.launch()
        } else {
            self
        }
    }
}

/// What the caller of a pool does to it.
#[derive(Clone, Copy, Debug, PartialEq, Eq, Structural)]
pub enum PoolEvent {
    /// The caller asks what to do next, and does it.
    Asked,
    /// The caller reports that a task has ended.
    Ended,
}

/// The counters after a run of events, from `start` on. A report of an end
/// while no task runs changes nothing.
pub open spec fn after_events(start: PoolView, events: Seq<PoolEvent>) -> PoolView
    decreases events.len(),
{
    if events.len() == 0 {
        start
    } else {
        let before = after_events(start, events.drop_last());
        match events.last() {
            PoolEvent::Asked => before.step(),
            PoolEvent::Ended => if before.in_flight() > 0 {
                before.finish()
            } else {
                before
            },
        }
    }
}

/// A pool that admits tasks in the order of their indices and lets at most
/// `limit` of them run at a time.
pub struct WorkerPool {
    total: usize,
    limit: usize,
    launched: usize,
    finished: usize,
}

impl View for WorkerPool {
    type V = PoolView;

    closed spec fn view(&self) -> PoolView {
        PoolView {
            total: self.total as nat,
            limit: self.limit as nat,
            launched: self.launched as nat,
            finished: self.finished as nat,
        }
    }
}

impl WorkerPool {
    #[verifier::type_invariant]
    spec fn sound(&self) -> bool {
        self@.valid()
    }

    /// A pool for `total` tasks with `limit` permits, none started yet.
    pub fn new(total: usize, limit: usize) -> (pool: Self)
        requires
            limit >= 1,
        ensures
            pool@ == (PoolView { total: total as nat, limit: limit as nat, launched: 0, finished: 0 }),
            pool@.valid(),
    {
        WorkerPool { total, limit, launched: 0, finished: 0 }
    }

    /// The number of tasks that hold a permit; never more than the limit.
    pub fn in_flight(&self) -> (running: usize)
        ensures
            running == self@.in_flight(),
            running <= self@.limit,
            self@.valid(),
    {
        proof {
            use_type_invariant(self);
        }
        self.launched - self.finished
    }

    /// The number of permits.
    pub fn limit(&self) -> (limit: usize)
        ensures
            limit == self@.limit,
    {
        self.limit
    }

    /// Says what to do next, and counts the task as started where it says to
    /// launch one.
    pub fn next(&mut self) -> (action: PoolAction)
        ensures
            old(self)@.valid(),
            final(self)@.valid(),
            action == old(self)@.next_action(),
            final(self)@ == old(self)@.step(),
    {
        proof {
            use_type_invariant(&*self);
        }
        if self.launched < self.total && self.launched - self.finished < self.limit {
            let index = self.launched;
            self.launched = self.launched + 1;
            PoolAction::Launch(index)
        } else if self.launched - self.finished > 0 {
            PoolAction::Wait
        } else {
            PoolAction::Done
        }
    }

    /// Records that a running task has ended, which frees its permit. Where
    /// no task runs, nothing changes and the result is `false`.
    pub fn task_finished(&mut self) -> (counted: bool)
        ensures
            final(self)@.valid(),
            counted == (old(self)@.in_flight() > 0),
            counted ==> final(self)@ == old(self)@.finish(),
            !counted ==> final(self)@ == old(self)@,
    {
        proof {
            use_type_invariant(&*self);
        }
        if self.launched - self.finished > 0 {
            self.finished = self.finished + 1;
            true
        } else {
            false
        }
    }
}

/// No step of a pool lets more tasks run than there are permits: from
/// valid counters, starting the task that `next_action` names and ending a
/// running task both give valid counters again.
pub proof fn lemma_pool_keeps_limit(pool: PoolView)
    requires
        pool.valid(),
    ensures
        pool.in_flight() <= pool.limit,
        pool.step().valid(),
        pool.step().in_flight() <= pool.limit,
        pool.in_flight() > 0 ==> pool.finish().valid(),
{
}

/// At no time do more tasks hold a permit than there are permits: whatever
/// the caller asks and reports, and in whatever order, the number of running
/// tasks stays within the limit.
pub proof fn lemma_pool_never_over_limit(total: nat, limit: nat, events: Seq<PoolEvent>)
    requires
        limit >= 1,
    ensures
        ({
            let start = PoolView { total, limit, launched: 0, finished: 0 };
            &&& after_events(start, events).valid()
            &&& after_events(start, events).in_flight() <= limit
            &&& after_events(start, events).limit == limit
            &&& after_events(start, events).total == total
        }),
    decreases events.len(),
{
    if events.len() > 0 {
        lemma_pool_never_over_limit(total, limit, events.drop_last());
    }
}

/// Tasks are admitted in the order of their indices: the pool launches the
/// task whose index is the number of tasks launched before it.
pub proof fn lemma_pool_admits_in_order(pool: PoolView)
    requires
        pool.valid(),
        pool.total <= usize::MAX,
    ensures
        pool.next_action() matches PoolAction::Launch(index) ==> index == pool.launched
            && pool.step().launched == index + 1,
        pool.next_action() == PoolAction::Done <==> pool.finished == pool.total,
{
}

} // verus!
