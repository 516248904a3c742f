//! The life of one segment: fetch, retry after a pause, give up.
//!
//! The caller does the fetching and the sleeping, and tells the state how
//! each went.

use vstd::prelude::*;

verus! {

/// How often a segment is fetched at most.
pub const MAX_ATTEMPTS: u32 = 3;

/// The pause before a segment is fetched again, in seconds.
pub const RETRY_DELAY_SECS: u64 = 2;

/// Where a segment stands.
#[derive(Clone, Copy, Debug, PartialEq, Eq, Structural)]
pub enum SegmentState {
    /// Not fetched yet.
    Pending,
    /// A fetch is under way.
    Running,
    /// The last fetch failed; the pause before the next step is under way.
    Retrying,
    /// A fetch went through.
    Succeeded,
    /// Every attempt failed.
    Exhausted,
}

/// What happened to a segment.
#[derive(Clone, Copy, Debug, PartialEq, Eq, Structural)]
pub enum FetchEvent {
    /// The segment's task has started.
    Begin,
    /// The fetch went through and its body was written.
    Fetched,
    /// The request or the stream of the fetch failed.
    Failed,
    /// The pause is over.
    Slept,
}

/// What the caller does next for a segment.
#[derive(Clone, Copy, Debug, PartialEq, Eq, Structural)]
pub enum FetchAction {
    /// Send the request and write the body.
    Fetch,
    /// Report the failed attempt with this number, counted from 0, and
    /// pause for this many seconds.
    Pause(u32, u64),
    /// The segment is there: nothing more to do.
    Complete,
    /// Report that the segment is given up: nothing more to do.
    GiveUp,
    /// The event does not fit the state: nothing to do.
    Nothing,
}

/// The state of a segment together with its counts.
pub struct FetchView {
    pub state: SegmentState,
    /// How many fetches have failed.
    pub failures: nat,
    /// How many fetches were started.
    pub fetches: nat,
}

impl FetchView {
    /// The counts fit the state, and no more fetches were started than are
    /// allowed.
    pub open spec fn valid(self) -> bool {
        &&& self.fetches <= MAX_ATTEMPTS
        &&& match self.state {
            SegmentState::Pending => self.failures == 0 && self.fetches == 0,
            SegmentState::Running => self.fetches == self.failures + 1,
            SegmentState::Retrying => self.fetches == self.failures && self.failures >= 1,
            SegmentState::Succeeded => self.fetches == self.failures + 1,
            SegmentState::Exhausted => self.fetches == self.failures && self.failures
                == MAX_ATTEMPTS,
        }
    }

    /// The state is final: no event changes it.
    pub open spec fn terminal(self) -> bool {
        self.state == SegmentState::Succeeded || self.state == SegmentState::Exhausted
    }

    /// The state and the counts after `event`.
    pub open spec fn after(self, event: FetchEvent) -> FetchView {
        match (self.state, event) {
            (SegmentState::Pending, FetchEvent::Begin) => FetchView {
                state: SegmentState::Running,
                fetches: self.fetches + 1,
                ..self
            },
            (SegmentState::Running, FetchEvent::Fetched) => FetchView {
                state: SegmentState::Succeeded,
                ..self
            },
            (SegmentState::Running, FetchEvent::Failed) => FetchView {
                state: SegmentState::Retrying,
                failures: self.failures + 1,
                ..self
            },
            (SegmentState::Retrying, FetchEvent::Slept) => if self.failures < MAX_ATTEMPTS {
                FetchView { state: SegmentState::Running, fetches: self.fetches + 1, ..self }
            } else {
                FetchView { state: SegmentState::Exhausted, ..self }
            },
            _ => self,
        }
    }

    /// What the caller does in answer to `event`.
    pub open spec fn action(self, event: FetchEvent) -> FetchAction {
        match (self.state, event) {
            (SegmentState::Pending, FetchEvent::Begin) => FetchAction::Fetch,
            (SegmentState::Running, FetchEvent::Fetched) => FetchAction::Complete,
            (SegmentState::Running, FetchEvent::Failed) => FetchAction::Pause(
                self.failures as u32,
                RETRY_DELAY_SECS,
            ),
            (SegmentState::Retrying, FetchEvent::Slept) => if self.failures < MAX_ATTEMPTS {
                FetchAction::Fetch
            } else {
                FetchAction::GiveUp
            },
            _ => FetchAction::Nothing,
        }
    }
}

/// The state and the counts of a segment that has not been fetched.
pub open spec fn fresh_fetch() -> FetchView {
    FetchView { state: SegmentState::Pending, failures: 0, fetches: 0 }
}

/// The state and the counts after a run of events, from `start` on.
pub open spec fn after_all(start: FetchView, events: Seq<FetchEvent>) -> FetchView
    decreases events.len(),
{
    if events.len() == 0 {
        start
    } else {
        after_all(start, events.drop_last()).after(events.last())
    }
}

/// How many fetches the caller is told to make in a run of events, from
/// `start` on.
pub open spec fn fetches_asked(start: FetchView, events: Seq<FetchEvent>) -> nat
    decreases events.len(),
{
    if events.len() == 0 {
        0
    } else {
        let before = fetches_asked(start, events.drop_last());
        if after_all(start, events.drop_last()).action(events.last()) == FetchAction::Fetch {
            before + 1
        } else {
            before
        }
    }
}

/// The retry state of one segment.
pub struct SegmentFetch {
    state: SegmentState,
    failures: u32,
    fetches: u32,
}

impl View for SegmentFetch {
    type V = FetchView;

    closed spec fn view(&self) -> FetchView {
        FetchView {
            state: self.state,
            failures: self.failures as nat,
            fetches: self.fetches as nat,
        }
    }
}

impl SegmentFetch {
    #[verifier::type_invariant]
    spec fn sound(&self) -> bool {
        self@.valid()
    }

    /// The state of a segment that has not been fetched.
    pub fn new() -> (fetch: Self)
        ensures
            fetch@ == fresh_fetch(),
            fetch@.valid(),
    {
        SegmentFetch { state: SegmentState::Pending, failures: 0, fetches: 0 }
    }

    /// Where the segment stands.
    pub fn state(&self) -> (state: SegmentState)
        ensures
            state == self@.state,
    {
        self.state
    }

    /// How many fetches were started; never more than `MAX_ATTEMPTS`.
    pub fn fetches(&self) -> (count: u32)
        ensures
            count == self@.fetches,
            count <= MAX_ATTEMPTS,
            self@.valid(),
    {
        proof {
            use_type_invariant(self);
        }
        self.fetches
    }

    /// Takes in what happened and says what to do next.
    pub fn advance(&mut self, event: FetchEvent) -> (action: FetchAction)
        ensures
            old(self)@.valid(),
            final(self)@.valid(),
            final(self)@ == old(self)@.after(event),
            action == old(self)@.action(event),
    {
        proof {
            use_type_invariant(&*self);
        }
        let state = self.state;
        let failures = self.failures;
        let fetches = self.fetches;
        match (state, event) {
            (SegmentState::Pending, FetchEvent::Begin) => {
                *self = SegmentFetch { state: SegmentState::Running, failures, fetches: fetches + 1 };
                FetchAction::Fetch
            },
            (SegmentState::Running, FetchEvent::Fetched) => {
                *self = SegmentFetch { state: SegmentState::Succeeded, failures, fetches };
                FetchAction::Complete
            },
            (SegmentState::Running, FetchEvent::Failed) => {
                *self = SegmentFetch { state: SegmentState::Retrying, failures: failures + 1, fetches };
                FetchAction::Pause(failures, RETRY_DELAY_SECS)
            },
            (SegmentState::Retrying, FetchEvent::Slept) => {
                if failures < MAX_ATTEMPTS {
                    *self = SegmentFetch {
                        state: SegmentState::Running,
                        failures,
                        fetches: fetches + 1,
                    };
                    FetchAction::Fetch
                } else {
                    *self = SegmentFetch { state: SegmentState::Exhausted, failures, fetches };
                    FetchAction::GiveUp
                }
            },
            _ => FetchAction::Nothing,
        }
    }
}

/// A segment is fetched at most `MAX_ATTEMPTS` times, whatever happens: no
/// event takes valid counts to invalid ones, so the number of fetches that
/// were started never passes the limit.
pub proof fn lemma_fetches_bounded(fetch: FetchView, event: FetchEvent)
    requires
        fetch.valid(),
    ensures
        fetch.after(event).valid(),
        fetch.after(event).fetches <= MAX_ATTEMPTS,
        fetch.fetches <= fetch.after(event).fetches <= fetch.fetches + 1,
{
}

/// Whatever happens to a segment, and in whatever order, the caller is told
/// to fetch it at most `MAX_ATTEMPTS` times.
pub proof fn lemma_at_most_three_fetches(events: Seq<FetchEvent>)
    ensures
        after_all(fresh_fetch(), events).valid(),
        fetches_asked(fresh_fetch(), events) == after_all(fresh_fetch(), events).fetches,
        fetches_asked(fresh_fetch(), events) <= MAX_ATTEMPTS,
    decreases events.len(),
{
    if events.len() > 0 {
        lemma_at_most_three_fetches(events.drop_last());
        lemma_fetches_bounded(after_all(fresh_fetch(), events.drop_last()), events.last());
    }
}

/// A fetch that is not the first follows a pause of `RETRY_DELAY_SECS`
/// seconds: only the start of the task and the end of a pause lead to a
/// fetch, every failure is answered with a pause of that length, and a
/// state that is final stays as it is.
pub proof fn lemma_retries_are_spaced(fetch: FetchView, event: FetchEvent)
    requires
        fetch.valid(),
    ensures
        fetch.action(event) == FetchAction::Fetch ==> (fetch.state == SegmentState::Pending
            && event == FetchEvent::Begin) || (fetch.state == SegmentState::Retrying && event
            == FetchEvent::Slept),
        fetch.state == SegmentState::Running && event == FetchEvent::Failed ==> fetch.action(event)
            == FetchAction::Pause(fetch.failures as u32, RETRY_DELAY_SECS) && fetch.after(
            event,
        ).state == SegmentState::Retrying,
        fetch.action(event) matches FetchAction::Pause(_, seconds) ==> seconds >= 2,
        fetch.terminal() ==> fetch.after(event) == fetch && fetch.action(event)
            == FetchAction::Nothing,
{
}

/// The position in the output at which the next chunk of a body goes.
pub struct WriteCursor {
    start: u64,
    offset: u64,
}

/// The content of a [`WriteCursor`].
pub struct CursorView {
    /// Where the body starts in the output.
    pub start: nat,
    /// Where the next chunk goes.
    pub offset: nat,
}

impl View for WriteCursor {
    type V = CursorView;

    closed spec fn view(&self) -> CursorView {
        CursorView { start: self.start as nat, offset: self.offset as nat }
    }
}

impl WriteCursor {
    #[verifier::type_invariant]
    spec fn sound(&self) -> bool {
        self.start <= self.offset
    }

    /// A cursor for a body that starts at `start`.
    pub fn new(start: u64) -> (cursor: Self)
        ensures
            cursor@ == (CursorView { start: start as nat, offset: start as nat }),
    {
        WriteCursor { start, offset: start }
    }

    /// Where the next chunk goes.
    pub fn offset(&self) -> (offset: u64)
        ensures
            offset == self@.offset,
            self@.start <= self@.offset,
    {
        proof {
            use_type_invariant(self);
        }
        self.offset
    }

    /// How many bytes have been placed.
    pub fn written(&self) -> (bytes: u64)
        ensures
            bytes == self@.offset - self@.start,
    {
        proof {
            use_type_invariant(self);
        }
        self.offset - self.start
    }

    /// Gives the position for a chunk of `length` bytes and moves on by
    /// `length`. Where the chunk would end beyond what 64 bits address, the
    /// cursor stays and the result is `None`.
    pub fn place(&mut self, length: u64) -> (position: Option<u64>)
        ensures
            final(self)@.start == old(self)@.start,
            match position {
                Some(at) => {
                    &&& at == old(self)@.offset
                    &&& final(self)@.offset == old(self)@.offset + length
                },
                None => {
                    &&& old(self)@.offset + length > u64::MAX
                    &&& final(self)@ == old(self)@
                },
            },
    {
        proof {
            use_type_invariant(&*self);
        }
        if length > u64::MAX - self.offset {
            None
        } else {
            let at = self.offset;
            self.offset = self.offset + length;
            Some(at)
        }
    }
}

} // verus!
