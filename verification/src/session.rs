//! The measurement protocol as a state machine.
//!
//! A `GroupSet` decides what has to happen next: open a group, open a
//! counter in it, enable the group, invoke the workload, disable the group,
//! read it, release everything. A driver performs each action against the
//! operating system and hands back what came of it. Whatever the driver
//! reports, the set asks for every handle to be released before it gives an
//! outcome.

use crate::counter::CounterSpec;
use crate::failure::{classify_open_error, open_error, Failure, RunError};
use crate::plan::{group_views, joined, partition, plan_groups};
use crate::plan::{lemma_joined_prefix_distinct, lemma_joined_step};
use crate::plan::{lemma_partition_covers, lemma_partition_representable};
use crate::reading::{as_map, complete, keys, lemma_as_map, resolve, resolved, Counts, RawReading};
use vstd::prelude::*;

verus! {

/// Where a group set stands. Every phase but `Ready` and `Closed` waits for
/// the driver to report on one action.
#[derive(Clone, Copy, Debug, PartialEq, Eq, Structural)]
pub enum Phase {
    /// The leader of the current group is being opened.
    OpenGroup,
    /// The next counter of the current group is being opened.
    OpenCounter,
    /// Every counter is open and disabled; nothing has been measured.
    Ready,
    /// The current group is being enabled.
    Enable,
    /// The workload is running with the current group enabled.
    Invoke,
    /// The current group is being disabled after the workload.
    Disable,
    /// The current group is being read.
    Read,
    /// The current group is being disabled after a failure.
    Abort,
    /// Every handle is being released.
    Release,
    /// Nothing is held any more.
    Closed,
}

/// What the driver has to do next.
#[derive(Clone, Copy, Debug, PartialEq, Eq, Structural)]
pub enum Action {
    /// Create the group with this index.
    OpenGroup { group: usize },
    /// Open a counter for `spec` as the next member of the group.
    OpenCounter { group: usize, spec: CounterSpec },
    /// Start all counters of the group at once.
    Enable { group: usize },
    /// Call the workload, once.
    Invoke,
    /// Stop all counters of the group at once.
    Disable { group: usize },
    /// Read the counts of the group.
    Read { group: usize },
    /// Release every counter and every group that was opened.
    Release,
}

/// What came of the action that the driver performed.
#[derive(Debug)]
pub enum Event {
    /// The action succeeded and has nothing to hand back.
    Done,
    /// The counter was opened and has this handle.
    Opened { handle: u64 },
    /// The group was read.
    Read(RawReading),
    /// The operating system refused, with this error number.
    Failed { errno: i32 },
}

/// The mathematical state of a group set.
#[verifier::ext_equal]
pub struct State {
    /// The events of each group.
    pub groups: Seq<Seq<CounterSpec>>,
    /// The handles of each group that is completely open.
    pub handles: Seq<Seq<u64>>,
    /// The handles of the group that is being opened.
    pub current: Seq<u64>,
    pub phase: Phase,
    /// The group that the phase is about.
    pub group: usize,
    /// How many group leaders the driver holds.
    pub leaders: usize,
    /// How many times the workload has run to its end.
    pub invocations: usize,
    /// The counts merged so far.
    pub counts: Seq<(CounterSpec, u64)>,
    pub failure: Option<Failure>,
}

impl State {
    /// Nothing has been measured and nothing has failed.
    pub open spec fn fresh(self) -> bool {
        &&& self.failure is None
        &&& self.invocations == 0
        &&& self.counts.len() == 0
    }

    /// Every group is completely open.
    pub open spec fn opened(self) -> bool {
        &&& self.handles.len() == self.groups.len()
        &&& self.current.len() == 0
        &&& self.leaders == self.groups.len()
    }

    /// The counts of the groups before the current one are merged, and
    /// nothing has failed.
    pub open spec fn measuring(self, invocations: int) -> bool {
        &&& self.opened()
        &&& self.failure is None
        &&& self.group < self.groups.len()
        &&& self.invocations == invocations
        &&& keys(self.counts) == joined(self.groups.take(self.group as int))
    }

    /// The workload has run once for every group and every count is merged.
    pub open spec fn measured(self) -> bool {
        &&& self.failure is None
        &&& self.invocations == self.groups.len()
        &&& keys(self.counts) == joined(self.groups)
    }

    /// The driver holds no handle.
    pub open spec fn holds_nothing(self) -> bool {
        &&& self.leaders == 0
        &&& self.handles.len() == 0
        &&& self.current.len() == 0
    }

    /// The state is one that a group set can be in.
    pub open spec fn wf(self) -> bool {
        &&& self.groups.len() <= usize::MAX
        &&& forall|g: int| 0 <= g < self.groups.len() ==> (#[trigger] self.groups[g]).len() > 0
        &&& joined(self.groups).no_duplicates()
        &&& self.handles.len() <= self.groups.len()
        &&& forall|g: int|
            0 <= g < self.handles.len() ==> (#[trigger] self.handles[g]).len()
                == self.groups[g].len()
        &&& self.leaders <= self.groups.len()
        &&& match self.phase {
            Phase::OpenGroup => {
                &&& self.fresh()
                &&& self.group < self.groups.len()
                &&& self.handles.len() == self.group
                &&& self.leaders == self.group
                &&& self.current.len() == 0
            },
            Phase::OpenCounter => {
                &&& self.fresh()
                &&& self.group < self.groups.len()
                &&& self.handles.len() == self.group
                &&& self.leaders == self.group + 1
                &&& self.current.len() < self.groups[self.group as int].len()
            },
            Phase::Ready => self.fresh() && self.opened() && self.group == 0,
            Phase::Enable | Phase::Invoke => self.measuring(self.group as int),
            Phase::Disable | Phase::Read => self.measuring(self.group + 1),
            Phase::Abort => {
                &&& self.opened()
                &&& self.failure is Some
                &&& self.group < self.groups.len()
            },
            Phase::Release => self.failure is None ==> self.fresh() || self.measured(),
            Phase::Closed => {
                &&& self.holds_nothing()
                &&& self.failure is None ==> self.fresh() || self.measured()
            },
        }
    }

    /// The state with `failure` recorded, about to release every handle.
    pub open spec fn released_after(self, failure: Failure) -> State {
        State { phase: Phase::Release, failure: Some(failure), ..self }
    }

    /// The state with `failure` recorded, about to disable the group that
    /// is still enabled.
    pub open spec fn aborted_after(self, failure: Failure) -> State {
        State { phase: Phase::Abort, failure: Some(failure), ..self }
    }

    /// The state after one more counter of the current group was opened.
    pub open spec fn with_counter(self, handle: u64) -> State {
        let current = self.current.push(handle);
        if current.len() < self.groups[self.group as int].len() {
            State { current, ..self }
        } else if self.group + 1 < self.groups.len() {
            State {
                handles: self.handles.push(current),
                current: Seq::empty(),
                group: (self.group + 1) as usize,
                phase: Phase::OpenGroup,
                ..self
            }
        } else {
            State {
                handles: self.handles.push(current),
                current: Seq::empty(),
                group: 0,
                phase: Phase::Ready,
                ..self
            }
        }
    }

    /// The state after the current group was read.
    pub open spec fn with_reading(self, entries: Seq<(u64, u64)>) -> State {
        let group = self.group as int;
        if !complete(entries, self.handles[group]) {
            self.released_after(Failure::Run(RunError::IncompleteReading))
        } else {
            let counts = self.counts + resolved(self.groups[group], self.handles[group], entries);
            if self.group + 1 < self.groups.len() {
                State { counts, group: (self.group + 1) as usize, phase: Phase::Enable, ..self }
            } else {
                State { counts, phase: Phase::Release, ..self }
            }
        }
    }

    /// The state in which a group set for `specs` starts.
    pub open spec fn initial(specs: Seq<CounterSpec>) -> State {
        let groups = partition(specs);
        State {
            groups,
            handles: Seq::empty(),
            current: Seq::empty(),
            phase: if groups.len() > 0 {
                Phase::OpenGroup
            } else {
                Phase::Ready
            },
            group: 0,
            leaders: 0,
            invocations: 0,
            counts: Seq::empty(),
            failure: None,
        }
    }

    /// The action that the driver has to perform in this state, if any.
    pub open spec fn pending(self) -> Option<Action> {
        match self.phase {
            Phase::OpenGroup => Some(Action::OpenGroup { group: self.group }),
            Phase::OpenCounter => Some(
                Action::OpenCounter {
                    group: self.group,
                    spec: self.groups[self.group as int][self.current.len() as int],
                },
            ),
            Phase::Ready => None,
            Phase::Enable => Some(Action::Enable { group: self.group }),
            Phase::Invoke => Some(Action::Invoke),
            Phase::Disable => Some(Action::Disable { group: self.group }),
            Phase::Read => Some(Action::Read { group: self.group }),
            Phase::Abort => Some(Action::Disable { group: self.group }),
            Phase::Release => Some(Action::Release),
            Phase::Closed => None,
        }
    }

    /// The state after the driver reported `event` on the pending action.
    /// Where no action is pending the event changes nothing.
    pub open spec fn next(self, event: Event) -> State {
        match self.phase {
            Phase::OpenGroup => match event {
                Event::Done => State {
                    phase: Phase::OpenCounter,
                    leaders: (self.leaders + 1) as usize,
                    ..self
                },
                Event::Failed { errno } => self.released_after(Failure::Open(open_error(errno))),
                _ => self.released_after(Failure::Protocol),
            },
            Phase::OpenCounter => match event {
                Event::Opened { handle } => self.with_counter(handle),
                Event::Failed { errno } => self.released_after(Failure::Open(open_error(errno))),
                _ => self.released_after(Failure::Protocol),
            },
            Phase::Ready => self,
            Phase::Enable => match event {
                Event::Done => State { phase: Phase::Invoke, ..self },
                Event::Failed { errno } => self.released_after(Failure::Run(RunError::Io(errno))),
                _ => self.released_after(Failure::Protocol),
            },
            Phase::Invoke => match event {
                Event::Done => State {
                    phase: Phase::Disable,
                    invocations: (self.invocations + 1) as usize,
                    ..self
                },
                Event::Failed { errno } => self.aborted_after(Failure::Run(RunError::Io(errno))),
                _ => self.aborted_after(Failure::Protocol),
            },
            Phase::Disable => match event {
                Event::Done => State { phase: Phase::Read, ..self },
                Event::Failed { errno } => self.released_after(Failure::Run(RunError::Io(errno))),
                _ => self.released_after(Failure::Protocol),
            },
            Phase::Read => match event {
                Event::Read(reading) => self.with_reading(reading.entries@),
                Event::Failed { errno } => self.released_after(Failure::Run(RunError::Io(errno))),
                _ => self.released_after(Failure::Protocol),
            },
            Phase::Abort => State { phase: Phase::Release, ..self },
            Phase::Release => State {
                phase: Phase::Closed,
                leaders: 0,
                handles: Seq::empty(),
                current: Seq::empty(),
                ..self
            },
            Phase::Closed => self,
        }
    }

    /// The state after the caller asked for the measurement: from `Ready`
    /// the first group is enabled, or, where there is no group, everything
    /// is released. In any other phase the request changes nothing.
    pub open spec fn started(self) -> State {
        if self.phase != Phase::Ready {
            self
        } else if self.groups.len() > 0 {
            State { phase: Phase::Enable, group: 0, ..self }
        } else {
            State { phase: Phase::Release, ..self }
        }
    }

    /// The state after the caller gave the set up without measuring: from
    /// `Ready` everything is released. In any other phase the request
    /// changes nothing.
    pub open spec fn given_up(self) -> State {
        if self.phase != Phase::Ready {
            self
        } else {
            State { phase: Phase::Release, ..self }
        }
    }

    /// What the set has to show once it is closed.
    pub open spec fn outcome(self) -> Option<Result<Seq<(CounterSpec, u64)>, Failure>> {
        if self.phase != Phase::Closed {
            None
        } else {
            match self.failure {
                Some(failure) => Some(Err(failure)),
                None => Some(Ok(self.counts)),
            }
        }
    }
}

/// How many actions it takes to open the groups from index `from` on: one
/// for each group and one for each of its counters.
pub open spec fn open_steps(groups: Seq<Seq<CounterSpec>>, from: int) -> int
    decreases
        (if from < groups.len() {
            groups.len() - from
        } else {
            0
        }),
    when from >= 0
{
    if from >= groups.len() {
        0
    } else {
        1 + groups[from].len() + open_steps(groups, from + 1)
    }
}

/// An upper bound on the number of actions and requests after which a set
/// in state `s` is closed.
pub open spec fn steps_left(s: State) -> int {
    let n = s.groups.len() as int;
    let after = 4 * (n - s.group - 1) + 3;
    match s.phase {
        Phase::Closed => 0,
        Phase::Release => 1,
        Phase::Abort => 2,
        Phase::Read => after,
        Phase::Disable => after + 1,
        Phase::Invoke => after + 2,
        Phase::Enable => after + 3,
        Phase::Ready => 4 * n + 3,
        Phase::OpenCounter => 4 * n + 3 + open_steps(s.groups, s.group + 1) + (
        s.groups[s.group as int].len() - s.current.len()),
        Phase::OpenGroup => 4 * n + 3 + open_steps(s.groups, s.group as int),
    }
}

/// Opening takes no negative number of actions.
pub proof fn lemma_open_steps_nonnegative(groups: Seq<Seq<CounterSpec>>, from: int)
    requires
        from >= 0,
    ensures
        open_steps(groups, from) >= 0,
    decreases
        (if from < groups.len() {
            groups.len() - from
        } else {
            0
        }),
{
    if from < groups.len() {
        lemma_open_steps_nonnegative(groups, from + 1);
    }
}

/// Whatever the driver reports, the set stays in a state of the protocol.
pub proof fn lemma_next_keeps_wf(s: State, event: Event)
    requires
        s.wf(),
    ensures
        s.next(event).wf(),
{
    let t = s.next(event);
    match s.phase {
        Phase::OpenCounter => {
            if let Event::Opened { handle } = event {
                let current = s.current.push(handle);
                if current.len() >= s.groups[s.group as int].len() {
                    assert(t.handles =~= s.handles.push(current));
                }
            }
        },
        Phase::Read => {
            if let Event::Read(reading) = event {
                let g = s.group as int;
                if complete(reading.entries@, s.handles[g]) {
                    lemma_joined_step(s.groups, g);
                    assert(keys(t.counts) =~= keys(s.counts) + s.groups[g]);
                    if g + 1 == s.groups.len() {
                        assert(s.groups.take(g + 1) =~= s.groups);
                    }
                }
            }
        },
        _ => {},
    }
}

/// Every report of the driver brings the set closer to being closed: no
/// sequence of events, failures included, keeps it from releasing what it
/// holds.
pub proof fn lemma_every_step_makes_progress(s: State, event: Event)
    requires
        s.wf(),
        s.pending() is Some,
    ensures
        0 <= steps_left(s.next(event)) < steps_left(s),
{
    let g = s.group as int;
    lemma_open_steps_nonnegative(s.groups, g);
    lemma_open_steps_nonnegative(s.groups, g + 1);
    lemma_open_steps_nonnegative(s.groups, g + 2);
}

/// A request in the `Ready` phase brings the set closer to being closed
/// too, and only a closed set has no step left.
pub proof fn lemma_requests_make_progress(s: State)
    requires
        s.wf(),
    ensures
        s.phase == Phase::Ready ==> 0 <= steps_left(s.started()) < steps_left(s),
        s.phase == Phase::Ready ==> 0 <= steps_left(s.given_up()) < steps_left(s),
        steps_left(s) == 0 <==> s.phase == Phase::Closed,
        steps_left(s) >= 0,
{
    let g = s.group as int;
    lemma_open_steps_nonnegative(s.groups, g);
    lemma_open_steps_nonnegative(s.groups, g + 1);
}

/// After a failure the set closes within two more reports, and what it
/// shows then is that failure.
pub proof fn lemma_failure_is_surfaced_after_release(s: State, first: Event, second: Event)
    requires
        s.wf(),
        s.failure is Some,
    ensures
        steps_left(s) <= 2,
        s.next(first).failure == s.failure,
        s.next(first).next(second).phase == Phase::Closed,
        s.next(first).next(second).holds_nothing(),
        s.next(first).next(second).outcome() == Some(
            Err::<Seq<(CounterSpec, u64)>, Failure>(s.failure.unwrap()),
        ),
{
}

/// A closed set holds no handle, and counts are shown by a closed set only.
pub proof fn lemma_outcome_only_when_released(s: State)
    requires
        s.wf(),
    ensures
        s.outcome() is Some ==> s.holds_nothing(),
        s.outcome() is Some <==> s.phase == Phase::Closed,
{
}

/// A group is read only after the workload has run under it and the group
/// has been disabled again: no count is taken outside the measured window.
pub proof fn lemma_read_follows_the_workload(s: State, event: Event)
    requires
        s.wf(),
    ensures
        s.pending() == Some(Action::Read { group: s.group }) ==> s.invocations == s.group + 1,
        s.next(event).phase == Phase::Read ==> s.phase == Phase::Disable,
        s.next(event).phase == Phase::Disable ==> s.phase == Phase::Invoke,
        s.next(event).phase == Phase::Invoke ==> s.phase == Phase::Enable,
{
}

/// Opening a set and giving it up without measuring leaves nothing held:
/// the request leads to the release, and after the release the set is
/// closed with no handle, no count and no failure.
pub proof fn lemma_release_without_run(s: State, event: Event)
    requires
        s.wf(),
        s.phase == Phase::Ready,
    ensures
        s.given_up().pending() == Some(Action::Release),
        s.given_up().next(event).phase == Phase::Closed,
        s.given_up().next(event).holds_nothing(),
        s.given_up().next(event).outcome() == Some(
            Ok::<Seq<(CounterSpec, u64)>, Failure>(Seq::empty()),
        ),
{
    assert(s.counts =~= Seq::empty());
}

/// The counts of a completed measurement are those of exactly the events
/// that were asked for: each has a count, none has two, none was added.
/// The workload has then run once for each group.
pub proof fn lemma_measured_counts_cover_request(specs: Seq<CounterSpec>, s: State)
    requires
        s.wf(),
        s.groups == partition(specs),
        s.measured(),
    ensures
        keys(s.counts).no_duplicates(),
        keys(s.counts).to_set() == specs.to_set(),
        as_map(s.counts).dom() == specs.to_set(),
        s.invocations == partition(specs).len(),
{
    lemma_partition_covers(specs);
    lemma_as_map(s.counts);
}

/// The handles of each group as sequences.
pub open spec fn handle_views(handles: Seq<Vec<u64>>) -> Seq<Seq<u64>> {
    Seq::new(handles.len(), |i: int| handles[i]@)
}

/// The counters needed for one measurement, partitioned into groups, and
/// how far the protocol on them has come.
#[derive(Debug)]
pub struct GroupSet {
    groups: Vec<Vec<CounterSpec>>,
    handles: Vec<Vec<u64>>,
    current: Vec<u64>,
    phase: Phase,
    group: usize,
    leaders: usize,
    invocations: usize,
    counts: Counts,
    failure: Option<Failure>,
}

impl View for GroupSet {
    type V = State;

    closed spec fn view(&self) -> State {
        State {
            groups: group_views(self.groups@),
            handles: handle_views(self.handles@),
            current: self.current@,
            phase: self.phase,
            group: self.group,
            leaders: self.leaders,
            invocations: self.invocations,
            counts: self.counts.pairs(),
            failure: self.failure,
        }
    }
}

impl GroupSet {
    /// The set is in a state that the protocol can reach.
    pub open spec fn wf(&self) -> bool {
        self@.wf()
    }

    /// Plans the groups for `specs`. Nothing is open yet: the first pending
    /// action opens the first group, or, where no event was asked for, the
    /// set is ready at once.
    pub fn new(specs: &Vec<CounterSpec>) -> (set: GroupSet)
        ensures
            set.wf(),
            set@ == State::initial(specs@),
    {
        let groups = plan_groups(specs);
        let phase = if groups.len() > 0 {
            Phase::OpenGroup
        } else {
            Phase::Ready
        };
        let set = GroupSet {
            groups,
            handles: Vec::new(),
            current: Vec::new(),
            phase,
            group: 0,
            leaders: 0,
            invocations: 0,
            counts: Counts::new(),
            failure: None,
        };
        proof {
            lemma_partition_covers(specs@);
            lemma_partition_representable(specs@);
            assert(set@ =~= State::initial(specs@));
        }
        set
    }

    /// The action that the driver has to perform now, if any.
    pub fn pending(&self) -> (action: Option<Action>)
        requires
            self.wf(),
        ensures
            action == self@.pending(),
    {
        match self.phase {
            Phase::OpenGroup => Some(Action::OpenGroup { group: self.group }),
            Phase::OpenCounter => Some(
                Action::OpenCounter {
                    group: self.group,
                    spec: self.groups[self.group][self.current.len()],
                },
            ),
            Phase::Ready => None,
            Phase::Enable => Some(Action::Enable { group: self.group }),
            Phase::Invoke => Some(Action::Invoke),
            Phase::Disable => Some(Action::Disable { group: self.group }),
            Phase::Read => Some(Action::Read { group: self.group }),
            Phase::Abort => Some(Action::Disable { group: self.group }),
            Phase::Release => Some(Action::Release),
            Phase::Closed => None,
        }
    }

    fn release_after(&mut self, failure: Failure)
        requires
            old(self).wf(),
        ensures
            final(self).wf(),
            final(self)@ == old(self)@.released_after(failure),
    {
        self.phase = Phase::Release;
        self.failure = Some(failure);
    }

    fn counter_opened(&mut self, handle: u64)
        requires
            old(self).wf(),
            old(self)@.phase == Phase::OpenCounter,
        ensures
            final(self).wf(),
            final(self)@ == old(self)@.with_counter(handle),
    {
        let ghost before = self@;
        self.current.push(handle);
        if self.current.len() < self.groups[self.group].len() {
            assert(self@ =~= before.with_counter(handle));
            return ;
        }
        let mut complete: Vec<u64> = Vec::new();
        core::mem::swap(&mut self.current, &mut complete);
        self.handles.push(complete);
        if self.group + 1 < self.groups.len() {
            self.group = self.group + 1;
            self.phase = Phase::OpenGroup;
        } else {
            self.group = 0;
            self.phase = Phase::Ready;
        }
        proof {
            assert(self@.handles =~= before.handles.push(before.current.push(handle)));
            assert(self@ =~= before.with_counter(handle));
        }
    }

    fn group_read(&mut self, reading: RawReading)
        requires
            old(self).wf(),
            old(self)@.phase == Phase::Read,
        ensures
            final(self).wf(),
            final(self)@ == old(self)@.with_reading(reading.entries@),
    {
        let ghost before = self@;
        let group = self.group;
        match resolve(&self.groups[group], &self.handles[group], &reading) {
            None => {
                self.release_after(Failure::Run(RunError::IncompleteReading));
            },
            Some(pairs) => {
                proof {
                    let specs = before.groups[group as int];
                    lemma_joined_step(before.groups, group as int);
                    lemma_joined_prefix_distinct(before.groups, group as int);
                    lemma_joined_prefix_distinct(before.groups, group + 1);
                    assert(keys(before.counts + pairs@) =~= keys(before.counts) + specs);
                    if group + 1 == before.groups.len() {
                        assert(before.groups.take(group + 1) =~= before.groups);
                    }
                }
                self.counts.extend(pairs);
                if group + 1 < self.groups.len() {
                    self.group = group + 1;
                    self.phase = Phase::Enable;
                } else {
                    self.phase = Phase::Release;
                }
                proof {
                    assert(self@ =~= before.with_reading(reading.entries@));
                }
            },
        }
    }

    /// Takes in what came of the pending action and says what to do next.
    /// Where no action is pending the event is ignored.
    pub fn step(&mut self, event: Event) -> (action: Option<Action>)
        requires
            old(self).wf(),
        ensures
            final(self).wf(),
            final(self)@ == old(self)@.next(event),
            action == final(self)@.pending(),
    {
        let ghost before = self@;
        match self.phase {
            Phase::OpenGroup => match event {
                Event::Done => {
                    self.phase = Phase::OpenCounter;
                    self.leaders = self.leaders + 1;
                },
                Event::Failed { errno } => {
                    self.release_after(Failure::Open(classify_open_error(errno)));
                },
                _ => {
                    self.release_after(Failure::Protocol);
                },
            },
            Phase::OpenCounter => match event {
                Event::Opened { handle } => {
                    self.counter_opened(handle);
                },
                Event::Failed { errno } => {
                    self.release_after(Failure::Open(classify_open_error(errno)));
                },
                _ => {
                    self.release_after(Failure::Protocol);
                },
            },
            Phase::Ready => {},
            Phase::Enable => match event {
                Event::Done => {
                    self.phase = Phase::Invoke;
                },
                Event::Failed { errno } => {
                    self.release_after(Failure::Run(RunError::Io(errno)));
                },
                _ => {
                    self.release_after(Failure::Protocol);
                },
            },
            Phase::Invoke => match event {
                Event::Done => {
                    self.phase = Phase::Disable;
                    self.invocations = self.invocations + 1;
                },
                Event::Failed { errno } => {
                    self.phase = Phase::Abort;
                    self.failure = Some(Failure::Run(RunError::Io(errno)));
                },
                _ => {
                    self.phase = Phase::Abort;
                    self.failure = Some(Failure::Protocol);
                },
            },
            Phase::Disable => match event {
                Event::Done => {
                    self.phase = Phase::Read;
                },
                Event::Failed { errno } => {
                    self.release_after(Failure::Run(RunError::Io(errno)));
                },
                _ => {
                    self.release_after(Failure::Protocol);
                },
            },
            Phase::Read => match event {
                Event::Read(reading) => {
                    self.group_read(reading);
                },
                Event::Failed { errno } => {
                    self.release_after(Failure::Run(RunError::Io(errno)));
                },
                _ => {
                    self.release_after(Failure::Protocol);
                },
            },
            Phase::Abort => {
                self.phase = Phase::Release;
            },
            Phase::Release => {
                self.phase = Phase::Closed;
                self.leaders = 0;
                self.handles = Vec::new();
                self.current = Vec::new();
                proof {
                    assert(self@.handles =~= Seq::<Seq<u64>>::empty());
                }
            },
            Phase::Closed => {},
        }
        proof {
            assert(self@ =~= before.next(event));
        }
        self.pending()
    }

    /// Asks for the measurement. From `Ready` the first group is enabled
    /// next; in any other phase the request changes nothing.
    pub fn run(&mut self) -> (action: Option<Action>)
        requires
            old(self).wf(),
        ensures
            final(self).wf(),
            final(self)@ == old(self)@.started(),
            action == final(self)@.pending(),
    {
        let ghost before = self@;
        if self.phase == Phase::Ready {
            if self.groups.len() > 0 {
                self.phase = Phase::Enable;
                self.group = 0;
                proof {
                    assert(before.groups.take(0) =~= Seq::<Seq<CounterSpec>>::empty());
                    assert(keys(before.counts) =~= joined(before.groups.take(0)));
                }
            } else {
                self.phase = Phase::Release;
            }
        }
        proof {
            assert(self@ =~= before.started());
        }
        self.pending()
    }

    /// Gives the set up without measuring. From `Ready` every handle is
    /// released next; in any other phase the request changes nothing.
    pub fn release(&mut self) -> (action: Option<Action>)
        requires
            old(self).wf(),
        ensures
            final(self).wf(),
            final(self)@ == old(self)@.given_up(),
            action == final(self)@.pending(),
    {
        let ghost before = self@;
        if self.phase == Phase::Ready {
            self.phase = Phase::Release;
        }
        proof {
            assert(self@ =~= before.given_up());
        }
        self.pending()
    }

    /// Where the set stands.
    pub fn phase(&self) -> (phase: Phase)
        ensures
            phase == self@.phase,
    {
        self.phase
    }

    /// How many groups the set has.
    pub fn group_count(&self) -> (n: usize)
        ensures
            n == self@.groups.len(),
    {
        self.groups.len()
    }

    /// How many times the workload has run to its end.
    pub fn invocations(&self) -> (n: usize)
        ensures
            n == self@.invocations,
    {
        self.invocations
    }

    /// The merged counts of a closed set, or why it has none. A set that is
    /// not closed yet gives `None`: nothing is shown while a handle may
    /// still be held.
    pub fn outcome(self) -> (outcome: Option<Result<Counts, Failure>>)
        requires
            self.wf(),
        ensures
            match outcome {
                None => self@.outcome() is None,
                Some(Err(failure)) => self@.outcome() == Some(
                    Err::<Seq<(CounterSpec, u64)>, Failure>(failure),
                ),
                Some(Ok(counts)) => counts.wf() && self@.outcome() == Some(
                    Ok::<Seq<(CounterSpec, u64)>, Failure>(counts.pairs()),
                ),
            },
    {
        if self.phase != Phase::Closed {
            return None;
        }
        match self.failure {
            Some(failure) => Some(Err(failure)),
            None => {
                proof {
                    if self@.measured() {
                    } else {
                        assert(keys(self@.counts) =~= Seq::<CounterSpec>::empty());
                    }
                }
                Some(Ok(self.counts))
            },
        }
    }
}

} // verus!
