//! Parallel dispatch.
//!
//! The work itself (a call to a provider, with its timeout) is done by
//! the caller; this module decides what is started when, and what the
//! caller gets back. A [`Batch`] admits the units of a map-reduce or of
//! a fan-out under a limit of concurrency and collects their outcomes;
//! a [`Race`] takes the first success of several contenders.

use vstd::prelude::*;
use crate::text::{decimal, push_decimal};

verus! {

/// The limits under which work is dispatched.
pub struct ParallelExecutor {
    concurrency_limit: usize,
    timeout_ms: u64,
}

/// How a set of invocations is run and combined.
#[derive(Debug, Clone, Copy, PartialEq, Eq, Structural)]
pub enum ParallelMode {
    MapReduce,
    FanOut,
    Race,
    Pipeline,
}

/// One unit of work.
#[derive(Debug, Clone)]
pub struct Task<T> {
    pub id: String,
    pub input: T,
}

/// Why a unit of work, or a whole dispatch, has no result.
#[derive(Debug, Clone, PartialEq, Eq)]
pub enum TaskError {
    /// The invocation itself failed, with this message.
    Failed(String),
    /// The invocation did not finish within the time allowed.
    Timeout,
    /// Every contender of a race failed.
    AllFailed,
    /// Pipelines are left to the caller.
    PipelineUnsupported,
}

/// The outcome of one unit of work.
#[derive(Debug)]
pub struct TaskResult<R> {
    pub task_id: String,
    pub result: Result<R, TaskError>,
}

/// The text of an error.
pub open spec fn error_text(e: TaskError) -> Seq<char> {
    match e {
        TaskError::Failed(msg) => msg@,
        TaskError::Timeout => "Timeout: deadline has elapsed"@,
        TaskError::AllFailed => "All processors failed"@,
        TaskError::PipelineUnsupported => "Pipeline mode requires custom implementation"@,
    }
}

impl TaskError {
    /// The text of the error.
    pub fn message(&self) -> (s: String)
        ensures
            s@ == error_text(*self),
    {
        match self {
            TaskError::Failed(msg) => msg.clone(),
            TaskError::Timeout => String::from_str("Timeout: deadline has elapsed"),
            TaskError::AllFailed => String::from_str("All processors failed"),
            TaskError::PipelineUnsupported => String::from_str(
                "Pipeline mode requires custom implementation",
            ),
        }
    }

    /// Whether the error says that time ran out.
    pub fn is_timeout(&self) -> (b: bool)
        ensures
            b == (*self is Timeout),
    {
        match self {
            TaskError::Timeout => true,
            _ => false,
        }
    }
}

/// The outcome of an invocation that ran under a timeout: `None` means
/// that time ran out, which is reported as a failure of its own kind.
pub fn settle<R>(timed: Option<Result<R, String>>) -> (outcome: Result<R, TaskError>)
    ensures
        outcome == match timed {
            None => Err::<R, TaskError>(TaskError::Timeout),
            Some(Ok(value)) => Ok(value),
            Some(Err(msg)) => Err(TaskError::Failed(msg)),
        },
{
    match timed {
        None => Err(TaskError::Timeout),
        Some(Ok(value)) => Ok(value),
        Some(Err(msg)) => Err(TaskError::Failed(msg)),
    }
}

// ---------------------------------------------------------------------
// Batches: map-reduce and fan-out
// ---------------------------------------------------------------------

/// Where a unit of a batch stands.
#[derive(Debug, Clone, Copy, PartialEq, Eq, Structural)]
pub enum Slot {
    Waiting,
    Running,
    Finished,
}

/// What the caller of a batch does next.
#[derive(Debug, Clone, Copy, PartialEq, Eq, Structural)]
pub enum BatchStep {
    /// Start the unit at this position: a slot is free.
    Start(usize),
    /// Wait for a running unit to finish.
    Wait,
    /// Nothing runs and nothing can start: the limit is zero.
    Stalled,
    /// Every unit has finished.
    Done,
}

/// How many of the first `n` slots are running.
pub open spec fn running_upto(slots: Seq<Slot>, n: nat) -> nat
    decreases n,
{
    if n == 0 {
        0
    } else if slots[n - 1] == Slot::Running {
        running_upto(slots, (n - 1) as nat) + 1
    } else {
        running_upto(slots, (n - 1) as nat)
    }
}

/// Changing one slot to or from running changes the count by one;
/// any other change leaves it.
pub proof fn lemma_running_update(slots: Seq<Slot>, at: int, to: Slot, n: nat)
    requires
        0 <= at < slots.len(),
        n <= slots.len(),
    ensures
        running_upto(slots.update(at, to), n) == running_upto(slots, n) + (if at < n && to
            == Slot::Running {
            1int
        } else {
            0int
        }) - (if at < n && slots[at] == Slot::Running {
            1int
        } else {
            0int
        }),
    decreases n,
{
    if n > 0 {
        lemma_running_update(slots, at, to, (n - 1) as nat);
    }
}

/// The texts of a list of ids.
pub open spec fn id_texts(ids: Seq<String>) -> Seq<Seq<char>> {
    Seq::new(ids.len(), |i: int| ids[i]@)
}

/// A list of positions as numbers.
pub open spec fn positions(order: Seq<usize>) -> Seq<int> {
    Seq::new(order.len(), |k: int| order[k] as int)
}

/// Whether the entry `k` of the outcomes belongs to a finished unit
/// and carries its id.
pub open spec fn outcome_placed<R>(
    ids: Seq<Seq<char>>,
    slots: Seq<Slot>,
    order: Seq<int>,
    outcomes: Seq<TaskResult<R>>,
    k: int,
) -> bool {
    let at = order[k];
    &&& 0 <= at < ids.len()
    &&& slots[at] == Slot::Finished
    &&& outcomes[k].task_id@ == ids[at]
}

/// What holds of the parts of every batch.
pub open spec fn batch_wf<R>(
    limit: nat,
    ids: Seq<Seq<char>>,
    slots: Seq<Slot>,
    started: nat,
    in_flight: nat,
    order: Seq<int>,
    outcomes: Seq<TaskResult<R>>,
) -> bool {
    &&& slots.len() == ids.len()
    &&& started <= ids.len()
    &&& forall|i: int|
        0 <= i < slots.len() ==> ((#[trigger] slots[i]) == Slot::Waiting <==> i >= started)
    &&& in_flight == running_upto(slots, slots.len())
    &&& in_flight <= limit
    &&& in_flight + outcomes.len() == started
    &&& order.len() == outcomes.len()
    &&& order.no_duplicates()
    &&& forall|k: int|
        0 <= k < outcomes.len() ==> #[trigger] outcome_placed(ids, slots, order, outcomes, k)
}

/// The units of one dispatch, admitted under a limit of concurrency.
///
/// Units start in their order. At most `limit` of them run at a time.
/// Outcomes are kept in the order in which the units finish, each
/// under the id of its unit.
pub struct Batch<R> {
    limit: usize,
    ids: Vec<String>,
    slots: Vec<Slot>,
    next: usize,
    running: usize,
    order: Vec<usize>,
    finished: Vec<TaskResult<R>>,
}

impl<R> Batch<R> {
    /// The most units that may run at a time.
    pub closed spec fn limit(&self) -> nat {
        self.limit as nat
    }

    /// The ids of the units, in the order in which they start.
    pub closed spec fn ids(&self) -> Seq<Seq<char>> {
        id_texts(self.ids@)
    }

    /// Where each unit stands.
    pub closed spec fn slots(&self) -> Seq<Slot> {
        self.slots@
    }

    /// How many units have been started.
    pub closed spec fn started(&self) -> nat {
        self.next as nat
    }

    /// How many units are running.
    pub closed spec fn in_flight(&self) -> nat {
        self.running as nat
    }

    /// The positions of the finished units, in the order in which they
    /// finished.
    pub closed spec fn completion_order(&self) -> Seq<int> {
        positions(self.order@)
    }

    /// The outcomes of the finished units, in the order in which they
    /// finished.
    pub closed spec fn outcomes(&self) -> Seq<TaskResult<R>> {
        self.finished@
    }

    /// What holds of every batch: units start in order, no more run
    /// than the limit allows, and every finished unit has one outcome,
    /// under its id.
    pub open spec fn wf(&self) -> bool {
        batch_wf(
            self.limit(),
            self.ids(),
            self.slots(),
            self.started(),
            self.in_flight(),
            self.completion_order(),
            self.outcomes(),
        )
    }

    #[verifier::type_invariant]
    closed spec fn inv(&self) -> bool {
        self.wf()
    }

    /// Whether every unit has finished.
    pub open spec fn done(&self) -> bool {
        self.outcomes().len() == self.ids().len()
    }

    /// What the caller does next.
    pub open spec fn step(&self) -> BatchStep {
        if self.started() < self.ids().len() && self.in_flight() < self.limit() {
            BatchStep::Start(self.started() as usize)
        } else if self.in_flight() > 0 {
            BatchStep::Wait
        } else if self.started() < self.ids().len() {
            BatchStep::Stalled
        } else {
            BatchStep::Done
        }
    }
}

impl<R> Batch<R> {
    /// A batch of the units `ids`, none of them started, under the
    /// limit `limit`.
    pub fn new(limit: usize, ids: Vec<String>) -> (b: Self)
        ensures
            b.wf(),
            b.limit() == limit,
            b.ids() == id_texts(ids@),
            b.started() == 0,
            b.in_flight() == 0,
            b.outcomes() == Seq::<TaskResult<R>>::empty(),
            b.completion_order() == Seq::<int>::empty(),
    {
        let mut slots: Vec<Slot> = Vec::new();
        let mut i: usize = 0;
        while i < ids.len()
            invariant
                i <= ids.len(),
                slots@.len() == i,
                forall|j: int| 0 <= j < i ==> #[trigger] slots@[j] == Slot::Waiting,
                running_upto(slots@, i as nat) == 0,
            decreases ids.len() - i,
        {
            let ghost before = slots@;
            slots.push(Slot::Waiting);
            proof {
                lemma_running_same(before, slots@, i as nat);
            }
            i += 1;
        }
        let order: Vec<usize> = Vec::new();
        let finished: Vec<TaskResult<R>> = Vec::new();
        proof {
            assert(positions(order@) =~= Seq::<int>::empty());
            assert(batch_wf(
                limit as nat,
                id_texts(ids@),
                slots@,
                0,
                0,
                positions(order@),
                finished@,
            ));
        }
        Batch { limit, ids, slots, next: 0, running: 0, order, finished }
    }

    /// The number of units.
    pub fn len(&self) -> (n: usize)
        ensures
            n == self.ids().len(),
    {
        self.ids.len()
    }

    /// The id of the unit at position `i`.
    pub fn id_at(&self, i: usize) -> (id: &String)
        requires
            i < self.ids().len(),
        ensures
            id@ == self.ids()[i as int],
    {
        &self.ids[i]
    }

    /// How many units are running.
    pub fn running(&self) -> (n: usize)
        ensures
            n == self.in_flight(),
            n <= self.limit(),
            self.wf(),
    {
        proof {
            use_type_invariant(self);
        }
        self.running
    }

    /// Whether every unit has finished.
    pub fn is_done(&self) -> (b: bool)
        ensures
            b == self.done(),
            self.wf(),
    {
        proof {
            use_type_invariant(self);
        }
        self.finished.len() == self.ids.len()
    }

    /// What the caller does next.
    pub fn next_step(&self) -> (s: BatchStep)
        ensures
            s == self.step(),
            self.wf(),
    {
        proof {
            use_type_invariant(self);
        }
        if self.next < self.ids.len() && self.running < self.limit {
            BatchStep::Start(self.next)
        } else if self.running > 0 {
            BatchStep::Wait
        } else if self.next < self.ids.len() {
            BatchStep::Stalled
        } else {
            BatchStep::Done
        }
    }

    /// Admits the next unit if a slot is free and a unit is left, and
    /// says which it is. Otherwise nothing changes.
    pub fn start(&mut self) -> (admitted: Option<usize>)
        ensures
            final(self).wf(),
            final(self).limit() == old(self).limit(),
            final(self).ids() == old(self).ids(),
            final(self).outcomes() == old(self).outcomes(),
            final(self).completion_order() == old(self).completion_order(),
            match admitted {
                Some(i) => {
                    &&& old(self).step() == BatchStep::Start(i)
                    &&& final(self).started() == old(self).started() + 1
                    &&& final(self).in_flight() == old(self).in_flight() + 1
                    &&& final(self).slots() == old(self).slots().update(i as int, Slot::Running)
                },
                None => {
                    &&& !(old(self).step() is Start)
                    &&& final(self).started() == old(self).started()
                    &&& final(self).in_flight() == old(self).in_flight()
                    &&& final(self).slots() == old(self).slots()
                },
            },
    {
        proof {
            use_type_invariant(&*self);
        }
        if self.next < self.ids.len() && self.running < self.limit {
            let mut taken: Batch<R> = Batch::new(0, Vec::new());
            core::mem::swap(self, &mut taken);
            let Batch { limit, ids, mut slots, next, running, order, finished } = taken;
            let ghost slots0 = slots@;
            proof {
                lemma_running_update(slots0, next as int, Slot::Running, slots0.len());
            }
            slots.set(next, Slot::Running);
            proof {
                assert forall|k: int| 0 <= k < finished@.len() implies #[trigger] outcome_placed(
                    id_texts(ids@),
                    slots@,
                    positions(order@),
                    finished@,
                    k,
                ) by {
                    assert(outcome_placed(id_texts(ids@), slots0, positions(order@), finished@, k));
                }
                assert(batch_wf(
                    limit as nat,
                    id_texts(ids@),
                    slots@,
                    (next + 1) as nat,
                    (running + 1) as nat,
                    positions(order@),
                    finished@,
                ));
            }
            *self = Batch {
                limit,
                ids,
                slots,
                next: next + 1,
                running: running + 1,
                order,
                finished,
            };
            Some(next)
        } else {
            None
        }
    }

    /// Takes the outcome of the running unit at position `index`. An
    /// outcome for a position that is not running is refused and
    /// nothing changes.
    pub fn complete(&mut self, index: usize, outcome: Result<R, TaskError>) -> (accepted: bool)
        ensures
            final(self).wf(),
            final(self).limit() == old(self).limit(),
            final(self).ids() == old(self).ids(),
            final(self).started() == old(self).started(),
            accepted == (index < old(self).slots().len() && old(self).slots()[index as int]
                == Slot::Running),
            accepted ==> {
                &&& final(self).in_flight() == old(self).in_flight() - 1
                &&& final(self).slots() == old(self).slots().update(index as int, Slot::Finished)
                &&& final(self).completion_order() == old(self).completion_order().push(
                    index as int,
                )
                &&& final(self).outcomes().len() == old(self).outcomes().len() + 1
                &&& final(self).outcomes().drop_last() == old(self).outcomes()
                &&& final(self).outcomes().last().task_id@ == old(self).ids()[index as int]
                &&& final(self).outcomes().last().result == outcome
            },
            !accepted ==> {
                &&& final(self).in_flight() == old(self).in_flight()
                &&& final(self).slots() == old(self).slots()
                &&& final(self).completion_order() == old(self).completion_order()
                &&& final(self).outcomes() == old(self).outcomes()
            },
    {
        proof {
            use_type_invariant(&*self);
        }
        if index < self.slots.len() && self.slots[index] == Slot::Running {
            let mut taken: Batch<R> = Batch::new(0, Vec::new());
            core::mem::swap(self, &mut taken);
            let Batch { limit, ids, mut slots, next, running, mut order, mut finished } = taken;
            let ghost slots0 = slots@;
            let ghost order0 = positions(order@);
            let ghost finished0 = finished@;
            proof {
                lemma_running_update(slots0, index as int, Slot::Finished, slots0.len());
                lemma_running_some(slots0, index as int, slots0.len());
                if order0.contains(index as int) {
                    let k = order0.index_of(index as int);
                    assert(outcome_placed(id_texts(ids@), slots0, order0, finished0, k));
                }
            }
            slots.set(index, Slot::Finished);
            order.push(index);
            finished.push(TaskResult { task_id: ids[index].clone(), result: outcome });
            proof {
                assert(positions(order@) =~= order0.push(index as int));
                assert(finished@.drop_last() =~= finished0);
                assert forall|k: int| 0 <= k < finished@.len() implies #[trigger] outcome_placed(
                    id_texts(ids@),
                    slots@,
                    positions(order@),
                    finished@,
                    k,
                ) by {
                    if k < finished0.len() {
                        assert(outcome_placed(id_texts(ids@), slots0, order0, finished0, k));
                    }
                }
                assert(batch_wf(
                    limit as nat,
                    id_texts(ids@),
                    slots@,
                    next as nat,
                    (running - 1) as nat,
                    positions(order@),
                    finished@,
                ));
            }
            *self = Batch { limit, ids, slots, next, running: running - 1, order, finished };
            true
        } else {
            false
        }
    }

    /// The outcomes of the finished units, in the order in which they
    /// finished, each under the id of its unit.
    pub fn into_results(self) -> (results: Vec<TaskResult<R>>)
        ensures
            results@ == self.outcomes(),
            self.wf(),
            self.done() ==> results@.len() == self.ids().len(),
    {
        proof {
            use_type_invariant(&self);
        }
        self.finished
    }
}

/// Where a slot among the first `n` is running, at least one runs.
pub proof fn lemma_running_some(slots: Seq<Slot>, at: int, n: nat)
    requires
        0 <= at < n,
        n <= slots.len(),
        slots[at] == Slot::Running,
    ensures
        running_upto(slots, n) >= 1,
    decreases n,
{
    if at < n - 1 {
        lemma_running_some(slots, at, (n - 1) as nat);
    }
}

/// When a batch is done, nothing runs, every unit was started, and
/// every unit has one outcome.
pub proof fn lemma_done_batch<R>(batch: Batch<R>)
    requires
        batch.wf(),
        batch.done(),
    ensures
        batch.in_flight() == 0,
        batch.started() == batch.ids().len(),
        batch.step() == BatchStep::Done,
        batch.completion_order().len() == batch.ids().len(),
        batch.completion_order().no_duplicates(),
{
}

/// Slots that are added behind the first `n` do not change how many
/// of the first `n` run.
pub proof fn lemma_running_same(a: Seq<Slot>, b: Seq<Slot>, n: nat)
    requires
        n <= a.len(),
        n <= b.len(),
        forall|i: int| 0 <= i < n ==> a[i] == b[i],
    ensures
        running_upto(a, n) == running_upto(b, n),
    decreases n,
{
    if n > 0 {
        lemma_running_same(a, b, (n - 1) as nat);
    }
}

// ---------------------------------------------------------------------
// Races
// ---------------------------------------------------------------------

/// What the caller of a race does after an outcome has arrived.
#[derive(Debug)]
pub enum RaceStep<R> {
    /// The race is won: this is its result. Outcomes that arrive later
    /// are dropped.
    Won(R),
    /// The contender failed and others are still running.
    Pending,
    /// Every contender has failed.
    AllFailed,
    /// The race was over before this outcome arrived; it is dropped.
    Dropped,
}

/// Several contenders for one result: the first success wins.
#[derive(Debug, Clone, Copy)]
pub struct Race {
    contenders: usize,
    failed: usize,
    won: bool,
}

impl Race {
    /// The number of contenders.
    pub closed spec fn contenders(&self) -> nat {
        self.contenders as nat
    }

    /// How many contenders have failed while the race was open.
    pub closed spec fn failures(&self) -> nat {
        self.failed as nat
    }

    /// Whether a contender has won.
    pub closed spec fn won(&self) -> bool {
        self.won
    }

    /// Whether the race is over: it is won, or everybody has failed.
    pub open spec fn over(&self) -> bool {
        self.won() || self.failures() >= self.contenders()
    }

    #[verifier::type_invariant]
    closed spec fn inv(&self) -> bool {
        self.failed <= self.contenders
    }

    /// A race of `contenders`, none of them heard of yet.
    pub fn new(contenders: usize) -> (r: Self)
        ensures
            r.contenders() == contenders,
            r.failures() == 0,
            !r.won(),
    {
        Race { contenders, failed: 0, won: false }
    }

    /// Whether the race is over.
    pub fn is_over(&self) -> (b: bool)
        ensures
            b == self.over(),
    {
        self.won || self.failed >= self.contenders
    }

    /// Whether the race ended without a winner.
    pub fn all_failed(&self) -> (b: bool)
        ensures
            b == (!self.won() && self.failures() >= self.contenders()),
    {
        !self.won && self.failed >= self.contenders
    }

    /// Takes the outcome of one contender. The first success wins the
    /// race; a failure counts, and the last one ends the race without
    /// a winner; what arrives after the end is dropped.
    pub fn observe<R>(&mut self, outcome: Result<R, TaskError>) -> (step: RaceStep<R>)
        ensures
            final(self).contenders() == old(self).contenders(),
            final(self).failures() <= final(self).contenders(),
            old(self).over() ==> step is Dropped && final(self).won() == old(self).won()
                && final(self).failures() == old(self).failures(),
            !old(self).over() ==> match outcome {
                Ok(value) => {
                    &&& step == RaceStep::Won(value)
                    &&& final(self).won()
                    &&& final(self).failures() == old(self).failures()
                },
                Err(_) => {
                    &&& !final(self).won()
                    &&& final(self).failures() == old(self).failures() + 1
                    &&& if final(self).failures() == final(self).contenders() {
                        step is AllFailed
                    } else {
                        step is Pending
                    }
                },
            },
    {
        proof {
            use_type_invariant(&*self);
        }
        if self.won || self.failed >= self.contenders {
            return RaceStep::Dropped;
        }
        match outcome {
            Ok(value) => {
                *self = Race { contenders: self.contenders, failed: self.failed, won: true };
                RaceStep::Won(value)
            },
            Err(_) => {
                let failed: usize = self.failed + 1;
                *self = Race { contenders: self.contenders, failed, won: false };
                if failed == self.contenders {
                    RaceStep::AllFailed
                } else {
                    RaceStep::Pending
                }
            },
        }
    }
}

// ---------------------------------------------------------------------
// The executor
// ---------------------------------------------------------------------

/// The id under which the outcome of the processor at position `i` of
/// a fan-out is reported.
pub open spec fn processor_id(i: nat) -> Seq<char> {
    "processor-"@ + decimal(i)
}

/// Whether `ids` are the ids of a fan-out.
pub open spec fn fan_out_ids(ids: Seq<Seq<char>>) -> bool {
    forall|i: int| 0 <= i < ids.len() ==> #[trigger] ids[i] == processor_id(i as nat)
}

impl ParallelExecutor {
    /// The most invocations that may run at a time.
    pub closed spec fn limit_spec(&self) -> usize {
        self.concurrency_limit
    }

    /// The time allowed to each invocation, in milliseconds.
    pub closed spec fn timeout_spec(&self) -> u64 {
        self.timeout_ms
    }

    /// An executor with these limits.
    pub fn new(concurrency_limit: usize, timeout_ms: u64) -> (e: Self)
        ensures
            e.limit_spec() == concurrency_limit,
            e.timeout_spec() == timeout_ms,
    {
        ParallelExecutor { concurrency_limit, timeout_ms }
    }

    /// The most invocations that may run at a time.
    pub fn concurrency_limit(&self) -> (n: usize)
        ensures
            n == self.limit_spec(),
    {
        self.concurrency_limit
    }

    /// The time allowed to each invocation, in milliseconds.
    pub fn timeout_ms(&self) -> (t: u64)
        ensures
            t == self.timeout_spec(),
    {
        self.timeout_ms
    }

    /// The batch of a map-reduce over `tasks`, and the inputs of the
    /// tasks at the positions of their units.
    pub fn plan_map_reduce<T, R>(&self, tasks: Vec<Task<T>>) -> (plan: (Batch<R>, Vec<T>))
        ensures
            plan.0.wf(),
            plan.0.limit() == self.limit_spec(),
            plan.0.started() == 0,
            plan.0.in_flight() == 0,
            plan.0.outcomes() == Seq::<TaskResult<R>>::empty(),
            plan.0.ids().len() == tasks@.len(),
            plan.1@.len() == tasks@.len(),
            forall|i: int|
                0 <= i < tasks@.len() ==> #[trigger] plan.0.ids()[i] == tasks@[i].id@ && plan.1@[i]
                    == tasks@[i].input,
    {
        let ghost given = tasks@;
        let mut ids: Vec<String> = Vec::new();
        let mut inputs: Vec<T> = Vec::new();
        let mut rest = tasks;
        let mut reversed: Vec<Task<T>> = Vec::new();
        while rest.len() > 0
            invariant
                rest@.len() + reversed@.len() == given.len(),
                forall|i: int| 0 <= i < rest@.len() ==> rest@[i] == given[i],
                forall|i: int|
                    0 <= i < reversed@.len() ==> #[trigger] reversed@[i] == given[given.len() - 1
                        - i],
            decreases rest@.len(),
        {
            let task = rest.pop().unwrap();
            reversed.push(task);
        }
        while reversed.len() > 0
            invariant
                ids@.len() + reversed@.len() == given.len(),
                inputs@.len() == ids@.len(),
                forall|i: int|
                    0 <= i < reversed@.len() ==> #[trigger] reversed@[i] == given[given.len() - 1
                        - i],
                forall|i: int|
                    0 <= i < ids@.len() ==> (#[trigger] ids@[i])@ == given[i].id@ && inputs@[i]
                        == given[i].input,
            decreases reversed@.len(),
        {
            let task = reversed.pop().unwrap();
            let Task { id, input } = task;
            ids.push(id);
            inputs.push(input);
        }
        let batch: Batch<R> = Batch::new(self.concurrency_limit, ids);
        (batch, inputs)
    }

    /// The batch of a fan-out to `processors` processors: the unit at
    /// position `i` has the id `processor-i`.
    pub fn plan_fan_out<R>(&self, processors: usize) -> (batch: Batch<R>)
        ensures
            batch.wf(),
            batch.limit() == self.limit_spec(),
            batch.started() == 0,
            batch.in_flight() == 0,
            batch.outcomes() == Seq::<TaskResult<R>>::empty(),
            batch.ids().len() == processors,
            fan_out_ids(batch.ids()),
    {
        let mut ids: Vec<String> = Vec::new();
        let mut i: usize = 0;
        while i < processors
            invariant
                i <= processors,
                ids@.len() == i,
                forall|j: int| 0 <= j < i ==> (#[trigger] ids@[j])@ == processor_id(j as nat),
            decreases processors - i,
        {
            let mut id = String::from_str("processor-");
            push_decimal(&mut id, i as u64);
            ids.push(id);
            i += 1;
        }
        let batch: Batch<R> = Batch::new(self.concurrency_limit, ids);
        batch
    }

    /// The race of `contenders` contenders. A race is not held to the
    /// limit of concurrency.
    pub fn plan_race(&self, contenders: usize) -> (race: Race)
        ensures
            race.contenders() == contenders,
            race.failures() == 0,
            !race.won(),
    {
        Race::new(contenders)
    }

    /// Pipelines are not dispatched here: the call always fails, with
    /// [`TaskError::PipelineUnsupported`].
    pub fn pipeline<T, R, Stages>(&self, _input: T, _stages: Stages) -> (r: Result<R, TaskError>)
        ensures
            r == Err::<R, TaskError>(TaskError::PipelineUnsupported),
    {
        Err(TaskError::PipelineUnsupported)
    }
}

impl Default for ParallelExecutor {
    /// At most 10 invocations at a time, 30 seconds each.
    fn default() -> (e: Self)
        ensures
            e.limit_spec() == 10,
            e.timeout_spec() == 30000,
    {
        ParallelExecutor::new(10, 30000)
    }
}

} // verus!
