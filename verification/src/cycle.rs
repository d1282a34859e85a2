//! The nightly autoresearch cycle as a state machine.
//!
//! One cycle collects baseline metrics, records them, and then runs up to
//! `max_experiments_per_night` experiments. Each experiment picks a target
//! file, creates a record for it, marks it running, asks the local model for
//! a proposal, stores the proposal, tests it, and, if the test passed,
//! measures the project again before completing the record as kept or
//! discarded (or as an error when the test failed). A failure before the
//! record is completed is reported and the cycle goes on with the next
//! experiment.
//!
//! The machine decides; the caller performs each `Action` (database writes,
//! processes, HTTP requests) and answers with the matching `Event`.
use vstd::prelude::*;
use vstd::string::*;
use vstd::utf8::*;
use crate::text::{safe_truncate, truncation_point, lemma_truncation_point, lemma_encode_concat, lemma_encode_prefix_boundary};
use crate::types::{ExperimentOutcome, ExperimentStatus};

verus! {

broadcast use vstd::utf8::group_utf8_lib;

/// Description given to a new experiment record before a proposal exists.
pub const PENDING_DESCRIPTION: &'static str = "pending proposal";

/// The most bytes of a proposal that are stored with an experiment.
pub const MAX_STORED_PROPOSAL_BYTES: usize = 5000;

/// Where the cycle stands. `S` is `String` in executable code and
/// `Seq<char>` in specifications.
#[derive(Debug, PartialEq, Eq)]
pub enum PhaseOf<S> {
    /// Waiting for the baseline metrics.
    CollectingBaseline,
    /// Waiting for the baseline metrics to be recorded.
    LoggingBaseline,
    /// Waiting for a target file.
    PickingTarget,
    /// Waiting for the record of an experiment on `target`.
    CreatingRecord { target: S },
    /// Waiting for record `id` to be marked running.
    MarkingRunning { id: i64, target: S },
    /// Waiting for the model's proposal for record `id`.
    AwaitingProposal { id: i64, target: S },
    /// Waiting for the proposal of record `id` to be stored.
    StoringProposal { id: i64, target: S, proposal: S },
    /// Waiting for the test of the proposal of record `id`.
    TestingProposal { id: i64, target: S, proposal: S },
    /// Waiting for the comparison of new metrics with the baseline.
    MeasuringAfter { id: i64 },
    /// Waiting for record `id` to be completed.
    CompletingRecord { id: i64 },
    /// Waiting for a failed experiment to be reported.
    ReportingFailure { error: S },
    /// The cycle is over.
    Finished,
}

/// What happened since the last action.
#[derive(Debug, PartialEq, Eq)]
pub enum EventOf<S> {
    BaselineCollected,
    BaselineLogged,
    /// The target file, or why none could be picked.
    TargetPicked(Result<S, S>),
    /// The id of the new record, or why it could not be created.
    RecordCreated(Result<i64, S>),
    StatusWritten,
    /// The model's proposal, or why none was received.
    ProposalReceived(Result<S, S>),
    ProposalStored,
    /// Whether the workspace still builds with the proposal.
    ProposalChecked(bool),
    /// Whether the tests ran in under 95% of the baseline time.
    MetricsCompared(bool),
    RecordCompleted,
    FailureReported,
}

/// What the caller is to do next.
#[derive(Debug, PartialEq, Eq)]
pub enum ActionOf<S> {
    CollectBaseline,
    LogBaseline,
    PickTarget,
    CreateRecord { target: S, description: S },
    WriteStatus { id: i64, status: ExperimentStatus },
    AskProposal { target: S },
    StoreProposal { id: i64, text: S },
    TestProposal { target: S, proposal: S },
    MeasureAfter,
    /// Mark record `id` completed with `outcome`; the baseline and new test
    /// durations are recorded with it when `with_metrics` holds.
    CompleteRecord { id: i64, outcome: ExperimentOutcome, with_metrics: bool },
    ReportFailure { error: S },
    /// The cycle is over.
    Stop,
    /// The event does not belong to the current phase; nothing changed.
    Ignore,
}

pub type Phase = PhaseOf<String>;

pub type Event = EventOf<String>;

pub type Action = ActionOf<String>;

pub type PhaseView = PhaseOf<Seq<char>>;

pub type EventView = EventOf<Seq<char>>;

pub type ActionView = ActionOf<Seq<char>>;

pub open spec fn result_view<T>(r: Result<T, String>) -> Result<T, Seq<char>> {
    match r {
        Ok(v) => Ok(v),
        Err(e) => Err(e@),
    }
}

pub open spec fn text_result_view(r: Result<String, String>) -> Result<Seq<char>, Seq<char>> {
    match r {
        Ok(v) => Ok(v@),
        Err(e) => Err(e@),
    }
}

impl View for PhaseOf<String> {
    type V = PhaseView;

    open spec fn view(&self) -> PhaseView {
        match self {
            PhaseOf::CollectingBaseline => PhaseOf::CollectingBaseline,
            PhaseOf::LoggingBaseline => PhaseOf::LoggingBaseline,
            PhaseOf::PickingTarget => PhaseOf::PickingTarget,
            PhaseOf::CreatingRecord { target } => PhaseOf::CreatingRecord { target: target@ },
            PhaseOf::MarkingRunning { id, target } => PhaseOf::MarkingRunning {
                id: *id,
                target: target@,
            },
            PhaseOf::AwaitingProposal { id, target } => PhaseOf::AwaitingProposal {
                id: *id,
                target: target@,
            },
            PhaseOf::StoringProposal { id, target, proposal } => PhaseOf::StoringProposal {
                id: *id,
                target: target@,
                proposal: proposal@,
            },
            PhaseOf::TestingProposal { id, target, proposal } => PhaseOf::TestingProposal {
                id: *id,
                target: target@,
                proposal: proposal@,
            },
            PhaseOf::MeasuringAfter { id } => PhaseOf::MeasuringAfter { id: *id },
            PhaseOf::CompletingRecord { id } => PhaseOf::CompletingRecord { id: *id },
            PhaseOf::ReportingFailure { error } => PhaseOf::ReportingFailure { error: error@ },
            PhaseOf::Finished => PhaseOf::Finished,
        }
    }
}

impl View for EventOf<String> {
    type V = EventView;

    open spec fn view(&self) -> EventView {
        match self {
            EventOf::BaselineCollected => EventOf::BaselineCollected,
            EventOf::BaselineLogged => EventOf::BaselineLogged,
            EventOf::TargetPicked(r) => EventOf::TargetPicked(text_result_view(*r)),
            EventOf::RecordCreated(r) => EventOf::RecordCreated(result_view(*r)),
            EventOf::StatusWritten => EventOf::StatusWritten,
            EventOf::ProposalReceived(r) => EventOf::ProposalReceived(text_result_view(*r)),
            EventOf::ProposalStored => EventOf::ProposalStored,
            EventOf::ProposalChecked(b) => EventOf::ProposalChecked(*b),
            EventOf::MetricsCompared(b) => EventOf::MetricsCompared(*b),
            EventOf::RecordCompleted => EventOf::RecordCompleted,
            EventOf::FailureReported => EventOf::FailureReported,
        }
    }
}

impl View for ActionOf<String> {
    type V = ActionView;

    open spec fn view(&self) -> ActionView {
        match self {
            ActionOf::CollectBaseline => ActionOf::CollectBaseline,
            ActionOf::LogBaseline => ActionOf::LogBaseline,
            ActionOf::PickTarget => ActionOf::PickTarget,
            ActionOf::CreateRecord { target, description } => ActionOf::CreateRecord {
                target: target@,
                description: description@,
            },
            ActionOf::WriteStatus { id, status } => ActionOf::WriteStatus {
                id: *id,
                status: *status,
            },
            ActionOf::AskProposal { target } => ActionOf::AskProposal { target: target@ },
            ActionOf::StoreProposal { id, text } => ActionOf::StoreProposal {
                id: *id,
                text: text@,
            },
            ActionOf::TestProposal { target, proposal } => ActionOf::TestProposal {
                target: target@,
                proposal: proposal@,
            },
            ActionOf::MeasureAfter => ActionOf::MeasureAfter,
            ActionOf::CompleteRecord { id, outcome, with_metrics } => ActionOf::CompleteRecord {
                id: *id,
                outcome: *outcome,
                with_metrics: *with_metrics,
            },
            ActionOf::ReportFailure { error } => ActionOf::ReportFailure { error: error@ },
            ActionOf::Stop => ActionOf::Stop,
            ActionOf::Ignore => ActionOf::Ignore,
        }
    }
}

/// The mathematical state of a cycle.
pub struct CycleView {
    pub phase: PhaseView,
    /// Experiments started so far.
    pub attempted: nat,
    pub max_experiments: nat,
}

/// The part of a proposal that is stored: its first
/// `MAX_STORED_PROPOSAL_BYTES` bytes, cut back to a character boundary.
pub open spec fn stored_proposal(p: Seq<char>) -> Seq<char> {
    let b = encode_utf8(p);
    decode_utf8(b.subrange(0, truncation_point(b, MAX_STORED_PROPOSAL_BYTES as int)))
}

/// Start the next experiment, or stop when all have been started.
pub open spec fn next_experiment(c: CycleView) -> (CycleView, ActionView) {
    if c.attempted < c.max_experiments {
        (
            CycleView { phase: PhaseOf::PickingTarget, attempted: c.attempted + 1, ..c },
            ActionOf::PickTarget,
        )
    } else {
        (CycleView { phase: PhaseOf::Finished, ..c }, ActionOf::Stop)
    }
}

/// An experiment failed with `error`: report it.
pub open spec fn failed(c: CycleView, error: Seq<char>) -> (CycleView, ActionView) {
    (
        CycleView { phase: PhaseOf::ReportingFailure { error }, ..c },
        ActionOf::ReportFailure { error },
    )
}

/// What is stored of a proposal: a prefix of it, at most
/// `MAX_STORED_PROPOSAL_BYTES` long in UTF-8, the whole proposal when it
/// fits, and otherwise as many characters as fit: one more character would
/// exceed the limit, and no character boundary of the proposal lies between
/// the stored bytes and the limit.
pub proof fn lemma_stored_proposal(p: Seq<char>)
    ensures
        stored_proposal(p).is_prefix_of(p),
        encode_utf8(stored_proposal(p)).len() <= MAX_STORED_PROPOSAL_BYTES,
        encode_utf8(p).len() <= MAX_STORED_PROPOSAL_BYTES ==> stored_proposal(p) == p,
        stored_proposal(p).len() < p.len() ==> encode_utf8(p.take(stored_proposal(p).len() as int + 1)).len()
            > MAX_STORED_PROPOSAL_BYTES,
        forall|j: int|
            encode_utf8(stored_proposal(p)).len() < j <= MAX_STORED_PROPOSAL_BYTES && j
                <= encode_utf8(p).len() ==> !is_char_boundary(encode_utf8(p), j),
{
    let b = encode_utf8(p);
    let lim = MAX_STORED_PROPOSAL_BYTES as int;
    lemma_truncation_point(b, lim);
    let k = truncation_point(b, lim);
    let s = stored_proposal(p);
    decode_utf8_split(b, k);
    valid_utf8_split(b, k);
    decode_utf8_encode_utf8(b.subrange(0, k));
    assert(encode_utf8(s) == b.subrange(0, k));
    let m = s.len() as int;
    assert(p == s + decode_utf8(b.subrange(k, b.len() as int)));
    assert(p.take(m) =~= s);
    if b.len() <= lim {
        assert(b.subrange(0, k) =~= b);
    }
    if m < p.len() {
        let x = p.take(m + 1);
        let y = p.skip(m + 1);
        assert(p =~= x + y);
        lemma_encode_prefix_boundary(x, y);
        assert(x =~= s + seq![p[m]]);
        lemma_encode_concat(s, seq![p[m]]);
        assert(encode_utf8(seq![p[m]]).len() > 0) by {
            assert(seq![p[m]].drop_first() =~= Seq::<char>::empty());
        }
        if b.len() <= lim {
            assert(s =~= p);
        }
    }
}

/// One transition of the cycle.
pub open spec fn cycle_step(c: CycleView, e: EventView) -> (CycleView, ActionView) {
    let ignored = (c, ActionOf::Ignore);
    match c.phase {
        PhaseOf::CollectingBaseline => match e {
            EventOf::BaselineCollected => (
                CycleView { phase: PhaseOf::LoggingBaseline, ..c },
                ActionOf::LogBaseline,
            ),
            _ => ignored,
        },
        PhaseOf::LoggingBaseline => match e {
            EventOf::BaselineLogged => next_experiment(c),
            _ => ignored,
        },
        PhaseOf::PickingTarget => match e {
            EventOf::TargetPicked(Ok(target)) => (
                CycleView { phase: PhaseOf::CreatingRecord { target }, ..c },
                ActionOf::CreateRecord { target, description: PENDING_DESCRIPTION@ },
            ),
            EventOf::TargetPicked(Err(error)) => failed(c, error),
            _ => ignored,
        },
        PhaseOf::CreatingRecord { target } => match e {
            EventOf::RecordCreated(Ok(id)) => (
                CycleView { phase: PhaseOf::MarkingRunning { id, target }, ..c },
                ActionOf::WriteStatus { id, status: ExperimentStatus::Running },
            ),
            EventOf::RecordCreated(Err(error)) => failed(c, error),
            _ => ignored,
        },
        PhaseOf::MarkingRunning { id, target } => match e {
            EventOf::StatusWritten => (
                CycleView { phase: PhaseOf::AwaitingProposal { id, target }, ..c },
                ActionOf::AskProposal { target },
            ),
            _ => ignored,
        },
        PhaseOf::AwaitingProposal { id, target } => match e {
            EventOf::ProposalReceived(Ok(proposal)) => (
                CycleView { phase: PhaseOf::StoringProposal { id, target, proposal }, ..c },
                ActionOf::StoreProposal { id, text: stored_proposal(proposal) },
            ),
            EventOf::ProposalReceived(Err(error)) => failed(c, error),
            _ => ignored,
        },
        PhaseOf::StoringProposal { id, target, proposal } => match e {
            EventOf::ProposalStored => (
                CycleView { phase: PhaseOf::TestingProposal { id, target, proposal }, ..c },
                ActionOf::TestProposal { target, proposal },
            ),
            _ => ignored,
        },
        PhaseOf::TestingProposal { id, target, proposal } => match e {
            EventOf::ProposalChecked(true) => (
                CycleView { phase: PhaseOf::MeasuringAfter { id }, ..c },
                ActionOf::MeasureAfter,
            ),
            EventOf::ProposalChecked(false) => (
                CycleView { phase: PhaseOf::CompletingRecord { id }, ..c },
                ActionOf::CompleteRecord {
                    id,
                    outcome: ExperimentOutcome::Error,
                    with_metrics: false,
                },
            ),
            _ => ignored,
        },
        PhaseOf::MeasuringAfter { id } => match e {
            EventOf::MetricsCompared(improved) => (
                CycleView { phase: PhaseOf::CompletingRecord { id }, ..c },
                ActionOf::CompleteRecord {
                    id,
                    outcome: if improved {
                        ExperimentOutcome::Kept
                    } else {
                        ExperimentOutcome::Discarded
                    },
                    with_metrics: true,
                },
            ),
            _ => ignored,
        },
        PhaseOf::CompletingRecord { id } => match e {
            EventOf::RecordCompleted => next_experiment(c),
            _ => ignored,
        },
        PhaseOf::ReportingFailure { error } => match e {
            EventOf::FailureReported => next_experiment(c),
            _ => ignored,
        },
        PhaseOf::Finished => ignored,
    }
}

/// The phases that belong to one experiment.
pub open spec fn in_experiment(p: PhaseView) -> bool {
    !(p is CollectingBaseline || p is LoggingBaseline || p is Finished)
}

/// The invariant of a cycle: no more experiments than allowed are started,
/// none before the baseline is recorded, and the cycle only finishes once
/// all of them have been started.
pub open spec fn cycle_wf(c: CycleView) -> bool {
    &&& c.attempted <= c.max_experiments
    &&& (c.phase is CollectingBaseline || c.phase is LoggingBaseline) ==> c.attempted == 0
    &&& in_experiment(c.phase) ==> c.attempted >= 1
    &&& c.phase is Finished ==> c.attempted == c.max_experiments
}


// ---------------------------------------------------------------------------
// Laws of the cycle
// ---------------------------------------------------------------------------

/// The record an experiment phase works on.
pub open spec fn record_of(p: PhaseView) -> Option<i64> {
    match p {
        PhaseOf::MarkingRunning { id, .. } => Some(id),
        PhaseOf::AwaitingProposal { id, .. } => Some(id),
        PhaseOf::StoringProposal { id, .. } => Some(id),
        PhaseOf::TestingProposal { id, .. } => Some(id),
        PhaseOf::MeasuringAfter { id } => Some(id),
        PhaseOf::CompletingRecord { id } => Some(id),
        _ => None,
    }
}

/// The record an action writes to.
pub open spec fn action_record(a: ActionView) -> Option<i64> {
    match a {
        ActionOf::WriteStatus { id, .. } => Some(id),
        ActionOf::StoreProposal { id, .. } => Some(id),
        ActionOf::CompleteRecord { id, .. } => Some(id),
        _ => None,
    }
}

/// How far a phase is from the end of its experiment (or of the cycle).
pub open spec fn phase_rank(p: PhaseView) -> nat {
    match p {
        PhaseOf::CollectingBaseline => 13,
        PhaseOf::LoggingBaseline => 12,
        PhaseOf::PickingTarget => 11,
        PhaseOf::CreatingRecord { .. } => 10,
        PhaseOf::MarkingRunning { .. } => 9,
        PhaseOf::AwaitingProposal { .. } => 8,
        PhaseOf::StoringProposal { .. } => 7,
        PhaseOf::TestingProposal { .. } => 6,
        PhaseOf::MeasuringAfter { .. } => 5,
        PhaseOf::CompletingRecord { .. } => 4,
        PhaseOf::ReportingFailure { .. } => 3,
        PhaseOf::Finished => 0,
    }
}

/// A measure of the work left in a cycle.
pub open spec fn cycle_measure(c: CycleView) -> int {
    (c.max_experiments - c.attempted) * 16 + phase_rank(c.phase)
}

/// The cycle after a sequence of events.
pub open spec fn cycle_after(c: CycleView, events: Seq<EventView>) -> CycleView
    decreases events.len(),
{
    if events.len() == 0 {
        c
    } else {
        cycle_after(cycle_step(c, events[0]).0, events.drop_first())
    }
}

/// How many experiments a sequence of events starts (`PickTarget` actions).
pub open spec fn experiments_started(c: CycleView, events: Seq<EventView>) -> nat
    decreases events.len(),
{
    if events.len() == 0 {
        0
    } else {
        let (next, action) = cycle_step(c, events[0]);
        (if action is PickTarget {
            1nat
        } else {
            0nat
        }) + experiments_started(next, events.drop_first())
    }
}

/// Every transition keeps the cycle invariant.
pub proof fn lemma_step_keeps_invariant(c: CycleView, e: EventView)
    requires
        cycle_wf(c),
    ensures
        cycle_wf(cycle_step(c, e).0),
{
}

/// An ignored event changes nothing, and a finished cycle ignores every
/// event.
pub proof fn lemma_ignored_changes_nothing(c: CycleView, e: EventView)
    ensures
        cycle_step(c, e).1 is Ignore ==> cycle_step(c, e).0 == c,
        c.phase is Finished ==> cycle_step(c, e).1 is Ignore,
{
}

/// Every event that is not ignored brings the cycle strictly closer to its
/// end, so a cycle cannot run forever.
pub proof fn lemma_step_progresses(c: CycleView, e: EventView)
    requires
        cycle_wf(c),
        !(cycle_step(c, e).1 is Ignore),
    ensures
        0 <= cycle_measure(cycle_step(c, e).0) < cycle_measure(c),
{
}

/// A cycle that has not finished always accepts some event: it never gets
/// stuck waiting for something that cannot come.
pub proof fn lemma_unfinished_cycle_accepts_an_event(c: CycleView)
    requires
        cycle_wf(c),
        !(c.phase is Finished),
    ensures
        exists|e: EventView| !(#[trigger] cycle_step(c, e).1 is Ignore),
{
    let e: EventView = match c.phase {
        PhaseOf::CollectingBaseline => EventOf::BaselineCollected,
        PhaseOf::LoggingBaseline => EventOf::BaselineLogged,
        PhaseOf::PickingTarget => EventOf::TargetPicked(Err(Seq::empty())),
        PhaseOf::CreatingRecord { .. } => EventOf::RecordCreated(Err(Seq::empty())),
        PhaseOf::MarkingRunning { .. } => EventOf::StatusWritten,
        PhaseOf::AwaitingProposal { .. } => EventOf::ProposalReceived(Err(Seq::empty())),
        PhaseOf::StoringProposal { .. } => EventOf::ProposalStored,
        PhaseOf::TestingProposal { .. } => EventOf::ProposalChecked(false),
        PhaseOf::MeasuringAfter { .. } => EventOf::MetricsCompared(false),
        PhaseOf::CompletingRecord { .. } => EventOf::RecordCompleted,
        PhaseOf::ReportingFailure { .. } => EventOf::FailureReported,
        PhaseOf::Finished => EventOf::FailureReported,
    };
    assert(!(cycle_step(c, e).1 is Ignore));
}

/// The cycle stops only once all of its experiments have been started, and
/// every `PickTarget` starts exactly one more; no other action changes the
/// count.
pub proof fn lemma_stop_after_all_experiments(c: CycleView, e: EventView)
    requires
        cycle_wf(c),
    ensures
        cycle_step(c, e).1 is Stop ==> cycle_step(c, e).0.phase is Finished
            && cycle_step(c, e).0.attempted == c.max_experiments,
        cycle_step(c, e).1 is PickTarget ==> cycle_step(c, e).0.attempted == c.attempted + 1,
        !(cycle_step(c, e).1 is PickTarget) ==> cycle_step(c, e).0.attempted == c.attempted,
        cycle_step(c, e).0.max_experiments == c.max_experiments,
{
}

/// Over any run, the experiments started add up: the count at the end is
/// the count at the start plus the `PickTarget` actions, and a run that ends
/// finished has started exactly `max_experiments` experiments, failures
/// included.
pub proof fn lemma_run_starts_every_experiment(c: CycleView, events: Seq<EventView>)
    requires
        cycle_wf(c),
    ensures
        cycle_wf(cycle_after(c, events)),
        cycle_after(c, events).attempted == c.attempted + experiments_started(c, events),
        cycle_after(c, events).max_experiments == c.max_experiments,
        cycle_after(c, events).phase is Finished ==> c.attempted + experiments_started(c, events)
            == c.max_experiments,
    decreases events.len(),
{
    if events.len() > 0 {
        let next = cycle_step(c, events[0]).0;
        lemma_stop_after_all_experiments(c, events[0]);
        lemma_run_starts_every_experiment(next, events.drop_first());
    }
}

/// How a record is completed: with metrics exactly when it is not an error,
/// never as pending, as kept exactly when the new measurement beat the
/// baseline, and as an error exactly when the proposal failed its check.
pub proof fn lemma_completion_outcome(c: CycleView, e: EventView)
    ensures
        cycle_step(c, e).1 matches ActionOf::CompleteRecord { id, outcome, with_metrics } ==> {
            &&& (with_metrics <==> outcome != ExperimentOutcome::Error)
            &&& outcome != ExperimentOutcome::Pending
            &&& (outcome == ExperimentOutcome::Kept <==> (c.phase is MeasuringAfter && e
                == EventView::MetricsCompared(true)))
            &&& (outcome == ExperimentOutcome::Error <==> (c.phase is TestingProposal && e
                == EventView::ProposalChecked(false)))
            &&& record_of(c.phase) == Some(id)
        },
{
}

/// Actions write only to the record of the running experiment: an action
/// that names a record names the record of the phase it leads to, and an
/// experiment keeps its record until it ends.
pub proof fn lemma_actions_address_own_record(c: CycleView, e: EventView)
    ensures
        action_record(cycle_step(c, e).1) matches Some(id) ==> record_of(
            cycle_step(c, e).0.phase,
        ) == Some(id),
        record_of(c.phase) is Some && record_of(cycle_step(c, e).0.phase) is Some ==> record_of(
            cycle_step(c, e).0.phase,
        ) == record_of(c.phase),
        cycle_step(c, e).1 matches ActionOf::WriteStatus { status, .. } ==> status
            == ExperimentStatus::Running,
{
}

/// The new test run is measured only after the proposal passed its check,
/// and the first experiment starts only once the baseline is recorded.
pub proof fn lemma_measure_only_after_check(c: CycleView, e: EventView)
    requires
        cycle_wf(c),
    ensures
        cycle_step(c, e).0.phase is MeasuringAfter && !(c.phase is MeasuringAfter) ==> c.phase is TestingProposal
            && e == EventView::ProposalChecked(true),
        cycle_step(c, e).1 is MeasureAfter ==> e == EventView::ProposalChecked(true),
        cycle_step(c, e).1 is PickTarget && c.attempted == 0 ==> c.phase is LoggingBaseline && e
            is BaselineLogged,
{
}

/// A failed step (no target, no record, no proposal) is reported with its
/// error and completes no record; the record of an experiment whose
/// proposal could not be obtained stays as it was.
pub proof fn lemma_failures_are_reported(c: CycleView, e: EventView, error: Seq<char>)
    requires
        (e == EventView::TargetPicked(Err(error))) || (e == EventView::RecordCreated(Err(error)))
            || (e == EventView::ProposalReceived(Err(error))),
        !(cycle_step(c, e).1 is Ignore),
    ensures
        cycle_step(c, e).1 == (ActionView::ReportFailure { error }),
        cycle_step(c, e).0.phase == (PhaseView::ReportingFailure { error }),
        cycle_step(c, e).0.attempted == c.attempted,
{
}

/// A night of experiments, driven one event at a time.
pub struct NightlyCycle {
    phase: Phase,
    attempted: u32,
    max_experiments: u32,
}

impl View for NightlyCycle {
    type V = CycleView;

    closed spec fn view(&self) -> CycleView {
        CycleView {
            phase: self.phase@,
            attempted: self.attempted as nat,
            max_experiments: self.max_experiments as nat,
        }
    }
}

/// The stored part of a proposal (see `stored_proposal`).
pub fn proposal_for_storage(proposal: &str) -> (r: String)
    ensures
        r@ == stored_proposal(proposal@),
        encode_utf8(r@).len() <= MAX_STORED_PROPOSAL_BYTES,
        r@.is_prefix_of(proposal@),
        encode_utf8(proposal@).len() <= MAX_STORED_PROPOSAL_BYTES ==> r@ == proposal@,
{
    proof {
        lemma_stored_proposal(proposal@);
    }
    let cut = safe_truncate(proposal, MAX_STORED_PROPOSAL_BYTES);
    proof {
        decode_utf8_encode_utf8(cut.spec_bytes());
        encode_utf8_decode_utf8(cut@);
    }
    cut.to_owned()
}

impl NightlyCycle {
    #[verifier::type_invariant]
    spec fn inv(self) -> bool {
        cycle_wf(self@)
    }

    /// A new cycle that will run at most `max_experiments` experiments, and
    /// the first thing to do: collect the baseline metrics.
    pub fn start(max_experiments: u32) -> (res: (NightlyCycle, Action))
        ensures
            res.0@ == (CycleView {
                phase: PhaseOf::CollectingBaseline,
                attempted: 0,
                max_experiments: max_experiments as nat,
            }),
            res.1@ == ActionView::CollectBaseline,
    {
        (
            NightlyCycle { phase: PhaseOf::CollectingBaseline, attempted: 0, max_experiments },
            ActionOf::CollectBaseline,
        )
    }

    /// Experiments started so far.
    pub fn attempted(&self) -> (n: u32)
        ensures
            n == self@.attempted,
    {
        self.attempted
    }

    /// Whether the cycle is over.
    pub fn is_finished(&self) -> (b: bool)
        ensures
            b == self@.phase is Finished,
    {
        match self.phase {
            PhaseOf::Finished => true,
            _ => false,
        }
    }

    fn next(attempted: u32, max_experiments: u32, ghost_phase: Ghost<PhaseView>) -> (res: (
        NightlyCycle,
        Action,
    ))
        requires
            attempted <= max_experiments,
        ensures
            (res.0@, res.1@) == next_experiment(
                CycleView {
                    phase: ghost_phase@,
                    attempted: attempted as nat,
                    max_experiments: max_experiments as nat,
                },
            ),
    {
        if attempted < max_experiments {
            (
                NightlyCycle {
                    phase: PhaseOf::PickingTarget,
                    attempted: attempted + 1,
                    max_experiments,
                },
                ActionOf::PickTarget,
            )
        } else {
            (NightlyCycle { phase: PhaseOf::Finished, attempted, max_experiments }, ActionOf::Stop)
        }
    }

    /// Takes the cycle one step further on `event`, returning the new cycle
    /// and the action to perform.
    pub fn step(self, event: Event) -> (res: (NightlyCycle, Action))
        ensures
            (res.0@, res.1@) == cycle_step(self@, event@),
    {
        proof {
            use_type_invariant(&self);
        }
        let ghost before = self@;
        let attempted = self.attempted;
        let max_experiments = self.max_experiments;
        match self.phase {
            PhaseOf::CollectingBaseline => match event {
                EventOf::BaselineCollected => (
                    NightlyCycle { phase: PhaseOf::LoggingBaseline, attempted, max_experiments },
                    ActionOf::LogBaseline,
                ),
                _ => (
                    NightlyCycle { phase: PhaseOf::CollectingBaseline, attempted, max_experiments },
                    ActionOf::Ignore,
                ),
            },
            PhaseOf::LoggingBaseline => match event {
                EventOf::BaselineLogged => Self::next(attempted, max_experiments, Ghost(before.phase)),
                _ => (
                    NightlyCycle { phase: PhaseOf::LoggingBaseline, attempted, max_experiments },
                    ActionOf::Ignore,
                ),
            },
            PhaseOf::PickingTarget => match event {
                EventOf::TargetPicked(Ok(target)) => {
                    let t2 = target.clone();
                    (
                        NightlyCycle {
                            phase: PhaseOf::CreatingRecord { target },
                            attempted,
                            max_experiments,
                        },
                        ActionOf::CreateRecord {
                            target: t2,
                            description: String::from_str(PENDING_DESCRIPTION),
                        },
                    )
                },
                EventOf::TargetPicked(Err(error)) => {
                    let e2 = error.clone();
                    (
                        NightlyCycle {
                            phase: PhaseOf::ReportingFailure { error },
                            attempted,
                            max_experiments,
                        },
                        ActionOf::ReportFailure { error: e2 },
                    )
                },
                _ => (
                    NightlyCycle { phase: PhaseOf::PickingTarget, attempted, max_experiments },
                    ActionOf::Ignore,
                ),
            },
            PhaseOf::CreatingRecord { target } => match event {
                EventOf::RecordCreated(Ok(id)) => (
                    NightlyCycle {
                        phase: PhaseOf::MarkingRunning { id, target },
                        attempted,
                        max_experiments,
                    },
                    ActionOf::WriteStatus { id, status: ExperimentStatus::Running },
                ),
                EventOf::RecordCreated(Err(error)) => {
                    let e2 = error.clone();
                    (
                        NightlyCycle {
                            phase: PhaseOf::ReportingFailure { error },
                            attempted,
                            max_experiments,
                        },
                        ActionOf::ReportFailure { error: e2 },
                    )
                },
                _ => (
                    NightlyCycle {
                        phase: PhaseOf::CreatingRecord { target },
                        attempted,
                        max_experiments,
                    },
                    ActionOf::Ignore,
                ),
            },
            PhaseOf::MarkingRunning { id, target } => match event {
                EventOf::StatusWritten => {
                    let t2 = target.clone();
                    (
                        NightlyCycle {
                            phase: PhaseOf::AwaitingProposal { id, target },
                            attempted,
                            max_experiments,
                        },
                        ActionOf::AskProposal { target: t2 },
                    )
                },
                _ => (
                    NightlyCycle {
                        phase: PhaseOf::MarkingRunning { id, target },
                        attempted,
                        max_experiments,
                    },
                    ActionOf::Ignore,
                ),
            },
            PhaseOf::AwaitingProposal { id, target } => match event {
                EventOf::ProposalReceived(Ok(proposal)) => {
                    let text = proposal_for_storage(proposal.as_str());
                    (
                        NightlyCycle {
                            phase: PhaseOf::StoringProposal { id, target, proposal },
                            attempted,
                            max_experiments,
                        },
                        ActionOf::StoreProposal { id, text },
                    )
                },
                EventOf::ProposalReceived(Err(error)) => {
                    let e2 = error.clone();
                    (
                        NightlyCycle {
                            phase: PhaseOf::ReportingFailure { error },
                            attempted,
                            max_experiments,
                        },
                        ActionOf::ReportFailure { error: e2 },
                    )
                },
                _ => (
                    NightlyCycle {
                        phase: PhaseOf::AwaitingProposal { id, target },
                        attempted,
                        max_experiments,
                    },
                    ActionOf::Ignore,
                ),
            },
            PhaseOf::StoringProposal { id, target, proposal } => match event {
                EventOf::ProposalStored => {
                    let t2 = target.clone();
                    let p2 = proposal.clone();
                    (
                        NightlyCycle {
                            phase: PhaseOf::TestingProposal { id, target, proposal },
                            attempted,
                            max_experiments,
                        },
                        ActionOf::TestProposal { target: t2, proposal: p2 },
                    )
                },
                _ => (
                    NightlyCycle {
                        phase: PhaseOf::StoringProposal { id, target, proposal },
                        attempted,
                        max_experiments,
                    },
                    ActionOf::Ignore,
                ),
            },
            PhaseOf::TestingProposal { id, target, proposal } => match event {
                EventOf::ProposalChecked(ok) => {
                    if ok {
                        (
                            NightlyCycle {
                                phase: PhaseOf::MeasuringAfter { id },
                                attempted,
                                max_experiments,
                            },
                            ActionOf::MeasureAfter,
                        )
                    } else {
                        (
                            NightlyCycle {
                                phase: PhaseOf::CompletingRecord { id },
                                attempted,
                                max_experiments,
                            },
                            ActionOf::CompleteRecord {
                                id,
                                outcome: ExperimentOutcome::Error,
                                with_metrics: false,
                            },
                        )
                    }
                },
                _ => (
                    NightlyCycle {
                        phase: PhaseOf::TestingProposal { id, target, proposal },
                        attempted,
                        max_experiments,
                    },
                    ActionOf::Ignore,
                ),
            },
            PhaseOf::MeasuringAfter { id } => match event {
                EventOf::MetricsCompared(improved) => {
                    let outcome = if improved {
                        ExperimentOutcome::Kept
                    } else {
                        ExperimentOutcome::Discarded
                    };
                    (
                        NightlyCycle {
                            phase: PhaseOf::CompletingRecord { id },
                            attempted,
                            max_experiments,
                        },
                        ActionOf::CompleteRecord { id, outcome, with_metrics: true },
                    )
                },
                _ => (
                    NightlyCycle { phase: PhaseOf::MeasuringAfter { id }, attempted, max_experiments },
                    ActionOf::Ignore,
                ),
            },
            PhaseOf::CompletingRecord { id } => match event {
                EventOf::RecordCompleted => Self::next(attempted, max_experiments, Ghost(before.phase)),
                _ => (
                    NightlyCycle {
                        phase: PhaseOf::CompletingRecord { id },
                        attempted,
                        max_experiments,
                    },
                    ActionOf::Ignore,
                ),
            },
            PhaseOf::ReportingFailure { error } => match event {
                EventOf::FailureReported => Self::next(attempted, max_experiments, Ghost(before.phase)),
                _ => (
                    NightlyCycle {
                        phase: PhaseOf::ReportingFailure { error },
                        attempted,
                        max_experiments,
                    },
                    ActionOf::Ignore,
                ),
            },
            PhaseOf::Finished => (
                NightlyCycle { phase: PhaseOf::Finished, attempted, max_experiments },
                ActionOf::Ignore,
            ),
        }
    }
}

} // verus!
