use convergio_autoresearch::cycle::{ActionOf, EventOf, NightlyCycle, proposal_for_storage};
use convergio_autoresearch::types::{ExperimentOutcome, ExperimentStatus};

fn s(x: &str) -> String {
    x.to_string()
}

#[test]
fn full_night_with_a_kept_and_a_failed_experiment() {
    let (c, a) = NightlyCycle::start(2);
    assert_eq!(a, ActionOf::CollectBaseline);
    let (c, a) = c.step(EventOf::BaselineCollected);
    assert_eq!(a, ActionOf::LogBaseline);
    let (c, a) = c.step(EventOf::BaselineLogged);
    assert_eq!(a, ActionOf::PickTarget);
    assert_eq!(c.attempted(), 1);
    let (c, a) = c.step(EventOf::TargetPicked(Ok(s("src/lib.rs"))));
    assert_eq!(a, ActionOf::CreateRecord { target: s("src/lib.rs"), description: s("pending proposal") });
    let (c, a) = c.step(EventOf::RecordCreated(Ok(7)));
    assert_eq!(a, ActionOf::WriteStatus { id: 7, status: ExperimentStatus::Running });
    let (c, a) = c.step(EventOf::StatusWritten);
    assert_eq!(a, ActionOf::AskProposal { target: s("src/lib.rs") });
    let (c, a) = c.step(EventOf::ProposalReceived(Ok(s("fn f() {}"))));
    assert_eq!(a, ActionOf::StoreProposal { id: 7, text: s("fn f() {}") });
    let (c, a) = c.step(EventOf::ProposalStored);
    assert_eq!(a, ActionOf::TestProposal { target: s("src/lib.rs"), proposal: s("fn f() {}") });
    let (c, a) = c.step(EventOf::ProposalChecked(true));
    assert_eq!(a, ActionOf::MeasureAfter);
    let (c, a) = c.step(EventOf::MetricsCompared(true));
    assert_eq!(a, ActionOf::CompleteRecord { id: 7, outcome: ExperimentOutcome::Kept, with_metrics: true });
    let (c, a) = c.step(EventOf::RecordCompleted);
    assert_eq!(a, ActionOf::PickTarget);
    assert_eq!(c.attempted(), 2);
    let (c, a) = c.step(EventOf::TargetPicked(Err(s("no suitable target found"))));
    assert_eq!(a, ActionOf::ReportFailure { error: s("no suitable target found") });
    let (c, a) = c.step(EventOf::FailureReported);
    assert_eq!(a, ActionOf::Stop);
    assert!(c.is_finished());
    assert_eq!(c.attempted(), 2);
    let (c, a) = c.step(EventOf::BaselineCollected);
    assert_eq!(a, ActionOf::Ignore);
    assert!(c.is_finished());
}

#[test]
fn failed_check_completes_as_error_without_metrics() {
    let (c, _) = NightlyCycle::start(1);
    let (c, _) = c.step(EventOf::BaselineCollected);
    let (c, _) = c.step(EventOf::BaselineLogged);
    let (c, _) = c.step(EventOf::TargetPicked(Ok(s("a.rs"))));
    let (c, _) = c.step(EventOf::RecordCreated(Ok(1)));
    let (c, _) = c.step(EventOf::StatusWritten);
    let (c, _) = c.step(EventOf::ProposalReceived(Ok(s("x"))));
    let (c, _) = c.step(EventOf::ProposalStored);
    let (c, a) = c.step(EventOf::ProposalChecked(false));
    assert_eq!(a, ActionOf::CompleteRecord { id: 1, outcome: ExperimentOutcome::Error, with_metrics: false });
    let (c, a) = c.step(EventOf::RecordCompleted);
    assert_eq!(a, ActionOf::Stop);
    assert!(c.is_finished());
}

#[test]
fn slower_run_is_discarded() {
    let (c, _) = NightlyCycle::start(1);
    let (c, _) = c.step(EventOf::BaselineCollected);
    let (c, _) = c.step(EventOf::BaselineLogged);
    let (c, _) = c.step(EventOf::TargetPicked(Ok(s("a.rs"))));
    let (c, _) = c.step(EventOf::RecordCreated(Ok(5)));
    let (c, _) = c.step(EventOf::StatusWritten);
    let (c, _) = c.step(EventOf::ProposalReceived(Ok(s("x"))));
    let (c, _) = c.step(EventOf::ProposalStored);
    let (c, _) = c.step(EventOf::ProposalChecked(true));
    let (_c, a) = c.step(EventOf::MetricsCompared(false));
    assert_eq!(a, ActionOf::CompleteRecord { id: 5, outcome: ExperimentOutcome::Discarded, with_metrics: true });
}

#[test]
fn unreachable_model_leaves_record_running_and_goes_on() {
    let (c, _) = NightlyCycle::start(2);
    let (c, _) = c.step(EventOf::BaselineCollected);
    let (c, _) = c.step(EventOf::BaselineLogged);
    let (c, _) = c.step(EventOf::TargetPicked(Ok(s("a.rs"))));
    let (c, _) = c.step(EventOf::RecordCreated(Ok(3)));
    let (c, _) = c.step(EventOf::StatusWritten);
    let (c, a) = c.step(EventOf::ProposalReceived(Err(s("connection refused"))));
    assert_eq!(a, ActionOf::ReportFailure { error: s("connection refused") });
    let (c, a) = c.step(EventOf::FailureReported);
    assert_eq!(a, ActionOf::PickTarget);
    assert_eq!(c.attempted(), 2);
}

#[test]
fn record_creation_failure_is_reported() {
    let (c, _) = NightlyCycle::start(1);
    let (c, _) = c.step(EventOf::BaselineCollected);
    let (c, _) = c.step(EventOf::BaselineLogged);
    let (c, _) = c.step(EventOf::TargetPicked(Ok(s("a.rs"))));
    let (c, a) = c.step(EventOf::RecordCreated(Err(s("db locked"))));
    assert_eq!(a, ActionOf::ReportFailure { error: s("db locked") });
    let (c, a) = c.step(EventOf::FailureReported);
    assert_eq!(a, ActionOf::Stop);
    assert!(c.is_finished());
}

#[test]
fn zero_experiments_stop_after_baseline() {
    let (c, _) = NightlyCycle::start(0);
    let (c, a) = c.step(EventOf::StatusWritten);
    assert_eq!(a, ActionOf::Ignore);
    let (c, _) = c.step(EventOf::BaselineCollected);
    let (c, a) = c.step(EventOf::BaselineLogged);
    assert_eq!(a, ActionOf::Stop);
    assert!(c.is_finished());
    assert_eq!(c.attempted(), 0);
}

#[test]
fn stored_proposal_is_cut_at_5000_bytes() {
    let long = "é".repeat(3000);
    let stored = proposal_for_storage(&long);
    assert_eq!(stored.len(), 5000);
    let odd = format!("a{}", "é".repeat(3000));
    assert_eq!(proposal_for_storage(&odd).len(), 4999);
    assert_eq!(proposal_for_storage("short"), "short");
}
