//! Core types for the autoresearch loop.
use vstd::prelude::*;

verus! {

/// Experiment lifecycle status.
#[derive(Debug, Clone, Copy, PartialEq, Eq, Structural)]
pub enum ExperimentStatus {
    Pending,
    Running,
    Completed,
    Failed,
}

/// Experiment result: kept, discarded, or errored.
#[derive(Debug, Clone, Copy, PartialEq, Eq, Structural)]
pub enum ExperimentOutcome {
    Pending,
    Kept,
    Discarded,
    Error,
}

/// The name under which a status is shown and stored.
pub open spec fn status_name(s: ExperimentStatus) -> Seq<char> {
    match s {
        ExperimentStatus::Pending => "pending"@,
        ExperimentStatus::Running => "running"@,
        ExperimentStatus::Completed => "completed"@,
        ExperimentStatus::Failed => "failed"@,
    }
}

/// The name under which an outcome is shown and stored.
pub open spec fn outcome_name(o: ExperimentOutcome) -> Seq<char> {
    match o {
        ExperimentOutcome::Pending => "pending"@,
        ExperimentOutcome::Kept => "kept"@,
        ExperimentOutcome::Discarded => "discarded"@,
        ExperimentOutcome::Error => "error"@,
    }
}

impl ExperimentStatus {
    /// The status name, as a string slice.
    pub fn as_str(&self) -> (r: &'static str)
        ensures
            r@ == status_name(*self),
    {
        match self {
            ExperimentStatus::Pending => "pending",
            ExperimentStatus::Running => "running",
            ExperimentStatus::Completed => "completed",
            ExperimentStatus::Failed => "failed",
        }
    }

    /// The status name: `pending`, `running`, `completed` or `failed`.
    pub fn to_string(&self) -> (r: String)
        ensures
            r@ == status_name(*self),
    {
        String::from_str(self.as_str())
    }
}

impl ExperimentOutcome {
    /// The outcome name, as a string slice.
    pub fn as_str(&self) -> (r: &'static str)
        ensures
            r@ == outcome_name(*self),
    {
        match self {
            ExperimentOutcome::Pending => "pending",
            ExperimentOutcome::Kept => "kept",
            ExperimentOutcome::Discarded => "discarded",
            ExperimentOutcome::Error => "error",
        }
    }

    /// The outcome name: `pending`, `kept`, `discarded` or `error`.
    pub fn to_string(&self) -> (r: String)
        ensures
            r@ == outcome_name(*self),
    {
        String::from_str(self.as_str())
    }

    /// The outcome whose name is `name`, if any.
    pub fn from_name(name: &str) -> (r: Option<ExperimentOutcome>)
        ensures
            r matches Some(o) ==> outcome_name(o) == name@,
            r is None ==> forall|o: ExperimentOutcome| outcome_name(o) != name@,
    {
        if string_eq(name, "pending") {
            Some(ExperimentOutcome::Pending)
        } else if string_eq(name, "kept") {
            Some(ExperimentOutcome::Kept)
        } else if string_eq(name, "discarded") {
            Some(ExperimentOutcome::Discarded)
        } else if string_eq(name, "error") {
            Some(ExperimentOutcome::Error)
        } else {
            proof {
                assert forall|o: ExperimentOutcome| outcome_name(o) != name@ by {
                    match o {
                        ExperimentOutcome::Pending => {},
                        ExperimentOutcome::Kept => {},
                        ExperimentOutcome::Discarded => {},
                        ExperimentOutcome::Error => {},
                    }
                }
            }
            None
        }
    }
}

/// Character-wise equality of two string slices.
pub fn string_eq(a: &str, b: &str) -> (r: bool)
    ensures
        r == (a@ == b@),
{
    let x = String::from_str(a);
    let y = String::from_str(b);
    x == y
}

/// Distinct statuses have distinct names, so a stored name identifies the
/// status it was written for.
pub proof fn lemma_status_names_distinct(a: ExperimentStatus, b: ExperimentStatus)
    ensures
        status_name(a) == status_name(b) <==> a == b,
{
    reveal_strlit("pending");
    reveal_strlit("running");
    reveal_strlit("completed");
    reveal_strlit("failed");
    if status_name(a) == status_name(b) && a != b {
        let x = status_name(a);
        let y = status_name(b);
        assert(x.len() != y.len() || x[0] != y[0] || x[1] != y[1]);
    }
}

/// Distinct outcomes have distinct names, so a stored name identifies the
/// outcome it was written for.
pub proof fn lemma_outcome_names_distinct(a: ExperimentOutcome, b: ExperimentOutcome)
    ensures
        outcome_name(a) == outcome_name(b) <==> a == b,
{
    reveal_strlit("pending");
    reveal_strlit("kept");
    reveal_strlit("discarded");
    reveal_strlit("error");
    if outcome_name(a) == outcome_name(b) && a != b {
        let x = outcome_name(a);
        let y = outcome_name(b);
        assert(x.len() != y.len() || x[0] != y[0]);
    }
}

/// Configuration for the autoresearch loop.
#[derive(Debug, Clone)]
pub struct AutoresearchConfig {
    pub enabled: bool,
    pub cron: String,
    pub daemon_url: String,
    pub model: String,
    pub max_experiments_per_night: u32,
    pub repo_root: String,
}

/// Nightly schedule: 02:00 every day.
pub const NIGHTLY_CRON: &'static str = "0 2 * * *";

/// The local daemon that serves inference requests.
pub const DEFAULT_DAEMON_URL: &'static str = "http://localhost:8420";

/// The local model asked for proposals.
pub const DEFAULT_MODEL: &'static str = "mlx-community/Qwen2.5-Coder-7B-Instruct-4bit";

/// Experiments run per night unless configured otherwise.
pub const DEFAULT_MAX_EXPERIMENTS: u32 = 3;

impl AutoresearchConfig {
    /// The default configuration for the repository at `repo_root`: enabled,
    /// nightly at 02:00, the local daemon and model, three experiments.
    pub fn with_repo_root(repo_root: String) -> (c: AutoresearchConfig)
        ensures
            c.enabled,
            c.cron@ == NIGHTLY_CRON@,
            c.daemon_url@ == DEFAULT_DAEMON_URL@,
            c.model@ == DEFAULT_MODEL@,
            c.max_experiments_per_night == DEFAULT_MAX_EXPERIMENTS,
            c.repo_root == repo_root,
    {
        AutoresearchConfig {
            enabled: true,
            cron: String::from_str(NIGHTLY_CRON),
            daemon_url: String::from_str(DEFAULT_DAEMON_URL),
            model: String::from_str(DEFAULT_MODEL),
            max_experiments_per_night: DEFAULT_MAX_EXPERIMENTS,
            repo_root,
        }
    }
}

} // verus!
