use convergio_autoresearch::types::{
    AutoresearchConfig, ExperimentOutcome, ExperimentStatus, DEFAULT_MAX_EXPERIMENTS,
};

#[test]
fn experiment_status_display() {
    assert_eq!(ExperimentStatus::Pending.to_string(), "pending");
    assert_eq!(ExperimentStatus::Running.to_string(), "running");
    assert_eq!(ExperimentStatus::Completed.to_string(), "completed");
    assert_eq!(ExperimentStatus::Failed.to_string(), "failed");
}

#[test]
fn experiment_outcome_display() {
    assert_eq!(ExperimentOutcome::Pending.to_string(), "pending");
    assert_eq!(ExperimentOutcome::Kept.to_string(), "kept");
    assert_eq!(ExperimentOutcome::Discarded.to_string(), "discarded");
    assert_eq!(ExperimentOutcome::Error.to_string(), "error");
}

#[test]
fn default_config() {
    let cfg = AutoresearchConfig::with_repo_root(".".to_string());
    assert!(cfg.enabled);
    assert_eq!(cfg.cron, "0 2 * * *");
    assert!(cfg.model.contains("Qwen"));
    assert_eq!(cfg.max_experiments_per_night, 3);
}

#[test]
fn default_config_keeps_repo_root_and_local_daemon() {
    let cfg = AutoresearchConfig::with_repo_root("/srv/repo".to_string());
    assert_eq!(cfg.repo_root, "/srv/repo");
    assert_eq!(cfg.daemon_url, "http://localhost:8420");
    assert_eq!(cfg.model, "mlx-community/Qwen2.5-Coder-7B-Instruct-4bit");
    assert_eq!(DEFAULT_MAX_EXPERIMENTS, 3);
}

#[test]
fn names_are_distinct_and_parse_back() {
    let outcomes = [
        ExperimentOutcome::Pending,
        ExperimentOutcome::Kept,
        ExperimentOutcome::Discarded,
        ExperimentOutcome::Error,
    ];
    for a in outcomes {
        assert_eq!(ExperimentOutcome::from_name(a.as_str()), Some(a));
        for b in outcomes {
            assert_eq!(a.as_str() == b.as_str(), a == b);
        }
    }
    assert_eq!(ExperimentOutcome::from_name("Kept"), None);
    assert_eq!(ExperimentOutcome::from_name(""), None);
    let statuses = [
        ExperimentStatus::Pending,
        ExperimentStatus::Running,
        ExperimentStatus::Completed,
        ExperimentStatus::Failed,
    ];
    for a in statuses {
        for b in statuses {
            assert_eq!(a.as_str() == b.as_str(), a == b);
        }
    }
}
