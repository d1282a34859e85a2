use convergio_autoresearch::extension::{
    autoresearch_tools, health_of, manifest, migrations, scheduled_tasks, should_run_cycle,
    Health, ModuleKind,
};

#[test]
fn manifest_is_extension_kind() {
    let m = manifest("0.1.0");
    assert_eq!(m.id, "convergio-autoresearch");
    assert!(matches!(m.kind, ModuleKind::Extension));
    assert!(m.provides.iter().any(|c| c.name == "autoresearch"));
    assert!(m.provides.iter().any(|c| c.name == "metrics-collection"));
}

#[test]
fn has_one_migration() {
    let migs = migrations();
    assert_eq!(migs.len(), 1);
}

#[test]
fn migrations_sql_valid() {
    let conn = rusqlite::Connection::open_in_memory().unwrap();
    for mig in migrations() {
        conn.execute_batch(&mig.up).unwrap();
    }
    // Verify tables exist
    let count: i64 = conn
        .query_row("SELECT COUNT(*) FROM autoresearch_experiments", [], |r| {
            r.get(0)
        })
        .unwrap();
    assert_eq!(count, 0);
    let count: i64 = conn
        .query_row("SELECT COUNT(*) FROM autoresearch_metrics", [], |r| {
            r.get(0)
        })
        .unwrap();
    assert_eq!(count, 0);
}

#[test]
fn has_scheduled_task() {
    let tasks = scheduled_tasks();
    assert_eq!(tasks.len(), 1);
    assert_eq!(tasks[0].name, "autoresearch-nightly");
    assert_eq!(tasks[0].cron, "0 2 * * *");
}

#[test]
fn health_ok_with_pool() {
    let conn = rusqlite::Connection::open_in_memory();
    let err = conn.as_ref().err().map(|e| e.to_string());
    assert!(matches!(health_of(err.as_deref()), Health::Healthy));
}

#[test]
fn health_degraded_names_the_database() {
    match health_of(Some("pool timed out")) {
        Health::Degraded { reason } => assert_eq!(reason, "db: pool timed out"),
        Health::Healthy => panic!("expected degraded health"),
    }
}

#[test]
fn only_the_nightly_task_runs_a_cycle() {
    assert!(should_run_cycle("autoresearch-nightly"));
    assert!(!should_run_cycle("autoresearch-nightly "));
    assert!(!should_run_cycle("other"));
}

#[test]
fn manifest_roles_and_version() {
    let m = manifest("1.2.3");
    assert_eq!(m.version, "1.2.3");
    assert_eq!(m.required_roles, vec!["orchestrator".to_string(), "all".to_string()]);
    assert_eq!(m.provides.len(), 2);
    assert!(m.provides.iter().all(|c| c.version == "1.0.0"));
}

#[test]
fn tools_are_described() {
    let tools = autoresearch_tools();
    assert_eq!(tools.len(), 4);
    assert_eq!(tools[0].name, "cvg_autoresearch_trigger");
    assert_eq!(tools[0].method, "POST");
    assert_eq!(tools[0].min_ring, "trusted");
    assert!(tools[1..].iter().all(|t| t.method == "GET" && t.min_ring == "community"));
    assert_eq!(tools[3].path, "/api/autoresearch/metrics");
    for t in &tools {
        let v: serde_json::Value = serde_json::from_str(&t.input_schema).unwrap();
        assert_eq!(v["type"], "object");
    }
    let v: serde_json::Value = serde_json::from_str(&tools[0].input_schema).unwrap();
    assert_eq!(v["required"][0], "topic");
}
