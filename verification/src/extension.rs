//! What the extension declares to its host: manifest, database schema,
//! schedule, tools, and how it reports its health.
use vstd::prelude::*;
use vstd::string::*;
use crate::types::NIGHTLY_CRON;

verus! {

pub const EXTENSION_ID: &'static str = "convergio-autoresearch";

pub const EXTENSION_DESCRIPTION: &'static str =
    "Nightly optimization loop \u{2014} experiment, measure, keep or discard";

pub const CAPABILITY_VERSION: &'static str = "1.0.0";

pub const AUTORESEARCH_CAPABILITY: &'static str = "autoresearch";

pub const AUTORESEARCH_CAPABILITY_DESCRIPTION: &'static str =
    "Nightly code optimization experiments";

pub const METRICS_CAPABILITY: &'static str = "metrics-collection";

pub const METRICS_CAPABILITY_DESCRIPTION: &'static str =
    "Project metrics (test time, binary size, lines)";

pub const ORCHESTRATOR_ROLE: &'static str = "orchestrator";

pub const ALL_ROLE: &'static str = "all";

/// Name of the scheduled task that runs the nightly cycle.
pub const NIGHTLY_TASK: &'static str = "autoresearch-nightly";

/// Name of the metric that counts experiments.
pub const EXPERIMENTS_METRIC: &'static str = "autoresearch_experiments_total";

pub const SCHEMA_DESCRIPTION: &'static str = "autoresearch tables";

/// The tables of the extension: experiments and metrics snapshots.
pub const SCHEMA_SQL: &'static str = "CREATE TABLE IF NOT EXISTS autoresearch_experiments (\
                    id INTEGER PRIMARY KEY,\
                    target_file TEXT NOT NULL,\
                    description TEXT,\
                    status TEXT DEFAULT 'pending',\
                    outcome TEXT DEFAULT 'pending',\
                    baseline_test_secs REAL,\
                    experiment_test_secs REAL,\
                    binary_size_before INTEGER,\
                    binary_size_after INTEGER,\
                    model_used TEXT DEFAULT 'mlx-qwen-7b',\
                    proposal TEXT,\
                    error_message TEXT,\
                    created_at TEXT DEFAULT (datetime('now')),\
                    completed_at TEXT\
                );\
                CREATE INDEX IF NOT EXISTS idx_ar_status \
                    ON autoresearch_experiments(status);\
                CREATE INDEX IF NOT EXISTS idx_ar_outcome \
                    ON autoresearch_experiments(outcome);\
                CREATE TABLE IF NOT EXISTS autoresearch_metrics (\
                    id INTEGER PRIMARY KEY,\
                    test_count INTEGER,\
                    test_duration_secs REAL,\
                    binary_size_bytes INTEGER,\
                    total_rust_lines INTEGER,\
                    crate_count INTEGER,\
                    collected_at TEXT DEFAULT (datetime('now'))\
                );";

/// What kind of module the host loads.
#[derive(Debug, Clone, Copy, PartialEq, Eq, Structural)]
pub enum ModuleKind {
    Extension,
}

/// A capability the extension provides.
#[derive(Debug)]
pub struct Capability {
    pub name: String,
    pub version: String,
    pub description: String,
}

/// How the extension presents itself to the host.
#[derive(Debug)]
pub struct Manifest {
    pub id: String,
    pub description: String,
    pub version: String,
    pub kind: ModuleKind,
    pub provides: Vec<Capability>,
    pub required_roles: Vec<String>,
}

/// A schema migration.
#[derive(Debug)]
pub struct Migration {
    pub version: u32,
    pub description: String,
    pub up: String,
}

/// A task the host runs on a cron schedule.
#[derive(Debug)]
pub struct ScheduledTask {
    pub name: String,
    pub cron: String,
}

/// Health of the extension.
#[derive(Debug)]
pub enum Health {
    Healthy,
    Degraded { reason: String },
}

fn capability(name: &str, description: &str) -> (c: Capability)
    ensures
        c.name@ == name@,
        c.version@ == CAPABILITY_VERSION@,
        c.description@ == description@,
{
    Capability {
        name: String::from_str(name),
        version: String::from_str(CAPABILITY_VERSION),
        description: String::from_str(description),
    }
}

/// The manifest of the extension, at crate version `version`: it provides
/// the `autoresearch` and `metrics-collection` capabilities and needs the
/// `orchestrator` or `all` role.
pub fn manifest(version: &str) -> (m: Manifest)
    ensures
        m.id@ == EXTENSION_ID@,
        m.description@ == EXTENSION_DESCRIPTION@,
        m.version@ == version@,
        m.kind == ModuleKind::Extension,
        m.provides@.len() == 2,
        m.provides@[0].name@ == AUTORESEARCH_CAPABILITY@,
        m.provides@[0].version@ == CAPABILITY_VERSION@,
        m.provides@[0].description@ == AUTORESEARCH_CAPABILITY_DESCRIPTION@,
        m.provides@[1].name@ == METRICS_CAPABILITY@,
        m.provides@[1].version@ == CAPABILITY_VERSION@,
        m.provides@[1].description@ == METRICS_CAPABILITY_DESCRIPTION@,
        m.required_roles@.len() == 2,
        m.required_roles@[0]@ == ORCHESTRATOR_ROLE@,
        m.required_roles@[1]@ == ALL_ROLE@,
{
    let mut provides: Vec<Capability> = Vec::new();
    provides.push(capability(AUTORESEARCH_CAPABILITY, AUTORESEARCH_CAPABILITY_DESCRIPTION));
    provides.push(capability(METRICS_CAPABILITY, METRICS_CAPABILITY_DESCRIPTION));
    let mut required_roles: Vec<String> = Vec::new();
    required_roles.push(String::from_str(ORCHESTRATOR_ROLE));
    required_roles.push(String::from_str(ALL_ROLE));
    Manifest {
        id: String::from_str(EXTENSION_ID),
        description: String::from_str(EXTENSION_DESCRIPTION),
        version: String::from_str(version),
        kind: ModuleKind::Extension,
        provides,
        required_roles,
    }
}

/// The schema migrations: one, version 1, creating the tables.
pub fn migrations() -> (r: Vec<Migration>)
    ensures
        r@.len() == 1,
        r@[0].version == 1,
        r@[0].description@ == SCHEMA_DESCRIPTION@,
        r@[0].up@ == SCHEMA_SQL@,
{
    let mut r: Vec<Migration> = Vec::new();
    r.push(
        Migration {
            version: 1,
            description: String::from_str(SCHEMA_DESCRIPTION),
            up: String::from_str(SCHEMA_SQL),
        },
    );
    r
}

/// The scheduled tasks: the nightly cycle at 02:00.
pub fn scheduled_tasks() -> (r: Vec<ScheduledTask>)
    ensures
        r@.len() == 1,
        r@[0].name@ == NIGHTLY_TASK@,
        r@[0].cron@ == NIGHTLY_CRON@,
{
    let mut r: Vec<ScheduledTask> = Vec::new();
    r.push(
        ScheduledTask { name: String::from_str(NIGHTLY_TASK), cron: String::from_str(NIGHTLY_CRON) },
    );
    r
}

/// Whether the scheduled task `task_name` starts a nightly cycle.
pub fn should_run_cycle(task_name: &str) -> (b: bool)
    ensures
        b == (task_name@ == NIGHTLY_TASK@),
{
    crate::types::string_eq(task_name, NIGHTLY_TASK)
}

/// Prefix of the reason given when the database cannot be reached.
pub const DB_REASON_PREFIX: &'static str = "db: ";

/// Health given whether a database connection could be had: healthy when
/// it could, degraded with `db: ` and the error otherwise.
pub fn health_of(connection_error: Option<&str>) -> (h: Health)
    ensures
        connection_error is None ==> h is Healthy,
        connection_error matches Some(e) ==> h matches Health::Degraded { reason } && reason@
            == DB_REASON_PREFIX@ + e@,
{
    match connection_error {
        None => Health::Healthy,
        Some(e) => {
            let mut reason = String::from_str(DB_REASON_PREFIX);
            reason.append(e);
            Health::Degraded { reason }
        },
    }
}

/// A tool that agents may call, described for the host.
#[derive(Debug)]
pub struct ToolDef {
    pub name: String,
    pub description: String,
    pub method: String,
    pub path: String,
    /// JSON schema of the tool's input, as JSON text.
    pub input_schema: String,
    pub min_ring: String,
}

pub const TRIGGER_TOOL: &'static str = "cvg_autoresearch_trigger";

pub const RESULTS_TOOL: &'static str = "cvg_autoresearch_results";

pub const EXPERIMENTS_TOOL: &'static str = "cvg_autoresearch_experiments";

pub const METRICS_TOOL: &'static str = "cvg_autoresearch_metrics";

pub const TRIGGER_PATH: &'static str = "/api/autoresearch/trigger";

pub const RESULTS_PATH: &'static str = "/api/autoresearch/results";

pub const EXPERIMENTS_PATH: &'static str = "/api/autoresearch/experiments";

pub const METRICS_PATH: &'static str = "/api/autoresearch/metrics";

pub const TRIGGER_SCHEMA: &'static str =
    "{\"type\":\"object\",\"properties\":{\"topic\":{\"type\":\"string\",\"description\":\"Research topic\"}},\"required\":[\"topic\"]}";

pub const EMPTY_SCHEMA: &'static str = "{\"type\":\"object\",\"properties\":{}}";

fn tool(
    name: &str,
    description: &str,
    method: &str,
    path: &str,
    input_schema: &str,
    min_ring: &str,
) -> (t: ToolDef)
    ensures
        t.name@ == name@,
        t.description@ == description@,
        t.method@ == method@,
        t.path@ == path@,
        t.input_schema@ == input_schema@,
        t.min_ring@ == min_ring@,
{
    ToolDef {
        name: String::from_str(name),
        description: String::from_str(description),
        method: String::from_str(method),
        path: String::from_str(path),
        input_schema: String::from_str(input_schema),
        min_ring: String::from_str(min_ring),
    }
}

/// The four tools: trigger a run (trusted ring, POST), and read results,
/// experiments and metrics (community ring, GET).
pub fn autoresearch_tools() -> (r: Vec<ToolDef>)
    ensures
        r@.len() == 4,
        r@[0].name@ == TRIGGER_TOOL@,
        r@[0].description@ == "Trigger an autoresearch run."@,
        r@[0].method@ == "POST"@,
        r@[0].path@ == TRIGGER_PATH@,
        r@[0].input_schema@ == TRIGGER_SCHEMA@,
        r@[0].min_ring@ == "trusted"@,
        r@[1].name@ == RESULTS_TOOL@,
        r@[1].description@ == "Get autoresearch results."@,
        r@[1].method@ == "GET"@,
        r@[1].path@ == RESULTS_PATH@,
        r@[1].input_schema@ == EMPTY_SCHEMA@,
        r@[1].min_ring@ == "community"@,
        r@[2].name@ == EXPERIMENTS_TOOL@,
        r@[2].description@ == "List autoresearch experiments."@,
        r@[2].method@ == "GET"@,
        r@[2].path@ == EXPERIMENTS_PATH@,
        r@[2].input_schema@ == EMPTY_SCHEMA@,
        r@[2].min_ring@ == "community"@,
        r@[3].name@ == METRICS_TOOL@,
        r@[3].description@ == "Get autoresearch metrics."@,
        r@[3].method@ == "GET"@,
        r@[3].path@ == METRICS_PATH@,
        r@[3].input_schema@ == EMPTY_SCHEMA@,
        r@[3].min_ring@ == "community"@,
{
    let mut r: Vec<ToolDef> = Vec::new();
    r.push(
        tool(
            TRIGGER_TOOL,
            "Trigger an autoresearch run.",
            "POST",
            TRIGGER_PATH,
            TRIGGER_SCHEMA,
            "trusted",
        ),
    );
    r.push(
        tool(
            RESULTS_TOOL,
            "Get autoresearch results.",
            "GET",
            RESULTS_PATH,
            EMPTY_SCHEMA,
            "community",
        ),
    );
    r.push(
        tool(
            EXPERIMENTS_TOOL,
            "List autoresearch experiments.",
            "GET",
            EXPERIMENTS_PATH,
            EMPTY_SCHEMA,
            "community",
        ),
    );
    r.push(
        tool(METRICS_TOOL, "Get autoresearch metrics.", "GET", METRICS_PATH, EMPTY_SCHEMA, "community"),
    );
    r
}

} // verus!
