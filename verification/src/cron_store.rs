//! The cron store: its tables, the jobs that go into them, when a job is due, and the life of a
//! run.

use vstd::prelude::*;

use crate::json::JsonView;
use crate::{entries, json, order, text};

verus! {

/// The database of the cron jobs.
pub struct CronStore {
    db_path: String,
}

/// The statements that make the tables.
pub const TABLES: &'static str = "
            PRAGMA journal_mode = WAL;
            PRAGMA synchronous = NORMAL;
            PRAGMA foreign_keys = ON;

            CREATE TABLE IF NOT EXISTS cron_jobs (
                id TEXT PRIMARY KEY,
                name TEXT,
                schedule_kind TEXT NOT NULL CHECK (schedule_kind IN ('at', 'every', 'cron')),
                schedule_json TEXT NOT NULL,
                payload_kind TEXT NOT NULL CHECK (payload_kind IN ('systemEvent', 'agentTurn')),
                payload_json TEXT NOT NULL,
                session_target TEXT NOT NULL CHECK (session_target IN ('main', 'isolated')),
                delivery_json TEXT,
                enabled INTEGER NOT NULL DEFAULT 1,
                next_run_at TEXT,
                last_run_at TEXT,
                created_at TEXT NOT NULL DEFAULT (strftime('%Y-%m-%dT%H:%M:%fZ', 'now')),
                updated_at TEXT NOT NULL DEFAULT (strftime('%Y-%m-%dT%H:%M:%fZ', 'now'))
            );

            CREATE INDEX IF NOT EXISTS idx_cron_jobs_enabled_next_run
            ON cron_jobs(enabled, next_run_at);

            CREATE TABLE IF NOT EXISTS cron_job_runs (
                run_id TEXT PRIMARY KEY,
                job_id TEXT NOT NULL,
                status TEXT NOT NULL CHECK (status IN ('queued', 'running', 'succeeded', 'failed', 'timed_out', 'cancelled')),
                trigger_source TEXT NOT NULL DEFAULT 'schedule' CHECK (trigger_source IN ('schedule', 'manual', 'retry')),
                started_at TEXT,
                finished_at TEXT,
                duration_ms INTEGER,
                error_text TEXT,
                output_json TEXT,
                created_at TEXT NOT NULL DEFAULT (strftime('%Y-%m-%dT%H:%M:%fZ', 'now')),
                FOREIGN KEY(job_id) REFERENCES cron_jobs(id) ON DELETE CASCADE
            );

            CREATE INDEX IF NOT EXISTS idx_cron_runs_job_created
            ON cron_job_runs(job_id, created_at DESC);

            CREATE TABLE IF NOT EXISTS cron_scheduler_state (
                key TEXT PRIMARY KEY,
                value_json TEXT NOT NULL,
                updated_at TEXT NOT NULL DEFAULT (strftime('%Y-%m-%dT%H:%M:%fZ', 'now'))
            );
            ";

impl CronStore {
    /// The path of the database.
    pub closed spec fn path(self) -> Seq<char> {
        self.db_path@
    }

    /// The store at a path.
    pub fn init(db_path: String) -> (r: CronStore)
        ensures
            r.path() == db_path@,
    {
        CronStore { db_path }
    }

    /// The path of the database.
    pub fn db_path(&self) -> (r: &str)
        ensures
            r@ == self.path(),
    {
        self.db_path.as_str()
    }

    /// The statements that make the tables, where they are not there yet.
    pub fn init_statements(&self) -> (r: String)
        ensures
            r@ == TABLES@,
    {
        TABLES.to_string()
    }
}

// ---------------------------------------------------------------------------------------
// Jobs

/// A job to add.
pub struct CronJobInput {
    pub name: Option<String>,
    pub schedule_kind: String,
    pub schedule_json: String,
    pub payload_kind: String,
    pub payload_json: String,
    pub session_target: String,
    pub next_run_at: Option<String>,
}

/// What a job to add holds.
#[verifier::ext_equal]
pub struct JobInputView {
    pub name: Option<Seq<char>>,
    pub schedule_kind: Seq<char>,
    pub schedule_json: Seq<char>,
    pub payload_kind: Seq<char>,
    pub payload_json: Seq<char>,
    pub session_target: Seq<char>,
    pub next_run_at: Option<Seq<char>>,
}

impl View for CronJobInput {
    type V = JobInputView;

    open spec fn view(&self) -> JobInputView {
        JobInputView {
            name: text::opt(self.name),
            schedule_kind: self.schedule_kind@,
            schedule_json: self.schedule_json@,
            payload_kind: self.payload_kind@,
            payload_json: self.payload_json@,
            session_target: self.session_target@,
            next_run_at: text::opt(self.next_run_at),
        }
    }
}

/// A job that the tables accept.
pub open spec fn acceptable(job: JobInputView) -> bool {
    &&& job.schedule_kind == "at"@ || job.schedule_kind == "every"@ || job.schedule_kind == "cron"@
    &&& job.payload_kind == "systemEvent"@ || job.payload_kind == "agentTurn"@
    &&& job.session_target == "main"@ || job.session_target == "isolated"@
}

/// What the nightly curator job carries.
pub open spec fn curate_payload() -> JsonView {
    JsonView::Object(
        seq![
            (
                "data"@,
                JsonView::Object(
                    seq![
                        ("mode"@, JsonView::Text("incremental"@)),
                        ("window"@, JsonView::Text("24h"@)),
                    ],
                ),
            ),
            ("type"@, JsonView::Text("curate"@)),
            ("version"@, json::number_view(1)),
        ],
    )
}

/// When the nightly curator job runs.
pub open spec fn nightly_schedule() -> JsonView {
    JsonView::Object(
        seq![
            ("expr"@, JsonView::Text("0 2 * * *"@)),
            ("kind"@, JsonView::Text("cron"@)),
            ("tz"@, JsonView::Text("Europe/Paris"@)),
        ],
    )
}

/// What a notification job carries.
pub open spec fn notify_payload(message: Seq<char>) -> JsonView {
    JsonView::Object(
        seq![
            ("data"@, JsonView::Object(seq![("message"@, JsonView::Text(message))])),
            ("type"@, JsonView::Text("notify"@)),
            ("version"@, json::number_view(1)),
        ],
    )
}

/// What an agent job carries.
pub open spec fn turn_payload(message: Seq<char>) -> JsonView {
    JsonView::Object(seq![("message"@, JsonView::Text(message))])
}

/// The schedule of a job that runs once.
pub open spec fn once_schedule(at: Seq<char>) -> JsonView {
    JsonView::Object(seq![("at"@, JsonView::Text(at)), ("kind"@, JsonView::Text("at"@))])
}

/// The compact text of an object whose keys ascend; an object of ordinary keys is read back from
/// it.
pub(crate) fn record(members: Vec<(String, serde_json::Value)>) -> (r: String)
    requires
        json::ascending(json::members_contents(members@)),
    ensures
        r@ == json::json_compact(JsonView::Object(json::members_contents(members@))),
        json::reads_back(JsonView::Object(json::members_contents(members@)), r@),
{
    let value = json::value_of_members(members);
    json::compact_text(&value)
}

proof fn lemma_payload_keys()
    ensures
        order::precedes("data"@, "type"@),
        order::precedes("data"@, "version"@),
        order::precedes("type"@, "version"@),
        order::precedes("mode"@, "window"@),
        order::precedes("expr"@, "kind"@),
        order::precedes("expr"@, "tz"@),
        order::precedes("kind"@, "tz"@),
        order::precedes("at"@, "kind"@),
        json::ordinary("data"@),
        json::ordinary("type"@),
        json::ordinary("version"@),
        json::ordinary("mode"@),
        json::ordinary("window"@),
        json::ordinary("message"@),
{
    reveal_strlit("data");
    reveal_strlit("type");
    reveal_strlit("version");
    reveal_strlit("mode");
    reveal_strlit("window");
    reveal_strlit("expr");
    reveal_strlit("kind");
    reveal_strlit("tz");
    reveal_strlit("at");
    reveal_strlit("message");
    json::lemma_ordinary("data"@);
    json::lemma_ordinary("type"@);
    json::lemma_ordinary("version"@);
    json::lemma_ordinary("mode"@);
    json::lemma_ordinary("window"@);
    json::lemma_ordinary("message"@);
}

proof fn lemma_modest_payloads(message: Seq<char>)
    ensures
        json::modest(curate_payload(), json::DEPTH as nat),
        json::modest(notify_payload(message), json::DEPTH as nat),
        json::modest(turn_payload(message), json::DEPTH as nat),
{
    lemma_payload_keys();
    reveal_with_fuel(json::modest, 4);
}

/// The job that curates the memory every night at two.
pub open spec fn nightly_job() -> JobInputView {
    JobInputView {
        name: Some("curator-nightly"@),
        schedule_kind: "cron"@,
        schedule_json: json::json_compact(nightly_schedule()),
        payload_kind: "systemEvent"@,
        payload_json: json::json_compact(curate_payload()),
        session_target: "main"@,
        next_run_at: None,
    }
}

/// The job that sends one notification at the time `now`.
pub open spec fn notification_job(message: Seq<char>, now: Seq<char>) -> JobInputView {
    JobInputView {
        name: Some("notify-once"@),
        schedule_kind: "at"@,
        schedule_json: json::json_compact(once_schedule(now)),
        payload_kind: "systemEvent"@,
        payload_json: json::json_compact(notify_payload(message)),
        session_target: "main"@,
        next_run_at: Some(now),
    }
}

/// The job that asks an agent of its own, once, at the time `now`.
pub open spec fn agent_job(message: Seq<char>, now: Seq<char>) -> JobInputView {
    JobInputView {
        name: Some("agent-turn-once"@),
        schedule_kind: "at"@,
        schedule_json: json::json_compact(once_schedule(now)),
        payload_kind: "agentTurn"@,
        payload_json: json::json_compact(turn_payload(message)),
        session_target: "isolated"@,
        next_run_at: Some(now),
    }
}

/// The job that curates the memory every night at two.
pub fn curator_nightly_job() -> (r: CronJobInput)
    ensures
        r@ == (JobInputView {
            name: Some("curator-nightly"@),
            schedule_kind: "cron"@,
            schedule_json: json::json_compact(nightly_schedule()),
            payload_kind: "systemEvent"@,
            payload_json: json::json_compact(curate_payload()),
            session_target: "main"@,
            next_run_at: None,
        }),
        acceptable(r@),
        json::json_document(r@.payload_json) == json::accepted(curate_payload()),
        r@ == nightly_job(),
{
    proof {
        lemma_payload_keys();
        lemma_modest_payloads(Seq::empty());
    }
    let mut data: Vec<(String, serde_json::Value)> = Vec::new();
    data.push(("mode".to_string(), json::value_of_text("incremental")));
    data.push(("window".to_string(), json::value_of_text("24h")));
    assert(json::members_contents(data@) =~= seq![
        ("mode"@, JsonView::Text("incremental"@)),
        ("window"@, JsonView::Text("24h"@)),
    ]);
    let mut payload: Vec<(String, serde_json::Value)> = Vec::new();
    payload.push(("data".to_string(), json::value_of_members(data)));
    payload.push(("type".to_string(), json::value_of_text("curate")));
    payload.push(("version".to_string(), json::value_of_number(1)));
    assert(json::members_contents(payload@) =~= curate_payload()->Object_0);
    let mut schedule: Vec<(String, serde_json::Value)> = Vec::new();
    schedule.push(("expr".to_string(), json::value_of_text("0 2 * * *")));
    schedule.push(("kind".to_string(), json::value_of_text("cron")));
    schedule.push(("tz".to_string(), json::value_of_text("Europe/Paris")));
    assert(json::members_contents(schedule@) =~= nightly_schedule()->Object_0);
    CronJobInput {
        name: Some("curator-nightly".to_string()),
        schedule_kind: "cron".to_string(),
        schedule_json: record(schedule),
        payload_kind: "systemEvent".to_string(),
        payload_json: record(payload),
        session_target: "main".to_string(),
        next_run_at: None,
    }
}

/// The schedule of a job that runs once.
fn write_once_schedule(at: &str) -> (r: String)
    ensures
        r@ == json::json_compact(once_schedule(at@)),
{
    proof {
        lemma_payload_keys();
    }
    let mut schedule: Vec<(String, serde_json::Value)> = Vec::new();
    schedule.push(("at".to_string(), json::value_of_text(at)));
    schedule.push(("kind".to_string(), json::value_of_text("at")));
    assert(json::members_contents(schedule@) =~= once_schedule(at@)->Object_0);
    record(schedule)
}

/// The job that sends one notification at the time `now`.
pub fn notify_job(message: &str, now: &str) -> (r: CronJobInput)
    ensures
        r@ == (JobInputView {
            name: Some("notify-once"@),
            schedule_kind: "at"@,
            schedule_json: json::json_compact(once_schedule(now@)),
            payload_kind: "systemEvent"@,
            payload_json: json::json_compact(notify_payload(message@)),
            session_target: "main"@,
            next_run_at: Some(now@),
        }),
        acceptable(r@),
        json::json_document(r@.payload_json) == json::accepted(notify_payload(message@)),
        r@ == notification_job(message@, now@),
{
    proof {
        lemma_payload_keys();
        lemma_modest_payloads(message@);
    }
    let mut data: Vec<(String, serde_json::Value)> = Vec::new();
    data.push(("message".to_string(), json::value_of_text(message)));
    assert(json::members_contents(data@) =~= seq![("message"@, JsonView::Text(message@))]);
    let mut payload: Vec<(String, serde_json::Value)> = Vec::new();
    payload.push(("data".to_string(), json::value_of_members(data)));
    payload.push(("type".to_string(), json::value_of_text("notify")));
    payload.push(("version".to_string(), json::value_of_number(1)));
    assert(json::members_contents(payload@) =~= notify_payload(message@)->Object_0);
    CronJobInput {
        name: Some("notify-once".to_string()),
        schedule_kind: "at".to_string(),
        schedule_json: write_once_schedule(now),
        payload_kind: "systemEvent".to_string(),
        payload_json: record(payload),
        session_target: "main".to_string(),
        next_run_at: Some(now.to_string()),
    }
}

/// The job that asks an agent of its own, once, at the time `now`.
pub fn agent_turn_job(message: &str, now: &str) -> (r: CronJobInput)
    ensures
        r@ == (JobInputView {
            name: Some("agent-turn-once"@),
            schedule_kind: "at"@,
            schedule_json: json::json_compact(once_schedule(now@)),
            payload_kind: "agentTurn"@,
            payload_json: json::json_compact(turn_payload(message@)),
            session_target: "isolated"@,
            next_run_at: Some(now@),
        }),
        acceptable(r@),
        json::json_document(r@.payload_json) == json::accepted(turn_payload(message@)),
        r@ == agent_job(message@, now@),
{
    proof {
        lemma_payload_keys();
        lemma_modest_payloads(message@);
    }
    let mut payload: Vec<(String, serde_json::Value)> = Vec::new();
    payload.push(("message".to_string(), json::value_of_text(message)));
    assert(json::members_contents(payload@) =~= turn_payload(message@)->Object_0);
    CronJobInput {
        name: Some("agent-turn-once".to_string()),
        schedule_kind: "at".to_string(),
        schedule_json: write_once_schedule(now),
        payload_kind: "agentTurn".to_string(),
        payload_json: record(payload),
        session_target: "isolated".to_string(),
        next_run_at: Some(now.to_string()),
    }
}

/// A job as the tables hold it.
pub struct CronJob {
    pub id: String,
    pub name: Option<String>,
    pub schedule_kind: String,
    pub payload_kind: String,
    pub session_target: String,
    pub enabled: bool,
    pub next_run_at: Option<String>,
    pub last_run_at: Option<String>,
}

/// A job is due: it is enabled, and the time of its next run, in seconds, has come.
pub open spec fn time_has_come(enabled: bool, next: Option<i64>, now: i64) -> bool {
    enabled && (next matches Some(t) && t <= now)
}

/// The time of a job's next run, if it can be read.
pub open spec fn next_seconds(job: CronJob) -> Option<i64> {
    match job.next_run_at {
        Some(t) => entries::rfc3339_seconds(t@),
        None => None,
    }
}

/// Has the time of a job come?
pub fn is_time(enabled: bool, next: Option<i64>, now: i64) -> (r: bool)
    ensures
        r == time_has_come(enabled, next, now),
{
    match next {
        Some(t) => enabled && t <= now,
        None => false,
    }
}

impl CronJob {
    /// Is the job due?
    pub fn is_due(&self, now: i64) -> (r: bool)
        ensures
            r == time_has_come(self.enabled, next_seconds(*self), now),
    {
        let next = match &self.next_run_at {
            Some(t) => entries::read_rfc3339(t.as_str()),
            None => None,
        };
        is_time(self.enabled, next, now)
    }
}

/// The identities of the jobs that are due, in the order of the list.
pub open spec fn due_ids(jobs: Seq<CronJob>, now: i64) -> Seq<Seq<char>>
    decreases jobs.len(),
{
    if jobs.len() == 0 {
        Seq::empty()
    } else {
        let before = due_ids(jobs.drop_last(), now);
        let job = jobs.last();
        if time_has_come(job.enabled, next_seconds(job), now) {
            before.push(job.id@)
        } else {
            before
        }
    }
}

/// The identities of the jobs that are due: each gets a run.
pub fn enqueue_due_jobs(jobs: &Vec<CronJob>, now: i64) -> (r: Vec<String>)
    ensures
        text::texts(r@) == due_ids(jobs@, now),
{
    let mut out: Vec<String> = Vec::new();
    let mut i: usize = 0;
    assert(text::texts(out@) =~= Seq::empty());
    assert(jobs@.take(0) =~= Seq::empty());
    while i < jobs.len()
        invariant
            i <= jobs@.len(),
            text::texts(out@) == due_ids(jobs@.take(i as int), now),
        decreases jobs@.len() - i,
    {
        let ghost before = out@;
        assert(jobs@.take(i + 1).drop_last() =~= jobs@.take(i as int));
        assert(jobs@.take(i + 1).last() == jobs@[i as int]);
        if jobs[i].is_due(now) {
            out.push(jobs[i].id.clone());
            assert(text::texts(out@) =~= text::texts(before).push(jobs@[i as int].id@));
        }
        i += 1;
    }
    assert(jobs@.take(jobs@.len() as int) =~= jobs@);
    out
}

// ---------------------------------------------------------------------------------------
// Runs

/// A run as the tables hold it.
pub struct CronRun {
    pub run_id: String,
    pub job_id: String,
    pub status: String,
    pub trigger_source: String,
    pub created_at: String,
}

/// Where a run stands.
#[derive(Clone, Copy, PartialEq, Eq, Structural)]
pub enum RunStatus {
    Queued,
    Running,
    Succeeded,
    Failed,
    TimedOut,
    Cancelled,
}

/// The word that the tables hold for a status.
pub open spec fn status_word(s: RunStatus) -> Seq<char> {
    match s {
        RunStatus::Queued => "queued"@,
        RunStatus::Running => "running"@,
        RunStatus::Succeeded => "succeeded"@,
        RunStatus::Failed => "failed"@,
        RunStatus::TimedOut => "timed_out"@,
        RunStatus::Cancelled => "cancelled"@,
    }
}

impl RunStatus {
    /// The word that the tables hold for the status.
    pub fn word(&self) -> (r: String)
        ensures
            r@ == status_word(*self),
    {
        match self {
            RunStatus::Queued => "queued".to_string(),
            RunStatus::Running => "running".to_string(),
            RunStatus::Succeeded => "succeeded".to_string(),
            RunStatus::Failed => "failed".to_string(),
            RunStatus::TimedOut => "timed_out".to_string(),
            RunStatus::Cancelled => "cancelled".to_string(),
        }
    }

    /// The status of a run that a worker takes up; none unless it is queued.
    pub fn claimed(&self) -> (r: Option<RunStatus>)
        ensures
            r == claim(*self),
    {
        match self {
            RunStatus::Queued => Some(RunStatus::Running),
            _ => None,
        }
    }

    /// The status of a run that has ended, well or not; none unless it is running.
    pub fn finished(&self, ok: bool) -> (r: Option<RunStatus>)
        ensures
            r == finish(*self, ok),
    {
        match self {
            RunStatus::Running => if ok {
                Some(RunStatus::Succeeded)
            } else {
                Some(RunStatus::Failed)
            },
            _ => None,
        }
    }
}

/// The status of a run that a worker takes up.
pub open spec fn claim(s: RunStatus) -> Option<RunStatus> {
    match s {
        RunStatus::Queued => Some(RunStatus::Running),
        _ => None,
    }
}

/// The status of a run that has ended, well or not.
pub open spec fn finish(s: RunStatus, ok: bool) -> Option<RunStatus> {
    match s {
        RunStatus::Running => Some(
            if ok {
                RunStatus::Succeeded
            } else {
                RunStatus::Failed
            },
        ),
        _ => None,
    }
}

/// A run goes from queued to running to succeeded or failed, and no other way; once it has ended
/// it is neither taken up nor ended again.
pub proof fn law_runs_live_once(s: RunStatus, ok: bool, again: bool)
    ensures
        claim(s) is Some <==> s == RunStatus::Queued,
        finish(s, ok) is Some <==> s == RunStatus::Running,
        claim(RunStatus::Queued) == Some(RunStatus::Running),
        finish(RunStatus::Running, ok) matches Some(end) ==> claim(end) is None && finish(
            end,
            again,
        ) is None,
{
}

} // verus!
