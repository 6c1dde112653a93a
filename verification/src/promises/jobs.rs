//! What the cron store is for: every job that is due gets a run, and a job holds what it was made
//! with.

use vstd::prelude::*;

use crate::cron_store::{CronJob, RunStatus};
use crate::json::JsonView;
use crate::promises::facts;
use crate::{cron_store, entries, json, numerals};

verus! {

/// A job is enabled, and the time of its next run can be read and has come.
pub open spec fn due(job: CronJob, now: i64) -> bool {
    &&& job.enabled
    &&& job.next_run_at matches Some(t) && entries::rfc3339_seconds(t@) matches Some(s) && s <= now
}

/// Every job that is due gets a run, in the order of the list, and no other does. The places of
/// these jobs are returned.
pub proof fn law_every_due_job_gets_a_run(jobs: Seq<CronJob>, now: i64) -> (at: Seq<int>)
    ensures
        at.len() == cron_store::due_ids(jobs, now).len(),
        forall|i: int, j: int| 0 <= i < j < at.len() ==> #[trigger] at[i] < #[trigger] at[j],
        forall|i: int|
            0 <= i < at.len() ==> {
                &&& 0 <= #[trigger] at[i] < jobs.len()
                &&& due(jobs[at[i]], now)
                &&& cron_store::due_ids(jobs, now)[i] == jobs[at[i]].id@
            },
        forall|k: int| 0 <= k < jobs.len() && due(#[trigger] jobs[k], now) ==> at.contains(k),
    decreases jobs.len(),
{
    if jobs.len() == 0 {
        Seq::empty()
    } else {
        let front = jobs.drop_last();
        let n = jobs.len() - 1;
        let before = law_every_due_job_gets_a_run(front, now);
        let ids = cron_store::due_ids(jobs, now);
        assert(jobs.last() == jobs[n]);
        let at = if due(jobs[n], now) {
            before.push(n)
        } else {
            before
        };
        assert forall|i: int| 0 <= i < at.len() implies {
            &&& 0 <= #[trigger] at[i] < jobs.len()
            &&& due(jobs[at[i]], now)
            &&& ids[i] == jobs[at[i]].id@
        } by {
            if i < before.len() {
                assert(at[i] == before[i]);
                assert(front[before[i]] == jobs[before[i]]);
            }
        }
        assert forall|i: int, j: int| 0 <= i < j < at.len() implies #[trigger] at[i] < #[trigger] at[j] by {
            assert(at[i] == before[i]);
            if j < before.len() {
                assert(at[j] == before[j]);
            }
        }
        assert forall|k: int| 0 <= k < jobs.len() && due(#[trigger] jobs[k], now) implies at.contains(
            k,
        ) by {
            if k < n {
                assert(front[k] == jobs[k]);
                let i = choose|i: int| 0 <= i < before.len() && before[i] == k;
                assert(at[i] == k);
            } else {
                assert(at[before.len() as int] == k);
            }
        }
        at
    }
}

/// A job that notifies carries its message, whole, and is due at once, in the main session.
pub proof fn law_a_notification_job_carries_its_message(message: Seq<char>, now: Seq<char>)
    ensures
        ({
            let job = cron_store::notification_job(message, now);
            let payload = cron_store::notify_payload(message);
            &&& job.payload_kind == "systemEvent"@
            &&& job.payload_json == json::json_compact(payload)
            &&& facts::gives(payload, "type"@, JsonView::Text("notify"@))
            &&& exists|data: JsonView| #[trigger]
                facts::gives(payload, "data"@, data) && facts::gives(
                    data,
                    "message"@,
                    JsonView::Text(message),
                )
            &&& job.schedule_kind == "at"@
            &&& job.schedule_json == json::json_compact(cron_store::once_schedule(now))
            &&& facts::gives(cron_store::once_schedule(now), "at"@, JsonView::Text(now))
            &&& facts::gives(cron_store::once_schedule(now), "kind"@, JsonView::Text("at"@))
            &&& job.next_run_at == Some(now)
            &&& job.session_target == "main"@
        }),
{
    reveal_strlit("data");
    reveal_strlit("type");
    reveal_strlit("version");
    reveal_strlit("at");
    reveal_strlit("kind");
    assert("data"@.len() == 4 && "type"@.len() == 4 && "version"@.len() == 7);
    assert("data"@[0] == 'd' && "type"@[0] == 't');
    assert("at"@.len() == 2 && "kind"@.len() == 4);
    let members = cron_store::notify_payload(message)->Object_0;
    let data = JsonView::Object(seq![("message"@, JsonView::Text(message))]);
    assert(members[0] == ("data"@, data));
    assert(members[1] == ("type"@, JsonView::Text("notify"@)));
    assert(members[2].0 == "version"@);
    assert(data->Object_0[0] == ("message"@, JsonView::Text(message)));
    assert(facts::gives(data, "message"@, JsonView::Text(message)));
    assert(facts::gives(cron_store::notify_payload(message), "data"@, data));
    let schedule = cron_store::once_schedule(now)->Object_0;
    assert(schedule[0] == ("at"@, JsonView::Text(now)));
    assert(schedule[1] == ("kind"@, JsonView::Text("at"@)));
}

/// A job that asks an agent carries its message, whole, and is due at once, in a session of its
/// own.
pub proof fn law_an_agent_job_carries_its_message(message: Seq<char>, now: Seq<char>)
    ensures
        ({
            let job = cron_store::agent_job(message, now);
            let payload = cron_store::turn_payload(message);
            &&& job.payload_kind == "agentTurn"@
            &&& job.payload_json == json::json_compact(payload)
            &&& facts::gives(payload, "message"@, JsonView::Text(message))
            &&& facts::lacks(payload, "model"@)
            &&& job.schedule_kind == "at"@
            &&& job.schedule_json == json::json_compact(cron_store::once_schedule(now))
            &&& job.next_run_at == Some(now)
            &&& job.session_target == "isolated"@
        }),
{
    reveal_strlit("message");
    reveal_strlit("model");
    assert("message"@.len() == 7 && "model"@.len() == 5);
    let members = cron_store::turn_payload(message)->Object_0;
    assert(members[0] == ("message"@, JsonView::Text(message)));
}

/// The nightly job curates, by its schedule alone, in the main session.
pub proof fn law_the_nightly_job_curates()
    ensures
        ({
            let job = cron_store::nightly_job();
            &&& job.payload_kind == "systemEvent"@
            &&& job.payload_json == json::json_compact(cron_store::curate_payload())
            &&& facts::gives(cron_store::curate_payload(), "type"@, JsonView::Text("curate"@))
            &&& job.schedule_kind == "cron"@
            &&& job.schedule_json == json::json_compact(cron_store::nightly_schedule())
            &&& facts::gives(cron_store::nightly_schedule(), "expr"@, JsonView::Text("0 2 * * *"@))
            &&& facts::gives(cron_store::nightly_schedule(), "tz"@, JsonView::Text("Europe/Paris"@))
            &&& job.next_run_at is None
            &&& job.session_target == "main"@
        }),
{
    reveal_strlit("data");
    reveal_strlit("type");
    reveal_strlit("version");
    reveal_strlit("expr");
    reveal_strlit("kind");
    reveal_strlit("tz");
    assert("data"@.len() == 4 && "type"@.len() == 4 && "version"@.len() == 7);
    assert("data"@[0] == 'd' && "type"@[0] == 't');
    assert("expr"@.len() == 4 && "kind"@.len() == 4 && "tz"@.len() == 2);
    assert("expr"@[0] == 'e' && "kind"@[0] == 'k');
    let a = cron_store::curate_payload()->Object_0;
    assert(a[0].0 == "data"@ && a[2].0 == "version"@);
    assert(a[1] == ("type"@, JsonView::Text("curate"@)));
    let b = cron_store::nightly_schedule()->Object_0;
    assert(b[0] == ("expr"@, JsonView::Text("0 2 * * *"@)));
    assert(b[1].0 == "kind"@);
    assert(b[2] == ("tz"@, JsonView::Text("Europe/Paris"@)));
}

/// A run that ends is recorded by how it ended, and each status has a word of its own.
pub proof fn law_the_end_of_a_run_is_told(a: RunStatus, b: RunStatus)
    ensures
        cron_store::finish(RunStatus::Running, true) == Some(RunStatus::Succeeded),
        cron_store::finish(RunStatus::Running, false) == Some(RunStatus::Failed),
        cron_store::claim(RunStatus::Queued) == Some(RunStatus::Running),
        cron_store::status_word(a) == cron_store::status_word(b) <==> a == b,
{
    reveal_strlit("queued");
    reveal_strlit("running");
    reveal_strlit("succeeded");
    reveal_strlit("failed");
    reveal_strlit("timed_out");
    reveal_strlit("cancelled");
    assert("queued"@.len() == 6 && "running"@.len() == 7 && "succeeded"@.len() == 9);
    assert("failed"@.len() == 6 && "timed_out"@.len() == 9 && "cancelled"@.len() == 9);
    assert("queued"@[0] == 'q' && "failed"@[0] == 'f');
    assert("succeeded"@[0] == 's' && "timed_out"@[0] == 't' && "cancelled"@[0] == 'c');
}

/// The payloads are of the first version.
pub proof fn law_payloads_are_of_the_first_version(message: Seq<char>)
    ensures
        facts::gives(
            cron_store::notify_payload(message),
            "version"@,
            JsonView::Number(seq!['1'], Some(1)),
        ),
        facts::gives(
            cron_store::curate_payload(),
            "version"@,
            JsonView::Number(seq!['1'], Some(1)),
        ),
{
    reveal_strlit("data");
    reveal_strlit("type");
    reveal_strlit("version");
    assert("data"@.len() == 4 && "type"@.len() == 4 && "version"@.len() == 7);
    assert("data"@[0] == 'd' && "type"@[0] == 't');
    assert(numerals::decimal(1) =~= seq!['1']);
    let one = JsonView::Number(seq!['1'], Some(1));
    let a = cron_store::notify_payload(message)->Object_0;
    assert(a[0].0 == "data"@ && a[1].0 == "type"@);
    assert(a[2] == ("version"@, one));
    let b = cron_store::curate_payload()->Object_0;
    assert(b[0].0 == "data"@ && b[1].0 == "type"@);
    assert(b[2] == ("version"@, one));
}

} // verus!
