//! The cron tool: how the model adds, lists and starts scheduled jobs.

use vstd::prelude::*;

use crate::json::{Json, JsonView};
use crate::{notes, text};

verus! {

/// What a call of the cron tool asks for.
pub enum CronRequest {
    AddNotify(String),
    AddAgentTurn(String),
    List,
    Runs(String),
    Run(String),
}

/// What a request of the cron tool holds.
pub enum CronRequestView {
    AddNotify(Seq<char>),
    AddAgentTurn(Seq<char>),
    List,
    Runs(Seq<char>),
    Run(Seq<char>),
}

impl View for CronRequest {
    type V = CronRequestView;

    open spec fn view(&self) -> CronRequestView {
        match *self {
            CronRequest::AddNotify(s) => CronRequestView::AddNotify(s@),
            CronRequest::AddAgentTurn(s) => CronRequestView::AddAgentTurn(s@),
            CronRequest::List => CronRequestView::List,
            CronRequest::Runs(s) => CronRequestView::Runs(s@),
            CronRequest::Run(s) => CronRequestView::Run(s@),
        }
    }
}

/// What a result holds, an error by its message.
pub open spec fn request_view(r: Result<CronRequest, String>) -> Result<
    CronRequestView,
    Seq<char>,
> {
    match r {
        Ok(request) => Ok(request@),
        Err(e) => Err(e@),
    }
}

/// What the arguments ask the cron tool for, or why they ask for nothing.
pub open spec fn request_of(args: JsonView) -> Result<CronRequestView, Seq<char>> {
    let action = notes::text_or_empty(args, "action"@);
    let message = text::trimmed(notes::text_or_empty(args, "message"@));
    let job_id = text::trimmed(notes::text_or_empty(args, "job_id"@));
    if action == "list"@ {
        Ok(CronRequestView::List)
    } else if action == "add_notify"@ || action == "add_agent_turn"@ {
        if message.len() == 0 {
            Err("erreur cron_manage: message manquant"@)
        } else if action == "add_notify"@ {
            Ok(CronRequestView::AddNotify(message))
        } else {
            Ok(CronRequestView::AddAgentTurn(message))
        }
    } else if action == "runs"@ || action == "run"@ {
        if job_id.len() == 0 {
            Err("erreur cron_manage: job_id manquant"@)
        } else if action == "runs"@ {
            Ok(CronRequestView::Runs(job_id))
        } else {
            Ok(CronRequestView::Run(job_id))
        }
    } else {
        Err(
            "erreur cron_manage: action inconnue '"@ + action
                + "' (attendu: add_notify, add_agent_turn, list, runs, run)"@,
        )
    }
}

/// What the arguments ask the cron tool for, or why they ask for nothing.
pub fn plan_cron(args: &Json) -> (r: Result<CronRequest, String>)
    ensures
        request_view(r) == request_of(args@),
{
    let action = notes::text_at_or_empty(args, "action");
    let given = notes::text_at_or_empty(args, "message");
    let message = text::trim(given.as_str());
    let named = notes::text_at_or_empty(args, "job_id");
    let job_id = text::trim(named.as_str());
    if text::same(action.as_str(), "list") {
        Ok(CronRequest::List)
    } else if text::same(action.as_str(), "add_notify") {
        if message.as_str().is_empty() {
            return Err("erreur cron_manage: message manquant".to_string());
        }
        Ok(CronRequest::AddNotify(message))
    } else if text::same(action.as_str(), "add_agent_turn") {
        if message.as_str().is_empty() {
            return Err("erreur cron_manage: message manquant".to_string());
        }
        Ok(CronRequest::AddAgentTurn(message))
    } else if text::same(action.as_str(), "runs") {
        if job_id.as_str().is_empty() {
            return Err("erreur cron_manage: job_id manquant".to_string());
        }
        Ok(CronRequest::Runs(job_id))
    } else if text::same(action.as_str(), "run") {
        if job_id.as_str().is_empty() {
            return Err("erreur cron_manage: job_id manquant".to_string());
        }
        Ok(CronRequest::Run(job_id))
    } else {
        let mut e = "erreur cron_manage: action inconnue '".to_string();
        e.append(action.as_str());
        e.append("' (attendu: add_notify, add_agent_turn, list, runs, run)");
        Err(e)
    }
}

/// The reply once an agent job has been added.
pub open spec fn turn_added(job_id: Result<Seq<char>, Seq<char>>) -> Seq<char> {
    match job_id {
        Ok(id) => "cron add-agent-turn: ok\n- job_id: "@ + id,
        Err(e) => "cron add-agent-turn: erreur: "@ + e,
    }
}

/// The reply once an agent job has been added.
pub fn agent_turn_reply(job_id: Result<String, String>) -> (r: String)
    ensures
        r@ == match job_id {
            Ok(id) => "cron add-agent-turn: ok\n- job_id: "@ + id@,
            Err(e) => "cron add-agent-turn: erreur: "@ + e@,
        },
        job_id matches Ok(id) ==> r@ == turn_added(Ok(id@)),
        job_id matches Err(e) ==> r@ == turn_added(Err(e@)),
{
    match job_id {
        Ok(id) => {
            let mut s = "cron add-agent-turn: ok\n- job_id: ".to_string();
            s.append(id.as_str());
            s
        },
        Err(e) => {
            let mut s = "cron add-agent-turn: erreur: ".to_string();
            s.append(e.as_str());
            s
        },
    }
}

} // verus!
