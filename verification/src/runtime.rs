//! The runtime: what a line of input asks for, what the background workers report, and what a
//! scheduled run comes to.

use vstd::prelude::*;

use crate::cron_store::{CronJob, CronRun};
use crate::json::{Json, JsonView};
use crate::llm::{LlmRequest, RequestView};
use crate::session::{ChatMessage, MessageView, Session};
use crate::{cron_store, json, llm, numerals, order, search, session, telegram, text};

verus! {

/// What the program shows for a line of input.
pub enum RuntimeEvent {
    /// An answer of the model.
    Reply(String),
    /// A message of the program.
    Info(String),
    /// The end of the session.
    Exit,
}

/// The text of an event, with a text for the end of the session.
pub open spec fn event_text(event: RuntimeEvent, closing: Seq<char>) -> Seq<char> {
    match event {
        RuntimeEvent::Reply(s) => s@,
        RuntimeEvent::Info(s) => s@,
        RuntimeEvent::Exit => closing,
    }
}

// ---------------------------------------------------------------------------------------
// Lines of input

/// What a line of input asks for.
pub enum Command {
    Quit,
    Help,
    ReloadPersona,
    Reset,
    Curate,
    CuratorStart,
    CuratorStop,
    Workers,
    Cron(CronCommand),
    /// A turn of the conversation.
    Turn(String),
}

/// What a cron command asks for.
pub enum CronCommand {
    Status,
    List,
    AddCuratorNightly,
    AddNotify(String),
    Run(String),
    Runs(String),
    /// Nothing that is known; how it should be used.
    Usage(String),
}

/// What a command holds.
pub enum CommandView {
    Quit,
    Help,
    ReloadPersona,
    Reset,
    Curate,
    CuratorStart,
    CuratorStop,
    Workers,
    Cron(CronView),
    Turn(Seq<char>),
}

/// What a cron command holds.
pub enum CronView {
    Status,
    List,
    AddCuratorNightly,
    AddNotify(Seq<char>),
    Run(Seq<char>),
    Runs(Seq<char>),
    Usage(Seq<char>),
}

impl View for CronCommand {
    type V = CronView;

    open spec fn view(&self) -> CronView {
        match *self {
            CronCommand::Status => CronView::Status,
            CronCommand::List => CronView::List,
            CronCommand::AddCuratorNightly => CronView::AddCuratorNightly,
            CronCommand::AddNotify(s) => CronView::AddNotify(s@),
            CronCommand::Run(s) => CronView::Run(s@),
            CronCommand::Runs(s) => CronView::Runs(s@),
            CronCommand::Usage(s) => CronView::Usage(s@),
        }
    }
}

impl View for Command {
    type V = CommandView;

    open spec fn view(&self) -> CommandView {
        match *self {
            Command::Quit => CommandView::Quit,
            Command::Help => CommandView::Help,
            Command::ReloadPersona => CommandView::ReloadPersona,
            Command::Reset => CommandView::Reset,
            Command::Curate => CommandView::Curate,
            Command::CuratorStart => CommandView::CuratorStart,
            Command::CuratorStop => CommandView::CuratorStop,
            Command::Workers => CommandView::Workers,
            Command::Cron(c) => CommandView::Cron(c@),
            Command::Turn(s) => CommandView::Turn(s@),
        }
    }
}

/// What the words of a cron command ask for.
pub open spec fn cron_command_of(words: Seq<Seq<char>>) -> CronView {
    if words.len() < 2 {
        CronView::Usage(CRON_USAGE@)
    } else if words[1] == "status"@ {
        CronView::Status
    } else if words[1] == "list"@ {
        CronView::List
    } else if words[1] == "add-curator-nightly"@ {
        CronView::AddCuratorNightly
    } else if words[1] == "add-notify"@ {
        if words.len() < 3 {
            CronView::Usage("usage: /cron add-notify <texte>"@)
        } else {
            CronView::AddNotify(search::joined(words.skip(2), " "@))
        }
    } else if words[1] == "run"@ {
        if words.len() < 3 {
            CronView::Usage("usage: /cron run <job_id>"@)
        } else {
            CronView::Run(words[2])
        }
    } else if words[1] == "runs"@ {
        if words.len() < 3 {
            CronView::Usage("usage: /cron runs <job_id>"@)
        } else {
            CronView::Runs(words[2])
        }
    } else {
        CronView::Usage(CRON_USAGE@)
    }
}

/// How the cron commands are used.
pub const CRON_USAGE: &'static str =
    "usage: /cron status|list|add-curator-nightly|add-notify <texte>|run <job_id>|runs <job_id>";

/// What a line of input asks for.
pub open spec fn command_of(msg: Seq<char>) -> CommandView {
    if msg == "/quit"@ || msg == "quit"@ || msg == "exit"@ {
        CommandView::Quit
    } else if msg == "/help"@ {
        CommandView::Help
    } else if msg == "/reload-persona"@ {
        CommandView::ReloadPersona
    } else if msg == "/reset"@ {
        CommandView::Reset
    } else if msg == "/curate"@ {
        CommandView::Curate
    } else if msg == "/curator-start"@ {
        CommandView::CuratorStart
    } else if msg == "/curator-stop"@ {
        CommandView::CuratorStop
    } else if msg == "/workers"@ {
        CommandView::Workers
    } else if "/cron"@.is_prefix_of(msg) {
        CommandView::Cron(cron_command_of(text::words(msg)))
    } else {
        CommandView::Turn(msg)
    }
}

/// What a cron command asks for.
pub fn parse_cron_command(msg: &str) -> (r: CronCommand)
    ensures
        r@ == cron_command_of(text::words(msg@)),
{
    let words = text::split_whitespace(msg);
    let ghost all = text::texts(words@);
    if words.len() < 2 {
        return CronCommand::Usage(CRON_USAGE.to_string());
    }
    let verb = words[1].as_str();
    assert(all[1] == verb@);
    if text::same(verb, "status") {
        CronCommand::Status
    } else if text::same(verb, "list") {
        CronCommand::List
    } else if text::same(verb, "add-curator-nightly") {
        CronCommand::AddCuratorNightly
    } else if text::same(verb, "add-notify") {
        if words.len() < 3 {
            return CronCommand::Usage("usage: /cron add-notify <texte>".to_string());
        }
        let mut rest: Vec<String> = Vec::new();
        let mut i: usize = 2;
        assert(text::texts(rest@) =~= all.skip(2).take(0));
        while i < words.len()
            invariant
                2 <= i <= words@.len(),
                all == text::texts(words@),
                text::texts(rest@) == all.skip(2).take(i - 2),
            decreases words@.len() - i,
        {
            let ghost before = rest@;
            rest.push(words[i].clone());
            assert(text::texts(rest@) =~= text::texts(before).push(all[i as int]));
            assert(all.skip(2).take(i - 1) =~= all.skip(2).take(i - 2).push(all[i as int]));
            i += 1;
        }
        assert(all.skip(2).take(all.len() - 2) =~= all.skip(2));
        CronCommand::AddNotify(search::join(&rest, " "))
    } else if text::same(verb, "run") {
        if words.len() < 3 {
            return CronCommand::Usage("usage: /cron run <job_id>".to_string());
        }
        assert(all[2] == words@[2]@);
        CronCommand::Run(words[2].clone())
    } else if text::same(verb, "runs") {
        if words.len() < 3 {
            return CronCommand::Usage("usage: /cron runs <job_id>".to_string());
        }
        assert(all[2] == words@[2]@);
        CronCommand::Runs(words[2].clone())
    } else {
        CronCommand::Usage(CRON_USAGE.to_string())
    }
}

/// What a line of input asks for.
pub fn parse_line(msg: &str) -> (r: Command)
    ensures
        r@ == command_of(msg@),
{
    if text::same(msg, "/quit") || text::same(msg, "quit") || text::same(msg, "exit") {
        Command::Quit
    } else if text::same(msg, "/help") {
        Command::Help
    } else if text::same(msg, "/reload-persona") {
        Command::ReloadPersona
    } else if text::same(msg, "/reset") {
        Command::Reset
    } else if text::same(msg, "/curate") {
        Command::Curate
    } else if text::same(msg, "/curator-start") {
        Command::CuratorStart
    } else if text::same(msg, "/curator-stop") {
        Command::CuratorStop
    } else if text::same(msg, "/workers") {
        Command::Workers
    } else if search::starts_with(msg, "/cron") {
        Command::Cron(parse_cron_command(msg))
    } else {
        Command::Turn(msg.to_string())
    }
}

/// The commands, one on each line.
pub const HELP: &'static str = "/help            -> afficher l'aide
/reset           -> vider l'historique (garde le system prompt)
/reload-persona  -> relire SOUL.md / IDENTITY.md / USER.md / AGENT.md
/curate          -> lancer le curator mémoire (conf/curator.toml)
/curator-start   -> démarrer le curator en tâche parallèle
/curator-stop    -> arrêter le curator parallèle
/workers         -> état des workers
/cron status     -> statut cron sqlite
/cron add-curator-nightly -> ajoute un job systemEvent 'curate' nocturne
/cron add-notify <texte> -> ajoute un job notify one-shot (at=now)
/cron list       -> liste des jobs cron
/cron run <job_id> -> queue une exécution manuelle
/cron runs <job_id> -> historique des runs
/quit            -> quitter";

/// The commands, one on each line.
pub fn help_text() -> (r: String)
    ensures
        r@ == HELP@,
{
    HELP.to_string()
}

/// A text that was asked for, or an error behind its mark.
pub open spec fn or_error(outcome: Result<Seq<char>, Seq<char>>, mark: Seq<char>) -> Seq<char> {
    match outcome {
        Ok(s) => s,
        Err(e) => mark + e,
    }
}

/// What `/reload-persona` answers.
pub fn reload_reply(outcome: Result<(), String>) -> (r: String)
    ensures
        r@ == match outcome {
            Ok(_) => "Persona rechargée."@,
            Err(e) => "[erreur persona] "@ + e@,
        },
        outcome matches Err(e) ==> r@ == or_error(Err(e@), "[erreur persona] "@),
{
    match outcome {
        Ok(_) => "Persona rechargée.".to_string(),
        Err(e) => {
            let mut s = "[erreur persona] ".to_string();
            s.append(e.as_str());
            s
        },
    }
}

/// What `/curate` answers.
pub fn curate_reply(outcome: Result<String, String>) -> (r: String)
    ensures
        r@ == match outcome {
            Ok(msg) => msg@,
            Err(e) => "[erreur curator] "@ + e@,
        },
        r@ == or_error(llm::text_result(outcome), "[erreur curator] "@),
{
    match outcome {
        Ok(msg) => msg,
        Err(e) => {
            let mut s = "[erreur curator] ".to_string();
            s.append(e.as_str());
            s
        },
    }
}

/// Empties the conversation for `/reset`: its first message stays, and the session gets a fresh
/// identity. Gives the note for the transcript and the answer.
pub fn reset_session(session: &mut Session) -> (r: (String, String))
    ensures
        final(session).history() == old(session).history().take(
            if old(session).history().len() >= 1 {
                1
            } else {
                0
            },
        ),
        session::random_id_shape(final(session).id()),
        final(session).history() == session::emptied(old(session).history()),
        r.0@ == "[reset] Historique vidé."@,
        r.1@ == "Historique vidé."@,
{
    session.reset();
    ("[reset] Historique vidé.".to_string(), "Historique vidé.".to_string())
}

/// Puts a new system prompt in the place of the old one for `/reload-persona`. Gives the note for
/// the transcript.
pub fn reload_session(session: &mut Session, system_prompt: String) -> (r: String)
    ensures
        final(session).history() == session::with_system_prompt(
            old(session).history(),
            system_prompt@,
        ),
        final(session).id() == old(session).id(),
        r@ == "[reload-persona] prompt rechargé depuis SOUL/IDENTITY/USER/AGENT"@,
{
    session.set_system_prompt(system_prompt);
    "[reload-persona] prompt rechargé depuis SOUL/IDENTITY/USER/AGENT".to_string()
}

// ---------------------------------------------------------------------------------------
// Turns

/// How a turn ends: what is shown, and what goes into the transcript, by whom.
pub struct TurnEnd {
    pub event: RuntimeEvent,
    pub role: String,
    pub content: String,
}

/// The event that ends a turn.
pub open spec fn turn_event(outcome: Result<Seq<char>, Seq<char>>, event: RuntimeEvent) -> bool {
    match outcome {
        Ok(answer) => event matches RuntimeEvent::Reply(s) && s@ == answer,
        Err(e) => event matches RuntimeEvent::Info(s) && s@ == "[erreur LLM] "@ + e,
    }
}

/// The history after a turn: where the turn failed, a question that stands last is taken back.
pub open spec fn history_after_turn(
    history: Seq<MessageView>,
    outcome: Result<Seq<char>, Seq<char>>,
) -> Seq<MessageView> {
    match outcome {
        Ok(_) => history,
        Err(_) => session::rolled_back(history),
    }
}

/// Who says what in the transcript at the end of a turn.
pub open spec fn turn_note(outcome: Result<Seq<char>, Seq<char>>) -> (Seq<char>, Seq<char>) {
    match outcome {
        Ok(answer) => ("assistant"@, answer),
        Err(e) => ("error"@, e),
    }
}

/// Ends a turn.
pub fn finish_turn(session: &mut Session, outcome: Result<String, String>) -> (r: TurnEnd)
    ensures
        turn_event(llm::text_result(outcome), r.event),
        final(session).history() == history_after_turn(
            old(session).history(),
            llm::text_result(outcome),
        ),
        final(session).id() == old(session).id(),
        r.role@ == match outcome {
            Ok(_) => "assistant"@,
            Err(_) => "error"@,
        },
        r.content@ == match outcome {
            Ok(answer) => answer@,
            Err(e) => e@,
        },
        (r.role@, r.content@) == turn_note(llm::text_result(outcome)),
{
    match outcome {
        Ok(answer) => {
            let content = answer.clone();
            TurnEnd {
                event: RuntimeEvent::Reply(answer),
                role: "assistant".to_string(),
                content,
            }
        },
        Err(e) => {
            session.rollback_last_user_if_any();
            let mut s = "[erreur LLM] ".to_string();
            s.append(e.as_str());
            TurnEnd { event: RuntimeEvent::Info(s), role: "error".to_string(), content: e }
        },
    }
}

/// A question whose first request fails leaves the conversation as it was.
pub proof fn law_failed_question_leaves_no_trace(
    history: Seq<MessageView>,
    question: Seq<char>,
    e: Seq<char>,
)
    ensures
        history_after_turn(history.push(session::message("user"@, question)), Err(e)) == history,
{
    session::law_rollback_undoes_push_user(history, question);
}

// ---------------------------------------------------------------------------------------
// Workers

/// What a background worker reports.
pub enum SupervisorEvent {
    CuratorStarted,
    CuratorTickOk(String),
    CuratorTickErr(String),
    CuratorStopped,
    CronStarted,
    CronRunOk(String),
    CronRunErr(String),
    CronNotify(String),
}

/// What a report holds.
pub enum EventView {
    CuratorStarted,
    CuratorTickOk(Seq<char>),
    CuratorTickErr(Seq<char>),
    CuratorStopped,
    CronStarted,
    CronRunOk(Seq<char>),
    CronRunErr(Seq<char>),
    CronNotify(Seq<char>),
}

impl View for SupervisorEvent {
    type V = EventView;

    open spec fn view(&self) -> EventView {
        match *self {
            SupervisorEvent::CuratorStarted => EventView::CuratorStarted,
            SupervisorEvent::CuratorTickOk(s) => EventView::CuratorTickOk(s@),
            SupervisorEvent::CuratorTickErr(s) => EventView::CuratorTickErr(s@),
            SupervisorEvent::CuratorStopped => EventView::CuratorStopped,
            SupervisorEvent::CronStarted => EventView::CronStarted,
            SupervisorEvent::CronRunOk(s) => EventView::CronRunOk(s@),
            SupervisorEvent::CronRunErr(s) => EventView::CronRunErr(s@),
            SupervisorEvent::CronNotify(s) => EventView::CronNotify(s@),
        }
    }
}

/// The line that records what a worker reports.
pub open spec fn supervisor_line(ev: EventView) -> Seq<char> {
    match ev {
        EventView::CuratorStarted => "[worker] curator started"@,
        EventView::CuratorTickOk(msg) => "[worker] curator ok: "@ + msg,
        EventView::CuratorTickErr(err) => "[worker] curator error: "@ + err,
        EventView::CuratorStopped => "[worker] curator stopped"@,
        EventView::CronStarted => "[worker] cron started"@,
        EventView::CronRunOk(msg) => "[worker] cron ok: "@ + msg,
        EventView::CronRunErr(err) => "[worker] cron error: "@ + err,
        EventView::CronNotify(msg) => "[cron notify] "@ + msg,
    }
}

/// A text behind another one.
fn prefixed(front: &str, s: &str) -> (r: String)
    ensures
        r@ == front@ + s@,
{
    let mut out = front.to_string();
    out.append(s);
    out
}

/// The conversation after a report of a worker: a notification goes into it.
pub open spec fn absorbed(history: Seq<MessageView>, ev: EventView) -> Seq<MessageView> {
    if ev is CronNotify {
        session::grown(history, "system"@, supervisor_line(ev))
    } else {
        history
    }
}

/// Takes in what a worker reports: a notification also goes into the conversation. Gives the line
/// for the transcript.
pub fn absorb_event(session: &mut Session, ev: SupervisorEvent) -> (r: String)
    ensures
        r@ == supervisor_line(ev@),
        final(session).history() == if ev is CronNotify {
            old(session).history().push(session::message("system"@, supervisor_line(ev@)))
        } else {
            old(session).history()
        },
        final(session).history() == absorbed(old(session).history(), ev@),
        final(session).id() == old(session).id(),
{
    match ev {
        SupervisorEvent::CuratorStarted => "[worker] curator started".to_string(),
        SupervisorEvent::CuratorTickOk(msg) => prefixed("[worker] curator ok: ", msg.as_str()),
        SupervisorEvent::CuratorTickErr(err) => prefixed(
            "[worker] curator error: ",
            err.as_str(),
        ),
        SupervisorEvent::CuratorStopped => "[worker] curator stopped".to_string(),
        SupervisorEvent::CronStarted => "[worker] cron started".to_string(),
        SupervisorEvent::CronRunOk(msg) => prefixed("[worker] cron ok: ", msg.as_str()),
        SupervisorEvent::CronRunErr(err) => prefixed("[worker] cron error: ", err.as_str()),
        SupervisorEvent::CronNotify(msg) => {
            let line = prefixed("[cron notify] ", msg.as_str());
            session.push_system(line.clone());
            line
        },
    }
}

/// The seconds between two runs of the curator worker: 300 unless the variable sets ten or more.
pub open spec fn interval_of(variable: Option<Seq<char>>) -> u64 {
    match variable {
        Some(v) => match numerals::unsigned_of(v) {
            Some(n) => if n >= 10 {
                n
            } else {
                300
            },
            None => 300,
        },
        None => 300,
    }
}

/// The seconds between two runs of the curator worker.
pub fn curator_interval(variable: &Option<String>) -> (r: u64)
    ensures
        r == interval_of(text::opt(*variable)),
        r >= 10,
{
    match variable {
        Some(v) => match numerals::read_unsigned(v.as_str()) {
            Some(n) => if n >= 10 {
                n
            } else {
                300
            },
            None => 300,
        },
        None => 300,
    }
}

/// What `/curator-start` answers.
pub open spec fn start_text(running: bool, interval_secs: nat) -> Seq<char> {
    if running {
        "curator-worker: déjà démarré"@
    } else {
        "curator-worker: démarré (tick="@ + numerals::decimal(interval_secs)
            + "s, OXICLAW_CURATOR_INTERVAL_SECS)"@
    }
}

/// What `/curator-start` answers; the worker is started unless it runs.
pub fn start_reply(running: bool, interval_secs: u64) -> (r: String)
    ensures
        r@ == if running {
            "curator-worker: déjà démarré"@
        } else {
            "curator-worker: démarré (tick="@ + numerals::decimal(interval_secs as nat)
                + "s, OXICLAW_CURATOR_INTERVAL_SECS)"@
        },
        r@ == start_text(running, interval_secs as nat),
{
    if running {
        return "curator-worker: déjà démarré".to_string();
    }
    let number = numerals::write_decimal(interval_secs);
    let mut s = "curator-worker: démarré (tick=".to_string();
    s.append(number.as_str());
    s.append("s, OXICLAW_CURATOR_INTERVAL_SECS)");
    s
}

/// What `/curator-stop` answers.
pub open spec fn stop_text(running: bool) -> Seq<char> {
    if running {
        "curator-worker: arrêt demandé"@
    } else {
        "curator-worker: déjà arrêté"@
    }
}

/// What `/curator-stop` answers; the worker is stopped if it runs.
pub fn stop_reply(running: bool) -> (r: String)
    ensures
        r@ == if running {
            "curator-worker: arrêt demandé"@
        } else {
            "curator-worker: déjà arrêté"@
        },
        r@ == stop_text(running),
{
    if running {
        "curator-worker: arrêt demandé".to_string()
    } else {
        "curator-worker: déjà arrêté".to_string()
    }
}

/// The word for a worker.
pub open spec fn worker_word(running: bool) -> Seq<char> {
    if running {
        "running"@
    } else {
        "stopped"@
    }
}

/// The word for a worker.
fn write_worker_word(running: bool) -> (r: String)
    ensures
        r@ == worker_word(running),
{
    if running {
        "running".to_string()
    } else {
        "stopped".to_string()
    }
}

/// What is answered on the workers.
pub open spec fn workers_text(
    curator_running: bool,
    cron_running: bool,
    db_path: Seq<char>,
) -> Seq<char> {
    "workers:\n- curator: "@ + worker_word(curator_running) + "\n- cron: "@ + worker_word(
        cron_running,
    ) + "\ncron:\n- db: "@ + db_path
}

/// What `/workers` answers.
pub fn workers_status(curator_running: bool, cron_running: bool, db_path: &str) -> (r: String)
    ensures
        r@ == "workers:\n- curator: "@ + worker_word(curator_running) + "\n- cron: "@ + worker_word(
            cron_running,
        ) + "\ncron:\n- db: "@ + db_path@,
        r@ == workers_text(curator_running, cron_running, db_path@),
{
    let curator = write_worker_word(curator_running);
    let cron = write_worker_word(cron_running);
    let mut s = "workers:\n- curator: ".to_string();
    s.append(curator.as_str());
    s.append("\n- cron: ");
    s.append(cron.as_str());
    s.append("\ncron:\n- db: ");
    s.append(db_path);
    s
}

// ---------------------------------------------------------------------------------------
// Answers to the cron commands

/// What `/cron status` answers.
pub fn cron_status_reply(db_path: &str) -> (r: String)
    ensures
        r@ == "cron: ok\n- db: "@ + db_path@,
{
    prefixed("cron: ok\n- db: ", db_path)
}

/// A text, or what stands for it where there is none.
pub open spec fn or_mark(s: Option<String>, mark: Seq<char>) -> Seq<char> {
    match s {
        Some(s) => s@,
        None => mark,
    }
}

/// A text, or what stands for it where there is none.
fn unwrap_or_mark(s: &Option<String>, mark: &str) -> (r: String)
    ensures
        r@ == or_mark(*s, mark@),
{
    match s {
        Some(s) => s.clone(),
        None => mark.to_string(),
    }
}

/// The word for a truth value.
pub open spec fn truth_word(b: bool) -> Seq<char> {
    if b {
        "true"@
    } else {
        "false"@
    }
}

/// The row of a job.
pub open spec fn job_row(j: CronJob) -> Seq<char> {
    "- "@ + j.id@ + " | "@ + or_mark(j.name, "(sans nom)"@) + " | schedule="@ + j.schedule_kind@
        + " | payload="@ + j.payload_kind@ + " | target="@ + j.session_target@ + " | enabled="@
        + truth_word(j.enabled) + " | next="@ + or_mark(j.next_run_at, "-"@) + " | last="@
        + or_mark(j.last_run_at, "-"@)
}

/// The row of a job.
fn write_job_row(j: &CronJob) -> (r: String)
    ensures
        r@ == job_row(*j),
{
    let name = unwrap_or_mark(&j.name, "(sans nom)");
    let next = unwrap_or_mark(&j.next_run_at, "-");
    let last = unwrap_or_mark(&j.last_run_at, "-");
    let mut s = "- ".to_string();
    s.append(j.id.as_str());
    s.append(" | ");
    s.append(name.as_str());
    s.append(" | schedule=");
    s.append(j.schedule_kind.as_str());
    s.append(" | payload=");
    s.append(j.payload_kind.as_str());
    s.append(" | target=");
    s.append(j.session_target.as_str());
    s.append(" | enabled=");
    if j.enabled {
        s.append("true");
    } else {
        s.append("false");
    }
    s.append(" | next=");
    s.append(next.as_str());
    s.append(" | last=");
    s.append(last.as_str());
    s
}

/// The lines of a list of jobs.
pub open spec fn job_lines(jobs: Seq<CronJob>) -> Seq<Seq<char>> {
    seq!["cron: "@ + numerals::decimal(jobs.len()) + " job(s)"@] + Seq::new(
        jobs.len(),
        |i: int| job_row(jobs[i]),
    )
}

/// What is answered with a list of jobs.
pub open spec fn jobs_text(jobs: Seq<CronJob>) -> Seq<char> {
    if jobs.len() == 0 {
        "cron: aucun job"@
    } else {
        search::joined(job_lines(jobs), "\n"@)
    }
}

/// What `/cron list` answers.
pub fn cron_list_reply(jobs: Result<Vec<CronJob>, String>) -> (r: String)
    ensures
        r@ == match jobs {
            Ok(rows) => if rows@.len() == 0 {
                "cron: aucun job"@
            } else {
                search::joined(job_lines(rows@), "\n"@)
            },
            Err(e) => "cron list: erreur: "@ + e@,
        },
        jobs matches Ok(rows) ==> r@ == jobs_text(rows@),
{
    match jobs {
        Err(e) => prefixed("cron list: erreur: ", e.as_str()),
        Ok(rows) => {
            if rows.len() == 0 {
                return "cron: aucun job".to_string();
            }
            let number = numerals::write_decimal(rows.len() as u64);
            let mut head = "cron: ".to_string();
            head.append(number.as_str());
            head.append(" job(s)");
            let mut out: Vec<String> = Vec::new();
            out.push(head);
            let mut i: usize = 0;
            while i < rows.len()
                invariant
                    i <= rows@.len(),
                    out@.len() == i + 1,
                    out@[0]@ == "cron: "@ + numerals::decimal(rows@.len()) + " job(s)"@,
                    forall|j: int| 0 < j <= i ==> (#[trigger] out@[j])@ == job_row(rows@[j - 1]),
                decreases rows@.len() - i,
            {
                out.push(write_job_row(&rows[i]));
                i += 1;
            }
            assert(text::texts(out@) =~= job_lines(rows@));
            search::join(&out, "\n")
        },
    }
}

/// What is answered when the nightly job was added.
pub open spec fn nightly_added(job_id: Seq<char>) -> Seq<char> {
    "cron add: ok\n- job_id: "@ + job_id + "\n- name: curator-nightly"@
}

/// What is answered when a notification was added and its run queued.
pub open spec fn notify_added(job_id: Seq<char>, run_id: Seq<char>) -> Seq<char> {
    "cron add-notify: ok\n- job_id: "@ + job_id + "\n- run_id: "@ + run_id
}

/// What is answered when a run was queued.
pub open spec fn run_queued(job_id: Seq<char>, run_id: Seq<char>) -> Seq<char> {
    "cron run: queued\n- job_id: "@ + job_id + "\n- run_id: "@ + run_id
}

/// What `/cron add-curator-nightly` answers.
pub fn cron_added_reply(job_id: Result<String, String>) -> (r: String)
    ensures
        r@ == match job_id {
            Ok(id) => "cron add: ok\n- job_id: "@ + id@ + "\n- name: curator-nightly"@,
            Err(e) => "cron add: erreur: "@ + e@,
        },
        job_id matches Ok(id) ==> r@ == nightly_added(id@),
        job_id matches Err(e) ==> r@ == or_error(Err(e@), "cron add: erreur: "@),
{
    match job_id {
        Ok(id) => {
            let mut s = "cron add: ok\n- job_id: ".to_string();
            s.append(id.as_str());
            s.append("\n- name: curator-nightly");
            s
        },
        Err(e) => prefixed("cron add: erreur: ", e.as_str()),
    }
}

/// What `/cron add-notify` answers: for the job, and for its first run if there is a job.
pub fn cron_notify_reply(job_id: Result<String, String>, run_id: Result<String, String>) -> (r:
    String)
    ensures
        r@ == match job_id {
            Ok(job) => match run_id {
                Ok(run) => "cron add-notify: ok\n- job_id: "@ + job@ + "\n- run_id: "@ + run@,
                Err(e) => "cron add-notify: job créé mais run ko: "@ + e@,
            },
            Err(e) => "cron add-notify: erreur: "@ + e@,
        },
        job_id is Ok && run_id is Ok ==> r@ == notify_added(job_id->Ok_0@, run_id->Ok_0@),
        job_id matches Err(e) ==> r@ == or_error(Err(e@), "cron add-notify: erreur: "@),
{
    match job_id {
        Ok(job) => match run_id {
            Ok(run) => {
                let mut s = "cron add-notify: ok\n- job_id: ".to_string();
                s.append(job.as_str());
                s.append("\n- run_id: ");
                s.append(run.as_str());
                s
            },
            Err(e) => prefixed("cron add-notify: job créé mais run ko: ", e.as_str()),
        },
        Err(e) => prefixed("cron add-notify: erreur: ", e.as_str()),
    }
}

/// What `/cron run` answers.
pub fn cron_run_reply(job_id: &str, run_id: Result<String, String>) -> (r: String)
    ensures
        r@ == match run_id {
            Ok(run) => "cron run: queued\n- job_id: "@ + job_id@ + "\n- run_id: "@ + run@,
            Err(e) => "cron run: erreur: "@ + e@,
        },
        run_id matches Ok(run) ==> r@ == run_queued(job_id@, run@),
        run_id matches Err(e) ==> r@ == or_error(Err(e@), "cron run: erreur: "@),
{
    match run_id {
        Ok(run) => {
            let mut s = "cron run: queued\n- job_id: ".to_string();
            s.append(job_id);
            s.append("\n- run_id: ");
            s.append(run.as_str());
            s
        },
        Err(e) => prefixed("cron run: erreur: ", e.as_str()),
    }
}

/// The row of a run.
pub open spec fn run_row(r: CronRun) -> Seq<char> {
    "- "@ + r.run_id@ + " | job="@ + r.job_id@ + " | status="@ + r.status@ + " | trigger="@
        + r.trigger_source@ + " | at="@ + r.created_at@
}

/// The row of a run.
fn write_run_row(run: &CronRun) -> (r: String)
    ensures
        r@ == run_row(*run),
{
    let mut s = "- ".to_string();
    s.append(run.run_id.as_str());
    s.append(" | job=");
    s.append(run.job_id.as_str());
    s.append(" | status=");
    s.append(run.status.as_str());
    s.append(" | trigger=");
    s.append(run.trigger_source.as_str());
    s.append(" | at=");
    s.append(run.created_at.as_str());
    s
}

/// The lines of a list of runs.
pub open spec fn run_lines(job_id: Seq<char>, runs: Seq<CronRun>) -> Seq<Seq<char>> {
    seq!["cron runs: "@ + job_id] + Seq::new(runs.len(), |i: int| run_row(runs[i]))
}

/// What is answered with a list of runs.
pub open spec fn runs_text(job_id: Seq<char>, runs: Seq<CronRun>) -> Seq<char> {
    if runs.len() == 0 {
        "cron runs: aucun run pour "@ + job_id
    } else {
        search::joined(run_lines(job_id, runs), "\n"@)
    }
}

/// What `/cron runs` answers.
pub fn cron_runs_reply(job_id: &str, runs: Result<Vec<CronRun>, String>) -> (r: String)
    ensures
        r@ == match runs {
            Ok(rows) => if rows@.len() == 0 {
                "cron runs: aucun run pour "@ + job_id@
            } else {
                search::joined(run_lines(job_id@, rows@), "\n"@)
            },
            Err(e) => "cron runs: erreur: "@ + e@,
        },
        runs matches Ok(rows) ==> r@ == runs_text(job_id@, rows@),
{
    match runs {
        Err(e) => prefixed("cron runs: erreur: ", e.as_str()),
        Ok(rows) => {
            if rows.len() == 0 {
                return prefixed("cron runs: aucun run pour ", job_id);
            }
            let mut out: Vec<String> = Vec::new();
            out.push(prefixed("cron runs: ", job_id));
            let mut i: usize = 0;
            while i < rows.len()
                invariant
                    i <= rows@.len(),
                    out@.len() == i + 1,
                    out@[0]@ == "cron runs: "@ + job_id@,
                    forall|j: int| 0 < j <= i ==> (#[trigger] out@[j])@ == run_row(rows@[j - 1]),
                decreases rows@.len() - i,
            {
                out.push(write_run_row(&rows[i]));
                i += 1;
            }
            assert(text::texts(out@) =~= run_lines(job_id@, rows@));
            search::join(&out, "\n")
        },
    }
}

// ---------------------------------------------------------------------------------------
// Scheduled runs

/// What a run leaves: its record, and what it tells the main session.
pub struct SystemRunOutput {
    pub output_json: String,
    pub notify_main: Option<String>,
}

/// What a scheduled run comes to.
pub enum SystemRun {
    /// Curate the memory, then record what the curator says.
    Curate,
    /// It is done.
    Done(SystemRunOutput),
    /// Ask the model, then record its answer.
    Ask(LlmRequest),
}

/// What an output holds.
#[verifier::ext_equal]
pub struct OutputView {
    pub output_json: Seq<char>,
    pub notify_main: Option<Seq<char>>,
}

/// What a scheduled run comes to, in its texts.
pub enum SystemRunView {
    Curate,
    Done(OutputView),
    Ask(RequestView),
}

impl View for SystemRunOutput {
    type V = OutputView;

    open spec fn view(&self) -> OutputView {
        OutputView { output_json: self.output_json@, notify_main: text::opt(self.notify_main) }
    }
}

impl View for SystemRun {
    type V = SystemRunView;

    open spec fn view(&self) -> SystemRunView {
        match *self {
            SystemRun::Curate => SystemRunView::Curate,
            SystemRun::Done(o) => SystemRunView::Done(o@),
            SystemRun::Ask(r) => SystemRunView::Ask(r@),
        }
    }
}

/// What a result holds, an error by its message.
pub open spec fn run_view(r: Result<SystemRun, String>) -> Result<SystemRunView, Seq<char>> {
    match r {
        Ok(run) => Ok(run@),
        Err(e) => Err(e@),
    }
}

/// The record of an event.
pub open spec fn event_record(event: Seq<char>, message: Seq<char>) -> JsonView {
    JsonView::Object(
        seq![
            ("event"@, JsonView::Text(event)),
            ("message"@, JsonView::Text(message)),
            ("ok"@, JsonView::Bool(true)),
        ],
    )
}

/// The record of an agent's turn.
pub open spec fn turn_record(answer: Seq<char>) -> JsonView {
    JsonView::Object(
        seq![
            ("answer"@, JsonView::Text(answer)),
            ("kind"@, JsonView::Text("agentTurn"@)),
            ("ok"@, JsonView::Bool(true)),
        ],
    )
}

/// The message of a notification.
pub open spec fn notification(payload: JsonView) -> Seq<char> {
    match payload.get("data"@) {
        Some(data) => match data.text_at("message"@) {
            Some(m) => m,
            None => "notification"@,
        },
        None => "notification"@,
    }
}

/// What a system event comes to.
pub open spec fn system_event(payload: JsonView) -> Result<SystemRunView, Seq<char>> {
    let kind = match payload.text_at("type"@) {
        Some(k) => k,
        None => "unknown"@,
    };
    if kind == "curate"@ {
        Ok(SystemRunView::Curate)
    } else if kind == "notify"@ {
        let message = notification(payload);
        Ok(
            SystemRunView::Done(
                OutputView {
                    output_json: json::json_compact(event_record("notify"@, message)),
                    notify_main: Some(message),
                },
            ),
        )
    } else {
        Err("systemEvent non supporté: "@ + kind)
    }
}

/// The request of an agent of its own.
pub open spec fn turn_request(model: Seq<char>, message: Seq<char>) -> RequestView {
    RequestView {
        model,
        messages: seq![
            session::message(
                "system"@,
                "Tu es un sous-agent cron. Réponds de manière concise et actionnable."@,
            ),
            session::message("user"@, message),
        ],
        temperature_milli: 200,
    }
}

/// What an agent's turn comes to.
pub open spec fn agent_turn(payload: JsonView, model: Seq<char>) -> Result<
    SystemRunView,
    Seq<char>,
> {
    match payload.text_at("message"@) {
        None => Err("agentTurn: message manquant"@),
        Some(message) => Ok(
            SystemRunView::Ask(
                turn_request(
                    match payload.text_at("model"@) {
                        Some(m) => m,
                        None => model,
                    },
                    message,
                ),
            ),
        ),
    }
}

/// What a scheduled run comes to.
pub open spec fn system_run_of(
    payload_kind: Seq<char>,
    payload: Result<JsonView, Seq<char>>,
    model: Seq<char>,
) -> Result<SystemRunView, Seq<char>> {
    if payload_kind == "systemEvent"@ {
        match payload {
            Err(e) => Err(e),
            Ok(v) => system_event(v),
        }
    } else if payload_kind == "agentTurn"@ {
        match payload {
            Err(e) => Err(e),
            Ok(v) => agent_turn(v, model),
        }
    } else {
        Err("payload_kind non supporté: "@ + payload_kind)
    }
}

proof fn lemma_record_keys()
    ensures
        order::precedes("event"@, "message"@),
        order::precedes("event"@, "ok"@),
        order::precedes("message"@, "ok"@),
        order::precedes("answer"@, "kind"@),
        order::precedes("answer"@, "ok"@),
        order::precedes("kind"@, "ok"@),
{
    reveal_strlit("event");
    reveal_strlit("message");
    reveal_strlit("ok");
    reveal_strlit("answer");
    reveal_strlit("kind");
}

/// The record of an event.
fn write_event_record(event: &str, message: &str) -> (r: String)
    ensures
        r@ == json::json_compact(event_record(event@, message@)),
{
    proof {
        lemma_record_keys();
    }
    let mut members: Vec<(String, serde_json::Value)> = Vec::new();
    members.push(("event".to_string(), json::value_of_text(event)));
    members.push(("message".to_string(), json::value_of_text(message)));
    members.push(("ok".to_string(), json::value_of_bool(true)));
    assert(json::members_contents(members@) =~= event_record(event@, message@)->Object_0);
    cron_store::record(members)
}

/// What a system event comes to.
pub fn run_system_event(payload: &Json) -> (r: Result<SystemRun, String>)
    ensures
        run_view(r) == system_event(payload@),
{
    let kind = match payload.text_at("type") {
        Some(k) => k,
        None => "unknown".to_string(),
    };
    if text::same(kind.as_str(), "curate") {
        Ok(SystemRun::Curate)
    } else if text::same(kind.as_str(), "notify") {
        let message = match payload.get("data") {
            Some(data) => match data.text_at("message") {
                Some(m) => m,
                None => "notification".to_string(),
            },
            None => "notification".to_string(),
        };
        let output_json = write_event_record("notify", message.as_str());
        Ok(SystemRun::Done(SystemRunOutput { output_json, notify_main: Some(message) }))
    } else {
        Err(prefixed("systemEvent non supporté: ", kind.as_str()))
    }
}

/// What an agent's turn comes to.
pub fn run_agent_turn(payload: &Json, model: &str) -> (r: Result<SystemRun, String>)
    ensures
        run_view(r) == agent_turn(payload@, model@),
{
    let message = match payload.text_at("message") {
        None => {
            return Err("agentTurn: message manquant".to_string());
        },
        Some(m) => m,
    };
    let run_model = match payload.text_at("model") {
        Some(m) => m,
        None => model.to_string(),
    };
    let mut messages: Vec<ChatMessage> = Vec::new();
    messages.push(
        ChatMessage::new(
            "system",
            "Tu es un sous-agent cron. Réponds de manière concise et actionnable.",
        ),
    );
    messages.push(ChatMessage::new("user", message.as_str()));
    assert(session::messages_view(messages@) =~= turn_request(run_model@, message@).messages);
    Ok(SystemRun::Ask(LlmRequest { model: run_model, messages, temperature_milli: 200 }))
}

/// What a scheduled run comes to.
pub fn execute_system_run(payload_kind: &str, payload_json: &str, model: &str) -> (r: Result<
    SystemRun,
    String,
>)
    ensures
        run_view(r) == system_run_of(payload_kind@, json::json_document(payload_json@), model@),
{
    if text::same(payload_kind, "systemEvent") {
        match json::parse_json(payload_json) {
            Err(e) => Err(e),
            Ok(v) => run_system_event(&v),
        }
    } else if text::same(payload_kind, "agentTurn") {
        match json::parse_json(payload_json) {
            Err(e) => Err(e),
            Ok(v) => run_agent_turn(&v, model),
        }
    } else {
        Err(prefixed("payload_kind non supporté: ", payload_kind))
    }
}

/// What a run leaves that has curated the memory.
pub open spec fn curation_leaves(message: Seq<char>) -> OutputView {
    OutputView {
        output_json: json::json_compact(event_record("curate"@, message)),
        notify_main: None,
    }
}

/// What a run leaves that has asked the model.
pub open spec fn turn_leaves(answer: Seq<char>) -> OutputView {
    OutputView {
        output_json: json::json_compact(turn_record(answer)),
        notify_main: Some("[cron agentTurn] "@ + search::cut(answer, 300)),
    }
}

/// What a run leaves that has curated the memory.
pub fn curate_output(message: &str) -> (r: SystemRunOutput)
    ensures
        r@ == (OutputView {
            output_json: json::json_compact(event_record("curate"@, message@)),
            notify_main: None,
        }),
        r@ == curation_leaves(message@),
{
    SystemRunOutput { output_json: write_event_record("curate", message), notify_main: None }
}

/// What a run leaves that has asked the model: the main session gets the first 300 characters.
pub fn turn_output(answer: &str) -> (r: SystemRunOutput)
    ensures
        r@ == (OutputView {
            output_json: json::json_compact(turn_record(answer@)),
            notify_main: Some("[cron agentTurn] "@ + search::cut(answer@, 300)),
        }),
        r@ == turn_leaves(answer@),
{
    proof {
        lemma_record_keys();
    }
    let mut members: Vec<(String, serde_json::Value)> = Vec::new();
    members.push(("answer".to_string(), json::value_of_text(answer)));
    members.push(("kind".to_string(), json::value_of_text("agentTurn")));
    members.push(("ok".to_string(), json::value_of_bool(true)));
    assert(json::members_contents(members@) =~= turn_record(answer@)->Object_0);
    let output_json = cron_store::record(members);
    let short = search::take_chars(answer, 300);
    SystemRunOutput {
        output_json,
        notify_main: Some(prefixed("[cron agentTurn] ", short.as_str())),
    }
}

/// Where a notification also goes: to a chat, if there is a token and the chat is a number.
pub open spec fn target_of(token: Option<Seq<char>>, chat: Option<Seq<char>>) -> Option<
    (Seq<char>, i64),
> {
    match (token, telegram::chat_of(chat)) {
        (Some(t), Some(id)) => Some((t, id)),
        _ => None,
    }
}

/// Where a notification also goes: to a chat, if there is a token and the chat is a number.
pub fn notify_target(token: &Option<String>, chat: &Option<String>) -> (r: Option<(String, i64)>)
    ensures
        target_view(r) == match (text::opt(*token), telegram::chat_of(text::opt(*chat))) {
            (Some(t), Some(id)) => Some((t, id)),
            _ => None,
        },
        target_view(r) == target_of(text::opt(*token), text::opt(*chat)),
{
    match token {
        Some(t) => match telegram::allowed_chat(chat) {
            Some(id) => Some((t.clone(), id)),
            None => None,
        },
        None => None,
    }
}

/// How a run is named in the report on it.
pub open spec fn run_name(job_id: Seq<char>, run_id: Seq<char>) -> Seq<char> {
    "job="@ + job_id + " run="@ + run_id
}

/// The name of a run, with something behind it.
fn named_run(job_id: &str, run_id: &str, end: &str) -> (r: String)
    ensures
        r@ == run_name(job_id@, run_id@) + end@,
{
    let mut s = "job=".to_string();
    s.append(job_id);
    s.append(" run=");
    s.append(run_id);
    s.append(end);
    s
}

/// A step of the cron worker that can fail by itself.
pub enum CronFault {
    Enqueue,
    Store,
    Telegram,
}

/// What a failed step is called.
pub open spec fn fault_name(f: CronFault) -> Seq<char> {
    match f {
        CronFault::Enqueue => "enqueue error: "@,
        CronFault::Store => "store error: "@,
        CronFault::Telegram => "notify telegram error: "@,
    }
}

/// The report on a failed step of the cron worker.
pub fn cron_fault(f: CronFault, e: &str) -> (r: SupervisorEvent)
    ensures
        r@ == EventView::CronRunErr(fault_name(f) + e@),
{
    SupervisorEvent::CronRunErr(
        match f {
            CronFault::Enqueue => prefixed("enqueue error: ", e),
            CronFault::Store => prefixed("store error: ", e),
            CronFault::Telegram => prefixed("notify telegram error: ", e),
        },
    )
}

/// What the cron worker does next.
pub enum WorkerAction {
    /// Execute the run that it has taken up.
    Execute,
    /// Wait.
    Sleep { seconds: u64 },
    /// Record that a run went well, with its output.
    RecordSuccess { run_id: String, output_json: String },
    /// Record that a run failed, and why.
    RecordFailure { run_id: String, error: String },
    /// Send a text to a chat; a failure is reported as such.
    SendTelegram { token: String, chat_id: i64, text: String },
    /// Report to the main session.
    Report(SupervisorEvent),
}

/// What an action holds.
pub enum WorkerView {
    Execute,
    Sleep { seconds: u64 },
    RecordSuccess { run_id: Seq<char>, output_json: Seq<char> },
    RecordFailure { run_id: Seq<char>, error: Seq<char> },
    SendTelegram { token: Seq<char>, chat_id: i64, text: Seq<char> },
    Report(EventView),
}

impl View for WorkerAction {
    type V = WorkerView;

    open spec fn view(&self) -> WorkerView {
        match *self {
            WorkerAction::Execute => WorkerView::Execute,
            WorkerAction::Sleep { seconds } => WorkerView::Sleep { seconds },
            WorkerAction::RecordSuccess { run_id, output_json } => WorkerView::RecordSuccess {
                run_id: run_id@,
                output_json: output_json@,
            },
            WorkerAction::RecordFailure { run_id, error } => WorkerView::RecordFailure {
                run_id: run_id@,
                error: error@,
            },
            WorkerAction::SendTelegram { token, chat_id, text } => WorkerView::SendTelegram {
                token: token@,
                chat_id,
                text: text@,
            },
            WorkerAction::Report(ev) => WorkerView::Report(ev@),
        }
    }
}

/// What a list of actions holds.
pub open spec fn actions_view(v: Seq<WorkerAction>) -> Seq<WorkerView> {
    Seq::new(v.len(), |i: int| v[i]@)
}

/// What the worker does after it has looked for a run: it executes the one that it found, or
/// waits five seconds.
pub open spec fn actions_after_claim(claimed: Result<bool, Seq<char>>) -> Seq<WorkerView> {
    match claimed {
        Ok(true) => seq![WorkerView::Execute],
        Ok(false) => seq![WorkerView::Sleep { seconds: 5 }],
        Err(e) => seq![
            WorkerView::Report(EventView::CronRunErr(fault_name(CronFault::Store) + e)),
            WorkerView::Sleep { seconds: 5 },
        ],
    }
}

/// What a claim holds, an error by its message.
pub open spec fn claim_view(claimed: Result<bool, String>) -> Result<bool, Seq<char>> {
    match claimed {
        Ok(b) => Ok(b),
        Err(e) => Err(e@),
    }
}

/// What the worker does after it has looked for a run.
pub fn after_claim(claimed: Result<bool, String>) -> (r: Vec<WorkerAction>)
    ensures
        actions_view(r@) == actions_after_claim(claim_view(claimed)),
{
    let mut out: Vec<WorkerAction> = Vec::new();
    match claimed {
        Ok(true) => {
            out.push(WorkerAction::Execute);
        },
        Ok(false) => {
            out.push(WorkerAction::Sleep { seconds: 5 });
        },
        Err(e) => {
            out.push(WorkerAction::Report(cron_fault(CronFault::Store, e.as_str())));
            out.push(WorkerAction::Sleep { seconds: 5 });
        },
    }
    assert(actions_view(out@) =~= actions_after_claim(claim_view(claimed)));
    out
}

/// What a target holds.
pub open spec fn target_view(target: Option<(String, i64)>) -> Option<(Seq<char>, i64)> {
    match target {
        Some((token, chat)) => Some((token@, chat)),
        None => None,
    }
}

/// What the result of a run holds, an error by its message.
pub open spec fn output_view(r: Result<SystemRunOutput, String>) -> Result<OutputView, Seq<char>> {
    match r {
        Ok(output) => Ok(output@),
        Err(e) => Err(e@),
    }
}

/// How a notification is passed on: to the chat, if there is one, then to the main session.
pub open spec fn notice(message: Seq<char>, target: Option<(Seq<char>, i64)>) -> Seq<WorkerView> {
    match target {
        Some((token, chat_id)) => seq![
            WorkerView::SendTelegram { token, chat_id, text: message },
            WorkerView::Report(EventView::CronNotify(message)),
        ],
        None => seq![WorkerView::Report(EventView::CronNotify(message))],
    }
}

/// What the worker does after a run: it records how the run ended, passes a notification on, and
/// reports.
pub open spec fn actions_after_run(
    job_id: Seq<char>,
    run_id: Seq<char>,
    result: Result<OutputView, Seq<char>>,
    target: Option<(Seq<char>, i64)>,
) -> Seq<WorkerView> {
    match result {
        Ok(output) => seq![
            WorkerView::RecordSuccess { run_id, output_json: output.output_json },
        ] + match output.notify_main {
            Some(message) => notice(message, target),
            None => Seq::empty(),
        } + seq![WorkerView::Report(EventView::CronRunOk(run_name(job_id, run_id) + " ok"@))],
        Err(e) => seq![
            WorkerView::RecordFailure { run_id, error: e },
            WorkerView::Report(
                EventView::CronRunErr(run_name(job_id, run_id) + (" err="@ + e)),
            ),
        ],
    }
}

/// What the worker does after a run.
pub fn after_run(
    job_id: &str,
    run_id: &str,
    result: Result<SystemRunOutput, String>,
    target: Option<(String, i64)>,
) -> (r: Vec<WorkerAction>)
    ensures
        actions_view(r@) == actions_after_run(
            job_id@,
            run_id@,
            output_view(result),
            target_view(target),
        ),
{
    let mut out: Vec<WorkerAction> = Vec::new();
    match result {
        Ok(output) => {
            out.push(
                WorkerAction::RecordSuccess {
                    run_id: run_id.to_string(),
                    output_json: output.output_json,
                },
            );
            match output.notify_main {
                Some(message) => {
                    match target {
                        Some((token, chat_id)) => {
                            out.push(
                                WorkerAction::SendTelegram {
                                    token,
                                    chat_id,
                                    text: message.clone(),
                                },
                            );
                        },
                        None => {},
                    }
                    out.push(WorkerAction::Report(SupervisorEvent::CronNotify(message)));
                },
                None => {},
            }
            out.push(
                WorkerAction::Report(
                    SupervisorEvent::CronRunOk(named_run(job_id, run_id, " ok")),
                ),
            );
        },
        Err(e) => {
            let end = prefixed(" err=", e.as_str());
            out.push(
                WorkerAction::RecordFailure { run_id: run_id.to_string(), error: e },
            );
            out.push(
                WorkerAction::Report(
                    SupervisorEvent::CronRunErr(named_run(job_id, run_id, end.as_str())),
                ),
            );
        },
    }
    assert(actions_view(out@) =~= actions_after_run(
        job_id@,
        run_id@,
        output_view(result),
        target_view(target),
    ));
    out
}

/// Every run is recorded first, as a success or as a failure, and reported last.
pub proof fn law_runs_are_recorded_and_reported(
    job_id: Seq<char>,
    run_id: Seq<char>,
    result: Result<OutputView, Seq<char>>,
    target: Option<(Seq<char>, i64)>,
)
    ensures
        ({
            let actions = actions_after_run(job_id, run_id, result, target);
            &&& actions.len() >= 2
            &&& result is Ok ==> actions[0] is RecordSuccess
            &&& result is Err ==> actions[0] is RecordFailure
            &&& result is Ok ==> actions.last() == WorkerView::Report(
                EventView::CronRunOk(run_name(job_id, run_id) + " ok"@),
            )
            &&& result is Err ==> actions.last() matches WorkerView::Report(EventView::CronRunErr(_))
        }),
{
}

/// A notification job, when it runs, notifies with its message.
pub proof fn law_notify_job_notifies(message: Seq<char>, model: Seq<char>)
    ensures
        system_run_of(
            "systemEvent"@,
            json::accepted(cron_store::notify_payload(message)),
            model,
        ) == notified(message),
{
    let payload = cron_store::notify_payload(message);
    reveal_strlit("data");
    reveal_strlit("type");
    reveal_strlit("version");
    reveal_strlit("message");
    reveal_strlit("curate");
    reveal_strlit("notify");
    reveal_with_fuel(json::first_member, 4);
    assert("data"@[0] != "type"@[0]);
    assert("curate"@[0] != "notify"@[0]);
    let members = payload->Object_0;
    assert(members[0] == ("data"@, JsonView::Object(seq![("message"@, JsonView::Text(message))])));
    assert(members.drop_first()[0] == ("type"@, JsonView::Text("notify"@)));
    assert(payload.text_at("type"@) == Some("notify"@));
    let data = JsonView::Object(seq![("message"@, JsonView::Text(message))]);
    assert(payload.get("data"@) == Some(data));
    assert(data->Object_0[0] == ("message"@, JsonView::Text(message)));
    assert(data.text_at("message"@) == Some(message));
}

/// A run that is done and notifies with a message.
pub open spec fn notified(message: Seq<char>) -> Result<SystemRunView, Seq<char>> {
    Ok(
        SystemRunView::Done(
            OutputView {
                output_json: json::json_compact(event_record("notify"@, message)),
                notify_main: Some(message),
            },
        ),
    )
}

/// The nightly job, when it runs, curates the memory.
pub proof fn law_nightly_job_curates(model: Seq<char>)
    ensures
        system_run_of("systemEvent"@, json::accepted(cron_store::curate_payload()), model) == Ok::<
            SystemRunView,
            Seq<char>,
        >(SystemRunView::Curate),
{
    let payload = cron_store::curate_payload();
    reveal_strlit("data");
    reveal_strlit("type");
    reveal_with_fuel(json::first_member, 4);
    assert("data"@[0] != "type"@[0]);
    let members = payload->Object_0;
    assert(members[0].0 == "data"@);
    assert(members.drop_first()[0] == ("type"@, JsonView::Text("curate"@)));
    assert(payload.text_at("type"@) == Some("curate"@));
}

/// An agent job, when it runs, asks the model with its message.
pub proof fn law_agent_job_asks(message: Seq<char>, model: Seq<char>)
    ensures
        system_run_of("agentTurn"@, json::accepted(cron_store::turn_payload(message)), model)
            == Ok::<SystemRunView, Seq<char>>(SystemRunView::Ask(turn_request(model, message))),
{
    let payload = cron_store::turn_payload(message);
    reveal_strlit("agentTurn");
    reveal_strlit("systemEvent");
    assert("agentTurn"@[0] != "systemEvent"@[0]);
    reveal_strlit("message");
    reveal_strlit("model");
    assert("message"@.len() != "model"@.len());
    reveal_with_fuel(json::first_member, 3);
    let members = payload->Object_0;
    assert(members[0] == ("message"@, JsonView::Text(message)));
    assert(payload.text_at("message"@) == Some(message));
    assert(payload.text_at("model"@) is None);
}

} // verus!
