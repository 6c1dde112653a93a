//! What a value holds: all of what it was made of.

use vstd::prelude::*;

use crate::config::{AppConfig, LayoutFile};
use crate::cron_store::CronJobInput;
use crate::cron_tool::{CronRequest, CronRequestView};
use crate::curator::{CuratorPlan, CuratorPlanView, CuratorState, DialogueFile, DialogueLine};
use crate::engine::{Move, MoveView};
use crate::entries::{MemorySearchHit, TranscriptLine};
use crate::http_request::{BodyView, HttpBody, HttpCall, HttpOutcome, OutcomeView};
use crate::indexer::{IndexerState, MemoryFile, TranscriptFile};
use crate::json::{Json, JsonView};
use crate::llm::LlmRequest;
use crate::memory::{Candidate, ClauseView, QueryClause};
use crate::notes::AppendRequest;
use crate::probe::ProbeOptions;
use crate::runtime::{
    Command, CommandView, CronCommand, CronView, EventView, SupervisorEvent, SystemRun,
    SystemRunOutput, SystemRunView, WorkerAction, WorkerView,
};
use crate::session::ChatMessage;
use crate::telegram::{PollStep, PollView, StepView, UpdateStep};
use crate::tools::{ActionView, ModelAction, PlanView, ToolPlan, ToolSpec};
use crate::{
    config, cron_tool, curator, entries, http_request, indexer, llm, memory, notes, runtime, search,
    session, text, tools,
};

verus! {

/// A list of texts holds each text, in order; an optional text holds its text.
pub proof fn law_texts_hold_their_characters(v: Seq<String>, i: int, s: Option<String>)
    ensures
        text::texts(v).len() == v.len(),
        0 <= i < v.len() ==> text::texts(v)[i] == v[i]@,
        s matches Some(t) ==> text::opt(s) == Some(t@),
        s is None ==> text::opt(s) is None,
{
}

/// A JSON value holds what it is made of, level by level.
pub proof fn law_json_holds_its_parts(j: Json, i: int)
    ensures
        j is Null ==> j@ == JsonView::Null,
        j matches Json::Bool(b) ==> j@ == JsonView::Bool(b),
        j matches Json::Text(s) ==> j@ == JsonView::Text(s@),
        j matches Json::Number(n) ==> j@ == JsonView::Number(n.text@, n.unsigned),
        j matches Json::Array(items) ==> {
            &&& j@ is Array
            &&& j@->Array_0.len() == items@.len()
            &&& 0 <= i < items@.len() ==> j@->Array_0[i] == items@[i]@
        },
        j matches Json::Object(members) ==> {
            &&& j@ is Object
            &&& j@->Object_0.len() == members@.len()
            &&& 0 <= i < members@.len() ==> j@->Object_0[i] == (members@[i].0@, members@[i].1@)
        },
{
}

// ---------------------------------------------------------------------------------------
// Transcripts and entries

/// A line of a transcript and an entry hold each of their fields, whole.
pub proof fn law_lines_and_entries_hold_their_fields(
    l: TranscriptLine,
    h: MemorySearchHit,
    v: Seq<MemorySearchHit>,
    i: int,
)
    ensures
        l@.ts == l.ts@ && l@.session_id == l.session_id@ && l@.role == l.role@ && l@.content
            == l.content@,
        h@.id == h.id@ && h@.ts == h.ts@ && h@.role == h.role@ && h@.session_id == h.session_id@,
        h@.source_type == h.source_type@ && h@.source_file == h.source_file@ && h@.content
            == h.content@,
        h@.source_line == h.source_line && h@.mention_count == h.mention_count && h@.ts_epoch
            == h.ts_epoch,
        entries::hits_view(v).len() == v.len(),
        0 <= i < v.len() ==> entries::hits_view(v)[i] == v[i]@,
{
}

/// A transcript holds each of its lines, readable or not, at its place; a memory file holds the
/// lines of its text.
pub proof fn law_files_hold_their_lines(
    f: TranscriptFile,
    fs: Seq<TranscriptFile>,
    m: MemoryFile,
    ms: Seq<MemoryFile>,
    s: IndexerState,
    i: int,
)
    ensures
        f@.name == f.name@,
        f@.lines.len() == f.lines@.len(),
        0 <= i < f.lines@.len() ==> {
            &&& f.lines@[i] matches Some(l) ==> f@.lines[i] == Some(l@)
            &&& f.lines@[i] is None ==> f@.lines[i] is None
        },
        f@.lines == indexer::lines_view(f.lines@),
        indexer::files_view(fs).len() == fs.len(),
        0 <= i < fs.len() ==> indexer::files_view(fs)[i] == fs[i]@,
        m@.name == m.name@ && m@.lines == search::lines(m.text@),
        indexer::memory_view(ms).len() == ms.len(),
        0 <= i < ms.len() ==> indexer::memory_view(ms)[i] == ms[i]@,
        s@.last_file == text::opt(s.last_file) && s@.last_line == s.last_line,
        s@.updated_at == s.updated_at@ && s@.last_memory_reindex_at == s.last_memory_reindex_at@,
{
}

/// What the curator reads holds each line of a transcript, whoever speaks, at its place.
pub proof fn law_dialogues_hold_their_lines(
    l: DialogueLine,
    v: Seq<Option<DialogueLine>>,
    f: DialogueFile,
    fs: Seq<DialogueFile>,
    s: CuratorState,
    i: int,
)
    ensures
        curator::spoken(Some(l)) == Some((l.role@, l.content@)),
        curator::spoken(None) is None,
        curator::spoken_lines(v).len() == v.len(),
        0 <= i < v.len() ==> {
            &&& v[i] matches Some(said) ==> curator::spoken_lines(v)[i] == Some(
                (said.role@, said.content@),
            )
            &&& v[i] is None ==> curator::spoken_lines(v)[i] is None
        },
        f@.name == f.name@,
        f.lines matches Ok(lines) ==> f@.lines == Ok::<
            Seq<Option<(Seq<char>, Seq<char>)>>,
            Seq<char>,
        >(curator::spoken_lines(lines@)),
        f.lines matches Err(e) ==> f@.lines == Err::<
            Seq<Option<(Seq<char>, Seq<char>)>>,
            Seq<char>,
        >(e@),
        curator::dialogue_view(fs).len() == fs.len(),
        0 <= i < fs.len() ==> curator::dialogue_view(fs)[i] == fs[i]@,
        s@.last_file == text::opt(s.last_file) && s@.last_line == s.last_line && s@.last_run_at
            == s.last_run_at@,
{
}

/// What the curator plans holds its rows or its reason.
pub proof fn law_curator_plans_hold_their_rows(
    p: CuratorPlan,
    r: Result<CuratorPlan, String>,
    rows: Result<Vec<String>, String>,
)
    ensures
        p matches CuratorPlan::Stop(s) ==> p@ == CuratorPlanView::Stop(s@),
        p matches CuratorPlan::Ask(v) ==> p@ == CuratorPlanView::Ask(text::texts(v@)),
        r matches Ok(p) ==> curator::plan_view(r) == Ok::<CuratorPlanView, Seq<char>>(p@),
        r matches Err(e) ==> curator::plan_view(r) == Err::<CuratorPlanView, Seq<char>>(e@),
        rows matches Ok(v) ==> curator::rows_view(rows) == Ok::<Seq<Seq<char>>, Seq<char>>(
            text::texts(v@),
        ) && tools::rows_view(rows) == Ok::<Seq<Seq<char>>, Seq<char>>(text::texts(v@)),
        rows matches Err(e) ==> curator::rows_view(rows) == Err::<Seq<Seq<char>>, Seq<char>>(e@)
            && tools::rows_view(rows) == Err::<Seq<Seq<char>>, Seq<char>>(e@),
{
}

// ---------------------------------------------------------------------------------------
// Turns and tools

/// A message, a request and a result hold their texts, whole and in order.
pub proof fn law_requests_hold_their_messages(
    m: ChatMessage,
    v: Seq<ChatMessage>,
    q: LlmRequest,
    r: Result<String, String>,
    i: int,
)
    ensures
        m@.role == m.role@ && m@.content == m.content@,
        session::messages_view(v).len() == v.len(),
        0 <= i < v.len() ==> session::messages_view(v)[i] == v[i]@,
        q@.model == q.model@ && q@.messages == session::messages_view(q.messages@),
        q@.temperature_milli == q.temperature_milli,
        r matches Ok(s) ==> llm::text_result(r) == Ok::<Seq<char>, Seq<char>>(s@),
        r matches Err(e) ==> llm::text_result(r) == Err::<Seq<char>, Seq<char>>(e@),
{
}

/// A move holds its request, its plan or its end; an action its answer, or its call.
pub proof fn law_moves_hold_what_they_need(
    m: Move,
    a: ModelAction,
    r: Result<ModelAction, String>,
)
    ensures
        m matches Move::Ask(_, q) ==> m@ is Ask && m@->request == q@,
        m matches Move::Run(_, p) ==> m@ is Run && m@->plan == p@,
        m matches Move::Finish(end) ==> m@ == MoveView::Finish(llm::text_result(end)),
        a matches ModelAction::FinalAnswer(s) ==> a@ == ActionView::FinalAnswer(s@),
        a matches ModelAction::ToolCall { name, args } ==> a@ == (ActionView::ToolCall {
            name: name@,
            args: args@,
        }),
        r matches Ok(a) ==> tools::action_view(r) == Ok::<ActionView, Seq<char>>(a@),
        r matches Err(e) ==> tools::action_view(r) == Err::<ActionView, Seq<char>>(e@),
{
}

/// A plan holds all that is needed to carry it out.
pub proof fn law_plans_hold_what_they_need(
    p: ToolPlan,
    t: ToolSpec,
    row: Result<Option<String>, String>,
)
    ensures
        p matches ToolPlan::Reply(s) ==> p@ == PlanView::Reply(s@),
        p is Now ==> p@ == PlanView::Now,
        p matches ToolPlan::Http(call) ==> p@ == PlanView::Http(call@),
        p matches ToolPlan::Append(note) ==> p@ == PlanView::Append(note@),
        p matches ToolPlan::Search(q) ==> p@ == (PlanView::Search {
            basedir: q.basedir@,
            query: q.query@,
            limit: q.limit,
            archive: q.archive,
        }),
        p matches ToolPlan::Get { basedir, id } ==> p@ == (PlanView::Get {
            basedir: basedir@,
            id: id@,
        }),
        p matches ToolPlan::Cron(request) ==> p@ == PlanView::Cron(request@),
        p matches ToolPlan::Custom { name, args } ==> p@ == (PlanView::Custom {
            name: name@,
            args: args@,
        }),
        t@.name == t.name@ && t@.description == t.description@ && t@.args_schema == t.args_schema@,
        row matches Ok(s) ==> tools::row_view(row) == Ok::<Option<Seq<char>>, Seq<char>>(
            text::opt(s),
        ),
        row matches Err(e) ==> tools::row_view(row) == Err::<Option<Seq<char>>, Seq<char>>(e@),
{
}

/// A request over HTTP and its outcome hold each of their parts, whole.
pub proof fn law_http_calls_hold_their_parts(
    b: HttpBody,
    c: HttpCall,
    v: Seq<(String, String)>,
    o: HttpOutcome,
    r: Result<HttpCall, String>,
    i: int,
)
    ensures
        b matches HttpBody::Json(j) ==> b@ == BodyView::Json(j@),
        b matches HttpBody::Text(s) ==> b@ == BodyView::Text(s@),
        b is Empty ==> b@ == BodyView::Empty,
        c@.method == c.method@ && c@.url == c.url@ && c@.timeout_ms == c.timeout_ms,
        c@.max_chars == c.max_chars && c@.body == c.body@,
        c@.headers == http_request::pairs_view(c.headers@),
        c@.query == http_request::pairs_view(c.query@),
        http_request::pairs_view(v).len() == v.len(),
        0 <= i < v.len() ==> http_request::pairs_view(v)[i] == (v[i].0@, v[i].1@),
        o matches HttpOutcome::Answer { accepted, status, url, content_type, body } ==> o@ == (
        OutcomeView::Answer {
            accepted,
            status,
            url: url@,
            content_type: content_type@,
            body: body@,
        }),
        o matches HttpOutcome::Transport(e) ==> o@ == OutcomeView::Transport(e@),
        r matches Ok(c) ==> http_request::call_view(r) is Ok && http_request::call_view(r)->Ok_0
            == c@,
        r matches Err(e) ==> http_request::call_view(r) is Err && http_request::call_view(
            r,
        )->Err_0 == e@,
{
}

/// A note and a request to the cron tool hold what was asked for, whole.
pub proof fn law_tool_requests_hold_what_was_asked(
    n: AppendRequest,
    ns: Result<AppendRequest, String>,
    c: CronRequest,
    cs: Result<CronRequest, String>,
)
    ensures
        n@.path == n.path@ && n@.file == n.file@ && n@.note == n.note@,
        ns matches Ok(n) ==> notes::append_view(ns) is Ok && notes::append_view(ns)->Ok_0 == n@,
        ns matches Err(e) ==> notes::append_view(ns) is Err && notes::append_view(ns)->Err_0 == e@,
        c matches CronRequest::AddNotify(s) ==> c@ == CronRequestView::AddNotify(s@),
        c matches CronRequest::AddAgentTurn(s) ==> c@ == CronRequestView::AddAgentTurn(s@),
        c is List ==> c@ == CronRequestView::List,
        c matches CronRequest::Runs(s) ==> c@ == CronRequestView::Runs(s@),
        c matches CronRequest::Run(s) ==> c@ == CronRequestView::Run(s@),
        cs matches Ok(c) ==> cron_tool::request_view(cs) is Ok && cron_tool::request_view(cs)->Ok_0
            == c@,
        cs matches Err(e) ==> cron_tool::request_view(cs) is Err && cron_tool::request_view(
            cs,
        )->Err_0 == e@,
{
}

// ---------------------------------------------------------------------------------------
// The memory

/// A candidate holds its entry and its ranks, and a condition what it is about.
pub proof fn law_candidates_hold_their_entries(
    c: Candidate,
    v: Seq<Candidate>,
    scored: Seq<(i32, Candidate)>,
    hits: Seq<(i32, MemorySearchHit)>,
    q: QueryClause,
    i: int,
)
    ensures
        c@.hit == c.hit@,
        c.lexical_rank matches Some(n) ==> c@.lexical_rank == Some(n as nat),
        c.lexical_rank is None ==> c@.lexical_rank is None,
        c.vector_rank matches Some(n) ==> c@.vector_rank == Some(n as nat),
        c.vector_rank is None ==> c@.vector_rank is None,
        memory::candidates_view(v).len() == v.len(),
        0 <= i < v.len() ==> memory::candidates_view(v)[i] == v[i]@,
        memory::scored_candidates(scored).len() == scored.len(),
        0 <= i < scored.len() ==> memory::scored_candidates(scored)[i] == (
            scored[i].0,
            scored[i].1@,
        ),
        memory::scored_view(hits).len() == hits.len(),
        0 <= i < hits.len() ==> memory::scored_view(hits)[i] == (hits[i].0, hits[i].1@),
        q is MatchesAll ==> q@ == ClauseView::MatchesAll,
        q matches QueryClause::NotOfSort(s) ==> q@ == ClauseView::NotOfSort(s@),
        q matches QueryClause::NotFromSession(s) ==> q@ == ClauseView::NotFromSession(s@),
{
}

// ---------------------------------------------------------------------------------------
// The runtime

/// What a line asks for, and what an update leads to, hold their texts, whole.
pub proof fn law_commands_hold_their_texts(c: Command, k: CronCommand, u: UpdateStep, p: PollStep)
    ensures
        c matches Command::Turn(s) ==> c@ == CommandView::Turn(s@),
        c matches Command::Cron(k) ==> c@ == CommandView::Cron(k@),
        k matches CronCommand::AddNotify(s) ==> k@ == CronView::AddNotify(s@),
        k matches CronCommand::Run(s) ==> k@ == CronView::Run(s@),
        k matches CronCommand::Runs(s) ==> k@ == CronView::Runs(s@),
        k matches CronCommand::Usage(s) ==> k@ == CronView::Usage(s@),
        u matches UpdateStep::Answer { chat_id, text } ==> u@ == (StepView::Answer {
            chat_id,
            text: text@,
        }),
        u matches UpdateStep::Refuse(id) ==> u@ == StepView::Refuse(id),
        u is Ignore ==> u@ == StepView::Ignore,
        p is Handle ==> p@ == PollView::Handle,
        p matches PollStep::Wait { report, seconds } ==> p@ == (PollView::Wait {
            report: report@,
            seconds,
        }),
{
}

/// What a worker reports, and what it does, hold their texts, whole and in order.
pub proof fn law_reports_hold_their_texts(
    ev: SupervisorEvent,
    a: WorkerAction,
    v: Seq<WorkerAction>,
    i: int,
)
    ensures
        ev matches SupervisorEvent::CuratorTickOk(s) ==> ev@ == EventView::CuratorTickOk(s@),
        ev matches SupervisorEvent::CuratorTickErr(s) ==> ev@ == EventView::CuratorTickErr(s@),
        ev matches SupervisorEvent::CronRunOk(s) ==> ev@ == EventView::CronRunOk(s@),
        ev matches SupervisorEvent::CronRunErr(s) ==> ev@ == EventView::CronRunErr(s@),
        ev matches SupervisorEvent::CronNotify(s) ==> ev@ == EventView::CronNotify(s@),
        a is Execute ==> a@ == WorkerView::Execute,
        a matches WorkerAction::Sleep { seconds } ==> a@ == (WorkerView::Sleep { seconds }),
        a matches WorkerAction::RecordSuccess { run_id, output_json } ==> a@ == (
        WorkerView::RecordSuccess { run_id: run_id@, output_json: output_json@ }),
        a matches WorkerAction::RecordFailure { run_id, error } ==> a@ == (
        WorkerView::RecordFailure { run_id: run_id@, error: error@ }),
        a matches WorkerAction::SendTelegram { token, chat_id, text } ==> a@ == (
        WorkerView::SendTelegram { token: token@, chat_id, text: text@ }),
        a matches WorkerAction::Report(ev) ==> a@ == WorkerView::Report(ev@),
        runtime::actions_view(v).len() == v.len(),
        0 <= i < v.len() ==> runtime::actions_view(v)[i] == v[i]@,
{
}

/// What a scheduled run comes to holds its record, its notification or its request, whole.
pub proof fn law_runs_hold_what_they_leave(
    o: SystemRunOutput,
    r: SystemRun,
    rs: Result<SystemRun, String>,
    os: Result<SystemRunOutput, String>,
    claimed: Result<bool, String>,
    target: Option<(String, i64)>,
)
    ensures
        o@.output_json == o.output_json@ && o@.notify_main == text::opt(o.notify_main),
        r is Curate ==> r@ == SystemRunView::Curate,
        r matches SystemRun::Done(o) ==> r@ == SystemRunView::Done(o@),
        r matches SystemRun::Ask(q) ==> r@ == SystemRunView::Ask(q@),
        rs matches Ok(r) ==> runtime::run_view(rs) is Ok && runtime::run_view(rs)->Ok_0 == r@,
        rs matches Err(e) ==> runtime::run_view(rs) is Err && runtime::run_view(rs)->Err_0 == e@,
        os matches Ok(o) ==> runtime::output_view(os) is Ok && runtime::output_view(os)->Ok_0
            == o@,
        os matches Err(e) ==> runtime::output_view(os) is Err && runtime::output_view(os)->Err_0
            == e@,
        claimed matches Ok(b) ==> runtime::claim_view(claimed) == Ok::<bool, Seq<char>>(b),
        claimed matches Err(e) ==> runtime::claim_view(claimed) == Err::<bool, Seq<char>>(e@),
        target matches Some(t) ==> runtime::target_view(target) == Some((t.0@, t.1)),
        target is None ==> runtime::target_view(target) is None,
{
}

// ---------------------------------------------------------------------------------------
// Settings

/// The settings, a file of the base directory, a job and the options of a probe hold each of their
/// fields, whole.
pub proof fn law_settings_hold_their_fields(
    c: AppConfig,
    r: Result<AppConfig, String>,
    f: LayoutFile,
    j: CronJobInput,
    o: ProbeOptions,
)
    ensures
        c@.api_key == c.api_key@ && c@.model == c.model@ && c@.endpoint == c.endpoint@,
        c@.basedir == c.basedir@ && c@.conf_file == c.conf_file@ && c@.transcripts_file
            == c.transcripts_file@,
        c@.memory_index_file == c.memory_index_file@ && c@.cron_db_file == c.cron_db_file@,
        c@.http_host == c.http_host@ && c@.http_port == c.http_port && c@.telegram_enabled
            == c.telegram_enabled,
        c@.telegram_bot_token == text::opt(c.telegram_bot_token),
        c@.telegram_default_chat_id == text::opt(c.telegram_default_chat_id),
        c@.max_turn_steps == c.max_turn_steps,
        r matches Ok(c) ==> config::config_view(r) is Ok && config::config_view(r)->Ok_0 == c@,
        r matches Err(e) ==> config::config_view(r) is Err && config::config_view(r)->Err_0 == e@,
        f@.path == f.path@ && f@.content == f.content@ && f@.enrich == f.enrich,
        j@.name == text::opt(j.name) && j@.schedule_kind == j.schedule_kind@ && j@.schedule_json
            == j.schedule_json@,
        j@.payload_kind == j.payload_kind@ && j@.payload_json == j.payload_json@,
        j@.session_target == j.session_target@ && j@.next_run_at == text::opt(j.next_run_at),
        o@.basedir == o.basedir@ && o@.query == o.query@ && o@.limit == o.limit,
        o@.archive == o.archive && o@.reindex == o.reindex,
{
}

} // verus!
