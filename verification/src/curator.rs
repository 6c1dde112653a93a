//! The memory curator: which new transcript lines it shows to the model, and which of the lines
//! that the model proposes it writes down.

use vstd::prelude::*;

use crate::session::{ChatMessage, MessageView};
use crate::{guard, indexer, memory, numerals, order, paths, ranking, search, session, text};

verus! {

// ---------------------------------------------------------------------------------------
// Settings

/// The model settings of the curator, apart from its temperature.
pub struct CuratorLlm {
    pub base_url: Option<String>,
    pub model: Option<String>,
    pub api_key_env: Option<String>,
}

/// How much the curator reads at a time.
pub struct CuratorWindow {
    pub max_lines: Option<usize>,
}

/// How much the curator writes at a time.
pub struct CuratorApply {
    pub dry_run: Option<bool>,
    pub max_additions_per_run: Option<usize>,
}

/// The settings file of the curator.
pub struct CuratorConfig {
    pub enabled: Option<bool>,
    pub llm: Option<CuratorLlm>,
    pub window: Option<CuratorWindow>,
    pub apply: Option<CuratorApply>,
}

/// The settings file that is written where there is none.
pub const DEFAULT_SETTINGS: &'static str = "enabled = true

[llm]
# base_url = \"https://api.openai.com/v1\"
# model = \"openai-codex/gpt-5.3-codex\"
# api_key_env = \"CURATOR_API_KEY\"
temperature = 0.1

[window]
max_lines = 800

[apply]
dry_run = false
max_additions_per_run = 10
";

/// The settings file that is written where there is none.
pub fn default_settings() -> (r: String)
    ensures
        r@ == DEFAULT_SETTINGS@,
{
    DEFAULT_SETTINGS.to_string()
}

/// The settings file of the curator.
pub fn config_path(basedir: &str) -> (r: String)
    ensures
        r@ == memory::under(basedir@, "conf"@, "curator.toml"@),
{
    memory::path_under(basedir, "conf", "curator.toml")
}

/// The file that holds the state of the curator.
pub fn state_path(basedir: &str) -> (r: String)
    ensures
        r@ == memory::under(basedir@, "state"@, "curator_state.json"@),
{
    memory::path_under(basedir, "state", "curator_state.json")
}

/// The file that holds the instructions to the model.
pub open spec fn prompt_file(basedir: Seq<char>) -> Seq<char> {
    paths::joined(memory::under(basedir, "conf"@, "prompts"@), "curator_system.md"@)
}

/// The file that holds the instructions to the model.
pub fn prompt_path(basedir: &str) -> (r: String)
    ensures
        r@ == paths::joined(
            memory::under(basedir@, "conf"@, "prompts"@),
            "curator_system.md"@,
        ),
        r@ == prompt_file(basedir@),
{
    let prompts = memory::path_under(basedir, "conf", "prompts");
    paths::join(prompts.as_str(), "curator_system.md")
}

/// The number, but not less than `low`.
pub open spec fn at_least(n: usize, low: usize) -> usize {
    if n < low {
        low
    } else {
        n
    }
}

/// How many lines the curator reads at a time: 800 unless set, and never under 50.
pub open spec fn window_size(cfg: CuratorConfig) -> usize {
    match cfg.window {
        Some(CuratorWindow { max_lines: Some(n) }) => at_least(n, 50),
        _ => 800,
    }
}

/// Does the curator only count?
pub open spec fn only_counts(cfg: CuratorConfig) -> bool {
    match cfg.apply {
        Some(CuratorApply { dry_run: Some(b), .. }) => b,
        _ => false,
    }
}

/// How many lines the curator writes into each file at a time: 10 unless set, and at least one.
pub open spec fn additions_limit(cfg: CuratorConfig) -> usize {
    match cfg.apply {
        Some(CuratorApply { max_additions_per_run: Some(n), .. }) => at_least(n, 1),
        _ => 10,
    }
}

impl CuratorConfig {
    /// How many lines the curator reads at a time.
    pub fn max_lines(&self) -> (r: usize)
        ensures
            r == window_size(*self),
            r >= 50,
    {
        match &self.window {
            Some(w) => match w.max_lines {
                Some(n) => if n < 50 {
                    50
                } else {
                    n
                },
                None => 800,
            },
            None => 800,
        }
    }

    /// Does the curator only count?
    pub fn dry_run(&self) -> (r: bool)
        ensures
            r == only_counts(*self),
    {
        match &self.apply {
            Some(a) => match a.dry_run {
                Some(b) => b,
                None => false,
            },
            None => false,
        }
    }

    /// How many lines the curator writes into each file at a time.
    pub fn max_additions(&self) -> (r: usize)
        ensures
            r == additions_limit(*self),
            r >= 1,
    {
        match &self.apply {
            Some(a) => match a.max_additions_per_run {
                Some(n) => if n < 1 {
                    1
                } else {
                    n
                },
                None => 10,
            },
            None => 10,
        }
    }

    /// Where the curator's model is asked: at its own base address if it has one.
    pub fn endpoint(&self, default_endpoint: &str) -> (r: String)
        ensures
            r@ == match self.llm {
                Some(CuratorLlm { base_url: Some(base), .. }) => chat_endpoint(base@),
                _ => default_endpoint@,
            },
            r@ == endpoint_of(self.llm, default_endpoint@),
    {
        match &self.llm {
            Some(l) => match &l.base_url {
                Some(base) => to_chat_completions_endpoint(base.as_str()),
                None => default_endpoint.to_string(),
            },
            None => default_endpoint.to_string(),
        }
    }

    /// The curator's model: its own if it has one.
    pub fn model(&self, default_model: &str) -> (r: String)
        ensures
            r@ == match self.llm {
                Some(CuratorLlm { model: Some(model), .. }) => model@,
                _ => default_model@,
            },
            r@ == model_of(self.llm, default_model@),
    {
        match &self.llm {
            Some(l) => match &l.model {
                Some(model) => model.clone(),
                None => default_model.to_string(),
            },
            None => default_model.to_string(),
        }
    }

    /// The name of the variable that holds the curator's own key, if it has one.
    pub fn api_key_variable(&self) -> (r: Option<String>)
        ensures
            text::opt(r) == match self.llm {
                Some(l) => text::opt(l.api_key_env),
                None => None,
            },
            text::opt(r) == key_variable(self.llm),
    {
        match &self.llm {
            Some(l) => match &l.api_key_env {
                Some(name) => Some(name.clone()),
                None => None,
            },
            None => None,
        }
    }
}

/// The key to use: the value of the curator's own variable unless it is absent or blank.
pub open spec fn key_of(own: Option<Seq<char>>, default: Seq<char>) -> Seq<char> {
    match own {
        Some(key) => if text::trimmed(key).len() > 0 {
            key
        } else {
            default
        },
        None => default,
    }
}

/// The name of the variable that holds the curator's own key, if it has one.
pub open spec fn key_variable(llm: Option<CuratorLlm>) -> Option<Seq<char>> {
    match llm {
        Some(l) => text::opt(l.api_key_env),
        None => None,
    }
}

/// Where the curator's model is asked.
pub open spec fn endpoint_of(llm: Option<CuratorLlm>, default: Seq<char>) -> Seq<char> {
    match llm {
        Some(CuratorLlm { base_url: Some(base), .. }) => chat_endpoint(base@),
        _ => default,
    }
}

/// The curator's model.
pub open spec fn model_of(llm: Option<CuratorLlm>, default: Seq<char>) -> Seq<char> {
    match llm {
        Some(CuratorLlm { model: Some(model), .. }) => model@,
        _ => default,
    }
}

/// The key to use: the value of the curator's own variable unless it is absent or blank.
pub fn choose_api_key(own: Option<String>, default_api_key: &str) -> (r: String)
    ensures
        r@ == match own {
            Some(key) => if text::trimmed(key@).len() > 0 {
                key@
            } else {
                default_api_key@
            },
            None => default_api_key@,
        },
        r@ == key_of(text::opt(own), default_api_key@),
{
    match own {
        Some(key) => if text::is_blank(key.as_str()) {
            default_api_key.to_string()
        } else {
            key
        },
        None => default_api_key.to_string(),
    }
}

/// The address of the chat completions under a base address, which may or may not name the
/// version.
pub open spec fn chat_endpoint(base: Seq<char>) -> Seq<char> {
    let b = search::trim_end_of(base, '/');
    if "/v1"@.is_suffix_of(b) {
        b + "/chat/completions"@
    } else {
        b + "/v1/chat/completions"@
    }
}

/// The address of the chat completions under a base address.
pub fn to_chat_completions_endpoint(base_url: &str) -> (r: String)
    ensures
        r@ == chat_endpoint(base_url@),
{
    let mut b = search::trim_end_matches(base_url, '/');
    if search::ends_with(b.as_str(), "/v1") {
        b.append("/chat/completions");
        b
    } else {
        b.append("/v1/chat/completions");
        b
    }
}

// ---------------------------------------------------------------------------------------
// What is new

/// How far the curator has read.
pub struct CuratorState {
    pub last_file: Option<String>,
    pub last_line: usize,
    pub last_run_at: String,
}

/// What the state of the curator holds.
#[verifier::ext_equal]
pub struct CuratorStateView {
    pub last_file: Option<Seq<char>>,
    pub last_line: nat,
    pub last_run_at: Seq<char>,
}

impl View for CuratorState {
    type V = CuratorStateView;

    open spec fn view(&self) -> CuratorStateView {
        CuratorStateView {
            last_file: text::opt(self.last_file),
            last_line: self.last_line as nat,
            last_run_at: self.last_run_at@,
        }
    }
}

/// Who said what.
pub struct DialogueLine {
    pub role: String,
    pub content: String,
}

/// A transcript as the curator reads it: its name, and its lines, or why it cannot be read.
pub struct DialogueFile {
    pub name: String,
    pub lines: Result<Vec<Option<DialogueLine>>, String>,
}

/// What a transcript holds for the curator: the role and the content of each readable line.
#[verifier::ext_equal]
pub struct DialogueView {
    pub name: Seq<char>,
    pub lines: Result<Seq<Option<(Seq<char>, Seq<char>)>>, Seq<char>>,
}

/// What a line holds, if it can be read.
pub open spec fn spoken(l: Option<DialogueLine>) -> Option<(Seq<char>, Seq<char>)> {
    match l {
        Some(l) => Some((l.role@, l.content@)),
        None => None,
    }
}

/// What a list of lines holds.
pub open spec fn spoken_lines(v: Seq<Option<DialogueLine>>) -> Seq<
    Option<(Seq<char>, Seq<char>)>,
> {
    Seq::new(v.len(), |i: int| spoken(v[i]))
}

impl View for DialogueFile {
    type V = DialogueView;

    open spec fn view(&self) -> DialogueView {
        DialogueView {
            name: self.name@,
            lines: match self.lines {
                Ok(v) => Ok(spoken_lines(v@)),
                Err(e) => Err(e@),
            },
        }
    }
}

/// What a list of transcripts holds.
pub open spec fn dialogue_view(v: Seq<DialogueFile>) -> Seq<DialogueView> {
    Seq::new(v.len(), |i: int| v[i]@)
}

/// How a line is shown to the model.
pub open spec fn shown(file: Seq<char>, line: nat, l: (Seq<char>, Seq<char>)) -> Seq<char> {
    "["@ + file + ":"@ + numerals::decimal(line) + "] ["@ + l.0 + "] "@ + l.1
}

/// The readable lines of a transcript behind the first `done` ones, as they are shown.
pub open spec fn new_rows(
    file: Seq<char>,
    lines: Seq<Option<(Seq<char>, Seq<char>)>>,
    done: nat,
) -> Seq<Seq<char>>
    decreases lines.len(),
{
    if lines.len() == 0 {
        Seq::empty()
    } else {
        let before = new_rows(file, lines.drop_last(), done);
        match lines.last() {
            Some(l) => if lines.len() > done {
                before.push(shown(file, lines.len(), l))
            } else {
                before
            },
            None => before,
        }
    }
}

/// The rows that the curator shows to the model: the first `max_lines` readable lines behind its
/// cursor. A transcript that cannot be read stops it, if it gets there.
pub open spec fn window(
    state: CuratorStateView,
    files: Seq<DialogueView>,
    max_lines: nat,
) -> Result<Seq<Seq<char>>, Seq<char>>
    decreases files.len(),
{
    if files.len() == 0 {
        Ok(Seq::empty())
    } else {
        match window(state, files.drop_last(), max_lines) {
            Err(e) => Err(e),
            Ok(rows) => if rows.len() >= max_lines {
                Ok(rows)
            } else {
                match indexer::behind_cursor(
                    state.last_file,
                    state.last_line,
                    files.last().name,
                ) {
                    None => Ok(rows),
                    Some(done) => match files.last().lines {
                        Err(e) => Err(e),
                        Ok(lines) => Ok(
                            ranking::front(
                                rows + new_rows(files.last().name, lines, done),
                                max_lines,
                            ),
                        ),
                    },
                }
            },
        }
    }
}

/// How a line is shown to the model.
fn show(file: &str, line_no: usize, l: &DialogueLine) -> (r: String)
    ensures
        r@ == shown(file@, line_no as nat, (l.role@, l.content@)),
{
    let number = numerals::write_decimal(line_no as u64);
    let mut row = "[".to_string();
    row.append(file);
    row.append(":");
    row.append(number.as_str());
    row.append("] [");
    row.append(l.role.as_str());
    row.append("] ");
    row.append(l.content.as_str());
    row
}

/// The readable lines of a transcript behind the first `done` ones, as they are shown.
fn show_new(file: &str, lines: &Vec<Option<DialogueLine>>, done: usize) -> (r: Vec<String>)
    ensures
        text::texts(r@) == new_rows(file@, spoken_lines(lines@), done as nat),
{
    let ghost all = spoken_lines(lines@);
    let mut out: Vec<String> = Vec::new();
    let mut i: usize = 0;
    assert(text::texts(out@) =~= Seq::empty());
    while i < lines.len()
        invariant
            i <= lines@.len(),
            all == spoken_lines(lines@),
            text::texts(out@) == new_rows(file@, all.take(i as int), done as nat),
        decreases lines@.len() - i,
    {
        let ghost before = out@;
        assert(all.take(i + 1).drop_last() =~= all.take(i as int));
        assert(all.take(i + 1).last() == spoken(lines@[i as int]));
        if i >= done {
            match &lines[i] {
                Some(l) => {
                    let row = show(file, i + 1, l);
                    out.push(row);
                    assert(text::texts(out@) =~= text::texts(before).push(row@));
                },
                None => {},
            }
        }
        i += 1;
    }
    assert(all.take(all.len() as int) =~= all);
    out
}

/// What a list of rows holds, an error by its message.
pub open spec fn rows_view(r: Result<Vec<String>, String>) -> Result<Seq<Seq<char>>, Seq<char>> {
    match r {
        Ok(rows) => Ok(text::texts(rows@)),
        Err(e) => Err(e@),
    }
}

proof fn lemma_window_ends(
    state: CuratorStateView,
    files: Seq<DialogueView>,
    max_lines: nat,
    n: int,
)
    requires
        0 <= n <= files.len(),
        match window(state, files.take(n), max_lines) {
            Ok(rows) => rows.len() >= max_lines,
            Err(_) => true,
        },
    ensures
        window(state, files, max_lines) == window(state, files.take(n), max_lines),
    decreases files.len() - n,
{
    if n < files.len() {
        assert(files.take(n + 1).drop_last() =~= files.take(n));
        lemma_window_ends(state, files, max_lines, n + 1);
    } else {
        assert(files.take(n) =~= files);
    }
}

/// The rows that the curator shows to the model: the first `max_lines` readable lines behind its
/// cursor, and at least one if there is any.
pub fn collect_transcript_window(
    state: &CuratorState,
    files: &Vec<DialogueFile>,
    max_lines: usize,
) -> (r: Result<Vec<String>, String>)
    ensures
        rows_view(r) == window(
            state@,
            dialogue_view(files@),
            memory::at_least_one(max_lines as nat),
        ),
{
    let limit: usize = if max_lines == 0 {
        1
    } else {
        max_lines
    };
    let ghost all = dialogue_view(files@);
    let mut rows: Vec<String> = Vec::new();
    let mut i: usize = 0;
    assert(text::texts(rows@) =~= Seq::empty());
    assert(all.take(0) =~= Seq::empty());
    while i < files.len()
        invariant
            i <= files@.len(),
            limit == memory::at_least_one(max_lines as nat),
            all == dialogue_view(files@),
            rows@.len() < limit,
            window(state@, all.take(i as int), limit as nat) == rows_view(Ok(rows)),
        decreases files@.len() - i,
    {
        assert(all.take(i + 1).drop_last() =~= all.take(i as int));
        assert(all.take(i + 1).last() == files@[i as int]@);
        let name = files[i].name.as_str();
        match indexer::count_behind_cursor(&state.last_file, state.last_line, name) {
            None => {},
            Some(done) => match &files[i].lines {
                Err(e) => {
                    proof {
                        lemma_window_ends(state@, all, limit as nat, i + 1);
                    }
                    return Err(e.clone());
                },
                Ok(lines) => {
                    let found = show_new(name, lines, done);
                    let ghost before = text::texts(rows@);
                    let ghost more = text::texts(found@);
                    let mut j: usize = 0;
                    assert(before + more.take(0) =~= before);
                    while j < found.len() && rows.len() < limit
                        invariant
                            j <= found@.len(),
                            more == text::texts(found@),
                            text::texts(rows@) == before + more.take(j as int),
                            rows@.len() <= limit,
                        decreases found@.len() - j,
                    {
                        let ghost known = rows@;
                        rows.push(found[j].clone());
                        assert(text::texts(rows@) =~= text::texts(known).push(found@[j as int]@));
                        assert(before + more.take(j + 1) =~= (before + more.take(j as int)).push(
                            more[j as int],
                        ));
                        j += 1;
                    }
                    assert(text::texts(rows@) =~= ranking::front(
                        before + more,
                        limit as nat,
                    ));
                    if rows.len() >= limit {
                        proof {
                            lemma_window_ends(state@, all, limit as nat, i + 1);
                        }
                        return Ok(rows);
                    }
                },
            },
        }
        i += 1;
    }
    assert(all.take(all.len() as int) =~= all);
    Ok(rows)
}

/// What a run of the curator begins with.
pub enum CuratorPlan {
    /// Nothing to do, for this reason.
    Stop(String),
    /// Show these rows to the model.
    Ask(Vec<String>),
}

/// What a plan holds.
pub enum CuratorPlanView {
    Stop(Seq<char>),
    Ask(Seq<Seq<char>>),
}

impl View for CuratorPlan {
    type V = CuratorPlanView;

    open spec fn view(&self) -> CuratorPlanView {
        match *self {
            CuratorPlan::Stop(s) => CuratorPlanView::Stop(s@),
            CuratorPlan::Ask(rows) => CuratorPlanView::Ask(text::texts(rows@)),
        }
    }
}

/// What a result holds, an error by its message.
pub open spec fn plan_view(r: Result<CuratorPlan, String>) -> Result<CuratorPlanView, Seq<char>> {
    match r {
        Ok(p) => Ok(p@),
        Err(e) => Err(e@),
    }
}

/// What a curator that is switched off answers.
pub open spec fn refusal(cfg: CuratorConfig) -> Option<Seq<char>> {
    if cfg.enabled == Some(false) {
        Some("curator: désactivé (conf/curator.toml)"@)
    } else {
        None
    }
}

/// What a curator that is switched off answers, before anything is read.
pub fn refuse_run(cfg: &CuratorConfig) -> (r: Option<String>)
    ensures
        text::opt(r) == refusal(*cfg),
{
    match cfg.enabled {
        Some(false) => Some("curator: désactivé (conf/curator.toml)".to_string()),
        _ => None,
    }
}

/// What a run of the curator begins with.
pub open spec fn plan_of(
    cfg: CuratorConfig,
    state: CuratorStateView,
    files: Seq<DialogueView>,
) -> Result<CuratorPlanView, Seq<char>> {
    if refusal(cfg) is Some {
        Ok(CuratorPlanView::Stop(refusal(cfg)->0))
    } else {
        match window(state, files, window_size(cfg) as nat) {
            Err(e) => Err(e),
            Ok(rows) => if rows.len() == 0 {
                Ok(CuratorPlanView::Stop("curator: rien de nouveau à curer"@))
            } else {
                Ok(CuratorPlanView::Ask(rows))
            },
        }
    }
}

/// What a run of the curator begins with.
pub fn plan_run(cfg: &CuratorConfig, state: &CuratorState, files: &Vec<DialogueFile>) -> (r: Result<
    CuratorPlan,
    String,
>)
    ensures
        plan_view(r) == plan_of(*cfg, state@, dialogue_view(files@)),
{
    match refuse_run(cfg) {
        Some(message) => {
            return Ok(CuratorPlan::Stop(message));
        },
        None => {},
    }
    match collect_transcript_window(state, files, cfg.max_lines()) {
        Err(e) => Err(e),
        Ok(rows) => {
            if rows.len() == 0 {
                Ok(CuratorPlan::Stop("curator: rien de nouveau à curer".to_string()))
            } else {
                Ok(CuratorPlan::Ask(rows))
            }
        },
    }
}

// ---------------------------------------------------------------------------------------
// The question

/// The instructions to the model where no others are on file.
pub const DEFAULT_PROMPT: &'static str = "Tu es un curator mémoire. Objectif principal: produire des lignes pour la mémoire quotidienne (memory/MEMORY-YYYY-MM-DD.md).
Tu peux aussi proposer quelques lignes AGENT/USER si c'est vraiment stable et structurel.
Ne pas inclure de secrets (tokens, passwords, clés).
Réponds UNIQUEMENT en JSON strict avec ce format:
{\"memory_additions\":[\"...\"],\"agent_additions\":[\"...\"],\"user_additions\":[\"...\"]}
Contraintes: max __MAX_ADDITIONS__ lignes par tableau, lignes courtes et concrètes.";

/// The instructions to the model: the limit takes the place of its mark in the template.
pub open spec fn prompt_text(template: Option<Seq<char>>, max_additions: nat) -> Seq<char> {
    search::with_replaced(
        match template {
            Some(t) => t,
            None => DEFAULT_PROMPT@,
        },
        "__MAX_ADDITIONS__"@,
        numerals::decimal(max_additions),
    )
}

/// The instructions to the model where no others are on file.
pub fn default_curator_prompt() -> (r: String)
    ensures
        r@ == DEFAULT_PROMPT@,
{
    DEFAULT_PROMPT.to_string()
}

/// The instructions to the model.
pub fn curator_system_prompt(max_additions: usize, template: Option<String>) -> (r: String)
    ensures
        r@ == prompt_text(text::opt(template), max_additions as nat),
{
    let t = match template {
        Some(t) => t,
        None => default_curator_prompt(),
    };
    let number = numerals::write_decimal(max_additions as u64);
    proof {
        reveal_strlit("__MAX_ADDITIONS__");
    }
    search::replace(t.as_str(), "__MAX_ADDITIONS__", number.as_str())
}

/// What the model is asked: the rows, one on each line.
pub open spec fn question_text(rows: Seq<Seq<char>>) -> Seq<char> {
    "Voici les nouveaux transcripts à curer. Extrait uniquement des faits stables et utiles.\n\n"@
        + search::joined(rows, "\n"@)
}

/// The two messages that ask the model: the instructions, and the rows.
pub open spec fn question_messages(
    max_additions: nat,
    template: Option<Seq<char>>,
    rows: Seq<Seq<char>>,
) -> Seq<MessageView> {
    seq![
        session::message("system"@, prompt_text(template, max_additions)),
        session::message("user"@, question_text(rows)),
    ]
}

/// The two messages that ask the model: the instructions, and the rows.
pub fn curator_messages(max_additions: usize, template: Option<String>, rows: &Vec<String>) -> (r:
    Vec<ChatMessage>)
    ensures
        session::messages_view(r@) == seq![
            session::message(
                "system"@,
                prompt_text(text::opt(template), max_additions as nat),
            ),
            session::message(
                "user"@,
                "Voici les nouveaux transcripts à curer. Extrait uniquement des faits stables et utiles.\n\n"@
                    + search::joined(text::texts(rows@), "\n"@),
            ),
        ],
        session::messages_view(r@) == question_messages(
            max_additions as nat,
            text::opt(template),
            text::texts(rows@),
        ),
{
    let prompt = curator_system_prompt(max_additions, template);
    let all = search::join(rows, "\n");
    let mut body =
        "Voici les nouveaux transcripts à curer. Extrait uniquement des faits stables et utiles.\n\n".to_string();
    body.append(all.as_str());
    let mut v: Vec<ChatMessage> = Vec::new();
    v.push(ChatMessage::new("system", prompt.as_str()));
    v.push(ChatMessage::new("user", body.as_str()));
    assert(session::messages_view(v@) =~= seq![
        session::message("system"@, prompt@),
        session::message("user"@, body@),
    ]);
    v
}

/// The part of a reply from its first opening brace to its last closing one.
pub open spec fn braced(raw: Seq<char>) -> Option<Seq<char>> {
    let start = search::first_of(raw, '{');
    let end = search::last_of(raw, '}');
    if start < raw.len() && end >= 0 {
        Some(raw.subrange(start, end + 1))
    } else {
        None
    }
}

/// The braces of a reply, if it has both, do not stand the wrong way round with something
/// between them.
pub open spec fn braces_in_order(raw: Seq<char>) -> bool {
    search::first_of(raw, '{') < raw.len() && search::last_of(raw, '}') >= 0 ==> search::first_of(
        raw,
        '{',
    ) <= search::last_of(raw, '}') + 1
}

/// Do the braces of a reply allow a part to be cut out?
pub fn has_braces_in_order(raw: &str) -> (r: bool)
    ensures
        r == braces_in_order(raw@),
{
    let cs = text::chars_of(raw);
    let start: usize = search::find_first(&cs, '{');
    proof {
        search::lemma_first_of(raw@, '{');
        search::lemma_last_of(raw@, '}');
    }
    if start == cs.len() {
        return true;
    }
    match search::find_last(&cs, '}') {
        None => true,
        Some(end) => start == 0 || start - 1 <= end,
    }
}

/// The part of a reply that should be JSON, where the reply as a whole is not.
pub fn json_part(raw: &str) -> (r: Result<String, String>)
    requires
        braces_in_order(raw@),
    ensures
        match braced(raw@) {
            Some(part) => r is Ok && r->Ok_0@ == part,
            None => r is Err && r->Err_0@ == "curator: JSON introuvable"@,
        },
{
    let cs = text::chars_of(raw);
    let start: usize = search::find_first(&cs, '{');
    proof {
        search::lemma_first_of(raw@, '{');
        search::lemma_last_of(raw@, '}');
    }
    if start == cs.len() {
        return Err("curator: JSON introuvable".to_string());
    }
    match search::find_last(&cs, '}') {
        None => Err("curator: JSON introuvable".to_string()),
        Some(end) => {
            assert(cs.len() <= usize::MAX);
            Ok(text::string_of(&cs, start, end + 1))
        },
    }
}

// ---------------------------------------------------------------------------------------
// What is written down

/// What the model proposes for each file.
pub struct CuratorOutput {
    pub memory_additions: Vec<String>,
    pub agent_additions: Vec<String>,
    pub user_additions: Vec<String>,
}

/// A proposal as a single line without its list mark.
pub open spec fn sanitized(s: Seq<char>) -> Seq<char> {
    search::with_char_replaced(
        text::trimmed(search::trim_start_of(text::trimmed(s), '-')),
        '\n',
        " "@,
    )
}

/// A proposal as a single line without its list mark.
pub fn sanitize_line(s: &str) -> (r: String)
    ensures
        r@ == sanitized(s@),
{
    let a = text::trim(s);
    let b = search::trim_start_matches(a.as_str(), '-');
    let c = text::trim(b.as_str());
    search::replace_char(c.as_str(), '\n', " ")
}

/// A line that may be written down at all.
pub open spec fn fit(line: Seq<char>) -> bool {
    line.len() > 0 && guard::byte_len(line) <= 500 && !guard::sensitive(line)
}

/// What a file holds after some proposals, as the curator keeps track of it, and the lines that
/// it takes: those that are fit and stand in no line yet.
pub open spec fn taken(existing: Seq<char>, proposals: Seq<Seq<char>>) -> (
    Seq<char>,
    Seq<Seq<char>>,
)
    decreases proposals.len(),
{
    if proposals.len() == 0 {
        (existing, Seq::empty())
    } else {
        let (before, lines) = taken(existing, proposals.drop_last());
        let line = sanitized(proposals.last());
        if fit(line) && !search::some_line_holds(before, line) {
            (before + ("\n"@ + line), lines.push(line))
        } else {
            (before, lines)
        }
    }
}

/// The lines that are written into a file that holds `existing`, from the first `max` proposals.
pub fn apply_lines(existing: &str, proposals: &Vec<String>, max: usize) -> (r: Vec<String>)
    ensures
        text::texts(r@) == taken(
            existing@,
            ranking::front(text::texts(proposals@), max as nat),
        ).1,
{
    let ghost all = text::texts(proposals@);
    let mut known = existing.to_string();
    let mut out: Vec<String> = Vec::new();
    let mut i: usize = 0;
    assert(text::texts(out@) =~= Seq::empty());
    assert(all.take(0) =~= Seq::empty());
    while i < proposals.len() && i < max
        invariant
            i <= proposals@.len(),
            i <= max,
            all == text::texts(proposals@),
            (known@, text::texts(out@)) == taken(existing@, all.take(i as int)),
        decreases proposals@.len() - i,
    {
        let ghost before = out@;
        assert(all.take(i + 1).drop_last() =~= all.take(i as int));
        assert(all.take(i + 1).last() == proposals@[i as int]@);
        let line = sanitize_line(proposals[i].as_str());
        if !line.as_str().is_empty() && !guard::longer_than(line.as_str(), 500)
            && !guard::contains_sensitive(line.as_str()) && !search::any_line_contains(
            known.as_str(),
            line.as_str(),
        ) {
            let mut addition = "\n".to_string();
            addition.append(line.as_str());
            known.append(addition.as_str());
            out.push(line);
            assert(text::texts(out@) =~= text::texts(before).push(line@));
        }
        i += 1;
    }
    assert(ranking::front(all, max as nat) =~= all.take(i as int));
    out
}

/// The text that a line adds to a file at the time `ts`.
pub open spec fn addition_text(ts: Seq<char>, line: Seq<char>) -> Seq<char> {
    "- ["@ + ts + "] "@ + line + "\n"@
}

/// The text that a line adds to a file at the time `ts`.
pub fn addition(ts: &str, line: &str) -> (r: String)
    ensures
        r@ == addition_text(ts@, line@),
{
    let mut s = "- [".to_string();
    s.append(ts);
    s.append("] ");
    s.append(line);
    s.append("\n");
    s
}

/// The name of the memory file of a day.
pub open spec fn memory_file_name(day: Seq<char>) -> Seq<char> {
    "MEMORY-"@ + day + ".md"@
}

/// The memory file of a day.
pub fn memory_file(basedir: &str, day: &str) -> (r: String)
    ensures
        r@ == memory::under(basedir@, "memory"@, "MEMORY-"@ + day@ + ".md"@),
        r@ == memory::under(basedir@, "memory"@, memory_file_name(day@)),
{
    let mut name = "MEMORY-".to_string();
    name.append(day);
    name.append(".md");
    memory::path_under(basedir, "memory", name.as_str())
}

/// What a run of the curator ends with.
pub struct CuratorRun {
    pub memory_lines: Vec<String>,
    pub agent_lines: Vec<String>,
    pub user_lines: Vec<String>,
    /// The memory must be indexed anew.
    pub reindex: bool,
    pub message: String,
}

/// The message after a run that only counted.
pub open spec fn dry_message(m: nat, a: nat, u: nat) -> Seq<char> {
    "curator dry-run: "@ + numerals::decimal(m) + " propositions MEMORY, "@ + numerals::decimal(a)
        + " AGENT, "@ + numerals::decimal(u) + " USER"@
}

/// The message after a run that wrote lines, out of so many proposals.
pub open spec fn done_message(m: nat, a: nat, u: nat, pm: nat, pa: nat, pu: nat) -> Seq<char> {
    "curator ok: +"@ + numerals::decimal(m) + " MEMORY, +"@ + numerals::decimal(a) + " AGENT, +"@
        + numerals::decimal(u) + " USER (propositions: "@ + numerals::decimal(pm) + "/"@
        + numerals::decimal(pa) + "/"@ + numerals::decimal(pu) + ")"@
}

/// The lines that a file takes in a run.
pub open spec fn lines_taken(cfg: CuratorConfig, existing: Seq<char>, proposals: Seq<Seq<char>>) -> Seq<
    Seq<char>,
> {
    if only_counts(cfg) {
        Seq::empty()
    } else {
        taken(existing, ranking::front(proposals, additions_limit(cfg) as nat)).1
    }
}

/// The lines that a file takes in a run.
fn take_lines(cfg: &CuratorConfig, existing: &str, proposals: &Vec<String>) -> (r: Vec<String>)
    ensures
        text::texts(r@) == lines_taken(*cfg, existing@, text::texts(proposals@)),
{
    if cfg.dry_run() {
        let none: Vec<String> = Vec::new();
        assert(text::texts(none@) =~= Seq::empty());
        none
    } else {
        apply_lines(existing, proposals, cfg.max_additions())
    }
}

/// The lines that the memory, the agent's and the user's file take in a run.
pub open spec fn all_taken(
    cfg: CuratorConfig,
    output: CuratorOutput,
    memory_text: Seq<char>,
    agent_text: Seq<char>,
    user_text: Seq<char>,
) -> (Seq<Seq<char>>, Seq<Seq<char>>, Seq<Seq<char>>) {
    (
        lines_taken(cfg, memory_text, text::texts(output.memory_additions@)),
        lines_taken(cfg, agent_text, text::texts(output.agent_additions@)),
        lines_taken(cfg, user_text, text::texts(output.user_additions@)),
    )
}

/// What a run of the curator ends with, given what the model proposes and what the three files
/// hold.
pub fn finish_run(
    cfg: &CuratorConfig,
    output: &CuratorOutput,
    memory_text: &str,
    agent_text: &str,
    user_text: &str,
) -> (r: CuratorRun)
    ensures
        text::texts(r.memory_lines@) == lines_taken(
            *cfg,
            memory_text@,
            text::texts(output.memory_additions@),
        ),
        text::texts(r.agent_lines@) == lines_taken(
            *cfg,
            agent_text@,
            text::texts(output.agent_additions@),
        ),
        text::texts(r.user_lines@) == lines_taken(
            *cfg,
            user_text@,
            text::texts(output.user_additions@),
        ),
        r.reindex == (r.memory_lines@.len() > 0 || r.agent_lines@.len() > 0 || r.user_lines@.len()
            > 0),
        r.message@ == if only_counts(*cfg) {
            dry_message(
                output.memory_additions@.len(),
                output.agent_additions@.len(),
                output.user_additions@.len(),
            )
        } else {
            done_message(
                r.memory_lines@.len(),
                r.agent_lines@.len(),
                r.user_lines@.len(),
                output.memory_additions@.len(),
                output.agent_additions@.len(),
                output.user_additions@.len(),
            )
        },
        (text::texts(r.memory_lines@), text::texts(r.agent_lines@), text::texts(r.user_lines@))
            == all_taken(*cfg, *output, memory_text@, agent_text@, user_text@),
{
    let memory_lines = take_lines(cfg, memory_text, &output.memory_additions);
    let agent_lines = take_lines(cfg, agent_text, &output.agent_additions);
    let user_lines = take_lines(cfg, user_text, &output.user_additions);
    let pm = numerals::write_decimal(output.memory_additions.len() as u64);
    let pa = numerals::write_decimal(output.agent_additions.len() as u64);
    let pu = numerals::write_decimal(output.user_additions.len() as u64);
    let message = if cfg.dry_run() {
        let mut s = "curator dry-run: ".to_string();
        s.append(pm.as_str());
        s.append(" propositions MEMORY, ");
        s.append(pa.as_str());
        s.append(" AGENT, ");
        s.append(pu.as_str());
        s.append(" USER");
        s
    } else {
        let m = numerals::write_decimal(memory_lines.len() as u64);
        let a = numerals::write_decimal(agent_lines.len() as u64);
        let u = numerals::write_decimal(user_lines.len() as u64);
        let mut s = "curator ok: +".to_string();
        s.append(m.as_str());
        s.append(" MEMORY, +");
        s.append(a.as_str());
        s.append(" AGENT, +");
        s.append(u.as_str());
        s.append(" USER (propositions: ");
        s.append(pm.as_str());
        s.append("/");
        s.append(pa.as_str());
        s.append("/");
        s.append(pu.as_str());
        s.append(")");
        s
    };
    let reindex = memory_lines.len() > 0 || agent_lines.len() > 0 || user_lines.len() > 0;
    CuratorRun { memory_lines, agent_lines, user_lines, reindex, message }
}

/// The last of the transcripts with the number of its lines.
pub open spec fn cursor_of(files: Seq<(Seq<char>, nat)>) -> Option<(Seq<char>, nat)> {
    if files.len() == 0 {
        None
    } else {
        Some(files.last())
    }
}

/// The last of the transcripts with the number of its lines.
pub fn latest_cursor(files: &Vec<(String, usize)>) -> (r: Option<(String, usize)>)
    ensures
        cursor_view(r) == if files@.len() == 0 {
            None
        } else {
            Some((files@.last().0@, files@.last().1 as nat))
        },
        cursor_view(r) == cursor_of(
            Seq::new(files@.len(), |i: int| (files@[i].0@, files@[i].1 as nat)),
        ),
{
    if files.len() == 0 {
        None
    } else {
        let last = &files[files.len() - 1];
        Some((last.0.clone(), last.1))
    }
}

/// The state after a run: the cursor stands at the end of the last transcript.
pub open spec fn state_after(
    state: CuratorStateView,
    latest: Option<(Seq<char>, nat)>,
    stamp: Seq<char>,
) -> CuratorStateView {
    match latest {
        Some((file, line)) => CuratorStateView {
            last_file: Some(file),
            last_line: line,
            last_run_at: stamp,
        },
        None => CuratorStateView { last_run_at: stamp, ..state },
    }
}

/// What an optional cursor holds.
pub open spec fn cursor_view(c: Option<(String, usize)>) -> Option<(Seq<char>, nat)> {
    match c {
        Some((file, line)) => Some((file@, line as nat)),
        None => None,
    }
}

impl CuratorState {
    /// The state before the first run.
    pub fn fresh() -> (r: CuratorState)
        ensures
            r@ == (CuratorStateView {
                last_file: None,
                last_line: 0,
                last_run_at: Seq::empty(),
            }),
    {
        CuratorState { last_file: None, last_line: 0, last_run_at: String::new() }
    }

    /// Moves the cursor to the end of the last transcript.
    pub fn advance(&mut self, latest: Option<(String, usize)>, stamp: &str)
        ensures
            final(self)@ == state_after(old(self)@, cursor_view(latest), stamp@),
    {
        match latest {
            Some((file, line)) => {
                self.last_file = Some(file);
                self.last_line = line;
            },
            None => {},
        }
        self.last_run_at = stamp.to_string();
    }
}

// ---------------------------------------------------------------------------------------
// What holds of every run

/// A sanitized line holds no line feed and does not end with a carriage return.
proof fn lemma_sanitized(s: Seq<char>)
    ensures
        !sanitized(s).contains('\n'),
        sanitized(s).len() > 0 ==> sanitized(s).last() != '\r',
{
    let t = text::trimmed(search::trim_start_of(text::trimmed(s), '-'));
    reveal_strlit(" ");
    assert(" "@ =~= seq![' ']);
    search::lemma_char_replaced(t, '\n', ' ');
    if t.len() > 0 {
        text::lemma_trimmed_ends(search::trim_start_of(text::trimmed(s), '-'));
    }
}

/// Whatever the model proposes, the curator writes only lines that are not empty, hold no line
/// feed, take at most 500 bytes and name no credential, and not more than were proposed.
pub proof fn law_only_fit_lines_are_taken(existing: Seq<char>, proposals: Seq<Seq<char>>)
    ensures
        taken(existing, proposals).1.len() <= proposals.len(),
        forall|i: int|
            0 <= i < taken(existing, proposals).1.len() ==> {
                let line = #[trigger] taken(existing, proposals).1[i];
                &&& line.len() > 0
                &&& !line.contains('\n')
                &&& guard::byte_len(line) <= 500
                &&& !guard::sensitive(line)
            },
    decreases proposals.len(),
{
    if proposals.len() > 0 {
        law_only_fit_lines_are_taken(existing, proposals.drop_last());
        lemma_sanitized(proposals.last());
        let before = taken(existing, proposals.drop_last()).1;
        let all = taken(existing, proposals).1;
        assert forall|i: int| 0 <= i < all.len() implies {
            let line = #[trigger] all[i];
            &&& line.len() > 0
            &&& !line.contains('\n')
            &&& guard::byte_len(line) <= 500
            &&& !guard::sensitive(line)
        } by {
            if i < before.len() {
                assert(all[i] == before[i]);
            }
        }
    }
}

/// A run writes at most as many lines into a file as its settings allow, and none if it only
/// counts.
pub proof fn law_additions_are_limited(
    cfg: CuratorConfig,
    existing: Seq<char>,
    proposals: Seq<Seq<char>>,
)
    ensures
        lines_taken(cfg, existing, proposals).len() <= additions_limit(cfg),
        only_counts(cfg) ==> lines_taken(cfg, existing, proposals).len() == 0,
{
    law_only_fit_lines_are_taken(
        existing,
        ranking::front(proposals, additions_limit(cfg) as nat),
    );
}

/// A file after the lines have been added to it, each with its time.
pub open spec fn file_after(
    file: Seq<char>,
    lines: Seq<Seq<char>>,
    stamps: Seq<Seq<char>>,
) -> Seq<char>
    decreases lines.len(),
{
    if lines.len() == 0 {
        file
    } else {
        file_after(file, lines.drop_last(), stamps) + addition_text(
            stamps[lines.len() - 1],
            lines.last(),
        )
    }
}

proof fn lemma_holds_front(a: Seq<char>, b: Seq<char>, p: Seq<char>)
    requires
        search::holds(a, p),
    ensures
        search::holds(a + b, p),
{
    search::lemma_holds_within(Seq::empty(), a, b, p);
    assert(Seq::empty() + a + b =~= a + b);
}

proof fn lemma_addition_holds(file: Seq<char>, ts: Seq<char>, line: Seq<char>, p: Seq<char>)
    requires
        search::holds(line, p),
    ensures
        search::holds(file + addition_text(ts, line), p),
{
    let front = file + ("- ["@ + ts + "] "@);
    search::lemma_holds_within(front, line, "\n"@, p);
    assert(front + line + "\n"@ =~= file + addition_text(ts, line));
}

/// Every fit proposal stands in the file that the taken lines were added to.
proof fn lemma_all_written(
    file: Seq<char>,
    proposals: Seq<Seq<char>>,
    stamps: Seq<Seq<char>>,
    p: Seq<char>,
)
    requires
        p.len() > 0,
        !p.contains('\n'),
        p.last() != '\r',
        search::holds(taken(file, proposals).0, p),
    ensures
        search::holds(file_after(file, taken(file, proposals).1, stamps), p),
    decreases proposals.len(),
{
    if proposals.len() > 0 {
        let (before, lines) = taken(file, proposals.drop_last());
        let line = sanitized(proposals.last());
        if fit(line) && !search::some_line_holds(before, line) {
            let all = lines.push(line);
            assert(all.drop_last() =~= lines);
            reveal_strlit("\n");
            assert("\n"@ =~= seq!['\n']);
            assert(before + ("\n"@ + line) =~= before + seq!['\n'] + line);
            search::lemma_holds_split(before, line, p);
            let written = file_after(file, lines, stamps);
            if search::holds(before, p) {
                lemma_all_written(file, proposals.drop_last(), stamps, p);
                lemma_holds_front(written, addition_text(stamps[all.len() - 1], line), p);
            } else {
                lemma_addition_holds(written, stamps[all.len() - 1], line, p);
            }
        } else {
            lemma_all_written(file, proposals.drop_last(), stamps, p);
        }
    }
}

/// After the proposals, what the curator keeps track of holds each fit one.
proof fn lemma_all_known(file: Seq<char>, proposals: Seq<Seq<char>>, i: int)
    requires
        0 <= i < proposals.len(),
        fit(sanitized(proposals[i])),
    ensures
        search::holds(taken(file, proposals).0, sanitized(proposals[i])),
    decreases proposals.len(),
{
    let p = sanitized(proposals[i]);
    let before = taken(file, proposals.drop_last()).0;
    let line = sanitized(proposals.last());
    let grown = before + ("\n"@ + line);
    let after = taken(file, proposals).0;
    assert(after == if fit(line) && !search::some_line_holds(before, line) {
        grown
    } else {
        before
    });
    if i < proposals.len() - 1 {
        assert(proposals.drop_last()[i] == proposals[i]);
        lemma_all_known(file, proposals.drop_last(), i);
        lemma_holds_front(before, "\n"@ + line, p);
    } else {
        assert(p == line);
        lemma_sanitized(proposals[i]);
        search::lemma_lines_hold(before, p);
        lemma_added_stands(before, p);
    }
}

/// A line stands in a text once it has been added behind a line feed.
proof fn lemma_added_stands(before: Seq<char>, p: Seq<char>)
    ensures
        search::holds(before + ("\n"@ + p), p),
{
    let front = before + "\n"@;
    search::lemma_holds_self(p);
    search::lemma_holds_within(front, p, Seq::empty(), p);
    assert(front + p + Seq::empty() =~= before + ("\n"@ + p));
}

proof fn lemma_none_taken(file: Seq<char>, proposals: Seq<Seq<char>>)
    requires
        forall|i: int|
            0 <= i < proposals.len() && fit(sanitized(#[trigger] proposals[i]))
                ==> search::some_line_holds(file, sanitized(proposals[i])),
    ensures
        taken(file, proposals) == (file, Seq::<Seq<char>>::empty()),
    decreases proposals.len(),
{
    if proposals.len() > 0 {
        let front = proposals.drop_last();
        assert forall|i: int|
            0 <= i < front.len() && fit(
                sanitized(#[trigger] front[i]),
            ) implies search::some_line_holds(file, sanitized(front[i])) by {
            assert(front[i] == proposals[i]);
        }
        lemma_none_taken(file, front);
        assert(proposals.last() == proposals[proposals.len() - 1]);
    }
}

/// The same proposals are not written twice: once the lines that a file takes have been added to
/// it, with whatever times, it takes none of the same proposals.
pub proof fn law_same_proposals_are_taken_once(
    file: Seq<char>,
    proposals: Seq<Seq<char>>,
    stamps: Seq<Seq<char>>,
)
    ensures
        taken(file_after(file, taken(file, proposals).1, stamps), proposals).1 == Seq::<
            Seq<char>,
        >::empty(),
{
    let written = file_after(file, taken(file, proposals).1, stamps);
    assert forall|i: int|
        0 <= i < proposals.len() && fit(
            sanitized(#[trigger] proposals[i]),
        ) implies search::some_line_holds(written, sanitized(proposals[i])) by {
        let p = sanitized(proposals[i]);
        lemma_sanitized(proposals[i]);
        lemma_all_known(file, proposals, i);
        lemma_all_written(file, proposals, stamps, p);
        search::lemma_lines_hold(written, p);
    }
    lemma_none_taken(written, proposals);
}

/// The names of the transcripts stand in strictly ascending order, and all can be read.
pub open spec fn readable_in_order(files: Seq<DialogueView>) -> bool {
    &&& forall|i: int| 0 <= i < files.len() ==> (#[trigger] files[i]).lines is Ok
    &&& forall|i: int, j: int|
        0 <= i < j < files.len() ==> order::precedes(
            (#[trigger] files[i]).name,
            (#[trigger] files[j]).name,
        )
}

proof fn lemma_no_new_rows(
    file: Seq<char>,
    lines: Seq<Option<(Seq<char>, Seq<char>)>>,
    done: nat,
)
    requires
        lines.len() <= done,
    ensures
        new_rows(file, lines, done) == Seq::<Seq<char>>::empty(),
    decreases lines.len(),
{
    if lines.len() > 0 {
        lemma_no_new_rows(file, lines.drop_last(), done);
    }
}

proof fn lemma_window_empty(state: CuratorStateView, files: Seq<DialogueView>, max_lines: nat)
    requires
        max_lines >= 1,
        forall|i: int|
            0 <= i < files.len() ==> match indexer::behind_cursor(
                state.last_file,
                state.last_line,
                (#[trigger] files[i]).name,
            ) {
                None => true,
                Some(done) => files[i].lines is Ok && files[i].lines->Ok_0.len() <= done,
            },
    ensures
        window(state, files, max_lines) == no_rows(),
    decreases files.len(),
{
    if files.len() > 0 {
        let front = files.drop_last();
        assert forall|i: int| 0 <= i < front.len() implies match indexer::behind_cursor(
            state.last_file,
            state.last_line,
            (#[trigger] front[i]).name,
        ) {
            None => true,
            Some(done) => front[i].lines is Ok && front[i].lines->Ok_0.len() <= done,
        } by {
            assert(front[i] == files[i]);
        }
        lemma_window_empty(state, front, max_lines);
        let file = files.last();
        assert(file == files[files.len() - 1]);
        if indexer::behind_cursor(state.last_file, state.last_line, file.name) is Some {
            let done = indexer::behind_cursor(state.last_file, state.last_line, file.name)->0;
            lemma_no_new_rows(file.name, file.lines->Ok_0, done);
            assert(ranking::front(
                Seq::<Seq<char>>::empty() + new_rows(file.name, file.lines->Ok_0, done),
                max_lines,
            ) =~= Seq::<Seq<char>>::empty());
        }
    }
}

/// A window without rows.
pub open spec fn no_rows() -> Result<Seq<Seq<char>>, Seq<char>> {
    Ok(Seq::empty())
}

/// After a run, the same transcripts hold nothing new for the curator.
pub proof fn law_nothing_new_after_a_run(
    state: CuratorStateView,
    files: Seq<DialogueView>,
    stamp: Seq<char>,
    max_lines: nat,
)
    requires
        files.len() > 0,
        readable_in_order(files),
        max_lines >= 1,
    ensures
        window(
            state_after(
                state,
                Some((files.last().name, files.last().lines->Ok_0.len())),
                stamp,
            ),
            files,
            max_lines,
        ) == no_rows(),
{
    let after = state_after(
        state,
        Some((files.last().name, files.last().lines->Ok_0.len())),
        stamp,
    );
    assert forall|i: int| 0 <= i < files.len() implies match indexer::behind_cursor(
        after.last_file,
        after.last_line,
        (#[trigger] files[i]).name,
    ) {
        None => true,
        Some(done) => files[i].lines is Ok && files[i].lines->Ok_0.len() <= done,
    } by {
        if i < files.len() - 1 {
            assert(order::precedes(files[i].name, files[files.len() - 1].name));
            order::lemma_precedes_asymmetric(files[i].name, files.last().name);
        }
    }
    lemma_window_empty(after, files, max_lines);
}

} // verus!
