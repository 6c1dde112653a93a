//! The tools that the model may call, and the actions that it asks for.

use vstd::prelude::*;

use crate::cron_tool::CronRequest;
use crate::http_request::HttpCall;
use crate::json::{Json, JsonView};
use crate::notes::AppendRequest;
use crate::{cron_tool, http_request, json, layout, notes, search, text};

verus! {

// ---------------------------------------------------------------------------------------
// What the model asks for

/// One action that the model asks for.
pub enum ModelAction {
    ToolCall { name: String, args: Json },
    FinalAnswer(String),
}

/// What an action holds.
pub enum ActionView {
    ToolCall { name: Seq<char>, args: JsonView },
    FinalAnswer(Seq<char>),
}

impl View for ModelAction {
    type V = ActionView;

    open spec fn view(&self) -> ActionView {
        match *self {
            ModelAction::ToolCall { name, args } => ActionView::ToolCall {
                name: name@,
                args: args@,
            },
            ModelAction::FinalAnswer(answer) => ActionView::FinalAnswer(answer@),
        }
    }
}

/// What a result holds, an error by its message.
pub open spec fn action_view(r: Result<ModelAction, String>) -> Result<ActionView, Seq<char>> {
    match r {
        Ok(action) => Ok(action@),
        Err(e) => Err(e@),
    }
}

/// The action that a JSON document asks for, or why it asks for none.
pub open spec fn action_of_document(v: JsonView) -> Result<ActionView, Seq<char>> {
    match v.text_at("type"@) {
        None => Err("champ 'type' manquant"@),
        Some(kind) => if kind == "tool_call"@ {
            match v.text_at("name"@) {
                None => Err("champ 'name' manquant pour tool_call"@),
                Some(name) => Ok(
                    ActionView::ToolCall {
                        name,
                        args: match v.get("args"@) {
                            Some(args) => args,
                            None => JsonView::Object(Seq::empty()),
                        },
                    },
                ),
            }
        } else if kind == "final_answer"@ {
            match v.text_at("answer"@) {
                None => Err("champ 'answer' manquant pour final_answer"@),
                Some(answer) => Ok(ActionView::FinalAnswer(answer)),
            }
        } else {
            Err("type inconnu '"@ + kind + "' (attendu: tool_call ou final_answer)"@)
        },
    }
}

/// The action that a reply of the model asks for: text that does not open a JSON object is a
/// final answer as it stands.
pub open spec fn action_of(raw: Seq<char>) -> Result<ActionView, Seq<char>> {
    let t = text::trimmed(raw);
    if t.len() == 0 || t[0] != '{' {
        Ok(ActionView::FinalAnswer(t))
    } else {
        match json::json_document(t) {
            Err(e) => Err("JSON invalide: "@ + e),
            Ok(v) => action_of_document(v),
        }
    }
}

/// Reads the action that a JSON document asks for.
pub fn read_action(v: &Json) -> (r: Result<ModelAction, String>)
    ensures
        action_view(r) == action_of_document(v@),
{
    let kind = match v.text_at("type") {
        None => {
            return Err("champ 'type' manquant".to_string());
        },
        Some(kind) => kind,
    };
    if text::same(kind.as_str(), "tool_call") {
        match v.text_at("name") {
            None => Err("champ 'name' manquant pour tool_call".to_string()),
            Some(name) => {
                let args = match v.get("args") {
                    Some(args) => args.copy(),
                    None => {
                        let none = Json::Object(Vec::new());
                        assert(none@->Object_0 =~= Seq::empty());
                        none
                    },
                };
                Ok(ModelAction::ToolCall { name, args })
            },
        }
    } else if text::same(kind.as_str(), "final_answer") {
        match v.text_at("answer") {
            None => Err("champ 'answer' manquant pour final_answer".to_string()),
            Some(answer) => Ok(ModelAction::FinalAnswer(answer)),
        }
    } else {
        let mut e = "type inconnu '".to_string();
        e.append(kind.as_str());
        e.append("' (attendu: tool_call ou final_answer)");
        Err(e)
    }
}

/// Reads the action that a reply of the model asks for.
pub fn parse_model_action(raw: &str) -> (r: Result<ModelAction, String>)
    ensures
        action_view(r) == action_of(raw@),
{
    let trimmed = text::trim(raw);
    let cs = text::chars_of(trimmed.as_str());
    if cs.len() == 0 || cs[0] != '{' {
        return Ok(ModelAction::FinalAnswer(trimmed));
    }
    match json::parse_json(trimmed.as_str()) {
        Err(message) => {
            let mut e = "JSON invalide: ".to_string();
            e.append(message.as_str());
            Err(e)
        },
        Ok(v) => read_action(&v),
    }
}

/// The JSON document that asks for an action.
pub open spec fn action_document(action: ActionView) -> JsonView {
    match action {
        ActionView::FinalAnswer(answer) => JsonView::Object(
            seq![("answer"@, JsonView::Text(answer)), ("type"@, JsonView::Text("final_answer"@))],
        ),
        ActionView::ToolCall { name, args } => JsonView::Object(
            seq![
                ("args"@, args),
                ("name"@, JsonView::Text(name)),
                ("type"@, JsonView::Text("tool_call"@)),
            ],
        ),
    }
}

/// The JSON document that asks for a tool and gives no arguments.
pub open spec fn bare_call_document(name: Seq<char>) -> JsonView {
    JsonView::Object(
        seq![("name"@, JsonView::Text(name)), ("type"@, JsonView::Text("tool_call"@))],
    )
}

/// The arguments of an action are not too deep, and their keys and numbers are such that they are
/// read as they were written.
pub open spec fn modest_action(action: ActionView) -> bool {
    action matches ActionView::ToolCall { args, .. } ==> json::modest(
        args,
        (json::DEPTH - 1) as nat,
    )
}

proof fn lemma_action_keys()
    ensures
        json::ordinary("answer"@) && json::ordinary("args"@) && json::ordinary("name"@)
            && json::ordinary("type"@),
        "answer"@ != "type"@ && "args"@ != "name"@ && "args"@ != "type"@ && "name"@ != "type"@,
        "name"@ != "args"@ && "tool_call"@ != "final_answer"@,
{
    reveal_strlit("answer");
    reveal_strlit("args");
    reveal_strlit("name");
    reveal_strlit("type");
    reveal_strlit("tool_call");
    reveal_strlit("final_answer");
    json::lemma_ordinary("answer"@);
    json::lemma_ordinary("args"@);
    json::lemma_ordinary("name"@);
    json::lemma_ordinary("type"@);
    assert("answer"@.len() == 6 && "type"@.len() == 4);
    assert("args"@[0] == 'a' && "name"@[0] == 'n' && "type"@[0] == 't');
    assert("tool_call"@.len() == 9 && "final_answer"@.len() == 12);
}

proof fn lemma_document_of_action(action: ActionView)
    ensures
        action_of_document(action_document(action)) == Ok::<ActionView, Seq<char>>(action),
        modest_action(action) ==> json::modest(action_document(action), json::DEPTH as nat),
{
    lemma_action_keys();
    let document = action_document(action);
    let members = document->Object_0;
    reveal_with_fuel(json::first_member, 4);
    reveal_with_fuel(json::modest, 2);
    match action {
        ActionView::FinalAnswer(answer) => {
            assert(members.drop_first()[0] == members[1]);
            assert(document.get("type"@) == Some(members[1].1));
            assert(document.get("answer"@) == Some(members[0].1));
        },
        ActionView::ToolCall { name, args } => {
            let rest = members.drop_first();
            assert(rest[0] == members[1] && rest.drop_first()[0] == members[2]);
            assert(document.get("type"@) == Some(members[2].1));
            assert(document.get("name"@) == Some(members[1].1));
            assert(document.get("args"@) == Some(members[0].1));
        },
    }
}

/// An action that is written as compact JSON is read back, whatever white space stands around it.
pub proof fn law_written_action_is_read_back(
    action: ActionView,
    written: Seq<char>,
    before: Seq<char>,
    after: Seq<char>,
)
    requires
        modest_action(action),
        json::reads_back(action_document(action), written),
        layout::all_white(before),
        layout::all_white(after),
    ensures
        action_of(before + written + after) == Ok::<ActionView, Seq<char>>(action),
{
    lemma_document_of_action(action);
    assert(!text::white('{') && !text::white('}'));
    layout::law_trimming_takes_the_white_space_around(before, written, after);
}

/// A tool call that is written without arguments is read as one with the empty object.
pub proof fn law_bare_call_is_read_with_no_arguments(
    name: Seq<char>,
    written: Seq<char>,
    before: Seq<char>,
    after: Seq<char>,
)
    requires
        json::reads_back(bare_call_document(name), written),
        layout::all_white(before),
        layout::all_white(after),
    ensures
        action_of(before + written + after) == Ok::<ActionView, Seq<char>>(
            ActionView::ToolCall { name, args: JsonView::Object(Seq::empty()) },
        ),
{
    lemma_action_keys();
    assert(!text::white('{') && !text::white('}'));
    layout::law_trimming_takes_the_white_space_around(before, written, after);
    let document = bare_call_document(name);
    let members = document->Object_0;
    reveal_with_fuel(json::first_member, 3);
    reveal_with_fuel(json::modest, 2);
    let rest = members.drop_first();
    assert(rest[0] == members[1]);
    assert(document.get("type"@) == Some(members[1].1));
    assert(document.get("name"@) == Some(members[0].1));
    assert(document.get("args"@) is None);
}

/// Escapes backslashes, quotes and line feeds for the inside of a JSON string.
pub fn escape_for_json_string(input: &str) -> (r: String)
    ensures
        r@ == json::escaped(input@),
{
    let cs = text::chars_of(input);
    let mut out = String::new();
    let mut i: usize = 0;
    while i < cs.len()
        invariant
            i <= cs@.len(),
            out@ == json::escaped(cs@.take(i as int)),
        decreases cs@.len() - i,
    {
        let ghost before = out@;
        let c = cs[i];
        assert(cs@.take(i + 1).drop_last() =~= cs@.take(i as int));
        if c == '\\' {
            out.push('\\');
            out.push('\\');
        } else if c == '"' {
            out.push('\\');
            out.push('"');
        } else if c == '\n' {
            out.push('\\');
            out.push('n');
        } else {
            out.push(c);
        }
        assert(out@ =~= before + json::escaped_char(c));
        i += 1;
    }
    assert(cs@.take(cs@.len() as int) =~= cs@);
    out
}

// ---------------------------------------------------------------------------------------
// Descriptions of the tools

/// What the model is told of a tool.
pub struct ToolSpec {
    pub name: String,
    pub description: String,
    pub args_schema: Json,
}

/// What a description holds.
pub struct ToolSpecView {
    pub name: Seq<char>,
    pub description: Seq<char>,
    pub args_schema: JsonView,
}

impl View for ToolSpec {
    type V = ToolSpecView;

    open spec fn view(&self) -> ToolSpecView {
        ToolSpecView {
            name: self.name@,
            description: self.description@,
            args_schema: self.args_schema@,
        }
    }
}

/// The schema of an object that takes the given properties and no others.
pub open spec fn object_schema(
    properties: Seq<(Seq<char>, JsonView)>,
    required: Seq<Seq<char>>,
) -> JsonView {
    if required.len() == 0 {
        JsonView::Object(
            seq![
                ("additionalProperties"@, JsonView::Bool(false)),
                ("properties"@, JsonView::Object(properties)),
                ("type"@, JsonView::Text("object"@)),
            ],
        )
    } else {
        JsonView::Object(
            seq![
                ("additionalProperties"@, JsonView::Bool(false)),
                ("properties"@, JsonView::Object(properties)),
                (
                    "required"@,
                    JsonView::Array(Seq::new(required.len(), |i: int| JsonView::Text(required[i]))),
                ),
                ("type"@, JsonView::Text("object"@)),
            ],
        )
    }
}

/// The schema of an object that takes the given properties and no others.
pub fn schema_of_object(properties: Vec<(String, Json)>, required: Vec<String>) -> (r: Json)
    ensures
        r@ == object_schema(json::members_view(properties@), text::texts(required@)),
{
    let ghost names = text::texts(required@);
    let mut members: Vec<(String, Json)> = Vec::new();
    members.push(("additionalProperties".to_string(), Json::Bool(false)));
    members.push(("properties".to_string(), json::object(properties)));
    if required.len() > 0 {
        let list = json::text_array(required);
        assert(list@->Array_0 =~= Seq::new(names.len(), |i: int| JsonView::Text(names[i])));
        members.push(("required".to_string(), list));
    }
    members.push(("type".to_string(), json::text("object")));
    let r = json::object(members);
    assert(r@->Object_0 =~= object_schema(json::members_view(properties@), names)->Object_0);
    r
}

/// The schema of a property with a type and a description.
pub open spec fn described(kind: Seq<char>, description: Seq<char>) -> JsonView {
    JsonView::Object(
        seq![("description"@, JsonView::Text(description)), ("type"@, JsonView::Text(kind))],
    )
}

/// The schema of a property with a type and a description.
pub fn schema_described(kind: &str, description: &str) -> (r: Json)
    ensures
        r@ == described(kind@, description@),
{
    let mut members: Vec<(String, Json)> = Vec::new();
    members.push(("description".to_string(), json::text(description)));
    members.push(("type".to_string(), json::text(kind)));
    let r = json::object(members);
    assert(r@->Object_0 =~= described(kind@, description@)->Object_0);
    r
}

/// The schema of an integer property with bounds and a description.
pub open spec fn bounded(description: Seq<char>, minimum: u64, maximum: u64) -> JsonView {
    JsonView::Object(
        seq![
            ("description"@, JsonView::Text(description)),
            ("maximum"@, json::number_view(maximum)),
            ("minimum"@, json::number_view(minimum)),
            ("type"@, JsonView::Text("integer"@)),
        ],
    )
}

/// The schema of an integer property with bounds and a description.
pub fn schema_bounded(description: &str, minimum: u64, maximum: u64) -> (r: Json)
    ensures
        r@ == bounded(description@, minimum, maximum),
{
    let mut members: Vec<(String, Json)> = Vec::new();
    members.push(("description".to_string(), json::text(description)));
    members.push(("maximum".to_string(), json::number(maximum)));
    members.push(("minimum".to_string(), json::number(minimum)));
    members.push(("type".to_string(), json::text("integer")));
    let r = json::object(members);
    assert(r@->Object_0 =~= bounded(description@, minimum, maximum)->Object_0);
    r
}

/// The schema of an integer property with bounds.
pub open spec fn between(minimum: u64, maximum: u64) -> JsonView {
    JsonView::Object(
        seq![
            ("maximum"@, json::number_view(maximum)),
            ("minimum"@, json::number_view(minimum)),
            ("type"@, JsonView::Text("integer"@)),
        ],
    )
}

/// The schema of an integer property with bounds.
pub fn schema_between(minimum: u64, maximum: u64) -> (r: Json)
    ensures
        r@ == between(minimum, maximum),
{
    let mut members: Vec<(String, Json)> = Vec::new();
    members.push(("maximum".to_string(), json::number(maximum)));
    members.push(("minimum".to_string(), json::number(minimum)));
    members.push(("type".to_string(), json::text("integer")));
    let r = json::object(members);
    assert(r@->Object_0 =~= between(minimum, maximum)->Object_0);
    r
}

/// The schema of a property of any type.
pub open spec fn any_value(description: Seq<char>) -> JsonView {
    JsonView::Object(seq![("description"@, JsonView::Text(description))])
}

/// The schema of a property of any type.
pub fn schema_any_value(description: &str) -> (r: Json)
    ensures
        r@ == any_value(description@),
{
    let mut members: Vec<(String, Json)> = Vec::new();
    members.push(("description".to_string(), json::text(description)));
    let r = json::object(members);
    assert(r@->Object_0 =~= any_value(description@)->Object_0);
    r
}

/// The schema of a text property that takes one of two values.
pub open spec fn either_text(a: Seq<char>, b: Seq<char>) -> JsonView {
    JsonView::Object(
        seq![
            ("enum"@, JsonView::Array(seq![JsonView::Text(a), JsonView::Text(b)])),
            ("type"@, JsonView::Text("string"@)),
        ],
    )
}

/// The schema of a text property that takes one of two values.
pub fn schema_either_text(a: &str, b: &str) -> (r: Json)
    ensures
        r@ == either_text(a@, b@),
{
    let mut values: Vec<String> = Vec::new();
    values.push(a.to_string());
    values.push(b.to_string());
    let list = json::text_array(values);
    assert(list@->Array_0 =~= seq![JsonView::Text(a@), JsonView::Text(b@)]);
    let mut members: Vec<(String, Json)> = Vec::new();
    members.push(("enum".to_string(), list));
    members.push(("type".to_string(), json::text("string")));
    let r = json::object(members);
    assert(r@->Object_0 =~= either_text(a@, b@)->Object_0);
    r
}

// ---------------------------------------------------------------------------------------
// The tools

/// Tells the time.
pub struct TimeTool;

/// Repeats a text.
pub struct EchoTool;

/// Sends an HTTP request.
pub struct HttpRequestTool;

/// Appends a note to `AGENT.md` or `USER.md`.
pub struct InfoAppendTool {
    pub basedir: String,
}

impl InfoAppendTool {
    /// The tool for the notes under `basedir`.
    pub fn new(basedir: String) -> (r: InfoAppendTool)
        ensures
            r.basedir@ == basedir@,
    {
        InfoAppendTool { basedir }
    }
}

/// Searches the memory.
pub struct MemorySearchTool {
    pub basedir: String,
}

impl MemorySearchTool {
    /// The tool for the memory under `basedir`.
    pub fn new(basedir: String) -> (r: MemorySearchTool)
        ensures
            r.basedir@ == basedir@,
    {
        MemorySearchTool { basedir }
    }
}

/// Reads one memory entry.
pub struct MemoryGetTool {
    pub basedir: String,
}

impl MemoryGetTool {
    /// The tool for the memory under `basedir`.
    pub fn new(basedir: String) -> (r: MemoryGetTool)
        ensures
            r.basedir@ == basedir@,
    {
        MemoryGetTool { basedir }
    }
}

/// Adds, lists and starts scheduled jobs.
pub struct CronManageTool;

/// A tool that is described by hand and whose calls are carried out elsewhere.
pub struct CustomTool {
    pub shown: ToolSpec,
}

/// A tool.
pub enum Tool {
    Time(TimeTool),
    Echo(EchoTool),
    HttpRequest(HttpRequestTool),
    InfoAppend(InfoAppendTool),
    MemorySearch(MemorySearchTool),
    MemoryGet(MemoryGetTool),
    CronManage(CronManageTool),
    Custom(CustomTool),
}

/// What a tool is: its sort, with its base directory or its description where it has one.
pub enum ToolView {
    Time,
    Echo,
    HttpRequest,
    InfoAppend(Seq<char>),
    MemorySearch(Seq<char>),
    MemoryGet(Seq<char>),
    CronManage,
    Custom(ToolSpecView),
}

impl View for Tool {
    type V = ToolView;

    open spec fn view(&self) -> ToolView {
        match *self {
            Tool::Time(_) => ToolView::Time,
            Tool::Echo(_) => ToolView::Echo,
            Tool::HttpRequest(_) => ToolView::HttpRequest,
            Tool::InfoAppend(t) => ToolView::InfoAppend(t.basedir@),
            Tool::MemorySearch(t) => ToolView::MemorySearch(t.basedir@),
            Tool::MemoryGet(t) => ToolView::MemoryGet(t.basedir@),
            Tool::CronManage(_) => ToolView::CronManage,
            Tool::Custom(t) => ToolView::Custom(t.shown@),
        }
    }
}

/// A search in the memory that a tool asks for.
pub struct SearchRequest {
    pub basedir: String,
    pub query: String,
    pub limit: usize,
    pub archive: bool,
}

/// What a tool call comes to: a reply, or outside work that gives one.
pub enum ToolPlan {
    /// The reply itself.
    Reply(String),
    /// Reply with the current time.
    Now,
    /// Send a request, then report on the outcome.
    Http(HttpCall),
    /// Append a note, then reply.
    Append(AppendRequest),
    /// Search the memory, then lay out what was found.
    Search(SearchRequest),
    /// Read a memory entry, then reply.
    Get { basedir: String, id: String },
    /// Work on the scheduled jobs, then reply.
    Cron(CronRequest),
    /// Hand the call to whoever carries out the tool of that name.
    Custom { name: String, args: Json },
}

/// What a plan holds.
pub enum PlanView {
    Reply(Seq<char>),
    Now,
    Http(http_request::CallView),
    Append(notes::AppendView),
    Search { basedir: Seq<char>, query: Seq<char>, limit: usize, archive: bool },
    Get { basedir: Seq<char>, id: Seq<char> },
    Cron(cron_tool::CronRequestView),
    Custom { name: Seq<char>, args: JsonView },
}

impl View for ToolPlan {
    type V = PlanView;

    open spec fn view(&self) -> PlanView {
        match *self {
            ToolPlan::Reply(s) => PlanView::Reply(s@),
            ToolPlan::Now => PlanView::Now,
            ToolPlan::Http(call) => PlanView::Http(call@),
            ToolPlan::Append(request) => PlanView::Append(request@),
            ToolPlan::Search(request) => PlanView::Search {
                basedir: request.basedir@,
                query: request.query@,
                limit: request.limit,
                archive: request.archive,
            },
            ToolPlan::Get { basedir, id } => PlanView::Get { basedir: basedir@, id: id@ },
            ToolPlan::Cron(request) => PlanView::Cron(request@),
            ToolPlan::Custom { name, args } => PlanView::Custom { name: name@, args: args@ },
        }
    }
}

/// The name by which the model calls a tool.
pub open spec fn tool_name(t: ToolView) -> Seq<char> {
    match t {
        ToolView::Time => "time"@,
        ToolView::Echo => "echo"@,
        ToolView::HttpRequest => "http_request"@,
        ToolView::InfoAppend(_) => "info_append"@,
        ToolView::MemorySearch(_) => "memory_search"@,
        ToolView::MemoryGet(_) => "memory_get"@,
        ToolView::CronManage => "cron_manage"@,
        ToolView::Custom(shown) => shown.name,
    }
}

/// What the model is told of a tool's use.
pub open spec fn tool_description(t: ToolView) -> Seq<char> {
    match t {
        ToolView::Time => "Retourne l'heure courante en UTC (RFC3339)"@,
        ToolView::Echo => "Répète exactement le texte fourni"@,
        ToolView::HttpRequest => "Exécute une requête HTTP (GET/POST/PUT/PATCH/DELETE...) avec timeout, headers et payload JSON/texte."@,
        ToolView::InfoAppend(
            _,
        ) => "Ajoute une note append-only dans AGENT.md ou USER.md. SOUL.md est interdit."@,
        ToolView::MemorySearch(
            _,
        ) => "Cherche des souvenirs pertinents dans les index mémoire construits depuis les transcripts"@,
        ToolView::MemoryGet(
            _,
        ) => "Lit un souvenir précis à partir de son identifiant renvoyé par memory_search"@,
        ToolView::CronManage => "Gère les jobs cron internes: add_notify, add_agent_turn, list, runs, run"@,
        ToolView::Custom(shown) => shown.description,
    }
}

/// The properties that the arguments of an HTTP request take.
pub open spec fn http_properties() -> Seq<(Seq<char>, JsonView)> {
    seq![
        ("body"@, described("string"@, "Corps texte brut (si json absent)"@)),
        ("headers"@, described("object"@, "Headers HTTP (clé -> valeur string)"@)),
        ("json"@, any_value("Corps JSON à envoyer"@)),
        ("max_chars"@, bounded("Troncature du body de réponse"@, 200, 20000)),
        ("method"@, described("string"@, "Méthode HTTP (GET par défaut)"@)),
        (
            "query"@,
            described("object"@, "Paramètres query string (clé -> string/number/bool)"@),
        ),
        ("timeout_ms"@, bounded("Timeout réseau"@, 100, 120000)),
        ("url"@, described("string"@, "URL absolue http(s)"@)),
    ]
}

/// The properties that the arguments of a memory search take.
pub open spec fn search_properties() -> Seq<(Seq<char>, JsonView)> {
    seq![
        (
            "archive"@,
            described(
                "boolean"@,
                "Inclut les transcripts anciens (archive), false par défaut"@,
            ),
        ),
        ("limit"@, between(1, 10)),
        ("query"@, described("string"@, "Question ou mots-clés"@)),
    ]
}

/// The properties that the arguments of the cron tool take.
pub open spec fn cron_properties() -> Seq<(Seq<char>, JsonView)> {
    seq![
        (
            "action"@,
            described("string"@, "add_notify, add_agent_turn, list, runs ou run"@),
        ),
        ("job_id"@, described("string"@, "Identifiant du job (runs, run)"@)),
        ("message"@, described("string"@, "Texte du job (add_notify, add_agent_turn)"@)),
    ]
}

/// The schema of a tool's arguments.
pub open spec fn tool_schema(t: ToolView) -> JsonView {
    match t {
        ToolView::Time => object_schema(Seq::empty(), Seq::empty()),
        ToolView::Echo => object_schema(
            seq![("text"@, described("string"@, "Texte à répéter"@))],
            seq!["text"@],
        ),
        ToolView::HttpRequest => object_schema(http_properties(), seq!["url"@]),
        ToolView::InfoAppend(_) => object_schema(
            seq![
                ("target"@, either_text("agent"@, "user"@)),
                ("text"@, described("string"@, "Information stable et utile à retenir"@)),
            ],
            seq!["target"@, "text"@],
        ),
        ToolView::MemorySearch(_) => object_schema(search_properties(), seq!["query"@]),
        ToolView::MemoryGet(_) => object_schema(
            seq![
                (
                    "id"@,
                    described(
                        "string"@,
                        "Identifiant d'entrée renvoyé par memory_search (ex: mem-42-7ab3...)"@,
                    ),
                ),
            ],
            seq!["id"@],
        ),
        ToolView::CronManage => object_schema(cron_properties(), seq!["action"@]),
        ToolView::Custom(shown) => shown.args_schema,
    }
}

/// The description of a tool.
pub open spec fn tool_spec(t: ToolView) -> ToolSpecView {
    ToolSpecView {
        name: tool_name(t),
        description: tool_description(t),
        args_schema: tool_schema(t),
    }
}

/// What a call of a tool comes to.
pub open spec fn plan_of(t: ToolView, args: JsonView) -> PlanView {
    match t {
        ToolView::Time => PlanView::Now,
        ToolView::Echo => PlanView::Reply(
            match args.text_at("text"@) {
                Some(s) => s,
                None => "(echo sans texte)"@,
            },
        ),
        ToolView::HttpRequest => match http_request::request_of(args) {
            Ok(call) => PlanView::Http(call),
            Err(e) => PlanView::Reply(e),
        },
        ToolView::InfoAppend(basedir) => match notes::append_of(basedir, args) {
            Ok(request) => PlanView::Append(request),
            Err(e) => PlanView::Reply(e),
        },
        ToolView::MemorySearch(basedir) => {
            let query = notes::text_or_empty(args, "query"@);
            if text::trimmed(query).len() == 0 {
                PlanView::Reply("query vide"@)
            } else {
                PlanView::Search {
                    basedir,
                    query,
                    limit: match args.unsigned_at("limit"@) {
                        Some(n) => n as usize,
                        None => 5,
                    },
                    archive: match args.bool_at("archive"@) {
                        Some(b) => b,
                        None => false,
                    },
                }
            }
        },
        ToolView::MemoryGet(basedir) => {
            let id = notes::text_or_empty(args, "id"@);
            if text::trimmed(id).len() == 0 {
                PlanView::Reply("id manquant"@)
            } else {
                PlanView::Get { basedir, id }
            }
        },
        ToolView::CronManage => match cron_tool::request_of(args) {
            Ok(request) => PlanView::Cron(request),
            Err(e) => PlanView::Reply(e),
        },
        ToolView::Custom(shown) => PlanView::Custom { name: shown.name, args },
    }
}

/// The description of the HTTP request tool's arguments.
fn http_schema() -> (r: Json)
    ensures
        r@ == tool_schema(ToolView::HttpRequest),
{
    let mut p: Vec<(String, Json)> = Vec::new();
    p.push(
        ("body".to_string(), schema_described("string", "Corps texte brut (si json absent)")),
    );
    p.push(
        ("headers".to_string(), schema_described("object", "Headers HTTP (clé -> valeur string)")),
    );
    p.push(("json".to_string(), schema_any_value("Corps JSON à envoyer")));
    p.push(("max_chars".to_string(), schema_bounded("Troncature du body de réponse", 200, 20000)));
    p.push(("method".to_string(), schema_described("string", "Méthode HTTP (GET par défaut)")));
    p.push(
        (
            "query".to_string(),
            schema_described("object", "Paramètres query string (clé -> string/number/bool)"),
        ),
    );
    p.push(("timeout_ms".to_string(), schema_bounded("Timeout réseau", 100, 120000)));
    p.push(("url".to_string(), schema_described("string", "URL absolue http(s)")));
    assert(json::members_view(p@) =~= http_properties());
    let mut required: Vec<String> = Vec::new();
    required.push("url".to_string());
    assert(text::texts(required@) =~= seq!["url"@]);
    schema_of_object(p, required)
}

impl Tool {
    /// What the model is told of the tool.
    pub fn describe(&self) -> (r: ToolSpec)
        ensures
            r@ == tool_spec(self@),
    {
        let mut p: Vec<(String, Json)> = Vec::new();
        let mut required: Vec<String> = Vec::new();
        match self {
            Tool::Time(_) => {
                assert(json::members_view(p@) =~= Seq::empty());
                assert(text::texts(required@) =~= Seq::empty());
                ToolSpec {
                    name: "time".to_string(),
                    description: "Retourne l'heure courante en UTC (RFC3339)".to_string(),
                    args_schema: schema_of_object(p, required),
                }
            },
            Tool::Echo(_) => {
                p.push(("text".to_string(), schema_described("string", "Texte à répéter")));
                required.push("text".to_string());
                assert(json::members_view(p@) =~= seq![
                    ("text"@, described("string"@, "Texte à répéter"@)),
                ]);
                assert(text::texts(required@) =~= seq!["text"@]);
                ToolSpec {
                    name: "echo".to_string(),
                    description: "Répète exactement le texte fourni".to_string(),
                    args_schema: schema_of_object(p, required),
                }
            },
            Tool::HttpRequest(_) => ToolSpec {
                name: "http_request".to_string(),
                description:
                    "Exécute une requête HTTP (GET/POST/PUT/PATCH/DELETE...) avec timeout, headers et payload JSON/texte.".to_string(),
                args_schema: http_schema(),
            },
            Tool::InfoAppend(_) => {
                p.push(("target".to_string(), schema_either_text("agent", "user")));
                p.push(
                    (
                        "text".to_string(),
                        schema_described("string", "Information stable et utile à retenir"),
                    ),
                );
                required.push("target".to_string());
                required.push("text".to_string());
                assert(json::members_view(p@) =~= seq![
                    ("target"@, either_text("agent"@, "user"@)),
                    ("text"@, described("string"@, "Information stable et utile à retenir"@)),
                ]);
                assert(text::texts(required@) =~= seq!["target"@, "text"@]);
                ToolSpec {
                    name: "info_append".to_string(),
                    description:
                        "Ajoute une note append-only dans AGENT.md ou USER.md. SOUL.md est interdit.".to_string(),
                    args_schema: schema_of_object(p, required),
                }
            },
            Tool::MemorySearch(_) => {
                p.push(
                    (
                        "archive".to_string(),
                        schema_described(
                            "boolean",
                            "Inclut les transcripts anciens (archive), false par défaut",
                        ),
                    ),
                );
                p.push(("limit".to_string(), schema_between(1, 10)));
                p.push(("query".to_string(), schema_described("string", "Question ou mots-clés")));
                required.push("query".to_string());
                assert(json::members_view(p@) =~= search_properties());
                assert(text::texts(required@) =~= seq!["query"@]);
                ToolSpec {
                    name: "memory_search".to_string(),
                    description:
                        "Cherche des souvenirs pertinents dans les index mémoire construits depuis les transcripts".to_string(),
                    args_schema: schema_of_object(p, required),
                }
            },
            Tool::MemoryGet(_) => {
                p.push(
                    (
                        "id".to_string(),
                        schema_described(
                            "string",
                            "Identifiant d'entrée renvoyé par memory_search (ex: mem-42-7ab3...)",
                        ),
                    ),
                );
                required.push("id".to_string());
                assert(json::members_view(p@) =~= seq![
                    (
                        "id"@,
                        described(
                            "string"@,
                            "Identifiant d'entrée renvoyé par memory_search (ex: mem-42-7ab3...)"@,
                        ),
                    ),
                ]);
                assert(text::texts(required@) =~= seq!["id"@]);
                ToolSpec {
                    name: "memory_get".to_string(),
                    description:
                        "Lit un souvenir précis à partir de son identifiant renvoyé par memory_search".to_string(),
                    args_schema: schema_of_object(p, required),
                }
            },
            Tool::CronManage(_) => {
                p.push(
                    (
                        "action".to_string(),
                        schema_described("string", "add_notify, add_agent_turn, list, runs ou run"),
                    ),
                );
                p.push(
                    (
                        "job_id".to_string(),
                        schema_described("string", "Identifiant du job (runs, run)"),
                    ),
                );
                p.push(
                    (
                        "message".to_string(),
                        schema_described("string", "Texte du job (add_notify, add_agent_turn)"),
                    ),
                );
                required.push("action".to_string());
                assert(json::members_view(p@) =~= cron_properties());
                assert(text::texts(required@) =~= seq!["action"@]);
                ToolSpec {
                    name: "cron_manage".to_string(),
                    description:
                        "Gère les jobs cron internes: add_notify, add_agent_turn, list, runs, run".to_string(),
                    args_schema: schema_of_object(p, required),
                }
            },
            Tool::Custom(t) => ToolSpec {
                name: t.shown.name.clone(),
                description: t.shown.description.clone(),
                args_schema: t.shown.args_schema.copy(),
            },
        }
    }

    /// What a call of the tool comes to.
    pub fn run(&self, args: &Json) -> (r: ToolPlan)
        ensures
            r@ == plan_of(self@, args@),
    {
        match self {
            Tool::Time(_) => ToolPlan::Now,
            Tool::Echo(_) => match args.text_at("text") {
                Some(s) => ToolPlan::Reply(s),
                None => ToolPlan::Reply("(echo sans texte)".to_string()),
            },
            Tool::HttpRequest(_) => match http_request::plan_request(args) {
                Ok(call) => ToolPlan::Http(call),
                Err(e) => ToolPlan::Reply(e),
            },
            Tool::InfoAppend(t) => match notes::plan_append(t.basedir.as_str(), args) {
                Ok(request) => ToolPlan::Append(request),
                Err(e) => ToolPlan::Reply(e),
            },
            Tool::MemorySearch(t) => {
                let query = notes::text_at_or_empty(args, "query");
                let limit: usize = match args.unsigned_at("limit") {
                    Some(n) => n as usize,
                    None => 5,
                };
                let archive = match args.bool_at("archive") {
                    Some(b) => b,
                    None => false,
                };
                if text::is_blank(query.as_str()) {
                    return ToolPlan::Reply("query vide".to_string());
                }
                ToolPlan::Search(
                    SearchRequest { basedir: t.basedir.clone(), query, limit, archive },
                )
            },
            Tool::MemoryGet(t) => {
                let id = notes::text_at_or_empty(args, "id");
                if text::is_blank(id.as_str()) {
                    return ToolPlan::Reply("id manquant".to_string());
                }
                ToolPlan::Get { basedir: t.basedir.clone(), id }
            },
            Tool::CronManage(_) => match cron_tool::plan_cron(args) {
                Ok(request) => ToolPlan::Cron(request),
                Err(e) => ToolPlan::Reply(e),
            },
            Tool::Custom(t) => ToolPlan::Custom {
                name: t.shown.name.clone(),
                args: args.copy(),
            },
        }
    }
}

// ---------------------------------------------------------------------------------------
// Replies once the outside work is done

/// What a result holds, an error by its message.
pub open spec fn rows_view(r: Result<Vec<String>, String>) -> Result<Seq<Seq<char>>, Seq<char>> {
    match r {
        Ok(rows) => Ok(text::texts(rows@)),
        Err(e) => Err(e@),
    }
}

/// The reply to a memory search.
pub open spec fn search_reply_text(found: Result<Seq<Seq<char>>, Seq<char>>) -> Seq<char> {
    match found {
        Ok(rows) => if rows.len() == 0 {
            "Aucun souvenir trouvé."@
        } else {
            search::joined(rows, "\n"@)
        },
        Err(e) => "erreur memory_search: "@ + e,
    }
}

/// The reply to a memory search that found these rows, or failed.
pub fn search_reply(found: Result<Vec<String>, String>) -> (r: String)
    ensures
        r@ == search_reply_text(rows_view(found)),
{
    match found {
        Ok(rows) => {
            if rows.len() == 0 {
                "Aucun souvenir trouvé.".to_string()
            } else {
                search::join(&rows, "\n")
            }
        },
        Err(reason) => {
            let mut e = "erreur memory_search: ".to_string();
            e.append(reason.as_str());
            e
        },
    }
}

/// The reply to a look-up of the memory entry `id`.
pub open spec fn get_reply_text(
    id: Seq<char>,
    found: Result<Option<Seq<char>>, Seq<char>>,
) -> Seq<char> {
    match found {
        Ok(Some(row)) => row,
        Ok(None) => "Aucune entrée pour id="@ + id,
        Err(e) => "erreur memory_get: "@ + e,
    }
}

/// What a result holds, an error by its message.
pub open spec fn row_view(r: Result<Option<String>, String>) -> Result<
    Option<Seq<char>>,
    Seq<char>,
> {
    match r {
        Ok(row) => Ok(text::opt(row)),
        Err(e) => Err(e@),
    }
}

/// The reply to a look-up of the memory entry `id`.
pub fn get_reply(id: &str, found: Result<Option<String>, String>) -> (r: String)
    ensures
        r@ == get_reply_text(id@, row_view(found)),
{
    match found {
        Ok(Some(row)) => row,
        Ok(None) => {
            let mut s = "Aucune entrée pour id=".to_string();
            s.append(id);
            s
        },
        Err(reason) => {
            let mut e = "erreur memory_get: ".to_string();
            e.append(reason.as_str());
            e
        },
    }
}

// ---------------------------------------------------------------------------------------
// The registry

/// The tools that the model may call, no two of the same name, and the words that describe some
/// of them to the model in place of their own.
pub struct ToolRegistry {
    tools: Vec<Tool>,
    descriptions: Vec<(String, String)>,
}

/// What a list of tools holds.
pub open spec fn tool_views(v: Seq<Tool>) -> Seq<ToolView> {
    Seq::new(v.len(), |i: int| v[i]@)
}

/// No two tools have the same name.
pub open spec fn names_distinct(tools: Seq<ToolView>) -> bool {
    forall|i: int, j: int|
        0 <= i < j < tools.len() ==> tool_name(#[trigger] tools[i]) != tool_name(
            #[trigger] tools[j],
        )
}

/// The tools without those of a given name.
pub open spec fn without_name(tools: Seq<ToolView>, name: Seq<char>) -> Seq<ToolView> {
    tools.filter(|t: ToolView| tool_name(t) != name)
}

/// The position of the tool with a given name, or the number of tools.
pub open spec fn position_of(tools: Seq<ToolView>, name: Seq<char>) -> int
    decreases tools.len(),
{
    if tools.len() == 0 {
        0
    } else if tool_name(tools[0]) == name {
        0
    } else {
        1 + position_of(tools.drop_first(), name)
    }
}

/// What a call by name comes to.
pub open spec fn executed(tools: Seq<ToolView>, name: Seq<char>, args: JsonView) -> PlanView {
    let i = position_of(tools, name);
    if i < tools.len() {
        plan_of(tools[i], args)
    } else {
        PlanView::Reply("tool inconnu: "@ + name)
    }
}

/// The text that a list of names and texts gives for a name, if it gives one: the first.
pub open spec fn override_for(
    overrides: Seq<(Seq<char>, Seq<char>)>,
    name: Seq<char>,
) -> Option<Seq<char>>
    decreases overrides.len(),
{
    if overrides.len() == 0 {
        None
    } else if overrides[0].0 == name {
        Some(overrides[0].1)
    } else {
        override_for(overrides.drop_first(), name)
    }
}

/// The descriptions of a list of tools, where `overrides` may put other words for some of them.
pub open spec fn described_tools_with(
    tools: Seq<ToolView>,
    overrides: Seq<(Seq<char>, Seq<char>)>,
) -> Seq<ToolSpecView> {
    Seq::new(
        tools.len(),
        |i: int|
            ToolSpecView {
                description: match override_for(overrides, tool_name(tools[i])) {
                    Some(d) => d,
                    None => tool_description(tools[i]),
                },
                ..tool_spec(tools[i])
            },
    )
}

/// The text that a list of names and texts gives for a name, if it gives one.
fn find_override(overrides: &Vec<(String, String)>, name: &str) -> (r: Option<String>)
    ensures
        text::opt(r) == override_for(http_request::pairs_view(overrides@), name@),
{
    let ghost all = http_request::pairs_view(overrides@);
    let mut i: usize = 0;
    assert(all.skip(0) =~= all);
    while i < overrides.len()
        invariant
            i <= overrides@.len(),
            all == http_request::pairs_view(overrides@),
            override_for(all, name@) == override_for(all.skip(i as int), name@),
        decreases overrides@.len() - i,
    {
        assert(all.skip(i as int)[0] == (overrides@[i as int].0@, overrides@[i as int].1@));
        assert(all.skip(i as int).drop_first() =~= all.skip(i + 1));
        if text::same(overrides[i].0.as_str(), name) {
            return Some(overrides[i].1.clone());
        }
        i += 1;
    }
    None
}

/// What a list of descriptions holds.
pub open spec fn spec_views(v: Seq<ToolSpec>) -> Seq<ToolSpecView> {
    Seq::new(v.len(), |i: int| v[i]@)
}

/// The pairs of a key and a text that a TOML document of texts alone holds, in the order of the
/// keys; nothing where it is no such document.
pub uninterp spec fn toml_texts(raw: Seq<char>) -> Option<Seq<(Seq<char>, Seq<char>)>>;

/// What an optional list of pairs holds.
pub open spec fn opt_pairs(v: Option<Vec<(String, String)>>) -> Option<
    Seq<(Seq<char>, Seq<char>)>,
> {
    match v {
        Some(pairs) => Some(http_request::pairs_view(pairs@)),
        None => None,
    }
}

/// Reads a TOML document with `toml::from_str` into a `BTreeMap<String, String>`. The contract
/// names the pairs that it gives, or that it fails.
#[verifier::external_body]
fn read_toml_texts(raw: &str) -> (r: Option<Vec<(String, String)>>)
    ensures
        opt_pairs(r) == toml_texts(raw@),
{
    let read = toml::from_str::<std::collections::BTreeMap<String, String>>(raw);
    read.ok().map(|table| table.into_iter().collect())
}

/// The descriptions that were read, none where nothing was.
pub open spec fn descriptions_of(read: Option<Seq<(Seq<char>, Seq<char>)>>) -> Seq<
    (Seq<char>, Seq<char>),
> {
    match read {
        Some(pairs) => pairs,
        None => Seq::empty(),
    }
}

/// The descriptions that the text of `conf/prompts/tools.toml` holds, by the names of the tools;
/// none where it cannot be read.
pub fn descriptions_in(raw: &str) -> (r: Vec<(String, String)>)
    ensures
        http_request::pairs_view(r@) == descriptions_of(toml_texts(raw@)),
{
    match read_toml_texts(raw) {
        Some(pairs) => pairs,
        None => {
            let none: Vec<(String, String)> = Vec::new();
            assert(http_request::pairs_view(none@) =~= Seq::empty());
            none
        },
    }
}

/// The seven tools of a fresh registry.
pub open spec fn default_tools(basedir: Seq<char>) -> Seq<ToolView> {
    seq![
        ToolView::Time,
        ToolView::Echo,
        ToolView::HttpRequest,
        ToolView::InfoAppend(basedir),
        ToolView::MemorySearch(basedir),
        ToolView::MemoryGet(basedir),
        ToolView::CronManage,
    ]
}

proof fn lemma_position(tools: Seq<ToolView>, name: Seq<char>)
    ensures
        0 <= position_of(tools, name) <= tools.len(),
        position_of(tools, name) < tools.len() ==> tool_name(tools[position_of(tools, name)])
            == name,
        forall|i: int|
            0 <= i < position_of(tools, name) ==> tool_name(#[trigger] tools[i]) != name,
    decreases tools.len(),
{
    if tools.len() > 0 && tool_name(tools[0]) != name {
        lemma_position(tools.drop_first(), name);
        let n = position_of(tools.drop_first(), name);
        assert forall|i: int| 0 <= i < n + 1 implies tool_name(#[trigger] tools[i]) != name by {
            if i > 0 {
                assert(tools.drop_first()[i - 1] == tools[i]);
            }
        }
    }
}

proof fn lemma_filtered(tools: Seq<ToolView>, name: Seq<char>)
    requires
        names_distinct(tools),
    ensures
        names_distinct(without_name(tools, name)),
        forall|i: int|
            0 <= i < without_name(tools, name).len() ==> tool_name(
                #[trigger] without_name(tools, name)[i],
            ) != name && tools.contains(without_name(tools, name)[i]),
    decreases tools.len(),
{
    reveal(Seq::filter);
    let kept = without_name(tools, name);
    if tools.len() > 0 {
        let front = tools.drop_last();
        lemma_filtered(front, name);
        let before = without_name(front, name);
        let last = tools.last();
        assert(kept == if tool_name(last) != name {
            before.push(last)
        } else {
            before
        });
        assert forall|i: int| 0 <= i < kept.len() implies tool_name(#[trigger] kept[i]) != name
            && tools.contains(kept[i]) by {
            if i < before.len() {
                assert(kept[i] == before[i]);
                let k = choose|k: int| 0 <= k < front.len() && front[k] == before[i];
                assert(tools[k] == kept[i]);
            } else {
                assert(tools[tools.len() - 1] == kept[i]);
            }
        }
        assert forall|i: int, j: int| 0 <= i < j < kept.len() implies tool_name(
            #[trigger] kept[i],
        ) != tool_name(#[trigger] kept[j]) by {
            assert(kept[i] == before[i]);
            if j < before.len() {
                assert(kept[j] == before[j]);
            } else {
                let k = choose|k: int| 0 <= k < front.len() && front[k] == before[i];
                assert(tools[k] == kept[i]);
                assert(tools[tools.len() - 1] == kept[j]);
            }
        }
    }
}

impl ToolRegistry {
    /// The registered tools.
    pub closed spec fn tools(self) -> Seq<ToolView> {
        tool_views(self.tools@)
    }

    /// The words that describe tools, by their names, in place of the tools' own.
    pub closed spec fn descriptions(self) -> Seq<(Seq<char>, Seq<char>)> {
        http_request::pairs_view(self.descriptions@)
    }

    /// No two tools have the same name.
    pub open spec fn wf(self) -> bool {
        names_distinct(self.tools())
    }

    /// A registry with the seven standard tools, working under `basedir` and described in their
    /// own words.
    pub fn with_defaults(basedir: String) -> (r: ToolRegistry)
        ensures
            r.wf(),
            r.tools() == default_tools(basedir@),
            r.descriptions() == Seq::<(Seq<char>, Seq<char>)>::empty(),
    {
        let mut tools: Vec<Tool> = Vec::new();
        tools.push(Tool::Time(TimeTool));
        tools.push(Tool::Echo(EchoTool));
        tools.push(Tool::HttpRequest(HttpRequestTool));
        tools.push(Tool::InfoAppend(InfoAppendTool::new(basedir.clone())));
        tools.push(Tool::MemorySearch(MemorySearchTool::new(basedir.clone())));
        tools.push(Tool::MemoryGet(MemoryGetTool::new(basedir.clone())));
        tools.push(Tool::CronManage(CronManageTool));
        let r = ToolRegistry { tools, descriptions: Vec::new() };
        assert(r.tools() =~= default_tools(basedir@));
        assert(r.descriptions() =~= Seq::empty());
        proof {
            reveal_strlit("time");
            reveal_strlit("echo");
            reveal_strlit("http_request");
            reveal_strlit("info_append");
            reveal_strlit("memory_search");
            reveal_strlit("memory_get");
            reveal_strlit("cron_manage");
            assert("time"@.len() == 4 && "echo"@.len() == 4 && "http_request"@.len() == 12);
            assert("info_append"@.len() == 11 && "memory_search"@.len() == 13);
            assert("memory_get"@.len() == 10 && "cron_manage"@.len() == 11);
            assert("time"@[0] != "echo"@[0]);
            assert("info_append"@[0] != "cron_manage"@[0]);
        }
        r
    }

    /// Puts other words for some of the tools, by their names.
    pub fn describe_with(&mut self, descriptions: Vec<(String, String)>)
        ensures
            final(self).tools() == old(self).tools(),
            final(self).descriptions() == http_request::pairs_view(descriptions@),
    {
        self.descriptions = descriptions;
    }

    /// Adds a tool; one of the same name leaves.
    pub fn register(&mut self, tool: Tool)
        requires
            old(self).wf(),
        ensures
            final(self).wf(),
            final(self).tools() == without_name(old(self).tools(), tool_name(tool@)).push(tool@),
            final(self).descriptions() == old(self).descriptions(),
    {
        let ghost all = self.tools();
        let ghost name_view = tool_name(tool@);
        let name = tool.describe().name;
        let mut kept: Vec<Tool> = Vec::new();
        let mut rest: Vec<Tool> = Vec::new();
        std::mem::swap(&mut rest, &mut self.tools);
        let ghost given = rest@;
        assert(all =~= tool_views(given));
        proof {
            lemma_filtered(all, name_view);
            reveal(Seq::filter);
        }
        assert(tool_views(kept@) =~= Seq::empty());
        assert(all.take(0) =~= Seq::empty());
        assert(without_name(all.take(0), name_view) =~= Seq::empty());
        for t in it: rest
            invariant
                it.seq() == given,
                all == tool_views(given),
                name@ == name_view,
                tool_views(kept@) == without_name(all.take(it.index()), name_view),
        {
            let ghost n = it.index();
            let ghost before = kept@;
            proof {
                reveal(Seq::filter);
                assert(all.take(n + 1).drop_last() =~= all.take(n));
                assert(all.take(n + 1).last() == t@);
            }
            let other = t.describe().name;
            if !text::same(other.as_str(), name.as_str()) {
                kept.push(t);
                assert(tool_views(kept@) =~= tool_views(before).push(t@));
            }
        }
        assert(all.take(all.len() as int) =~= all);
        let ghost before = kept@;
        kept.push(tool);
        assert(tool_views(kept@) =~= tool_views(before).push(tool@));
        self.tools = kept;
    }

    /// What a call by name comes to; an unknown name is answered as such.
    pub fn execute(&self, name: &str, args: &Json) -> (r: ToolPlan)
        ensures
            r@ == executed(self.tools(), name@, args@),
    {
        let ghost all = self.tools();
        proof {
            lemma_position(all, name@);
        }
        let mut i: usize = 0;
        while i < self.tools.len()
            invariant
                i <= self.tools@.len(),
                all == tool_views(self.tools@),
                all == self.tools(),
                i <= position_of(all, name@) <= all.len(),
                position_of(all, name@) < all.len() ==> tool_name(all[position_of(all, name@)])
                    == name@,
                forall|j: int|
                    0 <= j < position_of(all, name@) ==> tool_name(#[trigger] all[j]) != name@,
            decreases self.tools@.len() - i,
        {
            let t = &self.tools[i];
            assert(all[i as int] == t@);
            let other = t.describe().name;
            if text::same(other.as_str(), name) {
                return t.run(args);
            }
            i += 1;
        }
        let mut s = "tool inconnu: ".to_string();
        s.append(name);
        ToolPlan::Reply(s)
    }

    /// The catalogue that is shown to the model: the descriptions of the tools, in the order of
    /// registration, in the words put for them or else in their own.
    pub fn specs(&self) -> (r: Vec<ToolSpec>)
        ensures
            spec_views(r@) == described_tools_with(self.tools(), self.descriptions()),
    {
        let ghost all = self.descriptions();
        let ghost expected = described_tools_with(self.tools(), all);
        let mut out: Vec<ToolSpec> = Vec::new();
        let mut i: usize = 0;
        while i < self.tools.len()
            invariant
                i <= self.tools@.len(),
                all == self.descriptions(),
                expected == described_tools_with(self.tools(), all),
                out@.len() == i,
                forall|j: int| 0 <= j < i ==> (#[trigger] out@[j])@ == expected[j],
            decreases self.tools@.len() - i,
        {
            let mut d = self.tools[i].describe();
            match find_override(&self.descriptions, d.name.as_str()) {
                Some(words) => {
                    d.description = words;
                },
                None => {},
            }
            assert(d@ == expected[i as int]);
            out.push(d);
            i += 1;
        }
        assert(spec_views(out@) =~= expected);
        out
    }
}

/// Where no words are put for a tool, the catalogue shows the tool's own description; where some
/// are, it shows the first of them and the tool's own name and schema.
pub proof fn law_catalogue_shows_the_words_put(
    tools: Seq<ToolView>,
    descriptions: Seq<(Seq<char>, Seq<char>)>,
    i: int,
)
    requires
        0 <= i < tools.len(),
    ensures
        described_tools_with(tools, descriptions).len() == tools.len(),
        described_tools_with(tools, descriptions)[i].name == tool_name(tools[i]),
        described_tools_with(tools, descriptions)[i].args_schema == tool_schema(tools[i]),
        (forall|k: int|
            0 <= k < descriptions.len() ==> (#[trigger] descriptions[k]).0 != tool_name(tools[i]))
            ==> described_tools_with(tools, descriptions)[i] == tool_spec(tools[i]),
        forall|k: int|
            0 <= k < descriptions.len() && (#[trigger] descriptions[k]).0 == tool_name(tools[i])
                && (forall|m: int| 0 <= m < k ==> (#[trigger] descriptions[m]).0 != tool_name(tools[i]))
                ==> described_tools_with(tools, descriptions)[i].description == descriptions[k].1,
{
    lemma_override(descriptions, tool_name(tools[i]));
}

proof fn lemma_override(overrides: Seq<(Seq<char>, Seq<char>)>, name: Seq<char>)
    ensures
        (forall|k: int| 0 <= k < overrides.len() ==> (#[trigger] overrides[k]).0 != name)
            ==> override_for(overrides, name) is None,
        forall|k: int|
            0 <= k < overrides.len() && (#[trigger] overrides[k]).0 == name && (forall|m: int|
                0 <= m < k ==> (#[trigger] overrides[m]).0 != name) ==> override_for(overrides, name)
                == Some(overrides[k].1),
    decreases overrides.len(),
{
    if overrides.len() > 0 {
        let rest = overrides.drop_first();
        lemma_override(rest, name);
        assert(forall|k: int| 0 <= k < rest.len() ==> #[trigger] rest[k] == overrides[k + 1]);
        assert forall|k: int|
            0 <= k < overrides.len() && (#[trigger] overrides[k]).0 == name && (forall|m: int|
                0 <= m < k ==> (#[trigger] overrides[m]).0 != name) implies override_for(
            overrides,
            name,
        ) == Some(overrides[k].1) by {
            if k > 0 {
                assert(overrides[0].0 != name);
                assert(rest[k - 1] == overrides[k]);
                assert forall|m: int| 0 <= m < k - 1 implies (#[trigger] rest[m]).0 != name by {
                    assert(rest[m] == overrides[m + 1]);
                }
            }
        }
    }
}

/// A registered tool answers to its name: right after registration, a call by that name comes to
/// what the tool makes of it, and calls by other names come to what they came to before.
pub proof fn law_registered_tool_answers(
    tools: Seq<ToolView>,
    t: ToolView,
    name: Seq<char>,
    args: JsonView,
)
    requires
        names_distinct(tools),
    ensures
        name == tool_name(t) ==> executed(
            without_name(tools, tool_name(t)).push(t),
            name,
            args,
        ) == plan_of(t, args),
        name != tool_name(t) ==> executed(
            without_name(tools, tool_name(t)).push(t),
            name,
            args,
        ) == executed(tools, name, args),
{
    let kept = without_name(tools, tool_name(t));
    let all = kept.push(t);
    lemma_filtered(tools, tool_name(t));
    lemma_position(all, name);
    lemma_position(tools, name);
    if name == tool_name(t) {
        if position_of(all, name) < kept.len() {
            assert(all[position_of(all, name)] == kept[position_of(all, name)]);
        }
        assert(all[kept.len() as int] == t);
    } else {
        let i = position_of(tools, name);
        let k = position_of(all, name);
        if i < tools.len() {
            lemma_filter_keeps(tools, tool_name(t), i);
            let m = choose|m: int| 0 <= m < kept.len() && kept[m] == tools[i];
            assert(all[m] == tools[i]);
            assert(k <= m);
            assert(all[k] == kept[k]);
            let back = choose|b: int| 0 <= b < tools.len() && tools[b] == kept[k];
            assert(tool_name(tools[back]) == name);
            assert(back == i) by {
                if back < i {
                    assert(tool_name(tools[back]) != tool_name(tools[i]));
                } else if i < back {
                    assert(tool_name(tools[i]) != tool_name(tools[back]));
                }
            }
        } else if k < all.len() {
            if k < kept.len() {
                assert(all[k] == kept[k]);
                let back = choose|b: int| 0 <= b < tools.len() && tools[b] == kept[k];
                assert(tool_name(tools[back]) == name);
            }
        }
    }
}

proof fn lemma_filter_keeps(tools: Seq<ToolView>, name: Seq<char>, i: int)
    requires
        0 <= i < tools.len(),
        tool_name(tools[i]) != name,
    ensures
        without_name(tools, name).contains(tools[i]),
    decreases tools.len(),
{
    reveal(Seq::filter);
    let front = tools.drop_last();
    let kept = without_name(tools, name);
    let before = without_name(front, name);
    if i == tools.len() - 1 {
        assert(kept == before.push(tools[i]));
        assert(kept[before.len() as int] == tools[i]);
    } else {
        lemma_filter_keeps(front, name, i);
        assert(front[i] == tools[i]);
        let m = choose|m: int| 0 <= m < before.len() && before[m] == tools[i];
        assert(kept[m] == tools[i]);
    }
}

/// An unknown name is answered as such.
pub proof fn law_unknown_tool_is_answered(tools: Seq<ToolView>, name: Seq<char>, args: JsonView)
    requires
        forall|i: int| 0 <= i < tools.len() ==> tool_name(#[trigger] tools[i]) != name,
    ensures
        executed(tools, name, args) == PlanView::Reply("tool inconnu: "@ + name),
{
    lemma_position(tools, name);
}

} // verus!
