//! Where the program takes its settings from, and what its base directory starts with.

use vstd::prelude::*;

use crate::{curator, guard, memory, paths, search, text};

verus! {

// ---------------------------------------------------------------------------------------
// Arguments and variables

/// The base directory that the arguments from position `i` on name.
pub open spec fn basedir_arg(args: Seq<Seq<char>>, i: int) -> Option<Seq<char>>
    decreases args.len() - i,
{
    if i < 0 || i >= args.len() {
        None
    } else if args[i] == "--basedir"@ && i + 1 < args.len() {
        Some(args[i + 1])
    } else if "--basedir="@.is_prefix_of(args[i]) {
        Some(args[i].skip("--basedir="@.len() as int))
    } else {
        basedir_arg(args, i + 1)
    }
}

/// The base directory that the arguments name: `--basedir DIR` or `--basedir=DIR`.
pub fn parse_basedir_arg(args: &Vec<String>) -> (r: Option<String>)
    ensures
        text::opt(r) == basedir_arg(text::texts(args@), 0),
{
    let ghost all = text::texts(args@);
    let mut i: usize = 0;
    while i < args.len()
        invariant
            i <= args@.len(),
            all == text::texts(args@),
            basedir_arg(all, 0) == basedir_arg(all, i as int),
        decreases args@.len() - i,
    {
        assert(all[i as int] == args@[i as int]@);
        if text::same(args[i].as_str(), "--basedir") {
            if i + 1 < args.len() {
                assert(all[i + 1] == args@[i + 1]@);
                return Some(args[i + 1].clone());
            }
        }
        if search::starts_with(args[i].as_str(), "--basedir=") {
            let cs = text::chars_of(args[i].as_str());
            proof {
                reveal_strlit("--basedir=");
            }
            let value = text::string_of(&cs, 10, cs.len());
            assert(cs@.subrange(10, cs@.len() as int) =~= cs@.skip(10));
            return Some(value);
        }
        i += 1;
    }
    None
}

/// The flag is among the arguments.
pub open spec fn flagged(args: Seq<Seq<char>>, flag: Seq<char>) -> bool {
    args.contains(flag)
}

/// Is the flag among the arguments?
pub fn has_flag(args: &Vec<String>, flag: &str) -> (r: bool)
    ensures
        r == text::texts(args@).contains(flag@),
        r == flagged(text::texts(args@), flag@),
{
    let mut i: usize = 0;
    while i < args.len()
        invariant
            i <= args@.len(),
            forall|j: int| 0 <= j < i ==> (#[trigger] args@[j])@ != flag@,
        decreases args@.len() - i,
    {
        if text::same(args[i].as_str(), flag) {
            assert(text::texts(args@)[i as int] == flag@);
            return true;
        }
        i += 1;
    }
    assert forall|j: int| 0 <= j < text::texts(args@).len() implies text::texts(args@)[j]
        != flag@ by {
        assert(text::texts(args@)[j] == args@[j]@);
    }
    false
}

/// The environment variables that the program reads.
pub struct Environment {
    pub oxiclaw_basedir: Option<String>,
    pub griffe_basedir: Option<String>,
    pub openai_api_key: Option<String>,
    pub openclaw_gateway_token: Option<String>,
    pub openai_model: Option<String>,
    pub openclaw_model: Option<String>,
    pub openai_base_url: Option<String>,
    pub openclaw_base_url: Option<String>,
    pub oxiclaw_telegram_enabled: Option<String>,
    pub griffe_telegram_enabled: Option<String>,
    pub telegram_bot_token: Option<String>,
    pub telegram_default_chat_id: Option<String>,
}

/// The model settings on file.
pub struct LlmConfig {
    pub api_key: Option<String>,
    pub model: Option<String>,
    pub base_url: Option<String>,
}

/// The HTTP settings on file.
pub struct HttpConfig {
    pub host: String,
    pub port: u16,
}

/// The Telegram settings on file.
pub struct TelegramConfig {
    pub enabled: bool,
    pub bot_token: Option<String>,
    pub default_chat_id: Option<String>,
}

/// The turn settings on file.
pub struct RuntimeConfig {
    pub max_turn_steps: Option<usize>,
}

/// The settings file.
pub struct FileConfig {
    pub llm: Option<LlmConfig>,
    pub http: Option<HttpConfig>,
    pub telegram: Option<TelegramConfig>,
    pub runtime: Option<RuntimeConfig>,
}

/// The settings of the program.
pub struct AppConfig {
    pub api_key: String,
    pub model: String,
    pub endpoint: String,
    pub basedir: String,
    pub conf_file: String,
    pub transcripts_file: String,
    pub memory_index_file: String,
    pub cron_db_file: String,
    pub http_host: String,
    pub http_port: u16,
    pub telegram_enabled: bool,
    pub telegram_bot_token: Option<String>,
    pub telegram_default_chat_id: Option<String>,
    pub max_turn_steps: usize,
}

/// What the settings hold.
#[verifier::ext_equal]
pub struct ConfigView {
    pub api_key: Seq<char>,
    pub model: Seq<char>,
    pub endpoint: Seq<char>,
    pub basedir: Seq<char>,
    pub conf_file: Seq<char>,
    pub transcripts_file: Seq<char>,
    pub memory_index_file: Seq<char>,
    pub cron_db_file: Seq<char>,
    pub http_host: Seq<char>,
    pub http_port: u16,
    pub telegram_enabled: bool,
    pub telegram_bot_token: Option<Seq<char>>,
    pub telegram_default_chat_id: Option<Seq<char>>,
    pub max_turn_steps: usize,
}

impl View for AppConfig {
    type V = ConfigView;

    open spec fn view(&self) -> ConfigView {
        ConfigView {
            api_key: self.api_key@,
            model: self.model@,
            endpoint: self.endpoint@,
            basedir: self.basedir@,
            conf_file: self.conf_file@,
            transcripts_file: self.transcripts_file@,
            memory_index_file: self.memory_index_file@,
            cron_db_file: self.cron_db_file@,
            http_host: self.http_host@,
            http_port: self.http_port,
            telegram_enabled: self.telegram_enabled,
            telegram_bot_token: text::opt(self.telegram_bot_token),
            telegram_default_chat_id: text::opt(self.telegram_default_chat_id),
            max_turn_steps: self.max_turn_steps,
        }
    }
}

/// What a result holds, an error by its message.
pub open spec fn config_view(r: Result<AppConfig, String>) -> Result<ConfigView, Seq<char>> {
    match r {
        Ok(c) => Ok(c@),
        Err(e) => Err(e@),
    }
}

/// The first of two texts that is there.
pub open spec fn either(a: Option<Seq<char>>, b: Option<Seq<char>>) -> Option<Seq<char>> {
    match a {
        Some(s) => Some(s),
        None => b,
    }
}

/// A text, or what stands for it where there is none.
pub open spec fn or_else(a: Option<Seq<char>>, default: Seq<char>) -> Seq<char> {
    match a {
        Some(s) => s,
        None => default,
    }
}

/// A text unless it is blank.
pub open spec fn unless_blank(a: Option<Seq<char>>) -> Option<Seq<char>> {
    match a {
        Some(s) => if text::trimmed(s).len() > 0 {
            Some(s)
        } else {
            None
        },
        None => None,
    }
}

/// The first of two texts that is there.
fn first_of_two(a: &Option<String>, b: &Option<String>) -> (r: Option<String>)
    ensures
        text::opt(r) == either(text::opt(*a), text::opt(*b)),
{
    match a {
        Some(s) => Some(s.clone()),
        None => match b {
            Some(s) => Some(s.clone()),
            None => None,
        },
    }
}

/// A text, or what stands for it where there is none.
fn unwrap_or(a: Option<String>, default: &str) -> (r: String)
    ensures
        r@ == or_else(text::opt(a), default@),
{
    match a {
        Some(s) => s,
        None => default.to_string(),
    }
}

/// A text unless it is blank.
fn drop_blank(a: &Option<String>) -> (r: Option<String>)
    ensures
        text::opt(r) == unless_blank(text::opt(*a)),
{
    match a {
        Some(s) => if text::is_blank(s.as_str()) {
            None
        } else {
            Some(s.clone())
        },
        None => None,
    }
}

/// The base directory: from the arguments, else from the variables, else `runtime`.
pub open spec fn basedir_of(arg: Option<Seq<char>>, env: Environment) -> Seq<char> {
    or_else(
        either(arg, either(text::opt(env.oxiclaw_basedir), text::opt(env.griffe_basedir))),
        "runtime"@,
    )
}

/// The base directory: from the arguments, else from the variables, else `runtime`.
pub fn choose_basedir(arg: Option<String>, env: &Environment) -> (r: String)
    ensures
        r@ == or_else(
            either(
                text::opt(arg),
                either(text::opt(env.oxiclaw_basedir), text::opt(env.griffe_basedir)),
            ),
            "runtime"@,
        ),
        r@ == basedir_of(text::opt(arg), *env),
{
    let variable = first_of_two(&env.oxiclaw_basedir, &env.griffe_basedir);
    let chosen = first_of_two(&arg, &variable);
    unwrap_or(chosen, "runtime")
}

/// The key on file.
pub open spec fn file_api_key(file: FileConfig) -> Option<Seq<char>> {
    match file.llm {
        Some(l) => text::opt(l.api_key),
        None => None,
    }
}

/// The model on file.
pub open spec fn file_model(file: FileConfig) -> Option<Seq<char>> {
    match file.llm {
        Some(l) => text::opt(l.model),
        None => None,
    }
}

/// The base address on file.
pub open spec fn file_base_url(file: FileConfig) -> Option<Seq<char>> {
    match file.llm {
        Some(l) => text::opt(l.base_url),
        None => None,
    }
}

/// The steps of a turn: ten unless set, between 1 and 64.
pub open spec fn turn_steps(file: FileConfig) -> usize {
    let n = match file.runtime {
        Some(RuntimeConfig { max_turn_steps: Some(n) }) => n,
        _ => 10,
    };
    if n < 1 {
        1
    } else if n > 64 {
        64
    } else {
        n
    }
}

/// The settings of the program: a variable goes before the file, the file before what is built
/// in. Without a key there are none.
pub open spec fn config_of(
    basedir: Seq<char>,
    env: Environment,
    file: FileConfig,
    day: Seq<char>,
) -> Result<ConfigView, Seq<char>> {
    match either(
        either(text::opt(env.openai_api_key), text::opt(env.openclaw_gateway_token)),
        file_api_key(file),
    ) {
        None => Err(
            "OPENAI_API_KEY manquante (ou OPENCLAW_GATEWAY_TOKEN, ou conf/config.json.llm.api_key)"@,
        ),
        Some(api_key) => Ok(
            ConfigView {
                api_key,
                model: or_else(
                    either(
                        either(text::opt(env.openai_model), text::opt(env.openclaw_model)),
                        file_model(file),
                    ),
                    "openai-codex/gpt-5.3-codex"@,
                ),
                endpoint: curator::chat_endpoint(
                    or_else(
                        either(
                            either(
                                text::opt(env.openai_base_url),
                                text::opt(env.openclaw_base_url),
                            ),
                            file_base_url(file),
                        ),
                        "https://api.openai.com/v1"@,
                    ),
                ),
                basedir,
                conf_file: memory::under(basedir, "conf"@, "config.json"@),
                transcripts_file: memory::under(
                    basedir,
                    "transcripts"@,
                    "session-"@ + day + ".jsonl"@,
                ),
                memory_index_file: memory::under(basedir, "memory"@, "index-"@ + day + ".json"@),
                cron_db_file: memory::under(basedir, "state"@, "cron.sqlite"@),
                http_host: match file.http {
                    Some(h) => h.host@,
                    None => "127.0.0.1"@,
                },
                http_port: match file.http {
                    Some(h) => h.port,
                    None => 8787,
                },
                telegram_enabled: match either(
                    text::opt(env.oxiclaw_telegram_enabled),
                    text::opt(env.griffe_telegram_enabled),
                ) {
                    Some(v) => memory::switched_on(Some(v)),
                    None => match file.telegram {
                        Some(t) => t.enabled,
                        None => false,
                    },
                },
                telegram_bot_token: either(
                    unless_blank(text::opt(env.telegram_bot_token)),
                    match file.telegram {
                        Some(t) => unless_blank(text::opt(t.bot_token)),
                        None => None,
                    },
                ),
                telegram_default_chat_id: either(
                    unless_blank(text::opt(env.telegram_default_chat_id)),
                    match file.telegram {
                        Some(t) => unless_blank(text::opt(t.default_chat_id)),
                        None => None,
                    },
                ),
                max_turn_steps: turn_steps(file),
            },
        ),
    }
}

/// The name of a file that is made of a front, the day and an ending.
fn dated(front: &str, day: &str, end: &str) -> (r: String)
    ensures
        r@ == front@ + day@ + end@,
{
    let mut s = front.to_string();
    s.append(day);
    s.append(end);
    s
}

impl AppConfig {
    /// The settings of the program on a given day.
    pub fn from_env_and_args(basedir: String, env: &Environment, file: &FileConfig, day: &str) -> (r:
        Result<AppConfig, String>)
        ensures
            config_view(r) == config_of(basedir@, *env, *file, day@),
    {
        let mut own_key: Option<String> = None;
        let mut own_model: Option<String> = None;
        let mut own_base: Option<String> = None;
        match &file.llm {
            Some(l) => {
                own_key = first_of_two(&l.api_key, &None);
                own_model = first_of_two(&l.model, &None);
                own_base = first_of_two(&l.base_url, &None);
            },
            None => {},
        }
        let set_key = first_of_two(&env.openai_api_key, &env.openclaw_gateway_token);
        let api_key = match first_of_two(&set_key, &own_key) {
            None => {
                return Err(
                    "OPENAI_API_KEY manquante (ou OPENCLAW_GATEWAY_TOKEN, ou conf/config.json.llm.api_key)".to_string(),
                );
            },
            Some(key) => key,
        };
        let set_model = first_of_two(&env.openai_model, &env.openclaw_model);
        let model = unwrap_or(first_of_two(&set_model, &own_model), "openai-codex/gpt-5.3-codex");
        let set_base = first_of_two(&env.openai_base_url, &env.openclaw_base_url);
        let base_url = unwrap_or(first_of_two(&set_base, &own_base), "https://api.openai.com/v1");
        let endpoint = curator::to_chat_completions_endpoint(base_url.as_str());
        let b = basedir.as_str();
        let transcript = dated("session-", day, ".jsonl");
        let index = dated("index-", day, ".json");
        let (http_host, http_port): (String, u16) = match &file.http {
            Some(h) => (h.host.clone(), h.port),
            None => ("127.0.0.1".to_string(), 8787),
        };
        let mut file_enabled = false;
        let mut file_token: Option<String> = None;
        let mut file_chat: Option<String> = None;
        match &file.telegram {
            Some(t) => {
                file_enabled = t.enabled;
                file_token = drop_blank(&t.bot_token);
                file_chat = drop_blank(&t.default_chat_id);
            },
            None => {},
        }
        let switch = first_of_two(&env.oxiclaw_telegram_enabled, &env.griffe_telegram_enabled);
        let telegram_enabled = match &switch {
            Some(_) => memory::is_switched_on(&switch),
            None => file_enabled,
        };
        let telegram_bot_token = first_of_two(&drop_blank(&env.telegram_bot_token), &file_token);
        let telegram_default_chat_id = first_of_two(
            &drop_blank(&env.telegram_default_chat_id),
            &file_chat,
        );
        let steps: usize = match &file.runtime {
            Some(r) => match r.max_turn_steps {
                Some(n) => n,
                None => 10,
            },
            None => 10,
        };
        let max_turn_steps: usize = if steps < 1 {
            1
        } else if steps > 64 {
            64
        } else {
            steps
        };
        Ok(
            AppConfig {
                api_key,
                model,
                endpoint,
                basedir: basedir.clone(),
                conf_file: memory::path_under(b, "conf", "config.json"),
                transcripts_file: memory::path_under(b, "transcripts", transcript.as_str()),
                memory_index_file: memory::path_under(b, "memory", index.as_str()),
                cron_db_file: memory::path_under(b, "state", "cron.sqlite"),
                http_host,
                http_port,
                telegram_enabled,
                telegram_bot_token,
                telegram_default_chat_id,
                max_turn_steps,
            },
        )
    }
}

/// The settings always allow at least one step a turn, and at most 64.
pub proof fn law_turn_steps_are_bounded(file: FileConfig)
    ensures
        1 <= turn_steps(file) <= 64,
{
}

// ---------------------------------------------------------------------------------------
// The base directory

/// A file of a base directory, and what it holds at first.
pub struct LayoutFile {
    pub path: String,
    pub content: String,
    /// A file that is nearly empty is filled again.
    pub enrich: bool,
}

/// What a file of a base directory is.
#[verifier::ext_equal]
pub struct FileSpec {
    pub path: Seq<char>,
    pub content: Seq<char>,
    pub enrich: bool,
}

impl View for LayoutFile {
    type V = FileSpec;

    open spec fn view(&self) -> FileSpec {
        FileSpec { path: self.path@, content: self.content@, enrich: self.enrich }
    }
}

/// What a list of files is.
pub open spec fn files_view(v: Seq<LayoutFile>) -> Seq<FileSpec> {
    Seq::new(v.len(), |i: int| v[i]@)
}

/// Must a file be written, given what it holds, if it is there? A missing one must; one that may
/// be enriched must if it holds less than 40 bytes apart from the white space around it.
pub open spec fn must_write(enrich: bool, current: Option<Seq<char>>) -> bool {
    match current {
        None => true,
        Some(s) => enrich && guard::byte_len(text::trimmed(s)) < 40,
    }
}

impl LayoutFile {
    /// Must the file be written, given what it holds, if it is there?
    pub fn needs_writing(&self, current: &Option<String>) -> (r: bool)
        ensures
            r == must_write(self.enrich, text::opt(*current)),
    {
        match current {
            None => true,
            Some(s) => {
                let t = text::trim(s.as_str());
                self.enrich && !guard::longer_than(t.as_str(), 39)
            },
        }
    }
}

/// The directories and files that a base directory starts with.
pub struct Layout {
    pub directories: Vec<String>,
    pub files: Vec<LayoutFile>,
}

/// The directories of a base directory.
pub open spec fn first_directories(basedir: Seq<char>) -> Seq<Seq<char>> {
    seq![
        paths::joined(basedir, "conf"@),
        memory::under(basedir, "conf"@, "prompts"@),
        paths::joined(basedir, "memory"@),
        paths::joined(basedir, "transcripts"@),
        paths::joined(basedir, "state"@),
        paths::joined(basedir, "logs"@),
    ]
}

/// What `SOUL.md` holds at first.
pub const SOUL_TEXT: &'static str = "# SOUL

Tu es OxiClaw.

- Ton: calme, clair, concret.
- Priorité: aider Christophe à comprendre en profondeur.
- Méthode: petits pas, test rapide, explication du pourquoi.
";

/// What `IDENTITY.md` holds at first.
pub const IDENTITY_TEXT: &'static str = "# IDENTITY

- Name: OxiClaw
- Engine: OxiClaw
- Stack: Rust
- Mission: comprendre un agent en le reconstruisant pas à pas.
";

/// What `USER.md` holds at first.
pub const USER_TEXT: &'static str = "# USER

- Name: Christophe
- Language: Français
- Goal: recoder un agent type OpenClaw pour comprendre son architecture.
- Preference: explications concrètes + logs debug.
";

/// What `AGENT.md` holds at first.
pub const AGENT_TEXT: &'static str = "# AGENT

## Politique de décision
- Agir avant de bloquer: utiliser les tools quand nécessaire.
- Si une info manque, chercher d'abord en mémoire puis poser une question courte.
- Si une info stable est découverte, utiliser `info_append` pour l'écrire dans AGENT.md ou USER.md.

## Règles
- SOUL.md est immuable.
- AGENT.md et USER.md sont append-only via tool.
";

/// What `conf/config.json` holds at first.
pub const CONFIG_TEXT: &'static str = "{
  \"llm\": {
    \"api_key\": \"\",
    \"model\": \"kimi-k2-0905-preview\",
    \"base_url\": \"https://api.moonshot.ai/v1\"
  },
  \"http\": {
    \"host\": \"127.0.0.1\",
    \"port\": 8787
  },
  \"telegram\": {
    \"enabled\": false,
    \"bot_token\": \"\",
    \"default_chat_id\": \"\"
  },
  \"runtime\": {
    \"max_turn_steps\": 10
  }
}
";

/// What `conf/prompts/main_system.md` holds at first.
pub const MAIN_PROMPT_TEXT: &'static str = "PROTOCOLE DE SORTIE:
- Si tu as besoin d'un outil, réponds UNIQUEMENT en JSON strict:
  {\"type\":\"tool_call\",\"name\":\"time\",\"args\":{}}
- Si tu as fini, réponds UNIQUEMENT en JSON strict:
  {\"type\":\"final_answer\",\"answer\":\"...\"}
- Quand tu reçois TOOL_RESULT, tu peux soit appeler un autre tool, soit final_answer.
- N'invente jamais un tool absent du catalogue.
- Prise de décision: agir plutôt que bloquer; si une info manque, chercher en mémoire puis poser une seule question courte.
- SOUL.md est immuable: ne jamais tenter de le modifier.
- Si une information stable et utile est apprise, utiliser info_append(target,text) avec target=agent ou user.
";

/// What `conf/prompts/curator_system.md` holds at first.
pub const CURATOR_PROMPT_TEXT: &'static str = "Tu es un curator mémoire. Objectif principal: produire des lignes pour la mémoire quotidienne (memory/MEMORY-YYYY-MM-DD.md).
Tu peux aussi proposer quelques lignes AGENT/USER si c'est vraiment stable et structurel.
Ne pas inclure de secrets (tokens, passwords, clés).
Réponds UNIQUEMENT en JSON strict avec ce format:
{\"memory_additions\":[\"...\"],\"agent_additions\":[\"...\"],\"user_additions\":[\"...\"]}
Contraintes: max __MAX_ADDITIONS__ lignes par tableau, lignes courtes et concrètes.
";

/// What `conf/prompts/cron_system.md` holds at first.
pub const CRON_PROMPT_TEXT: &'static str = "Template futur pour le prompt des runs cron (à brancher quand le scheduler interne sera en place).";

/// The files that a base directory starts with.
pub open spec fn first_files(basedir: Seq<char>) -> Seq<FileSpec> {
    seq![
        FileSpec {
            path: paths::joined(basedir, "SOUL.md"@),
            content: SOUL_TEXT@,
            enrich: true,
        },
        FileSpec {
            path: paths::joined(basedir, "IDENTITY.md"@),
            content: IDENTITY_TEXT@,
            enrich: true,
        },
        FileSpec {
            path: paths::joined(basedir, "USER.md"@),
            content: USER_TEXT@,
            enrich: true,
        },
        FileSpec {
            path: paths::joined(basedir, "AGENT.md"@),
            content: AGENT_TEXT@,
            enrich: true,
        },
        FileSpec {
            path: memory::under(basedir, "conf"@, "config.json"@),
            content: CONFIG_TEXT@,
            enrich: false,
        },
        FileSpec {
            path: paths::joined(memory::under(basedir, "conf"@, "prompts"@), "main_system.md"@),
            content: MAIN_PROMPT_TEXT@,
            enrich: false,
        },
        FileSpec {
            path: paths::joined(memory::under(basedir, "conf"@, "prompts"@), "curator_system.md"@),
            content: CURATOR_PROMPT_TEXT@,
            enrich: false,
        },
        FileSpec {
            path: paths::joined(memory::under(basedir, "conf"@, "prompts"@), "cron_system.md"@),
            content: CRON_PROMPT_TEXT@,
            enrich: false,
        },
    ]
}

/// The files that a base directory starts with.
fn make_first_files(basedir: &str) -> (r: Vec<LayoutFile>)
    ensures
        files_view(r@) == first_files(basedir@),
{
    let prompts = memory::path_under(basedir, "conf", "prompts");
    let mut v: Vec<LayoutFile> = Vec::new();
    v.push(
        LayoutFile {
            path: paths::join(basedir, "SOUL.md"),
            content: SOUL_TEXT.to_string(),
            enrich: true,
        },
    );
    v.push(
        LayoutFile {
            path: paths::join(basedir, "IDENTITY.md"),
            content: IDENTITY_TEXT.to_string(),
            enrich: true,
        },
    );
    v.push(
        LayoutFile {
            path: paths::join(basedir, "USER.md"),
            content: USER_TEXT.to_string(),
            enrich: true,
        },
    );
    v.push(
        LayoutFile {
            path: paths::join(basedir, "AGENT.md"),
            content: AGENT_TEXT.to_string(),
            enrich: true,
        },
    );
    v.push(
        LayoutFile {
            path: memory::path_under(basedir, "conf", "config.json"),
            content: CONFIG_TEXT.to_string(),
            enrich: false,
        },
    );
    v.push(
        LayoutFile {
            path: paths::join(prompts.as_str(), "main_system.md"),
            content: MAIN_PROMPT_TEXT.to_string(),
            enrich: false,
        },
    );
    v.push(
        LayoutFile {
            path: paths::join(prompts.as_str(), "curator_system.md"),
            content: CURATOR_PROMPT_TEXT.to_string(),
            enrich: false,
        },
    );
    v.push(
        LayoutFile {
            path: paths::join(prompts.as_str(), "cron_system.md"),
            content: CRON_PROMPT_TEXT.to_string(),
            enrich: false,
        },
    );
    assert(files_view(v@) =~= first_files(basedir@));
    v
}

/// The directories and files that a base directory starts with, in the order in which they are
/// made.
pub fn init_layout(basedir: &str) -> (r: Layout)
    ensures
        text::texts(r.directories@) == first_directories(basedir@),
        files_view(r.files@) == first_files(basedir@),
{
    let mut d: Vec<String> = Vec::new();
    d.push(paths::join(basedir, "conf"));
    d.push(memory::path_under(basedir, "conf", "prompts"));
    d.push(paths::join(basedir, "memory"));
    d.push(paths::join(basedir, "transcripts"));
    d.push(paths::join(basedir, "state"));
    d.push(paths::join(basedir, "logs"));
    assert(text::texts(d@) =~= first_directories(basedir@));
    Layout { directories: d, files: make_first_files(basedir) }
}

/// A text that begins with a heading and ends with one line feed loses only that when it is
/// trimmed.
proof fn lemma_trimmed_heading(s: Seq<char>)
    requires
        s.len() >= 2,
        s[0] == '#',
        s.last() == '\n',
        !text::white(s[s.len() - 2]),
    ensures
        text::trimmed(s) == s.drop_last(),
{
    assert(text::trim_start(s) == s);
    assert(s.drop_last().last() == s[s.len() - 2]);
    assert(text::trim_end(s.drop_last()) == s.drop_last());
}

/// A file that holds what it held at first is not written again.
pub proof fn law_layout_is_made_once(basedir: Seq<char>, i: int)
    requires
        0 <= i < first_files(basedir).len(),
    ensures
        !must_write(first_files(basedir)[i].enrich, Some(first_files(basedir)[i].content)),
{
    if i == 0 {
        reveal_strlit("# SOUL\n\nTu es OxiClaw.\n\n- Ton: calme, clair, concret.\n- Priorité: aider Christophe à comprendre en profondeur.\n- Méthode: petits pas, test rapide, explication du pourquoi.\n");
        lemma_trimmed_heading(SOUL_TEXT@);
        guard::lemma_a_byte_each(SOUL_TEXT@.drop_last());
    }
    if i == 1 {
        reveal_strlit("# IDENTITY\n\n- Name: OxiClaw\n- Engine: OxiClaw\n- Stack: Rust\n- Mission: comprendre un agent en le reconstruisant pas à pas.\n");
        lemma_trimmed_heading(IDENTITY_TEXT@);
        guard::lemma_a_byte_each(IDENTITY_TEXT@.drop_last());
    }
    if i == 2 {
        reveal_strlit("# USER\n\n- Name: Christophe\n- Language: Français\n- Goal: recoder un agent type OpenClaw pour comprendre son architecture.\n- Preference: explications concrètes + logs debug.\n");
        lemma_trimmed_heading(USER_TEXT@);
        guard::lemma_a_byte_each(USER_TEXT@.drop_last());
    }
    if i == 3 {
        reveal_strlit("# AGENT\n\n## Politique de décision\n- Agir avant de bloquer: utiliser les tools quand nécessaire.\n- Si une info manque, chercher d'abord en mémoire puis poser une question courte.\n- Si une info stable est découverte, utiliser `info_append` pour l'écrire dans AGENT.md ou USER.md.\n\n## Règles\n- SOUL.md est immuable.\n- AGENT.md et USER.md sont append-only via tool.\n");
        lemma_trimmed_heading(AGENT_TEXT@);
        guard::lemma_a_byte_each(AGENT_TEXT@.drop_last());
    }
}

/// A file that may not be enriched is left alone once it is there, whatever it holds.
pub proof fn law_settings_are_never_overwritten(current: Seq<char>)
    ensures
        !must_write(false, Some(current)),
{
}

} // verus!
