//! The system prompt: the protocol, the persona files and the catalogue of the tools.

use vstd::prelude::*;

use crate::{memory, paths, text};

verus! {

/// The files that make up the persona, as far as they can be read.
pub struct PersonaFiles {
    pub soul: Option<String>,
    pub identity: Option<String>,
    pub user: Option<String>,
    pub agent: Option<String>,
    pub protocol: Option<String>,
}

/// Where the persona files lie.
pub struct PersonaPaths {
    pub soul: String,
    pub identity: String,
    pub user: String,
    pub agent: String,
    pub protocol: String,
}

/// Where the persona files lie under `basedir`: the soul, the identity, the user's, the agent's and
/// the protocol.
pub open spec fn files_under(basedir: Seq<char>) -> Seq<Seq<char>> {
    seq![
        paths::joined(basedir, "SOUL.md"@),
        paths::joined(basedir, "IDENTITY.md"@),
        paths::joined(basedir, "USER.md"@),
        paths::joined(basedir, "AGENT.md"@),
        paths::joined(memory::under(basedir, "conf"@, "prompts"@), "main_system.md"@),
    ]
}

/// Where the persona files lie under `basedir`.
pub fn persona_paths(basedir: &str) -> (r: PersonaPaths)
    ensures
        r.soul@ == paths::joined(basedir@, "SOUL.md"@),
        r.identity@ == paths::joined(basedir@, "IDENTITY.md"@),
        r.user@ == paths::joined(basedir@, "USER.md"@),
        r.agent@ == paths::joined(basedir@, "AGENT.md"@),
        r.protocol@ == paths::joined(
            memory::under(basedir@, "conf"@, "prompts"@),
            "main_system.md"@,
        ),
        seq![r.soul@, r.identity@, r.user@, r.agent@, r.protocol@] == files_under(basedir@),
{
    let prompts = memory::path_under(basedir, "conf", "prompts");
    PersonaPaths {
        soul: paths::join(basedir, "SOUL.md"),
        identity: paths::join(basedir, "IDENTITY.md"),
        user: paths::join(basedir, "USER.md"),
        agent: paths::join(basedir, "AGENT.md"),
        protocol: paths::join(prompts.as_str(), "main_system.md"),
    }
}

/// What stands for `SOUL.md` where it cannot be read.
pub const DEFAULT_SOUL: &'static str = "# SOUL

Tu es OxiClaw: clair, calme, utile.";

/// What stands for `IDENTITY.md` where it cannot be read.
pub const DEFAULT_IDENTITY: &'static str = "# IDENTITY

- Name: OxiClaw
- Engine: OxiClaw";

/// What stands for `USER.md` where it cannot be read.
pub const DEFAULT_USER: &'static str = "# USER

- Name: Christophe
- Language: fr";

/// What stands for `AGENT.md` where it cannot be read.
pub const DEFAULT_AGENT: &'static str = "# AGENT

- SOUL.md est immuable
- Utilise info_append pour enrichir AGENT.md/USER.md";

/// What stands for the protocol where it cannot be read.
pub const DEFAULT_PROTOCOL: &'static str = "PROTOCOLE DE SORTIE:
- Si tu as besoin d'un outil, réponds UNIQUEMENT en JSON strict:
  {\"type\":\"tool_call\",\"name\":\"time\",\"args\":{}}
- Si tu as fini, réponds UNIQUEMENT en JSON strict:
  {\"type\":\"final_answer\",\"answer\":\"...\"}
- Quand tu reçois TOOL_RESULT, tu peux soit appeler un autre tool, soit final_answer.
- N'invente jamais un tool absent du catalogue.
- Prise de décision: agir plutôt que bloquer; si une info manque, chercher en mémoire puis poser une seule question courte.
- SOUL.md est immuable: ne jamais tenter de le modifier.
- Si une information stable et utile est apprise, utiliser info_append(target,text) avec target=agent ou user.";

/// The protocol where it cannot be read from its file.
pub fn default_main_protocol() -> (r: String)
    ensures
        r@ == DEFAULT_PROTOCOL@,
{
    DEFAULT_PROTOCOL.to_string()
}

/// What a file holds, or what stands for it where it cannot be read.
pub open spec fn read_or(file: Option<String>, default: Seq<char>) -> Seq<char> {
    match file {
        Some(s) => s@,
        None => default,
    }
}

/// What a file holds, or what stands for it where it cannot be read.
fn read_or_default(file: &Option<String>, default: &str) -> (r: String)
    ensures
        r@ == read_or(*file, default@),
{
    match file {
        Some(s) => s.clone(),
        None => default.to_string(),
    }
}

/// The system prompt.
pub open spec fn system_prompt(files: PersonaFiles, catalogue: Seq<char>) -> Seq<char> {
    read_or(files.protocol, DEFAULT_PROTOCOL@) + "\n\n"@ + read_or(files.soul, DEFAULT_SOUL@)
        + "\n\n"@ + read_or(files.identity, DEFAULT_IDENTITY@) + "\n\n"@ + read_or(
        files.user,
        DEFAULT_USER@,
    ) + "\n\n"@ + read_or(files.agent, DEFAULT_AGENT@) + "\n\nTOOLS DISPONIBLES (JSON):\n"@
        + catalogue
}

/// The system prompt: the protocol, the four persona files, and the catalogue of the tools.
pub fn build_system_prompt(files: &PersonaFiles, tools_catalog: &str) -> (r: String)
    ensures
        r@ == system_prompt(*files, tools_catalog@),
{
    let soul = read_or_default(&files.soul, DEFAULT_SOUL);
    let identity = read_or_default(
        &files.identity,
        DEFAULT_IDENTITY,
    );
    let user = read_or_default(&files.user, DEFAULT_USER);
    let agent = read_or_default(
        &files.agent,
        DEFAULT_AGENT,
    );
    let mut s = match &files.protocol {
        Some(p) => p.clone(),
        None => default_main_protocol(),
    };
    s.append("\n\n");
    s.append(soul.as_str());
    s.append("\n\n");
    s.append(identity.as_str());
    s.append("\n\n");
    s.append(user.as_str());
    s.append("\n\n");
    s.append(agent.as_str());
    s.append("\n\nTOOLS DISPONIBLES (JSON):\n");
    s.append(tools_catalog);
    s
}

} // verus!
