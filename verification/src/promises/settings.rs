//! What the settings are for: what is set is followed, in the order of the places where it may be
//! set.

use vstd::prelude::*;

use crate::config::{Environment, FileConfig, RuntimeConfig};
use crate::persona::PersonaFiles;
use crate::probe::ProbeView;
use crate::promises::facts;
use crate::{config, curator, guard, layout, numerals, paths, persona, probe, storage, text};

verus! {

/// The key is that of the first place that has one: a variable, the gateway's variable, the file.
/// Without any there are no settings.
pub proof fn law_the_key_is_the_first_that_is_set(
    basedir: Seq<char>,
    env: Environment,
    file: FileConfig,
    day: Seq<char>,
)
    ensures
        ({
            let r = config::config_of(basedir, env, file, day);
            &&& env.openai_api_key matches Some(k) ==> r is Ok && r->Ok_0.api_key == k@
            &&& env.openai_api_key is None ==> {
                &&& env.openclaw_gateway_token matches Some(k) ==> r is Ok && r->Ok_0.api_key == k@
                &&& env.openclaw_gateway_token is None ==> {
                    &&& file.llm is None || file.llm->0.api_key is None ==> r is Err
                    &&& file.llm is Some && file.llm->0.api_key is Some ==> r is Ok
                        && r->Ok_0.api_key == file.llm->0.api_key->0@
                }
            }
        }),
{
}

/// The model and the address of the model are those of the first place that has one, else the
/// usual ones.
pub proof fn law_the_model_is_the_first_that_is_set(
    basedir: Seq<char>,
    env: Environment,
    file: FileConfig,
    day: Seq<char>,
)
    ensures
        config::config_of(basedir, env, file, day) matches Ok(c) ==> {
            &&& env.openai_model matches Some(m) ==> c.model == m@
            &&& env.openai_model is None ==> {
                &&& env.openclaw_model matches Some(m) ==> c.model == m@
                &&& env.openclaw_model is None ==> {
                    &&& file.llm is Some && file.llm->0.model is Some ==> c.model
                        == file.llm->0.model->0@
                    &&& file.llm is None || file.llm->0.model is None ==> c.model
                        == "openai-codex/gpt-5.3-codex"@
                }
            }
            &&& env.openai_base_url matches Some(u) ==> c.endpoint == curator::chat_endpoint(u@)
            &&& env.openai_base_url is None ==> {
                &&& env.openclaw_base_url matches Some(u) ==> c.endpoint == curator::chat_endpoint(
                    u@,
                )
                &&& env.openclaw_base_url is None ==> {
                    &&& file.llm is Some && file.llm->0.base_url is Some ==> c.endpoint
                        == curator::chat_endpoint(file.llm->0.base_url->0@)
                    &&& file.llm is None || file.llm->0.base_url is None ==> c.endpoint
                        == curator::chat_endpoint("https://api.openai.com/v1"@)
                }
            }
        },
{
}

/// The server listens where the file says, and Telegram is served as the variables or else the
/// file say; a blank token or chat counts as none.
pub proof fn law_the_services_are_as_set(
    basedir: Seq<char>,
    env: Environment,
    file: FileConfig,
    day: Seq<char>,
)
    ensures
        config::config_of(basedir, env, file, day) matches Ok(c) ==> {
            &&& file.http matches Some(h) ==> c.http_host == h.host@ && c.http_port == h.port
            &&& file.http is None ==> c.http_host == "127.0.0.1"@ && c.http_port == 8787
            &&& env.oxiclaw_telegram_enabled matches Some(v) ==> {
                &&& v@ == "1"@ || v@ == "true"@ || v@ == "TRUE"@ || v@ == "yes"@ || v@ == "on"@
                    ==> c.telegram_enabled
                &&& v@ != "1"@ && v@ != "true"@ && v@ != "TRUE"@ && v@ != "yes"@ && v@ != "on"@
                    ==> !c.telegram_enabled
            }
            &&& env.oxiclaw_telegram_enabled is None ==> (env.griffe_telegram_enabled matches Some(
                v,
            ) ==> c.telegram_enabled == (v@ == "1"@ || v@ == "true"@ || v@ == "TRUE"@ || v@
                == "yes"@ || v@ == "on"@))
            &&& env.oxiclaw_telegram_enabled is None && env.griffe_telegram_enabled is None ==> {
                &&& file.telegram matches Some(t) ==> c.telegram_enabled == t.enabled
                &&& file.telegram is None ==> !c.telegram_enabled
            }
            &&& env.telegram_bot_token is Some && facts::filled(env.telegram_bot_token->0@)
                ==> c.telegram_bot_token == Some(env.telegram_bot_token->0@)
            &&& env.telegram_bot_token is None || layout::all_white(env.telegram_bot_token->0@) ==> {
                &&& file.telegram is Some && file.telegram->0.bot_token is Some && facts::filled(
                    file.telegram->0.bot_token->0@,
                ) ==> c.telegram_bot_token == Some(file.telegram->0.bot_token->0@)
                &&& file.telegram is None ==> c.telegram_bot_token is None
                &&& file.telegram is Some && (file.telegram->0.bot_token is None
                    || layout::all_white(file.telegram->0.bot_token->0@))
                    ==> c.telegram_bot_token is None
            }
            &&& env.telegram_default_chat_id is Some && facts::filled(
                env.telegram_default_chat_id->0@,
            ) ==> c.telegram_default_chat_id == Some(env.telegram_default_chat_id->0@)
            &&& env.telegram_default_chat_id is None || layout::all_white(
                env.telegram_default_chat_id->0@,
            ) ==> {
                &&& file.telegram is Some && file.telegram->0.default_chat_id is Some
                    && facts::filled(file.telegram->0.default_chat_id->0@)
                    ==> c.telegram_default_chat_id == Some(file.telegram->0.default_chat_id->0@)
                &&& file.telegram is None ==> c.telegram_default_chat_id is None
                &&& file.telegram is Some && (file.telegram->0.default_chat_id is None
                    || layout::all_white(file.telegram->0.default_chat_id->0@))
                    ==> c.telegram_default_chat_id is None
            }
        },
{
    if env.telegram_bot_token is Some {
        facts::lemma_filled(env.telegram_bot_token->0@);
    }
    if env.telegram_default_chat_id is Some {
        facts::lemma_filled(env.telegram_default_chat_id->0@);
    }
    if file.telegram is Some && file.telegram->0.bot_token is Some {
        facts::lemma_filled(file.telegram->0.bot_token->0@);
    }
    if file.telegram is Some && file.telegram->0.default_chat_id is Some {
        facts::lemma_filled(file.telegram->0.default_chat_id->0@);
    }
}

/// The files of the program lie under its base directory.
pub proof fn law_the_files_lie_under_the_base(
    basedir: Seq<char>,
    env: Environment,
    file: FileConfig,
    day: Seq<char>,
)
    requires
        basedir.len() > 0,
        basedir[basedir.len() - 1] != '/',
    ensures
        config::config_of(basedir, env, file, day) matches Ok(c) ==> {
            &&& c.basedir == basedir
            &&& c.conf_file == basedir + "/"@ + "conf"@ + "/"@ + "config.json"@
            &&& c.transcripts_file == basedir + "/"@ + "transcripts"@ + "/"@ + ("session-"@ + day
                + ".jsonl"@)
            &&& c.memory_index_file == basedir + "/"@ + "memory"@ + "/"@ + ("index-"@ + day
                + ".json"@)
            &&& c.cron_db_file == basedir + "/"@ + "state"@ + "/"@ + "cron.sqlite"@
        },
{
    reveal_strlit("conf");
    reveal_strlit("transcripts");
    reveal_strlit("memory");
    reveal_strlit("state");
    law_a_file_lies_under_its_directory(basedir, "conf"@);
    law_a_file_lies_under_its_directory(basedir, "transcripts"@);
    law_a_file_lies_under_its_directory(basedir, "memory"@);
    law_a_file_lies_under_its_directory(basedir, "state"@);
    assert((basedir + "/"@ + "conf"@).last() == 'f');
    assert((basedir + "/"@ + "transcripts"@).last() == 's');
    assert((basedir + "/"@ + "memory"@).last() == 'y');
    assert((basedir + "/"@ + "state"@).last() == 'e');
}

/// A path is a directory, one slash, and a name.
pub proof fn law_a_file_lies_under_its_directory(base: Seq<char>, name: Seq<char>)
    ensures
        base.len() == 0 ==> paths::joined(base, name) == name,
        base.len() > 0 && base[base.len() - 1] != '/' ==> paths::joined(base, name) == base + "/"@
            + name,
        base.len() > 0 && base[base.len() - 1] == '/' ==> paths::joined(base, name) == base + name,
{
    if base.len() > 0 {
        assert(base.last() == base[base.len() - 1]);
    }
}

/// A turn takes as many steps as the file sets, between one and sixty-four, else ten.
pub proof fn law_the_steps_are_as_set(file: FileConfig, n: usize)
    ensures
        file.runtime == Some(RuntimeConfig { max_turn_steps: Some(n) }) ==> {
            &&& 1 <= n <= 64 ==> config::turn_steps(file) == n
            &&& n == 0 ==> config::turn_steps(file) == 1
            &&& n > 64 ==> config::turn_steps(file) == 64
        },
        file.runtime is None || file.runtime->0.max_turn_steps is None ==> config::turn_steps(file)
            == 10,
{
}

/// An argument says nothing of the base directory.
pub open spec fn says_nothing(arg: Seq<char>) -> bool {
    arg != "--basedir"@ && !"--basedir="@.is_prefix_of(arg)
}

/// The base directory is what the first argument that names one says, as the next argument or
/// behind the equals sign.
pub proof fn law_the_base_is_what_the_arguments_say(
    before: Seq<Seq<char>>,
    dir: Seq<char>,
    after: Seq<Seq<char>>,
)
    requires
        forall|i: int| 0 <= i < before.len() ==> says_nothing(#[trigger] before[i]),
    ensures
        config::basedir_arg(before + seq!["--basedir"@, dir] + after, 0) == Some(dir),
        config::basedir_arg(before + seq!["--basedir="@ + dir] + after, 0) == Some(dir),
        config::basedir_arg(before, 0) is None,
        config::basedir_arg(before.push("--basedir"@), 0) is None,
{
    let c = before.push("--basedir"@);
    assert forall|i: int| 0 <= i < before.len() implies says_nothing(#[trigger] c[i]) by {
        assert(c[i] == before[i]);
    }
    lemma_passed_over(c, 0, before.len() as int);
    assert(c[before.len() as int] == "--basedir"@);
    let a = before + seq!["--basedir"@, dir] + after;
    let b = before + seq!["--basedir="@ + dir] + after;
    let n = before.len() as int;
    assert forall|i: int| 0 <= i < n implies #[trigger] a[i] == before[i] && b[i] == before[i] by {}
    assert forall|i: int| 0 <= i < n implies says_nothing(#[trigger] a[i]) by {
        assert(a[i] == before[i]);
    }
    assert forall|i: int| 0 <= i < n implies says_nothing(#[trigger] b[i]) by {
        assert(b[i] == before[i]);
    }
    lemma_passed_over(a, 0, n);
    lemma_passed_over(b, 0, n);
    lemma_passed_over(before, 0, n);
    assert(a[n] == "--basedir"@ && a[n + 1] == dir);
    let long = "--basedir="@ + dir;
    assert(b[n] == long);
    reveal_strlit("--basedir");
    reveal_strlit("--basedir=");
    assert("--basedir="@ =~= long.subrange(0, "--basedir="@.len() as int));
    assert(long.skip("--basedir="@.len() as int) =~= dir);
    assert(long[9] == '=');
    assert("--basedir"@.len() == 9);
    assert(config::basedir_arg(c, n + 1) is None);
    if "--basedir="@.is_prefix_of("--basedir"@) {
        assert("--basedir="@.len() <= "--basedir"@.len());
    }
    assert(long.len() >= 10);
}

proof fn lemma_passed_over(args: Seq<Seq<char>>, i: int, n: int)
    requires
        0 <= i <= n <= args.len(),
        forall|k: int| i <= k < n ==> says_nothing(#[trigger] args[k]),
    ensures
        config::basedir_arg(args, i) == config::basedir_arg(args, n),
    decreases n - i,
{
    if i < n {
        assert(says_nothing(args[i]));
        lemma_passed_over(args, i + 1, n);
    }
}

/// The base directory is the argument's, else the first variable's that is set, else the usual
/// one.
pub proof fn law_the_base_is_the_first_that_is_set(arg: Option<Seq<char>>, env: Environment)
    ensures
        arg matches Some(dir) ==> config::basedir_of(arg, env) == dir,
        arg is None ==> {
            &&& env.oxiclaw_basedir matches Some(dir) ==> config::basedir_of(arg, env) == dir@
            &&& env.oxiclaw_basedir is None ==> {
                &&& env.griffe_basedir matches Some(dir) ==> config::basedir_of(arg, env) == dir@
                &&& env.griffe_basedir is None ==> config::basedir_of(arg, env) == "runtime"@
            }
        },
{
}

/// A file of the base directory is written where it is missing, and written again where it may be
/// and holds nearly nothing.
pub proof fn law_missing_files_are_written(
    enrich: bool,
    before: Seq<char>,
    w: Seq<char>,
    after: Seq<char>,
)
    requires
        layout::all_white(before),
        layout::all_white(after),
        facts::tight(w),
    ensures
        config::must_write(enrich, None),
        config::must_write(enrich, Some(before + w + after)) <==> enrich && guard::byte_len(w)
            < 40,
        config::must_write(enrich, Some(before)) <==> enrich,
{
    facts::lemma_padded(before, w, after);
    facts::lemma_filled(before);
    assert(text::trimmed(before) =~= Seq::empty());
}

// ---------------------------------------------------------------------------------------
// The persona

/// The system prompt holds the protocol, the persona files and the catalogue, each whole, in this
/// order; the usual text of a file stands for one that is missing.
pub proof fn law_the_prompt_holds_every_file(files: PersonaFiles, catalogue: Seq<char>)
    ensures
        persona::system_prompt(files, catalogue) == (match files.protocol {
            Some(s) => s@,
            None => persona::DEFAULT_PROTOCOL@,
        }) + "\n\n"@ + (match files.soul {
            Some(s) => s@,
            None => persona::DEFAULT_SOUL@,
        }) + "\n\n"@ + (match files.identity {
            Some(s) => s@,
            None => persona::DEFAULT_IDENTITY@,
        }) + "\n\n"@ + (match files.user {
            Some(s) => s@,
            None => persona::DEFAULT_USER@,
        }) + "\n\n"@ + (match files.agent {
            Some(s) => s@,
            None => persona::DEFAULT_AGENT@,
        }) + "\n\nTOOLS DISPONIBLES (JSON):\n"@ + catalogue,
{
}

/// A persona file that is missing is replaced by its usual text alone; the others stay.
pub proof fn law_a_missing_file_has_its_usual_text(file: Option<String>, usual: Seq<char>)
    ensures
        file matches Some(s) ==> persona::read_or(file, usual) == s@,
        file is None ==> persona::read_or(file, usual) == usual,
{
}

/// A line of a transcript records who said what, when and in which session.
pub proof fn law_a_line_records_what_was_said(
    ts: Seq<char>,
    session_id: Seq<char>,
    role: Seq<char>,
    content: Seq<char>,
)
    ensures
        storage::said(ts, session_id, role, content).content == content,
        storage::said(ts, session_id, role, content).role == role,
        storage::said(ts, session_id, role, content).ts == ts,
        storage::said(ts, session_id, role, content).session_id == session_id,
{
}

// ---------------------------------------------------------------------------------------
// The probe

proof fn lemma_shifted(args: Seq<Seq<char>>, i: int, o: ProbeView)
    requires
        0 <= i <= args.len(),
    ensures
        probe::options_of(args, i, o) == probe::options_of(args.skip(i), 0, o),
    decreases args.len() - i,
{
    lemma_shifted_by(args, args.skip(i), i, 0, o);
}

proof fn lemma_shifted_by(args: Seq<Seq<char>>, rest: Seq<Seq<char>>, i: int, j: int, o: ProbeView)
    requires
        0 <= j <= rest.len(),
        0 <= i,
        args.len() - i == rest.len(),
        rest == args.skip(i),
    ensures
        probe::options_of(args, i + j, o) == probe::options_of(rest, j, o),
    decreases rest.len() - j,
{
    if j < rest.len() {
        assert(rest[j] == args[i + j]);
        let name = rest[j];
        if j + 1 < rest.len() {
            assert(rest[j + 1] == args[i + j + 1]);
            let value = rest[j + 1];
            lemma_shifted_by(args, rest, i, j + 2, ProbeView { basedir: value, ..o });
            lemma_shifted_by(args, rest, i, j + 2, ProbeView { query: value, ..o });
            lemma_shifted_by(args, rest, i, j + 2, ProbeView { limit: probe::limit_of(value), ..o });
        }
        lemma_shifted_by(args, rest, i, j + 1, ProbeView { archive: true, ..o });
        lemma_shifted_by(args, rest, i, j + 1, ProbeView { reindex: true, ..o });
        lemma_shifted_by(args, rest, i, j + 1, o);
    }
}

/// Each argument of a probe sets what it names to what follows it, and the others are read as if
/// it were not there.
pub proof fn law_each_argument_sets_what_it_names(
    value: Seq<char>,
    rest: Seq<Seq<char>>,
    o: ProbeView,
)
    ensures
        probe::options_of(seq!["--query"@, value] + rest, 0, o) == probe::options_of(
            rest,
            0,
            ProbeView { query: value, ..o },
        ),
        probe::options_of(seq!["--basedir"@, value] + rest, 0, o) == probe::options_of(
            rest,
            0,
            ProbeView { basedir: value, ..o },
        ),
        probe::options_of(seq!["--limit"@, value] + rest, 0, o) == probe::options_of(
            rest,
            0,
            ProbeView { limit: probe::limit_of(value), ..o },
        ),
        probe::options_of(seq!["--archive"@] + rest, 0, o) == probe::options_of(
            rest,
            0,
            ProbeView { archive: true, ..o },
        ),
        probe::options_of(seq!["--reindex"@] + rest, 0, o) == probe::options_of(
            rest,
            0,
            ProbeView { reindex: true, ..o },
        ),
        probe::options_of(Seq::empty(), 0, o) == o,
        value != "--query"@ && value != "--basedir"@ && value != "--limit"@ && value
            != "--archive"@ && value != "--reindex"@ ==> probe::options_of(
            seq![value] + rest,
            0,
            o,
        ) == probe::options_of(rest, 0, o),
        probe::options_of(seq!["--query"@], 0, o) == o,
        probe::options_of(seq!["--basedir"@], 0, o) == o,
        probe::options_of(seq!["--limit"@], 0, o) == o,
{
    let other = seq![value] + rest;
    assert(other.skip(1) =~= rest);
    lemma_shifted(other, 1, o);
    reveal_strlit("--basedir");
    reveal_strlit("--query");
    reveal_strlit("--limit");
    reveal_strlit("--archive");
    reveal_strlit("--reindex");
    assert("--basedir"@.len() == 9 && "--query"@.len() == 7 && "--limit"@.len() == 7);
    assert("--archive"@.len() == 9 && "--reindex"@.len() == 9);
    assert("--query"@[2] == 'q' && "--limit"@[2] == 'l');
    assert("--basedir"@[2] == 'b' && "--archive"@[2] == 'a' && "--reindex"@[2] == 'r');
    let q = seq!["--query"@, value] + rest;
    let b = seq!["--basedir"@, value] + rest;
    let l = seq!["--limit"@, value] + rest;
    let a = seq!["--archive"@] + rest;
    let r = seq!["--reindex"@] + rest;
    assert(q.skip(2) =~= rest && b.skip(2) =~= rest && l.skip(2) =~= rest);
    assert(a.skip(1) =~= rest && r.skip(1) =~= rest);
    lemma_shifted(q, 2, ProbeView { query: value, ..o });
    lemma_shifted(b, 2, ProbeView { basedir: value, ..o });
    lemma_shifted(l, 2, ProbeView { limit: probe::limit_of(value), ..o });
    lemma_shifted(a, 1, ProbeView { archive: true, ..o });
    lemma_shifted(r, 1, ProbeView { reindex: true, ..o });
}

/// The limit is the number that is given, and at least one.
pub proof fn law_the_limit_is_the_number_given(n: u64)
    requires
        n <= usize::MAX,
    ensures
        n > 0 ==> probe::limit_of(numerals::decimal(n as nat)) == n,
        n == 0 ==> probe::limit_of(numerals::decimal(n as nat)) == 1,
{
    numerals::law_number_read_back(n);
}

/// A probe prints every row, whole, in order, behind its number.
pub proof fn law_a_probe_prints_every_row(rows: Seq<Seq<char>>, i: int)
    requires
        0 <= i < rows.len(),
    ensures
        probe::report_lines(rows).len() == rows.len(),
        probe::report_lines(rows)[i] == numerals::decimal((i + 1) as nat) + ". "@ + rows[i],
{
}

// ---------------------------------------------------------------------------------------
// The base directory

/// The base directory gets the directories for the settings, the prompts, the memory, the
/// transcripts, the state and the logs.
pub proof fn law_the_base_gets_its_directories(basedir: Seq<char>)
    ensures
        ({
            let all = config::first_directories(basedir);
            &&& all.contains(paths::joined(basedir, "conf"@))
            &&& all.contains(paths::joined(paths::joined(basedir, "conf"@), "prompts"@))
            &&& all.contains(paths::joined(basedir, "memory"@))
            &&& all.contains(paths::joined(basedir, "transcripts"@))
            &&& all.contains(paths::joined(basedir, "state"@))
            &&& all.contains(paths::joined(basedir, "logs"@))
        }),
{
    let all = config::first_directories(basedir);
    assert(all[0] == paths::joined(basedir, "conf"@));
    assert(all[1] == paths::joined(paths::joined(basedir, "conf"@), "prompts"@));
    assert(all[2] == paths::joined(basedir, "memory"@));
    assert(all[3] == paths::joined(basedir, "transcripts"@));
    assert(all[4] == paths::joined(basedir, "state"@));
    assert(all[5] == paths::joined(basedir, "logs"@));
}

/// The base directory gets the files of the persona, which may be filled again, and the settings
/// and prompts, which are left alone.
pub proof fn law_the_base_gets_its_files(basedir: Seq<char>, i: int)
    requires
        0 <= i < config::first_files(basedir).len(),
    ensures
        ({
            let all = config::first_files(basedir);
            let conf = paths::joined(basedir, "conf"@);
            let prompts = paths::joined(conf, "prompts"@);
            &&& all.len() == 8
            &&& all[0].path == paths::joined(basedir, "SOUL.md"@) && all[0].content
                == config::SOUL_TEXT@
            &&& all[1].path == paths::joined(basedir, "IDENTITY.md"@) && all[1].content
                == config::IDENTITY_TEXT@
            &&& all[2].path == paths::joined(basedir, "USER.md"@) && all[2].content
                == config::USER_TEXT@
            &&& all[3].path == paths::joined(basedir, "AGENT.md"@) && all[3].content
                == config::AGENT_TEXT@
            &&& all[4].path == paths::joined(conf, "config.json"@) && all[4].content
                == config::CONFIG_TEXT@
            &&& all[5].path == paths::joined(prompts, "main_system.md"@) && all[5].content
                == config::MAIN_PROMPT_TEXT@
            &&& all[6].path == paths::joined(prompts, "curator_system.md"@) && all[6].content
                == config::CURATOR_PROMPT_TEXT@
            &&& all[7].path == paths::joined(prompts, "cron_system.md"@) && all[7].content
                == config::CRON_PROMPT_TEXT@
            &&& all[i].enrich <==> i < 4
        }),
{
}

/// A transcript that lies in a directory of a base directory has that base; one that lies in none
/// has none.
pub proof fn law_the_base_lies_above_the_transcripts(
    base: Seq<char>,
    dir: Seq<char>,
    name: Seq<char>,
)
    requires
        paths::tidy_end(base, paths::body_start(base)) == base,
        dir.len() > 0 && dir != seq!['.'] && !dir.contains('/'),
        name.len() > 0 && name != seq!['.'] && !name.contains('/'),
    ensures
        storage::grandparent(paths::joined(paths::joined(base, dir), name)) == Some(base),
        paths::parent_of(paths::joined(base, name)) == Some(base),
        storage::grandparent(Seq::empty()) is None,
{
    paths::law_parent_of_joined(base, dir);
    paths::law_parent_of_joined(paths::joined(base, dir), name);
    paths::law_parent_of_joined(base, name);
}

/// A probe without arguments searches its usual base directory for nothing, gives five rows, and
/// leaves the archive and the index alone.
pub proof fn law_a_bare_probe_is_modest()
    ensures
        ({
            let o = probe::options_of(Seq::empty(), 0, probe::default_options());
            &&& o.basedir == "./basedir"@
            &&& o.query.len() == 0
            &&& o.limit == 5
            &&& !o.archive
            &&& !o.reindex
        }),
{
}

/// A limit that is no number counts as five.
pub proof fn law_an_unreadable_limit_is_five(s: Seq<char>)
    requires
        numerals::unsigned_of(s) is None,
    ensures
        probe::limit_of(s) == 5,
{
}

/// A flag is found wherever it stands among the arguments.
pub proof fn law_a_flag_is_found_anywhere(
    before: Seq<Seq<char>>,
    flag: Seq<char>,
    after: Seq<Seq<char>>,
)
    ensures
        config::flagged(before + seq![flag] + after, flag),
        !before.contains(flag) ==> !config::flagged(before, flag),
{
    assert((before + seq![flag] + after)[before.len() as int] == flag);
}

/// The files that are read for the persona and the prompts are those that the base directory
/// starts with.
pub proof fn law_what_is_read_is_what_was_made(basedir: Seq<char>)
    ensures
        persona::files_under(basedir).len() == 5,
        forall|i: int|
            0 <= i < 4 ==> #[trigger] persona::files_under(basedir)[i] == config::first_files(
                basedir,
            )[i].path,
        persona::files_under(basedir)[4] == config::first_files(basedir)[5].path,
        curator::prompt_file(basedir) == config::first_files(basedir)[6].path,
{
}

} // verus!
