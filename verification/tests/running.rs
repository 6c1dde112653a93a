use oxiclaw::config::{self, AppConfig, Environment, FileConfig, HttpConfig, LlmConfig, RuntimeConfig, TelegramConfig};
use oxiclaw::cron_store::{self, CronJob, CronRun, CronStore, RunStatus};
use oxiclaw::http;
use oxiclaw::json;
use oxiclaw::persona::{self, PersonaFiles};
use oxiclaw::probe;
use oxiclaw::runtime::{self, Command, CronCommand, CronFault, RuntimeEvent, SupervisorEvent, SystemRun, SystemRunOutput, WorkerAction};
use oxiclaw::session::Session;
use oxiclaw::storage::TranscriptStore;
use oxiclaw::telegram::{self, IncomingMessage, PollStep, Update, UpdateStep, Welcomed};

fn texts(v: &[&str]) -> Vec<String> {
    v.iter().map(|s| s.to_string()).collect()
}

fn no_variables() -> Environment {
    Environment {
        oxiclaw_basedir: None, griffe_basedir: None, openai_api_key: None, openclaw_gateway_token: None,
        openai_model: None, openclaw_model: None, openai_base_url: None, openclaw_base_url: None,
        oxiclaw_telegram_enabled: None, griffe_telegram_enabled: None, telegram_bot_token: None,
        telegram_default_chat_id: None,
    }
}

fn no_file() -> FileConfig {
    FileConfig { llm: None, http: None, telegram: None, runtime: None }
}

#[test]
fn the_base_directory_comes_from_the_arguments() {
    assert_eq!(config::parse_basedir_arg(&texts(&["p", "--basedir", "x", "--basedir=y"])), Some("x".to_string()));
    assert_eq!(config::parse_basedir_arg(&texts(&["p", "--basedir=é/y"])), Some("é/y".to_string()));
    assert_eq!(config::parse_basedir_arg(&texts(&["p", "--basedir="])), Some("".to_string()));
    assert_eq!(config::parse_basedir_arg(&texts(&["p", "--basedir"])), None);
    assert_eq!(config::parse_basedir_arg(&texts(&["--http"])), None);
    assert!(config::has_flag(&texts(&["p", "--http"]), "--http"));
    assert!(!config::has_flag(&texts(&["p", "--https"]), "--http"));
}

#[test]
fn the_base_directory_has_three_sources() {
    let mut env = no_variables();
    assert_eq!(config::choose_basedir(None, &env), "runtime");
    env.griffe_basedir = Some("g".to_string());
    assert_eq!(config::choose_basedir(None, &env), "g");
    env.oxiclaw_basedir = Some("o".to_string());
    assert_eq!(config::choose_basedir(None, &env), "o");
    assert_eq!(config::choose_basedir(Some("a".to_string()), &env), "a");
}

#[test]
fn a_key_is_needed() {
    let e = AppConfig::from_env_and_args("b".to_string(), &no_variables(), &no_file(), "d").err().unwrap();
    assert_eq!(e, "OPENAI_API_KEY manquante (ou OPENCLAW_GATEWAY_TOKEN, ou conf/config.json.llm.api_key)");
}

#[test]
fn settings_fall_back_to_what_is_built_in() {
    let mut env = no_variables();
    env.openclaw_gateway_token = Some("k".to_string());
    let c = AppConfig::from_env_and_args("b".to_string(), &env, &no_file(), "2026-01-02").ok().unwrap();
    assert_eq!(c.api_key, "k");
    assert_eq!(c.model, "openai-codex/gpt-5.3-codex");
    assert_eq!(c.endpoint, "https://api.openai.com/v1/chat/completions");
    assert_eq!(c.conf_file, "b/conf/config.json");
    assert_eq!(c.transcripts_file, "b/transcripts/session-2026-01-02.jsonl");
    assert_eq!(c.memory_index_file, "b/memory/index-2026-01-02.json");
    assert_eq!(c.cron_db_file, "b/state/cron.sqlite");
    assert_eq!((c.http_host.as_str(), c.http_port), ("127.0.0.1", 8787));
    assert!(!c.telegram_enabled && c.telegram_bot_token.is_none() && c.telegram_default_chat_id.is_none());
    assert_eq!(c.max_turn_steps, 10);
}

#[test]
fn variables_go_before_the_file() {
    let mut env = no_variables();
    env.openai_model = Some("m".to_string());
    env.openai_base_url = Some("http://h".to_string());
    env.griffe_telegram_enabled = Some("on".to_string());
    env.telegram_bot_token = Some(" ".to_string());
    let file = FileConfig {
        llm: Some(LlmConfig { api_key: Some("f".to_string()), model: Some("fm".to_string()), base_url: Some("fb".to_string()) }),
        http: Some(HttpConfig { host: "0.0.0.0".to_string(), port: 1 }),
        telegram: Some(TelegramConfig { enabled: false, bot_token: Some("tok".to_string()), default_chat_id: Some(" ".to_string()) }),
        runtime: Some(RuntimeConfig { max_turn_steps: Some(1000) }),
    };
    let c = AppConfig::from_env_and_args("b".to_string(), &env, &file, "d").ok().unwrap();
    assert_eq!((c.api_key.as_str(), c.model.as_str()), ("f", "m"));
    assert_eq!(c.endpoint, "http://h/v1/chat/completions");
    assert_eq!((c.http_host.as_str(), c.http_port, c.max_turn_steps), ("0.0.0.0", 1, 64));
    assert!(c.telegram_enabled);
    assert_eq!(c.telegram_bot_token.as_deref(), Some("tok"));
    assert!(c.telegram_default_chat_id.is_none());
}

#[test]
fn turn_steps_are_bounded() {
    let mut env = no_variables();
    env.openai_api_key = Some("k".to_string());
    let steps = |n: Option<usize>| {
        let file = FileConfig { runtime: Some(RuntimeConfig { max_turn_steps: n }), ..no_file() };
        AppConfig::from_env_and_args("b".to_string(), &env, &file, "d").ok().unwrap().max_turn_steps
    };
    assert_eq!((steps(Some(0)), steps(Some(7)), steps(Some(65)), steps(None)), (1, 7, 64, 10));
}

#[test]
fn the_layout_is_made_once() {
    let l = config::init_layout("b");
    assert_eq!(l.directories, ["b/conf", "b/conf/prompts", "b/memory", "b/transcripts", "b/state", "b/logs"]);
    let paths: Vec<&str> = l.files.iter().map(|f| f.path.as_str()).collect();
    assert_eq!(
        paths,
        [
            "b/SOUL.md", "b/IDENTITY.md", "b/USER.md", "b/AGENT.md", "b/conf/config.json", "b/conf/prompts/main_system.md",
            "b/conf/prompts/curator_system.md", "b/conf/prompts/cron_system.md",
        ]
    );
    for f in &l.files {
        assert!(f.needs_writing(&None));
        assert!(!f.needs_writing(&Some(f.content.clone())));
        assert_eq!(f.needs_writing(&Some("court".to_string())), f.path.matches('/').count() == 1);
        assert_eq!(f.needs_writing(&Some(format!(" {} ", "x".repeat(39)))), f.enrich);
        assert!(!f.needs_writing(&Some("x".repeat(40))));
    }
    assert!(l.files[0].content.starts_with("# SOUL\n\nTu es OxiClaw.\n"));
    let settings: serde_json::Value = serde_json::from_str(&l.files[4].content).unwrap();
    assert_eq!(settings["llm"]["model"], "kimi-k2-0905-preview");
    assert_eq!(settings["llm"]["base_url"], "https://api.moonshot.ai/v1");
    assert_eq!((&settings["http"]["host"], &settings["http"]["port"]), (&"127.0.0.1".into(), &8787.into()));
    assert_eq!((&settings["telegram"]["enabled"], &settings["runtime"]["max_turn_steps"]), (&false.into(), &10.into()));
}

#[test]
fn the_prompt_is_put_together() {
    let files = PersonaFiles {
        soul: Some("S".to_string()), identity: None, user: Some("U".to_string()), agent: None, protocol: Some("P".to_string()),
    };
    assert_eq!(
        persona::build_system_prompt(&files, "[]"),
        "P\n\nS\n\n# IDENTITY\n\n- Name: OxiClaw\n- Engine: OxiClaw\n\nU\n\n# AGENT\n\n- SOUL.md est immuable\n- Utilise info_append pour enrichir AGENT.md/USER.md\n\nTOOLS DISPONIBLES (JSON):\n[]"
    );
    let none = PersonaFiles { soul: None, identity: None, user: None, agent: None, protocol: None };
    let p = persona::build_system_prompt(&none, "x");
    assert!(p.starts_with("PROTOCOLE DE SORTIE:\n- Si tu as besoin d'un outil"));
    assert!(p.contains("\n\n# SOUL\n\nTu es OxiClaw: clair, calme, utile.\n\n"));
    let at = persona::persona_paths("b");
    assert_eq!((at.soul.as_str(), at.protocol.as_str()), ("b/SOUL.md", "b/conf/prompts/main_system.md"));
}

#[test]
fn a_transcript_lies_two_steps_under_its_base() {
    let s = TranscriptStore::new("b/transcripts/session-x.jsonl".to_string(), "i".to_string()).ok().unwrap();
    assert_eq!((s.basedir(), s.file()), ("b", "b/transcripts/session-x.jsonl"));
    let l = s.line("t", "sid", "user", "c");
    assert_eq!((l.ts.as_str(), l.session_id.as_str(), l.role.as_str(), l.content.as_str()), ("t", "sid", "user", "c"));
    assert_eq!(TranscriptStore::new("x".to_string(), "i".to_string()).err().unwrap(), "chemin transcripts invalide");
    assert_eq!(TranscriptStore::new("/".to_string(), "i".to_string()).err().unwrap(), "chemin transcripts invalide");
}

#[test]
fn commands_are_recognized() {
    for s in ["/quit", "quit", "exit"] {
        assert!(matches!(runtime::parse_line(s), Command::Quit));
    }
    assert!(matches!(runtime::parse_line("/help"), Command::Help));
    assert!(matches!(runtime::parse_line("/reload-persona"), Command::ReloadPersona));
    assert!(matches!(runtime::parse_line("/reset"), Command::Reset));
    assert!(matches!(runtime::parse_line("/curate"), Command::Curate));
    assert!(matches!(runtime::parse_line("/curator-start"), Command::CuratorStart));
    assert!(matches!(runtime::parse_line("/curator-stop"), Command::CuratorStop));
    assert!(matches!(runtime::parse_line("/workers"), Command::Workers));
    assert!(matches!(runtime::parse_line("/help me"), Command::Turn(ref s) if s == "/help me"));
    assert!(runtime::help_text().starts_with("/help            -> afficher l'aide\n"));
    assert_eq!(runtime::help_text().lines().count(), 14);
}

#[test]
fn cron_commands_are_recognized() {
    let cron = |s: &str| match runtime::parse_line(s) {
        Command::Cron(c) => c,
        _ => panic!(),
    };
    assert!(matches!(cron("/cron status"), CronCommand::Status));
    assert!(matches!(cron("/cron  list x"), CronCommand::List));
    assert!(matches!(cron("/cron add-curator-nightly"), CronCommand::AddCuratorNightly));
    assert!(matches!(cron("/cron add-notify  boire   du thé"), CronCommand::AddNotify(ref s) if s == "boire du thé"));
    assert!(matches!(cron("/cron add-notify "), CronCommand::Usage(ref s) if s == "usage: /cron add-notify <texte>"));
    assert!(matches!(cron("/cron run j1 j2"), CronCommand::Run(ref s) if s == "j1"));
    assert!(matches!(cron("/cron run"), CronCommand::Usage(ref s) if s == "usage: /cron run <job_id>"));
    assert!(matches!(cron("/cron runs j"), CronCommand::Runs(ref s) if s == "j"));
    assert!(matches!(cron("/cron runs"), CronCommand::Usage(ref s) if s == "usage: /cron runs <job_id>"));
    for s in ["/cron", "/cron x", "/cronlist"] {
        assert!(matches!(cron(s), CronCommand::Usage(ref u) if u == "usage: /cron status|list|add-curator-nightly|add-notify <texte>|run <job_id>|runs <job_id>"));
    }
}

#[test]
fn a_failed_question_leaves_no_trace() {
    let mut s = Session::with_id("p".to_string(), "id".to_string());
    s.push_user("q".to_string());
    let end = runtime::finish_turn(&mut s, Err("réseau".to_string()));
    assert_eq!(s.messages().len(), 1);
    assert!(matches!(end.event, RuntimeEvent::Info(ref t) if t == "[erreur LLM] réseau"));
    assert_eq!((end.role.as_str(), end.content.as_str()), ("error", "réseau"));
    s.push_user("q".to_string());
    s.push_assistant("a".to_string());
    let end = runtime::finish_turn(&mut s, Ok("a".to_string()));
    assert!(matches!(end.event, RuntimeEvent::Reply(ref t) if t == "a"));
    assert_eq!((end.role.as_str(), s.messages().len()), ("assistant", 3));
}

#[test]
fn sessions_are_reset_and_reloaded() {
    let mut s = Session::with_id("p".to_string(), "id".to_string());
    s.push_user("q".to_string());
    assert_eq!(
        runtime::reload_session(&mut s, "p2".to_string()),
        "[reload-persona] prompt rechargé depuis SOUL/IDENTITY/USER/AGENT"
    );
    let (note, answer) = runtime::reset_session(&mut s);
    assert_eq!((note.as_str(), answer.as_str()), ("[reset] Historique vidé.", "Historique vidé."));
    assert_eq!(s.messages().len(), 1);
    assert_eq!(s.messages()[0].content, "p2");
    assert_ne!(s.session_id(), "id");
    assert_eq!(runtime::reload_reply(Ok(())), "Persona rechargée.");
    assert_eq!(runtime::reload_reply(Err("x".to_string())), "[erreur persona] x");
    assert_eq!(runtime::curate_reply(Ok("m".to_string())), "m");
    assert_eq!(runtime::curate_reply(Err("x".to_string())), "[erreur curator] x");
}

#[test]
fn worker_reports_are_recorded() {
    let mut s = Session::with_id("p".to_string(), "id".to_string());
    let m = || "m".to_string();
    let cases = vec![
        (SupervisorEvent::CuratorStarted, "[worker] curator started"),
        (SupervisorEvent::CuratorTickOk(m()), "[worker] curator ok: m"),
        (SupervisorEvent::CuratorTickErr(m()), "[worker] curator error: m"),
        (SupervisorEvent::CuratorStopped, "[worker] curator stopped"),
        (SupervisorEvent::CronStarted, "[worker] cron started"),
        (SupervisorEvent::CronRunOk(m()), "[worker] cron ok: m"),
        (SupervisorEvent::CronRunErr(m()), "[worker] cron error: m"),
    ];
    for (ev, expected) in cases {
        assert_eq!(runtime::absorb_event(&mut s, ev), expected);
    }
    assert_eq!(s.messages().len(), 1);
    assert_eq!(runtime::absorb_event(&mut s, SupervisorEvent::CronNotify(m())), "[cron notify] m");
    assert_eq!(s.messages()[1].content, "[cron notify] m");
    assert_eq!(s.messages()[1].role, "system");
}

#[test]
fn the_curator_worker_ticks() {
    assert_eq!(runtime::curator_interval(&None), 300);
    for (v, n) in [("9", 300), ("10", 10), ("x", 300), ("-1", 300), ("3600", 3600)] {
        assert_eq!(runtime::curator_interval(&Some(v.to_string())), n);
    }
    assert_eq!(runtime::start_reply(true, 300), "curator-worker: déjà démarré");
    assert_eq!(runtime::start_reply(false, 300), "curator-worker: démarré (tick=300s, OXICLAW_CURATOR_INTERVAL_SECS)");
    assert_eq!(runtime::stop_reply(true), "curator-worker: arrêt demandé");
    assert_eq!(runtime::stop_reply(false), "curator-worker: déjà arrêté");
    assert_eq!(runtime::workers_status(true, false, "d"), "workers:\n- curator: running\n- cron: stopped\ncron:\n- db: d");
}

fn job() -> CronJob {
    CronJob {
        id: "j".to_string(), name: None, schedule_kind: "at".to_string(), payload_kind: "systemEvent".to_string(),
        session_target: "main".to_string(), enabled: true, next_run_at: Some("1970-01-01T00:01:40Z".to_string()), last_run_at: None,
    }
}

#[test]
fn cron_answers_are_laid_out() {
    let x = || "x".to_string();
    assert_eq!(runtime::cron_status_reply("d"), "cron: ok\n- db: d");
    assert_eq!(runtime::cron_list_reply(Ok(vec![])), "cron: aucun job");
    assert_eq!(runtime::cron_list_reply(Err(x())), "cron list: erreur: x");
    assert_eq!(
        runtime::cron_list_reply(Ok(vec![job()])),
        "cron: 1 job(s)\n- j | (sans nom) | schedule=at | payload=systemEvent | target=main | enabled=true | next=1970-01-01T00:01:40Z | last=-"
    );
    assert_eq!(runtime::cron_added_reply(Ok(x())), "cron add: ok\n- job_id: x\n- name: curator-nightly");
    assert_eq!(runtime::cron_added_reply(Err(x())), "cron add: erreur: x");
    assert_eq!(runtime::cron_notify_reply(Ok(x()), Ok("r".to_string())), "cron add-notify: ok\n- job_id: x\n- run_id: r");
    assert_eq!(runtime::cron_notify_reply(Ok(x()), Err("e".to_string())), "cron add-notify: job créé mais run ko: e");
    assert_eq!(runtime::cron_notify_reply(Err(x()), Ok("r".to_string())), "cron add-notify: erreur: x");
    assert_eq!(runtime::cron_run_reply("j", Ok(x())), "cron run: queued\n- job_id: j\n- run_id: x");
    assert_eq!(runtime::cron_run_reply("j", Err(x())), "cron run: erreur: x");
    assert_eq!(runtime::cron_runs_reply("j", Ok(vec![])), "cron runs: aucun run pour j");
    assert_eq!(runtime::cron_runs_reply("j", Err(x())), "cron runs: erreur: x");
    let run = CronRun {
        run_id: "r".to_string(), job_id: "j".to_string(), status: "queued".to_string(),
        trigger_source: "manual".to_string(), created_at: "t".to_string(),
    };
    assert_eq!(runtime::cron_runs_reply("j", Ok(vec![run])), "cron runs: j\n- r | job=j | status=queued | trigger=manual | at=t");
}

#[test]
fn jobs_are_due_when_their_time_has_come() {
    assert!(!job().is_due(99));
    assert!(job().is_due(100));
    let off = CronJob { enabled: false, ..job() };
    let broken = CronJob { next_run_at: Some("bientôt".to_string()), ..job() };
    let never = CronJob { next_run_at: None, ..job() };
    assert!(!off.is_due(1000) && !broken.is_due(1000) && !never.is_due(1000));
    assert_eq!(cron_store::enqueue_due_jobs(&vec![off, job(), never, job()], 1000), ["j", "j"]);
    assert!(cron_store::is_time(true, Some(-5), 0) && !cron_store::is_time(true, Some(1), 0));
}

#[test]
fn jobs_carry_their_payloads() {
    let n = cron_store::curator_nightly_job();
    assert_eq!(n.payload_json, "{\"data\":{\"mode\":\"incremental\",\"window\":\"24h\"},\"type\":\"curate\",\"version\":1}");
    assert_eq!(n.schedule_json, "{\"expr\":\"0 2 * * *\",\"kind\":\"cron\",\"tz\":\"Europe/Paris\"}");
    assert_eq!((n.name.as_deref(), n.schedule_kind.as_str(), n.session_target.as_str(), n.next_run_at), (Some("curator-nightly"), "cron", "main", None));
    let n = cron_store::notify_job("dis \"bonjour\"", "t");
    assert_eq!(n.payload_json, "{\"data\":{\"message\":\"dis \\\"bonjour\\\"\"},\"type\":\"notify\",\"version\":1}");
    assert_eq!(n.schedule_json, "{\"at\":\"t\",\"kind\":\"at\"}");
    assert_eq!((n.name.as_deref(), n.payload_kind.as_str(), n.next_run_at.as_deref()), (Some("notify-once"), "systemEvent", Some("t")));
    let n = cron_store::agent_turn_job("m", "t");
    assert_eq!((n.payload_json.as_str(), n.payload_kind.as_str(), n.session_target.as_str()), ("{\"message\":\"m\"}", "agentTurn", "isolated"));
}

#[test]
fn a_notification_job_notifies_with_its_message() {
    let message = "ligne \"1\"\n\u{1}\t\\ é 😀";
    let job = cron_store::notify_job(message, "t");
    match runtime::execute_system_run(&job.payload_kind, &job.payload_json, "m") {
        Ok(SystemRun::Done(out)) => {
            assert_eq!(out.notify_main.as_deref(), Some(message));
            let v = json::parse_json(&out.output_json).ok().unwrap();
            assert_eq!(v.text_at("message").as_deref(), Some(message));
            assert_eq!(v.text_at("event").as_deref(), Some("notify"));
            assert_eq!(v.bool_at("ok"), Some(true));
        }
        _ => panic!(),
    }
}

#[test]
fn the_other_jobs_curate_and_ask() {
    let job = cron_store::curator_nightly_job();
    assert!(matches!(runtime::execute_system_run(&job.payload_kind, &job.payload_json, "m"), Ok(SystemRun::Curate)));
    let job = cron_store::agent_turn_job("résume", "t");
    match runtime::execute_system_run(&job.payload_kind, &job.payload_json, "m") {
        Ok(SystemRun::Ask(r)) => {
            assert_eq!(r.model, "m");
            assert_eq!(r.messages[0].content, "Tu es un sous-agent cron. Réponds de manière concise et actionnable.");
            assert_eq!((r.messages[1].role.as_str(), r.messages[1].content.as_str()), ("user", "résume"));
        }
        _ => panic!(),
    }
    match runtime::execute_system_run("agentTurn", "{\"message\":\"x\",\"model\":\"autre\"}", "m") {
        Ok(SystemRun::Ask(r)) => assert_eq!(r.model, "autre"),
        _ => panic!(),
    }
}

#[test]
fn runs_that_cannot_be_are_named() {
    let err = |kind: &str, payload: &str| runtime::execute_system_run(kind, payload, "m").err().unwrap();
    assert_eq!(err("x", "pas du json"), "payload_kind non supporté: x");
    assert_eq!(err("systemEvent", "{\"type\":\"y\"}"), "systemEvent non supporté: y");
    assert_eq!(err("systemEvent", "{}"), "systemEvent non supporté: unknown");
    assert_eq!(err("agentTurn", "{}"), "agentTurn: message manquant");
    let inner = serde_json::from_str::<serde_json::Value>("{").unwrap_err().to_string();
    assert_eq!(err("systemEvent", "{"), inner);
    assert_eq!(err("agentTurn", "{"), inner);
    match runtime::execute_system_run("systemEvent", "{\"type\":\"notify\",\"data\":{}}", "m") {
        Ok(SystemRun::Done(out)) => assert_eq!(out.notify_main.as_deref(), Some("notification")),
        _ => panic!(),
    }
}

#[test]
fn outputs_are_recorded() {
    let out = runtime::curate_output("fait");
    assert_eq!(out.output_json, "{\"event\":\"curate\",\"message\":\"fait\",\"ok\":true}");
    assert!(out.notify_main.is_none());
    let out = runtime::turn_output(&"é".repeat(301));
    assert_eq!(out.output_json, format!("{{\"answer\":\"{}\",\"kind\":\"agentTurn\",\"ok\":true}}", "é".repeat(301)));
    assert_eq!(out.notify_main, Some(format!("[cron agentTurn] {}", "é".repeat(300))));
}

#[test]
fn faults_are_named_and_chats_are_numbers() {
    for (f, expected) in [
        (CronFault::Enqueue, "enqueue error: e"),
        (CronFault::Store, "store error: e"),
        (CronFault::Telegram, "notify telegram error: e"),
    ] {
        assert!(matches!(runtime::cron_fault(f, "e"), SupervisorEvent::CronRunErr(ref s) if s == expected));
    }
    let some = |s: &str| Some(s.to_string());
    assert_eq!(runtime::notify_target(&some("t"), &some(" -5 ")), Some(("t".to_string(), -5)));
    assert_eq!(runtime::notify_target(&None, &some("5")), None);
    assert_eq!(runtime::notify_target(&some("t"), &some("x")), None);
    assert_eq!(runtime::notify_target(&some("t"), &None), None);
}

fn action(a: &WorkerAction) -> String {
    match a {
        WorkerAction::Execute => "execute".to_string(),
        WorkerAction::Sleep { seconds } => format!("sleep {seconds}"),
        WorkerAction::RecordSuccess { run_id, output_json } => format!("ok {run_id} {output_json}"),
        WorkerAction::RecordFailure { run_id, error } => format!("failed {run_id} {error}"),
        WorkerAction::SendTelegram { token, chat_id, text } => format!("send {token} {chat_id} {text}"),
        WorkerAction::Report(SupervisorEvent::CronNotify(s)) => format!("notify {s}"),
        WorkerAction::Report(SupervisorEvent::CronRunOk(s)) => format!("report {s}"),
        WorkerAction::Report(SupervisorEvent::CronRunErr(s)) => format!("report error {s}"),
        WorkerAction::Report(_) => panic!(),
    }
}

#[test]
fn the_worker_executes_or_waits() {
    let actions = |c: Result<bool, String>| runtime::after_claim(c).iter().map(action).collect::<Vec<_>>();
    assert_eq!(actions(Ok(true)), ["execute"]);
    assert_eq!(actions(Ok(false)), ["sleep 5"]);
    assert_eq!(actions(Err("e".to_string())), ["report error store error: e", "sleep 5"]);
}

#[test]
fn runs_are_recorded_and_reported() {
    let output = |notify: Option<&str>| SystemRunOutput {
        output_json: "{}".to_string(),
        notify_main: notify.map(|s| s.to_string()),
    };
    let actions = |r: Result<SystemRunOutput, String>, t: Option<(String, i64)>| {
        runtime::after_run("j", "r", r, t).iter().map(action).collect::<Vec<_>>()
    };
    let chat = || Some(("t".to_string(), 7));
    assert_eq!(actions(Ok(output(None)), chat()), ["ok r {}", "report job=j run=r ok"]);
    assert_eq!(actions(Ok(output(Some("m"))), None), ["ok r {}", "notify m", "report job=j run=r ok"]);
    assert_eq!(actions(Ok(output(Some("m"))), chat()), ["ok r {}", "send t 7 m", "notify m", "report job=j run=r ok"]);
    assert_eq!(actions(Err("e".to_string()), chat()), ["failed r e", "report error job=j run=r err=e"]);
}

#[test]
fn a_run_lives_once() {
    let s = RunStatus::Queued;
    assert_eq!(s.word(), "queued");
    let s = s.claimed().unwrap();
    assert_eq!(s.word(), "running");
    assert!(s.claimed().is_none());
    assert_eq!(s.finished(true).unwrap().word(), "succeeded");
    let s = s.finished(false).unwrap();
    assert_eq!(s.word(), "failed");
    assert!(s.claimed().is_none() && s.finished(true).is_none());
    assert!(RunStatus::Queued.finished(true).is_none());
    assert_eq!((RunStatus::TimedOut.word().as_str(), RunStatus::Cancelled.word().as_str()), ("timed_out", "cancelled"));
}

#[test]
fn the_tables_are_made() {
    let store = CronStore::init("b/state/cron.sqlite".to_string());
    assert_eq!(store.db_path(), "b/state/cron.sqlite");
    let c = rusqlite::Connection::open_in_memory().unwrap();
    c.execute_batch(&store.init_statements()).unwrap();
    let insert = |kind: &str| {
        c.execute(
            "INSERT INTO cron_jobs(id, schedule_kind, schedule_json, payload_kind, payload_json, session_target) VALUES(?1, ?2, '{}', 'systemEvent', '{}', 'main')",
            [kind, kind],
        )
    };
    assert!(insert("at").is_ok() && insert("every").is_ok() && insert("cron").is_ok());
    assert!(insert("autre").is_err());
    for t in ["cron_jobs", "cron_job_runs", "cron_scheduler_state"] {
        let n: i64 = c
            .query_row("SELECT count(*) FROM sqlite_master WHERE type='table' AND name=?1", [t], |r| r.get(0))
            .unwrap();
        assert_eq!(n, 1);
    }
}

#[test]
fn telegram_commands_lose_the_bot_s_name() {
    for (given, expected) in [
        ("  bonjour  ", "bonjour"),
        ("/help@oxi_bot", "/help"),
        ("/cron@oxi_bot   add-notify  un  thé ", "/cron add-notify  un  thé"),
        ("/cron\n list", "/cron list"),
        ("/", "/"),
        ("/@x y", "/ y"),
        ("a/b @c", "a/b @c"),
        ("", ""),
    ] {
        assert_eq!(telegram::normalize_telegram_command(given), expected);
    }
}

#[test]
fn normalizing_twice_changes_nothing() {
    for s in ["  bonjour  ", "/cron@oxi_bot   add-notify  un  thé ", "/@x y", "/a@b@c", ""] {
        let once = telegram::normalize_telegram_command(s);
        assert_eq!(telegram::normalize_telegram_command(&once), once);
    }
}

#[test]
fn only_the_allowed_chat_is_answered() {
    let update = |chat_id: i64, text: Option<&str>| Update {
        update_id: 7,
        message: Some(IncomingMessage { chat_id, text: text.map(|s| s.to_string()) }),
    };
    assert!(matches!(telegram::triage(&update(1, Some(" /help@b ")), Some(1)), UpdateStep::Answer { chat_id: 1, ref text } if text == "/help"));
    assert!(matches!(telegram::triage(&update(2, Some("x")), Some(1)), UpdateStep::Refuse(2)));
    assert!(matches!(telegram::triage(&update(2, Some("x")), None), UpdateStep::Answer { chat_id: 2, .. }));
    assert!(matches!(telegram::triage(&update(2, Some("  ")), Some(1)), UpdateStep::Ignore));
    assert!(matches!(telegram::triage(&update(1, None), Some(1)), UpdateStep::Ignore));
    assert!(matches!(telegram::triage(&Update { update_id: 7, message: None }, None), UpdateStep::Ignore));
    assert_eq!(telegram::next_offset(7), 8);
    assert_eq!(telegram::allowed_chat(&Some(" -100 ".to_string())), Some(-100));
    assert_eq!(telegram::allowed_chat(&Some("moi".to_string())), None);
    assert_eq!(telegram::allowed_chat(&None), None);
}

#[test]
fn events_are_sent_back() {
    let x = || "x".to_string();
    assert_eq!(telegram::greeting("/start"), Some("Salut 👋 Je suis là si tu veux. Dis-moi juste ce qu’on fait.".to_string()));
    assert_eq!(telegram::greeting("/star"), None);
    assert_eq!(telegram::reply_text(RuntimeEvent::Reply(x())), "x");
    assert_eq!(telegram::reply_text(RuntimeEvent::Info(x())), "x");
    assert_eq!(telegram::reply_text(RuntimeEvent::Exit), "Session fermée (/quit ignoré en mode Telegram).");
    assert_eq!(http::reply_text(RuntimeEvent::Reply(x())), "x");
    assert_eq!(http::reply_text(RuntimeEvent::Exit), "Session closed");
}

#[test]
fn probes_read_their_arguments() {
    let o = probe::parse_options(&texts(&[]));
    assert_eq!((o.basedir.as_str(), o.query.as_str(), o.limit, o.archive, o.reindex), ("./basedir", "", 5, false, false));
    let o = probe::parse_options(&texts(&["--query", "--limit", "x", "--limit", "0", "--archive", "--reindex", "--basedir", "b"]));
    assert_eq!((o.basedir.as_str(), o.query.as_str(), o.limit, o.archive, o.reindex), ("b", "--limit", 1, true, true));
    assert_eq!(probe::parse_options(&texts(&["--limit", "abc"])).limit, 5);
    assert_eq!(probe::parse_options(&texts(&["--limit", "12", "--limit"])).limit, 12);
    assert_eq!(probe::report(&vec![]), ["(no results)"]);
    assert_eq!(probe::report(&texts(&["a", "b"])), ["1. a", "2. b"]);
}

#[test]
fn each_chat_is_welcomed_once() {
    let mut w = Welcomed::new();
    assert_eq!(w.welcome(7).as_deref(), Some(telegram::WELCOME));
    assert_eq!(w.welcome(7), None);
    assert_eq!(w.welcome(-3).as_deref(), Some(telegram::WELCOME));
    assert_eq!(w.welcome(7), None);
    assert_eq!(w.welcome(-3), None);
}

#[test]
fn a_failed_request_for_updates_is_reported_and_waited_for() {
    assert!(matches!(telegram::after_poll(Ok(true)), PollStep::Handle));
    match telegram::after_poll(Ok(false)) {
        PollStep::Wait { report, seconds } => {
            assert_eq!((report.as_str(), seconds), ("[telegram] getUpdates returned ok=false", 3));
        }
        PollStep::Handle => panic!(),
    }
    match telegram::after_poll(Err("réseau".to_string())) {
        PollStep::Wait { report, seconds } => {
            assert_eq!((report.as_str(), seconds), ("[telegram] getUpdates error: réseau", 3));
        }
        PollStep::Handle => panic!(),
    }
}

#[test]
fn opening_the_job_store_again_keeps_its_rows() {
    let store = CronStore::init("x.db".to_string());
    let c = rusqlite::Connection::open_in_memory().unwrap();
    c.execute_batch(&store.init_statements()).unwrap();
    c.execute(
        "INSERT INTO cron_jobs (id, schedule_kind, schedule_json, payload_kind, payload_json, session_target) VALUES ('j', 'at', '{}', 'systemEvent', '{}', 'main')",
        [],
    )
    .unwrap();
    c.execute_batch(&store.init_statements()).unwrap();
    let n: i64 = c.query_row("SELECT COUNT(*) FROM cron_jobs", [], |row| row.get(0)).unwrap();
    assert_eq!(n, 1);
    assert_eq!(store.db_path(), "x.db");
}
