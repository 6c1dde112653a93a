use oxiclaw::curator::{
    self, CuratorApply, CuratorConfig, CuratorLlm, CuratorOutput, CuratorPlan, CuratorState, CuratorWindow, DialogueFile,
    DialogueLine,
};

fn config() -> CuratorConfig {
    CuratorConfig { enabled: Some(true), llm: None, window: None, apply: None }
}

fn said(content: &str) -> Option<DialogueLine> {
    Some(DialogueLine { role: "user".to_string(), content: content.to_string() })
}

fn file(name: &str, lines: Vec<Option<DialogueLine>>) -> DialogueFile {
    DialogueFile { name: name.to_string(), lines: Ok(lines) }
}

fn texts(v: &[&str]) -> Vec<String> {
    v.iter().map(|s| s.to_string()).collect()
}

#[test]
fn settings_have_defaults_and_lower_bounds() {
    let c = config();
    assert_eq!((c.max_lines(), c.dry_run(), c.max_additions()), (800, false, 10));
    let c = CuratorConfig {
        enabled: None,
        llm: None,
        window: Some(CuratorWindow { max_lines: Some(3) }),
        apply: Some(CuratorApply { dry_run: Some(true), max_additions_per_run: Some(0) }),
    };
    assert_eq!((c.max_lines(), c.dry_run(), c.max_additions()), (50, true, 1));
}

#[test]
fn the_curator_has_its_files() {
    assert!(curator::default_settings().starts_with("enabled = true\n\n[llm]\n"));
    assert!(curator::default_settings().ends_with("max_additions_per_run = 10\n"));
    assert_eq!(curator::config_path("b"), "b/conf/curator.toml");
    assert_eq!(curator::state_path("b"), "b/state/curator_state.json");
    assert_eq!(curator::prompt_path("b"), "b/conf/prompts/curator_system.md");
}

#[test]
fn the_curator_may_have_a_model_of_its_own() {
    let c = CuratorConfig {
        llm: Some(CuratorLlm {
            base_url: Some("http://h//".to_string()),
            model: Some("own".to_string()),
            api_key_env: Some("VAR".to_string()),
        }),
        ..config()
    };
    assert_eq!(c.endpoint("d"), "http://h/v1/chat/completions");
    assert_eq!(c.model("d"), "own");
    assert_eq!(c.api_key_variable(), Some("VAR".to_string()));
    let c = config();
    assert_eq!((c.endpoint("d").as_str(), c.model("d").as_str(), c.api_key_variable()), ("d", "d", None));
    assert_eq!(curator::choose_api_key(Some("k".to_string()), "d"), "k");
    assert_eq!(curator::choose_api_key(Some(" ".to_string()), "d"), "d");
    assert_eq!(curator::choose_api_key(None, "d"), "d");
}

#[test]
fn endpoints_name_the_version_once() {
    assert_eq!(curator::to_chat_completions_endpoint("https://a/v1/"), "https://a/v1/chat/completions");
    assert_eq!(curator::to_chat_completions_endpoint("https://a"), "https://a/v1/chat/completions");
}

#[test]
fn the_window_holds_the_new_lines() {
    let mut state = CuratorState::fresh();
    state.last_file = Some("session-b.jsonl".to_string());
    state.last_line = 1;
    let files = vec![
        file("session-a.jsonl", vec![said("vieux")]),
        file("session-b.jsonl", vec![said("lu"), None, said("neuf")]),
        file("session-c.jsonl", vec![said("autre")]),
    ];
    let rows = curator::collect_transcript_window(&state, &files, 50).unwrap();
    assert_eq!(rows, ["[session-b.jsonl:3] [user] neuf", "[session-c.jsonl:1] [user] autre"]);
    assert_eq!(curator::collect_transcript_window(&state, &files, 1).unwrap(), ["[session-b.jsonl:3] [user] neuf"]);
}

#[test]
fn an_unreadable_transcript_matters_only_if_it_is_reached() {
    let state = CuratorState::fresh();
    let files = vec![
        file("session-a.jsonl", vec![said("x")]),
        DialogueFile { name: "session-b.jsonl".to_string(), lines: Err("illisible".to_string()) },
    ];
    assert_eq!(curator::collect_transcript_window(&state, &files, 1).unwrap().len(), 1);
    assert_eq!(curator::collect_transcript_window(&state, &files, 2).unwrap_err(), "illisible");
}

#[test]
fn a_run_stops_where_there_is_nothing_to_do() {
    let off = CuratorConfig { enabled: Some(false), ..config() };
    assert!(matches!(curator::plan_run(&off, &CuratorState::fresh(), &vec![]), Ok(CuratorPlan::Stop(ref s)) if s == "curator: désactivé (conf/curator.toml)"));
    assert!(matches!(curator::plan_run(&config(), &CuratorState::fresh(), &vec![]), Ok(CuratorPlan::Stop(ref s)) if s == "curator: rien de nouveau à curer"));
    let files = vec![file("session-a.jsonl", vec![said("x")])];
    assert!(matches!(curator::plan_run(&config(), &CuratorState::fresh(), &files), Ok(CuratorPlan::Ask(ref rows)) if rows.len() == 1));
}

#[test]
fn the_question_holds_the_limit_and_the_rows() {
    let m = curator::curator_messages(7, Some("max __MAX_ADDITIONS__/__MAX_ADDITIONS__".to_string()), &texts(&["a", "b"]));
    assert_eq!((m[0].role.as_str(), m[0].content.as_str()), ("system", "max 7/7"));
    assert_eq!(
        m[1].content,
        "Voici les nouveaux transcripts à curer. Extrait uniquement des faits stables et utiles.\n\na\nb"
    );
    let d = curator::curator_system_prompt(12, None);
    assert_eq!(d, curator::default_curator_prompt().replace("__MAX_ADDITIONS__", "12"));
    assert!(d.contains("max 12 lignes"));
}

#[test]
fn the_json_part_of_a_reply_is_cut_out() {
    assert_eq!(curator::json_part("voici {\"a\":{}} fin").unwrap(), "{\"a\":{}}");
    for s in ["", "rien", "}", "{"] {
        assert!(curator::has_braces_in_order(s));
        assert_eq!(curator::json_part(s).unwrap_err(), "curator: JSON introuvable");
    }
    assert!(curator::has_braces_in_order("}{"));
    assert_eq!(curator::json_part("}{").unwrap(), "");
    assert!(!curator::has_braces_in_order("} {"));
}

#[test]
fn proposals_lose_their_list_marks() {
    for s in [" - x ", "--- y", "-\n z\nw ", "", "- - a"] {
        assert_eq!(curator::sanitize_line(s), s.trim().trim_start_matches('-').trim().replace('\n', " "));
    }
}

#[test]
fn only_fit_and_new_lines_are_taken() {
    let long = "x".repeat(501);
    let proposals = texts(&["- un", "deux", "", "mon password", &long, "un", "UN", "trois"]);
    assert_eq!(curator::apply_lines("déjà deux ici", &proposals, 10), ["un", "UN", "trois"]);
    assert_eq!(curator::apply_lines("", &proposals, 1), ["un"]);
    assert_eq!(curator::apply_lines("", &texts(&["abc", "b"]), 10), ["abc"]);
}

#[test]
fn the_same_proposals_are_taken_once() {
    let proposals = texts(&["un", "deux\nlignes", "un deux"]);
    let taken = curator::apply_lines("fin sans retour", &proposals, 10);
    let mut grown = "fin sans retour".to_string();
    for l in &taken {
        grown.push_str(&curator::addition("2026", l));
    }
    assert_eq!(taken.len(), 3);
    assert!(curator::apply_lines(&grown, &proposals, 10).is_empty());
}

#[test]
fn a_run_ends_with_its_counts() {
    let output = CuratorOutput {
        memory_additions: texts(&["a", "b"]),
        agent_additions: texts(&["token"]),
        user_additions: vec![],
    };
    let run = curator::finish_run(&config(), &output, "b\n", "", "");
    assert_eq!(run.memory_lines, ["a"]);
    assert!(run.agent_lines.is_empty() && run.user_lines.is_empty() && run.reindex);
    assert_eq!(run.message, "curator ok: +1 MEMORY, +0 AGENT, +0 USER (propositions: 2/1/0)");
    let dry = CuratorConfig { apply: Some(CuratorApply { dry_run: Some(true), max_additions_per_run: None }), ..config() };
    let run = curator::finish_run(&dry, &output, "", "", "");
    assert!(run.memory_lines.is_empty() && !run.reindex);
    assert_eq!(run.message, "curator dry-run: 2 propositions MEMORY, 1 AGENT, 0 USER");
}

#[test]
fn additions_are_limited() {
    let c = CuratorConfig { apply: Some(CuratorApply { dry_run: None, max_additions_per_run: Some(2) }), ..config() };
    let output = CuratorOutput {
        memory_additions: texts(&["a", "b", "c"]),
        agent_additions: vec![],
        user_additions: vec![],
    };
    assert_eq!(curator::finish_run(&c, &output, "", "", "").memory_lines, ["a", "b"]);
}

#[test]
fn after_a_run_nothing_is_new() {
    let files = vec![file("session-a.jsonl", vec![said("x")]), file("session-b.jsonl", vec![said("y"), said("z")])];
    let mut state = CuratorState::fresh();
    let latest = curator::latest_cursor(&vec![("session-a.jsonl".to_string(), 1), ("session-b.jsonl".to_string(), 2)]);
    state.advance(latest, "t");
    assert_eq!((state.last_file.as_deref(), state.last_line, state.last_run_at.as_str()), (Some("session-b.jsonl"), 2, "t"));
    assert!(curator::collect_transcript_window(&state, &files, 50).unwrap().is_empty());
    state.advance(curator::latest_cursor(&vec![]), "u");
    assert_eq!((state.last_line, state.last_run_at.as_str()), (2, "u"));
}

#[test]
fn the_memory_file_of_a_day_has_its_date() {
    assert_eq!(curator::memory_file("b", "2026-01-02"), "b/memory/MEMORY-2026-01-02.md");
    assert_eq!(curator::addition("t", "l"), "- [t] l\n");
}

#[test]
fn a_window_of_no_lines_still_shows_one() {
    let files = vec![DialogueFile { name: "session-a.jsonl".to_string(), lines: Ok(vec![said("un"), said("deux")]) }];
    let none: Vec<DialogueFile> = vec![];
    let state = CuratorState { last_file: None, last_line: 0, last_run_at: String::new() };
    assert_eq!(curator::collect_transcript_window(&state, &files, 0).unwrap(), ["[session-a.jsonl:1] [user] un"]);
    assert_eq!(curator::collect_transcript_window(&state, &none, 0).unwrap(), [""; 0]);
}

#[test]
fn a_curator_that_is_switched_off_reads_nothing() {
    let cfg = |enabled| CuratorConfig { enabled, llm: None, window: None, apply: None };
    assert_eq!(curator::refuse_run(&cfg(Some(false))).as_deref(), Some("curator: désactivé (conf/curator.toml)"));
    assert_eq!(curator::refuse_run(&cfg(Some(true))), None);
    assert_eq!(curator::refuse_run(&cfg(None)), None);
}
