use oxiclaw::cron_tool::{self, CronRequest};
use oxiclaw::http_request::{self, HttpBody, HttpOutcome};
use oxiclaw::json::{self, Json};
use oxiclaw::notes;
use oxiclaw::tools::{self, CronManageTool, CustomTool, EchoTool, ModelAction, TimeTool, Tool, ToolPlan, ToolRegistry, ToolSpec};

fn args(s: &str) -> Json {
    match json::parse_json(s) {
        Ok(v) => v,
        Err(e) => panic!("{e}"),
    }
}

fn reply(plan: ToolPlan) -> String {
    match plan {
        ToolPlan::Reply(s) => s,
        _ => panic!("no plain reply"),
    }
}

fn plain(v: &Json) -> serde_json::Value {
    match v {
        Json::Null => serde_json::Value::Null,
        Json::Bool(b) => serde_json::Value::Bool(*b),
        Json::Number(n) => serde_json::from_str(&n.text).unwrap(),
        Json::Text(s) => serde_json::Value::String(s.clone()),
        Json::Array(items) => serde_json::Value::Array(items.iter().map(plain).collect()),
        Json::Object(members) => {
            serde_json::Value::Object(members.iter().map(|(k, m)| (k.clone(), plain(m))).collect())
        }
    }
}

#[test]
fn plain_text_is_a_final_answer() {
    match tools::parse_model_action("  bonjour\n") {
        Ok(ModelAction::FinalAnswer(s)) => assert_eq!(s, "bonjour"),
        _ => panic!(),
    }
}

#[test]
fn a_tool_call_is_read_with_its_arguments() {
    match tools::parse_model_action("{\"type\":\"tool_call\",\"name\":\"echo\",\"args\":{\"text\":\"x\"}}") {
        Ok(ModelAction::ToolCall { name, args }) => {
            assert_eq!(name, "echo");
            assert_eq!(args.text_at("text"), Some("x".to_string()));
        }
        _ => panic!(),
    }
    match tools::parse_model_action("{\"type\":\"tool_call\",\"name\":\"time\"}") {
        Ok(ModelAction::ToolCall { name, args: Json::Object(members) }) => {
            assert_eq!(name, "time");
            assert!(members.is_empty());
        }
        _ => panic!(),
    }
}

#[test]
fn a_final_answer_is_read_from_json() {
    match tools::parse_model_action("{\"type\":\"final_answer\",\"answer\":\"fini\"}") {
        Ok(ModelAction::FinalAnswer(s)) => assert_eq!(s, "fini"),
        _ => panic!(),
    }
}

#[test]
fn broken_actions_are_named() {
    let cases = [
        ("{\"a\":1}", "champ 'type' manquant"),
        ("{\"type\":3}", "champ 'type' manquant"),
        ("{\"type\":\"tool_call\"}", "champ 'name' manquant pour tool_call"),
        ("{\"type\":\"final_answer\"}", "champ 'answer' manquant pour final_answer"),
        ("{\"type\":\"x\"}", "type inconnu 'x' (attendu: tool_call ou final_answer)"),
    ];
    for (raw, expected) in cases {
        assert_eq!(tools::parse_model_action(raw).err().unwrap(), expected);
        assert_eq!(tools::read_action(&args(raw)).err().unwrap(), expected);
    }
    let e = tools::parse_model_action("{oops").err().unwrap();
    let inner = serde_json::from_str::<serde_json::Value>("{oops").unwrap_err().to_string();
    assert_eq!(e, format!("JSON invalide: {inner}"));
}

#[test]
fn the_standard_registry_has_seven_tools() {
    let r = ToolRegistry::with_defaults("base".to_string());
    let names: Vec<String> = r.specs().into_iter().map(|s| s.name).collect();
    assert_eq!(names, ["time", "echo", "http_request", "info_append", "memory_search", "memory_get", "cron_manage"]);
    assert!(matches!(r.execute("cron_manage", &args("{\"action\":\"list\"}")), ToolPlan::Cron(CronRequest::List)));
}

#[test]
fn the_schemas_are_those_of_the_catalogue() {
    let r = ToolRegistry::with_defaults("base".to_string());
    let specs = r.specs();
    let schema = |i: usize| plain(&specs[i].args_schema);
    let read = |s: &str| serde_json::from_str::<serde_json::Value>(s).unwrap();
    assert_eq!(schema(0), read("{\"type\":\"object\",\"properties\":{},\"additionalProperties\":false}"));
    assert_eq!(
        schema(1),
        read("{\"type\":\"object\",\"properties\":{\"text\":{\"type\":\"string\",\"description\":\"Texte à répéter\"}},\"required\":[\"text\"],\"additionalProperties\":false}")
    );
    assert_eq!(
        schema(2),
        read("{\"type\":\"object\",\"properties\":{\"method\":{\"type\":\"string\",\"description\":\"Méthode HTTP (GET par défaut)\"},\"url\":{\"type\":\"string\",\"description\":\"URL absolue http(s)\"},\"headers\":{\"type\":\"object\",\"description\":\"Headers HTTP (clé -> valeur string)\"},\"query\":{\"type\":\"object\",\"description\":\"Paramètres query string (clé -> string/number/bool)\"},\"json\":{\"description\":\"Corps JSON à envoyer\"},\"body\":{\"type\":\"string\",\"description\":\"Corps texte brut (si json absent)\"},\"timeout_ms\":{\"type\":\"integer\",\"minimum\":100,\"maximum\":120000,\"description\":\"Timeout réseau\"},\"max_chars\":{\"type\":\"integer\",\"minimum\":200,\"maximum\":20000,\"description\":\"Troncature du body de réponse\"}},\"required\":[\"url\"],\"additionalProperties\":false}")
    );
    assert_eq!(
        schema(3),
        read("{\"type\":\"object\",\"properties\":{\"target\":{\"type\":\"string\",\"enum\":[\"agent\",\"user\"]},\"text\":{\"type\":\"string\",\"description\":\"Information stable et utile à retenir\"}},\"required\":[\"target\",\"text\"],\"additionalProperties\":false}")
    );
    assert_eq!(
        schema(4),
        read("{\"type\":\"object\",\"properties\":{\"query\":{\"type\":\"string\",\"description\":\"Question ou mots-clés\"},\"limit\":{\"type\":\"integer\",\"minimum\":1,\"maximum\":10},\"archive\":{\"type\":\"boolean\",\"description\":\"Inclut les transcripts anciens (archive), false par défaut\"}},\"required\":[\"query\"],\"additionalProperties\":false}")
    );
    assert_eq!(
        schema(5),
        read("{\"type\":\"object\",\"properties\":{\"id\":{\"type\":\"string\",\"description\":\"Identifiant d'entrée renvoyé par memory_search (ex: mem-42-7ab3...)\"}},\"required\":[\"id\"],\"additionalProperties\":false}")
    );
    assert_eq!(specs[0].description, "Retourne l'heure courante en UTC (RFC3339)");
    assert_eq!(specs[1].description, "Répète exactement le texte fourni");
}

#[test]
fn a_registered_tool_answers_to_its_name() {
    let mut r = ToolRegistry::with_defaults("base".to_string());
    assert_eq!(reply(r.execute("meteo", &args("{}"))), "tool inconnu: meteo");
    let shown = ToolSpec {
        name: "meteo".to_string(),
        description: "Donne le temps".to_string(),
        args_schema: args("{\"type\":\"object\"}"),
    };
    r.register(Tool::Custom(CustomTool { shown }));
    match r.execute("meteo", &args("{\"ville\":\"Lyon\"}")) {
        ToolPlan::Custom { name, args } => {
            assert_eq!((name.as_str(), args.text_at("ville").as_deref()), ("meteo", Some("Lyon")));
        }
        _ => panic!(),
    }
    r.register(Tool::Echo(EchoTool));
    r.register(Tool::CronManage(CronManageTool));
    let names: Vec<String> = r.specs().into_iter().map(|s| s.name).collect();
    assert_eq!(
        names,
        ["time", "http_request", "info_append", "memory_search", "memory_get", "meteo", "echo", "cron_manage"]
    );
    assert_eq!(r.specs()[5].description, "Donne le temps");
    assert_eq!(reply(r.execute("echo", &args("{\"text\":\"x\"}"))), "x");
}

#[test]
fn an_unknown_tool_is_answered_as_such() {
    let r = ToolRegistry::with_defaults("base".to_string());
    assert_eq!(reply(r.execute("rien", &args("{}"))), "tool inconnu: rien");
}

#[test]
fn descriptions_can_be_put_in_other_words() {
    let mut r = ToolRegistry::with_defaults("base".to_string());
    r.describe_with(vec![
        ("echo".to_string(), "répète".to_string()),
        ("echo".to_string(), "ignoré".to_string()),
        ("absent".to_string(), "rien".to_string()),
    ]);
    let specs = r.specs();
    assert_eq!(specs[1].description, "répète");
    assert_eq!(specs[0].description, "Retourne l'heure courante en UTC (RFC3339)");
    assert_eq!(specs.len(), 7);
    assert_eq!(plain(&specs[1].args_schema), plain(&Tool::Echo(EchoTool).describe().args_schema));
}

#[test]
fn descriptions_are_read_from_a_table_of_texts() {
    let read = tools::descriptions_in("time = \"l'heure\"\necho = 'répète'\n");
    assert_eq!(read, [("echo".to_string(), "répète".to_string()), ("time".to_string(), "l'heure".to_string())]);
    assert!(tools::descriptions_in("").is_empty());
    assert!(tools::descriptions_in("time = 3").is_empty());
    assert!(tools::descriptions_in("= x").is_empty());
    let mut r = ToolRegistry::with_defaults("base".to_string());
    r.describe_with(read);
    assert_eq!(r.specs()[0].description, "l'heure");
}

#[test]
fn written_actions_are_read_back() {
    let written = serde_json::from_str::<serde_json::Value>(
        "{\"type\":\"tool_call\",\"name\":\"echo\",\"args\":{\"text\":\"l1\\nl2\",\"n\":-7,\"$k\":[1,null,true]}}",
    )
    .unwrap();
    match tools::parse_model_action(&format!(" \n{written}\t")) {
        Ok(ModelAction::ToolCall { name, args }) => {
            assert_eq!(name, "echo");
            assert_eq!(plain(&args), written["args"]);
        }
        _ => panic!(),
    }
    let written = serde_json::to_string(&serde_json::from_str::<serde_json::Value>("{\"type\":\"final_answer\",\"answer\":\" oui \"}").unwrap()).unwrap();
    match tools::parse_model_action(&written) {
        Ok(ModelAction::FinalAnswer(s)) => assert_eq!(s, " oui "),
        _ => panic!(),
    }
    match tools::parse_model_action("{\"name\":\"time\",\"type\":\"tool_call\"}") {
        Ok(ModelAction::ToolCall { name, args }) => {
            assert_eq!(name, "time");
            assert_eq!(plain(&args), serde_json::Value::Object(serde_json::Map::new()));
        }
        _ => panic!(),
    }
}

#[test]
fn echo_repeats_or_says_that_there_is_nothing() {
    let t = Tool::Echo(EchoTool);
    assert_eq!(reply(t.run(&args("{\"text\":\" x \"}"))), " x ");
    assert_eq!(reply(t.run(&args("{\"text\":1}"))), "(echo sans texte)");
}

#[test]
fn time_asks_the_clock() {
    assert!(matches!(Tool::Time(TimeTool).run(&args("{}")), ToolPlan::Now));
}

#[test]
fn a_request_takes_its_defaults() {
    let call = http_request::plan_request(&args("{\"url\":\"http://x\"}")).ok().unwrap();
    assert_eq!(call.method, "GET");
    assert_eq!(call.url, "http://x");
    assert_eq!(call.timeout_ms, 15_000);
    assert_eq!(call.max_chars, 4_000);
    assert!(call.headers.is_empty() && call.query.is_empty());
    assert!(matches!(call.body, HttpBody::Empty));
}

#[test]
fn a_request_takes_what_it_is_given() {
    let call = http_request::plan_request(&args(
        "{\"url\":\"https://x\",\"method\":\"post\",\"timeout_ms\":1,\"max_chars\":99999,\"headers\":{\"b\":\"2\",\"a\":\"1\"},\"query\":{\"n\":1.50,\"t\":true,\"s\":\"é\",\"z\":null},\"body\":\"corps\"}",
    ))
    .ok()
    .unwrap();
    assert_eq!(call.method, "POST");
    assert_eq!(call.timeout_ms, 100);
    assert_eq!(call.max_chars, 20_000);
    assert_eq!(call.headers, [("a".to_string(), "1".to_string()), ("b".to_string(), "2".to_string())]);
    let query: Vec<String> = call.query.iter().map(|(k, v)| format!("{k}={v}")).collect();
    assert_eq!(query, ["n=1.5", "s=é", "t=true", "z=null"]);
    assert!(matches!(call.body, HttpBody::Text(ref s) if s == "corps"));
}

#[test]
fn a_json_payload_goes_before_a_text() {
    let call = http_request::plan_request(&args("{\"url\":\"http://x\",\"json\":{\"a\":1},\"body\":\"b\"}")).ok().unwrap();
    assert!(matches!(call.body, HttpBody::Json(ref v) if v.unsigned_at("a") == Some(1)));
}

#[test]
fn broken_requests_are_named() {
    let cases = [
        ("{}", "erreur http_request: url manquante"),
        ("{\"url\":\"ftp://x\"}", "erreur http_request: url doit commencer par http:// ou https://"),
        ("{\"url\":\"http://x\",\"headers\":{\"a\":\"1\",\"k\":2,\"l\":3}}", "erreur http_request: header 'k' doit être une string"),
        ("{\"url\":\"http://x\",\"query\":{\"q\":[1]}}", "erreur http_request: query 'q' doit être string/number/bool/null"),
    ];
    for (given, expected) in cases {
        assert_eq!(http_request::plan_request(&args(given)).err().unwrap(), expected);
    }
}

#[test]
fn an_answer_is_reported_as_indented_json() {
    let outcome = HttpOutcome::Answer {
        accepted: true,
        status: 204,
        url: "http://x/".to_string(),
        content_type: "text/plain".to_string(),
        body: "ok".to_string(),
    };
    assert_eq!(
        http_request::report("GET", 4000, outcome),
        "{\n  \"body\": \"ok\",\n  \"content_type\": \"text/plain\",\n  \"method\": \"GET\",\n  \"ok\": true,\n  \"status\": 204,\n  \"url\": \"http://x/\"\n}"
    );
}

#[test]
fn only_accepted_answers_in_the_200s_are_good() {
    for (accepted, status, good) in [(true, 200, true), (true, 299, true), (true, 301, false), (false, 404, false), (false, 200, false)] {
        let outcome = HttpOutcome::Answer {
            accepted,
            status,
            url: String::new(),
            content_type: String::new(),
            body: String::new(),
        };
        let text = http_request::report("GET", 200, outcome);
        let v: serde_json::Value = serde_json::from_str(&text).unwrap();
        assert_eq!(v.get("ok").and_then(|b| b.as_bool()), Some(good));
    }
}

#[test]
fn a_missing_answer_is_reported_with_its_reason() {
    assert_eq!(
        http_request::report("GET", 200, HttpOutcome::Transport("dns".to_string())),
        "erreur http_request: transport: dns"
    );
}

#[test]
fn long_bodies_are_cut_and_marked() {
    assert_eq!(http_request::shorten("ééé", 3), "ééé");
    assert_eq!(http_request::shorten("éééé", 3), "ééé\n...[truncated]");
}

#[test]
fn notes_go_to_two_files_only() {
    let ok = notes::plan_append("base", &args("{\"target\":\"agent\",\"text\":\"  utile \"}")).ok().unwrap();
    assert_eq!((ok.path.as_str(), ok.file.as_str(), ok.note.as_str()), ("base/AGENT.md", "AGENT.md", "utile"));
    let ok = notes::plan_append("base", &args("{\"target\":\"user\",\"text\":\"x\"}")).ok().unwrap();
    assert_eq!(ok.path, "base/USER.md");
    let cases = [
        ("{\"target\":\"agent\"}", "erreur info_append: text vide"),
        ("{\"target\":\"soul\",\"text\":\" \"}", "erreur info_append: text vide"),
        ("{\"target\":\"agent\",\"text\":\"mon Token\"}", "erreur info_append: contenu sensible détecté, refusé"),
        ("{\"target\":\"soul\",\"text\":\"x\"}", "erreur info_append: SOUL.md est immuable"),
        ("{\"target\":\"x\",\"text\":\"x\"}", "erreur info_append: target doit être 'agent' ou 'user'"),
        ("{\"text\":\"x\"}", "erreur info_append: target doit être 'agent' ou 'user'"),
    ];
    for (given, expected) in cases {
        assert_eq!(notes::plan_append("base", &args(given)).err().unwrap(), expected);
    }
    let long = format!("{{\"target\":\"agent\",\"text\":\"{}\"}}", "é".repeat(251));
    assert_eq!(notes::plan_append("base", &args(&long)).err().unwrap(), "erreur info_append: text trop long (>500)");
    let full = format!("{{\"target\":\"agent\",\"text\":\"{}\"}}", "é".repeat(250));
    assert!(notes::plan_append("base", &args(&full)).is_ok());
}

#[test]
fn a_note_is_appended_once() {
    let request = notes::plan_append("base", &args("{\"target\":\"user\",\"text\":\"aime le thé\"}")).ok().unwrap();
    let first = notes::append_step(&request, "# USER", "2026-01-01T00:00:00+00:00");
    let added = first.addition.unwrap();
    assert_eq!(added, "\n- [2026-01-01T00:00:00+00:00] aime le thé");
    assert_eq!(first.reply, "info_append: ajouté dans USER.md");
    let second = notes::append_step(&request, &format!("# USER{added}"), "plus tard");
    assert!(second.addition.is_none());
    assert_eq!(second.reply, "info_append: déjà présent dans USER.md");
}

#[test]
fn memory_tools_check_their_arguments() {
    let r = ToolRegistry::with_defaults("base".to_string());
    assert_eq!(reply(r.execute("memory_search", &args("{\"query\":\"  \"}"))), "query vide");
    match r.execute("memory_search", &args("{\"query\":\" thé \"}")) {
        ToolPlan::Search(s) => {
            assert_eq!((s.basedir.as_str(), s.query.as_str(), s.limit, s.archive), ("base", " thé ", 5, false))
        }
        _ => panic!(),
    }
    match r.execute("memory_search", &args("{\"query\":\"x\",\"limit\":3,\"archive\":true}")) {
        ToolPlan::Search(s) => assert_eq!((s.limit, s.archive), (3, true)),
        _ => panic!(),
    }
    assert_eq!(reply(r.execute("memory_get", &args("{}"))), "id manquant");
    match r.execute("memory_get", &args("{\"id\":\"mem-1\"}")) {
        ToolPlan::Get { basedir, id } => assert_eq!((basedir.as_str(), id.as_str()), ("base", "mem-1")),
        _ => panic!(),
    }
}

#[test]
fn memory_replies_are_laid_out() {
    assert_eq!(tools::search_reply(Ok(vec![])), "Aucun souvenir trouvé.");
    assert_eq!(tools::search_reply(Ok(vec!["a".to_string(), "b".to_string()])), "a\nb");
    assert_eq!(tools::search_reply(Err("x".to_string())), "erreur memory_search: x");
    assert_eq!(tools::get_reply("i", Ok(Some("row".to_string()))), "row");
    assert_eq!(tools::get_reply("i", Ok(None)), "Aucune entrée pour id=i");
    assert_eq!(tools::get_reply("i", Err("x".to_string())), "erreur memory_get: x");
}

#[test]
fn the_cron_tool_reads_its_actions() {
    assert!(matches!(cron_tool::plan_cron(&args("{\"action\":\"add_notify\",\"message\":\" m \"}")), Ok(CronRequest::AddNotify(ref s)) if s == "m"));
    assert!(matches!(cron_tool::plan_cron(&args("{\"action\":\"add_agent_turn\",\"message\":\"m\"}")), Ok(CronRequest::AddAgentTurn(ref s)) if s == "m"));
    assert!(matches!(cron_tool::plan_cron(&args("{\"action\":\"runs\",\"job_id\":\"j\"}")), Ok(CronRequest::Runs(ref s)) if s == "j"));
    assert!(matches!(cron_tool::plan_cron(&args("{\"action\":\"run\",\"job_id\":\"j\"}")), Ok(CronRequest::Run(ref s)) if s == "j"));
    let cases = [
        ("{\"action\":\"add_notify\"}", "erreur cron_manage: message manquant"),
        ("{\"action\":\"run\"}", "erreur cron_manage: job_id manquant"),
        ("{}", "erreur cron_manage: action inconnue '' (attendu: add_notify, add_agent_turn, list, runs, run)"),
    ];
    for (given, expected) in cases {
        assert_eq!(cron_tool::plan_cron(&args(given)).err().unwrap(), expected);
    }
    assert_eq!(cron_tool::agent_turn_reply(Ok("j".to_string())), "cron add-agent-turn: ok\n- job_id: j");
    assert_eq!(cron_tool::agent_turn_reply(Err("x".to_string())), "cron add-agent-turn: erreur: x");
}
