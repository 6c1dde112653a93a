use oxiclaw::engine::{Engine, Move};
use oxiclaw::llm;
use oxiclaw::session::Session;
use oxiclaw::tools::{ToolPlan, ToolRegistry};

fn engine(steps: usize) -> Engine {
    Engine::new("m".to_string(), ToolRegistry::with_defaults("base".to_string())).with_max_steps(steps)
}

fn session() -> Session {
    let mut s = Session::with_id("prompt".to_string(), "id".to_string());
    s.push_user("question".to_string());
    s
}

/// Runs a turn against a list of replies; tools that work outside put out `output`.
fn play(e: &Engine, s: &mut Session, replies: &[&str], output: &str) -> (Result<String, String>, usize) {
    let mut asked = 0;
    let mut m = e.start(s);
    loop {
        m = match m {
            Move::Ask(asking, request) => {
                assert_eq!(request.model, "m");
                assert_eq!(request.temperature_milli, 200);
                assert_eq!(request.messages.len(), s.messages().len());
                let reply = replies[asked.min(replies.len() - 1)].to_string();
                asked += 1;
                e.on_reply(s, asking, Ok(reply))
            }
            Move::Run(running, _) => e.on_output(s, running, output.to_string()),
            Move::Finish(r) => return (r, asked),
        };
    }
}

const TIME: &str = "{\"type\":\"tool_call\",\"name\":\"time\",\"args\":{}}";
const DONE: &str = "{\"type\":\"final_answer\",\"answer\":\"voilà\"}";

#[test]
fn an_engine_has_six_steps_at_first() {
    let e = Engine::new("m".to_string(), ToolRegistry::with_defaults("b".to_string()));
    assert_eq!(e.max_steps(), 6);
    assert!(!e.debug());
    let e = e.with_debug(true).with_max_steps(0);
    assert_eq!(e.max_steps(), 1);
    assert!(e.debug());
}

#[test]
fn a_final_answer_ends_the_turn() {
    let e = engine(3);
    let mut s = session();
    let (r, asked) = play(&e, &mut s, &[DONE], "");
    assert_eq!(r, Ok("voilà".to_string()));
    assert_eq!(asked, 1);
    assert_eq!(s.messages().len(), 3);
    assert_eq!(s.messages()[2].role, "assistant");
    assert_eq!(s.messages()[2].content, DONE);
}

#[test]
fn a_tool_call_is_reported_to_the_model() {
    let e = engine(3);
    let mut s = session();
    let (r, asked) = play(&e, &mut s, &[TIME, DONE], "il est \"midi\"");
    assert_eq!(r, Ok("voilà".to_string()));
    assert_eq!(asked, 2);
    let m = s.messages();
    assert_eq!(m[2].content, TIME);
    assert_eq!(m[3].role, "system");
    assert_eq!(m[3].content, "TOOL_RESULT {\"name\":\"time\",\"output\":\"il est \\\"midi\\\"\"}");
}

#[test]
fn a_tool_without_outside_work_is_answered_at_once() {
    let e = engine(2);
    let mut s = session();
    let echo = "{\"type\":\"tool_call\",\"name\":\"echo\",\"args\":{\"text\":\"x\"}}";
    match e.start(&s) {
        Move::Ask(asking, _) => match e.on_reply(&mut s, asking, Ok(echo.to_string())) {
            Move::Ask(_, request) => {
                assert_eq!(request.messages[3].content, "TOOL_RESULT {\"name\":\"echo\",\"output\":\"x\"}")
            }
            _ => panic!(),
        },
        _ => panic!(),
    }
}

#[test]
fn outside_work_is_handed_out() {
    let e = engine(2);
    let mut s = session();
    match e.start(&s) {
        Move::Ask(asking, _) => match e.on_reply(&mut s, asking, Ok(TIME.to_string())) {
            Move::Run(_, plan) => assert!(matches!(plan, ToolPlan::Now)),
            _ => panic!(),
        },
        _ => panic!(),
    }
    assert_eq!(s.messages().len(), 2);
}

#[test]
fn a_broken_protocol_is_corrected() {
    let e = engine(2);
    let mut s = session();
    let (r, asked) = play(&e, &mut s, &["{\"type\":\"x\"}", DONE], "");
    assert_eq!(r, Ok("voilà".to_string()));
    assert_eq!(asked, 2);
    assert_eq!(
        s.messages()[3].content,
        "PROTOCOLE_INVALIDE: type inconnu 'x' (attendu: tool_call ou final_answer). Réponds MAINTENANT en JSON strict avec exactement l'un des formats suivants:\n{\"type\":\"tool_call\",\"name\":\"<tool_name>\",\"args\":{...}}\nou\n{\"type\":\"final_answer\",\"answer\":\"<texte>\"}"
    );
}

#[test]
fn steps_are_limited_and_the_last_output_is_given_back() {
    let e = engine(3);
    let mut s = session();
    let before = s.messages().len();
    let (r, asked) = play(&e, &mut s, &[TIME], "ligne 1\nligne 2");
    assert_eq!(asked, 3);
    assert_eq!(r, Ok("(fallback) ligne 1\nligne 2".to_string()));
    assert_eq!(s.messages().len(), before + 6);
    assert_eq!(s.messages()[0].content, "prompt");
}

#[test]
fn without_a_tool_result_the_turn_fails_at_the_limit() {
    let e = engine(2);
    let mut s = session();
    let (r, asked) = play(&e, &mut s, &["{}"], "");
    assert_eq!(asked, 2);
    assert_eq!(r, Err("Trop d'étapes dans le turn (boucle interrompue)".to_string()));
}

#[test]
fn a_failed_request_ends_the_turn() {
    let e = engine(2);
    let mut s = session();
    match e.start(&s) {
        Move::Ask(asking, _) => match e.on_reply(&mut s, asking, Err("réseau".to_string())) {
            Move::Finish(r) => assert_eq!(r, Err("réseau".to_string())),
            _ => panic!(),
        },
        _ => panic!(),
    }
    assert_eq!(s.messages().len(), 2);
}

#[test]
fn completions_are_read_from_the_first_choice() {
    let answer = |body: &str| llm::completion_answer(true, "200 OK", body);
    let wrong = Err("parse JSON chat/completions".to_string());
    let two = "{\"id\":1,\"choices\":[{\"index\":0,\"message\":{\"role\":\"assistant\",\"content\":\"a\"}},{\"message\":{\"content\":\"b\",\"role\":\"x\"}}]}";
    assert_eq!(answer(two), Ok("a".to_string()));
    assert_eq!(answer("{\"choices\":[]}"), Ok("(réponse vide)".to_string()));
    assert_eq!(answer("{}"), wrong);
    assert_eq!(answer("pas du json"), wrong);
    assert_eq!(answer("{\"choices\":1}"), wrong);
    assert_eq!(answer("{\"choices\":[{}]}"), wrong);
    assert_eq!(answer("{\"choices\":[{\"message\":{\"content\":\"a\"}}]}"), wrong);
    assert_eq!(answer("{\"choices\":[{\"message\":{\"role\":\"r\",\"content\":null}}]}"), wrong);
    assert_eq!(answer("{\"choices\":[{\"message\":{\"role\":\"r\",\"content\":\"a\"}},{}]}"), wrong);
    assert_eq!(llm::completion_answer(false, "401 Unauthorized", two), Err(format!("HTTP 401 Unauthorized: {two}")));
    assert_eq!(llm::answer_of_reading(true, "200 OK", "x", Err("e".to_string())), wrong);
}
