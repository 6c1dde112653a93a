use oxiclaw::json::{self, Json};
use oxiclaw::session::{self, Session};
use oxiclaw::tools;

fn show(v: &Json) -> String {
    match v {
        Json::Null => "null".to_string(),
        Json::Bool(b) => format!("{b}"),
        Json::Number(n) => format!("{}#{:?}", n.text, n.unsigned),
        Json::Text(s) => format!("{s:?}"),
        Json::Array(items) => format!("{:?}", items.iter().map(show).collect::<Vec<_>>()),
        Json::Object(members) => {
            format!("{:?}", members.iter().map(|(k, m)| (k.clone(), show(m))).collect::<Vec<_>>())
        }
    }
}

#[test]
fn documents_are_read_with_sorted_keys() {
    let v = json::parse_json(" {\"b\": [1, -2, 2.50, true, null], \"a\": {\"z\": \"é\\n\"}} ").ok().unwrap();
    let expected = format!(
        "{:?}",
        vec![
            ("a".to_string(), format!("{:?}", vec![("z".to_string(), "\"é\\n\"".to_string())])),
            (
                "b".to_string(),
                format!(
                    "{:?}",
                    vec![
                        "1#Some(1)".to_string(),
                        "-2#None".to_string(),
                        "2.5#None".to_string(),
                        "true".to_string(),
                        "null".to_string(),
                    ]
                )
            ),
        ]
    );
    assert_eq!(show(&v), expected);
}

#[test]
fn the_last_of_two_equal_keys_stays() {
    let v = json::parse_json("{\"a\":1,\"a\":2}").ok().unwrap();
    assert_eq!(v.unsigned_at("a"), Some(2));
}

#[test]
fn broken_documents_are_reported_in_the_reader_s_words() {
    let expected = serde_json::from_str::<serde_json::Value>("{\"a\":").unwrap_err().to_string();
    assert_eq!(json::parse_json("{\"a\":").err().unwrap(), expected);
}

#[test]
fn members_are_found_by_key_and_type() {
    let v = json::parse_json("{\"t\":\"x\",\"n\":3,\"b\":false}").ok().unwrap();
    assert_eq!(v.text_at("t"), Some("x".to_string()));
    assert_eq!(v.text_at("n"), None);
    assert_eq!(v.unsigned_at("n"), Some(3));
    assert_eq!(v.unsigned_at("t"), None);
    assert_eq!(v.bool_at("b"), Some(false));
    assert_eq!(v.bool_at("missing"), None);
    assert!(v.get("missing").is_none());
    assert!(Json::Text("x".to_string()).get("t").is_none());
    assert_eq!(show(&v.copy()), show(&v));
}

#[test]
fn built_values_hold_what_they_were_built_from() {
    let v = json::object(vec![
        ("a".to_string(), json::number(7)),
        ("b".to_string(), json::text("x")),
        ("c".to_string(), json::text_array(vec!["u".to_string(), "v".to_string()])),
    ]);
    assert_eq!(v.unsigned_at("a"), Some(7));
    assert_eq!(v.text_at("b"), Some("x".to_string()));
    assert_eq!(show(v.get("c").unwrap()), format!("{:?}", vec!["\"u\"", "\"v\""]));
}

#[test]
fn escapes_are_those_of_the_report() {
    assert_eq!(tools::escape_for_json_string("a\"b\\c\nd\te"), "a\\\"b\\\\c\\nd\te");
    for s in ["", "x", "\\n", "\"\"", "l1\nl2"] {
        let expected = s.replace('\\', "\\\\").replace('"', "\\\"").replace('\n', "\\n");
        assert_eq!(tools::escape_for_json_string(s), expected);
    }
}

#[test]
fn a_session_starts_with_its_prompt_and_a_random_identity() {
    let a = Session::new("p".to_string());
    let b = Session::new("p".to_string());
    assert_eq!(a.messages().len(), 1);
    assert_eq!(a.messages()[0].role, "system");
    assert_eq!(a.messages()[0].content, "p");
    let id = a.session_id();
    assert_eq!(id.len(), 36);
    for (i, c) in id.chars().enumerate() {
        if [8, 13, 18, 23].contains(&i) {
            assert_eq!(c, '-');
        } else {
            assert!(c.is_ascii_hexdigit() && !c.is_ascii_uppercase());
        }
    }
    assert_ne!(id, b.session_id());
}

#[test]
fn messages_keep_their_roles_and_order() {
    let mut s = Session::with_id("p".to_string(), "id".to_string());
    s.push_user("q".to_string());
    s.push_assistant("a".to_string());
    s.push_system("n".to_string());
    let roles: Vec<String> = s.messages().into_iter().map(|m| format!("{}:{}", m.role, m.content)).collect();
    assert_eq!(roles, ["system:p", "user:q", "assistant:a", "system:n"]);
    assert_eq!(s.session_id(), "id");
}

#[test]
fn rolling_back_undoes_a_question_only() {
    let mut s = Session::with_id("p".to_string(), "id".to_string());
    s.push_user("q".to_string());
    s.rollback_last_user_if_any();
    assert_eq!(s.messages().len(), 1);
    s.push_assistant("a".to_string());
    s.rollback_last_user_if_any();
    assert_eq!(s.messages().len(), 2);
}

#[test]
fn the_system_prompt_stays_through_reset() {
    let mut s = Session::with_id("p".to_string(), "id".to_string());
    s.push_user("q".to_string());
    s.set_system_prompt("p2".to_string());
    assert_eq!(s.messages()[0].content, "p2");
    assert_eq!(s.messages().len(), 2);
    s.reset();
    assert_eq!(s.messages().len(), 1);
    assert_eq!(s.messages()[0].content, "p2");
    assert_ne!(s.session_id(), "id");
}

#[test]
fn the_last_tool_result_is_given_back() {
    let mut s = Session::with_id("p".to_string(), "id".to_string());
    assert!(s.last_tool_result().is_none());
    let output = "une \"ligne\"\nune autre \\ fin";
    s.push_system(format!(
        "TOOL_RESULT {{\"name\":\"echo\",\"output\":\"{}\"}}",
        tools::escape_for_json_string(output)
    ));
    s.push_assistant("suite".to_string());
    assert_eq!(s.last_tool_result(), Some(("echo".to_string(), output.to_string())));
    s.push_system("TOOL_RESULT pas du json".to_string());
    assert!(s.last_tool_result().is_none());
}

#[test]
fn a_tool_record_needs_both_members() {
    let both = json::parse_json("{\"name\":\"n\",\"output\":\"o\"}").ok().unwrap();
    assert_eq!(session::read_tool_record(&both), Some(("n".to_string(), "o".to_string())));
    let one = json::parse_json("{\"name\":\"n\"}").ok().unwrap();
    assert!(session::read_tool_record(&one).is_none());
}

#[test]
fn an_escaped_text_between_quotes_is_read_back() {
    for text in ["", "a\"b\\c\nd", "é \u{7f} 👋", "\\n"] {
        let escaped = tools::escape_for_json_string(text);
        assert!(!escaped.contains('\n'));
        match json::parse_json(&format!("\"{escaped}\"")) {
            Ok(Json::Text(s)) => assert_eq!(s, text),
            _ => panic!("{text}"),
        }
    }
    for text in ["a\tb", "\r", "\u{0}"] {
        assert!(json::parse_json(&format!("\"{}\"", tools::escape_for_json_string(text))).is_err());
    }
    let whole = tools::escape_for_json_string("x\"\n\\y");
    assert_eq!(whole, tools::escape_for_json_string("x\"") + &tools::escape_for_json_string("\n\\y"));
}
