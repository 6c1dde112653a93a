//! Requests to a chat model, and what its reply comes to.

use vstd::prelude::*;

use crate::json::{Json, JsonView};
use crate::session::ChatMessage;
use crate::{json, session, text};

verus! {

/// A request to the model.
pub struct LlmRequest {
    pub model: String,
    pub messages: Vec<ChatMessage>,
    /// The sampling temperature in thousandths.
    pub temperature_milli: u32,
}

/// What a request holds.
#[verifier::ext_equal]
pub struct RequestView {
    pub model: Seq<char>,
    pub messages: Seq<session::MessageView>,
    pub temperature_milli: u32,
}

impl View for LlmRequest {
    type V = RequestView;

    open spec fn view(&self) -> RequestView {
        RequestView {
            model: self.model@,
            messages: session::messages_view(self.messages@),
            temperature_milli: self.temperature_milli,
        }
    }
}

/// What a result holds, an error by its message.
pub open spec fn text_result(r: Result<String, String>) -> Result<Seq<char>, Seq<char>> {
    match r {
        Ok(s) => Ok(s@),
        Err(e) => Err(e@),
    }
}

/// The content of the message that a choice holds, if it holds one with a role and a content.
pub open spec fn content_of(choice: JsonView) -> Option<Seq<char>> {
    match choice.get("message"@) {
        Some(message) => match message.text_at("role"@) {
            Some(_) => message.text_at("content"@),
            None => None,
        },
        None => None,
    }
}

/// The contents of a list of choices, if each of them has one.
pub open spec fn contents_of(choices: Seq<JsonView>) -> Option<Seq<Seq<char>>>
    decreases choices.len(),
{
    if choices.len() == 0 {
        Some(Seq::empty())
    } else {
        match (contents_of(choices.drop_last()), content_of(choices.last())) {
            (Some(before), Some(content)) => Some(before.push(content)),
            _ => None,
        }
    }
}

/// The contents of the choices that a document lists under `choices`, if it has the form of an
/// answer of the model.
pub open spec fn choices_of(document: JsonView) -> Option<Seq<Seq<char>>> {
    match document.get("choices"@) {
        Some(JsonView::Array(choices)) => contents_of(choices),
        _ => None,
    }
}

/// What an HTTP answer of the model comes to, by what its body was read as: an error unless the
/// status is a success and the body lists choices, else the first of them.
pub open spec fn completion(
    success: bool,
    status: Seq<char>,
    body: Seq<char>,
    read: Result<JsonView, Seq<char>>,
) -> Result<Seq<char>, Seq<char>> {
    if !success {
        Err("HTTP "@ + status + ": "@ + body)
    } else {
        match read {
            Err(_) => Err("parse JSON chat/completions"@),
            Ok(document) => match choices_of(document) {
                None => Err("parse JSON chat/completions"@),
                Some(contents) => Ok(
                    if contents.len() > 0 {
                        contents[0]
                    } else {
                        "(réponse vide)"@
                    },
                ),
            },
        }
    }
}

/// What an optional list of texts holds.
pub open spec fn opt_texts(v: Option<Vec<String>>) -> Option<Seq<Seq<char>>> {
    match v {
        Some(v) => Some(text::texts(v@)),
        None => None,
    }
}

/// What a list of values holds.
pub open spec fn values_view(v: Seq<Json>) -> Seq<JsonView> {
    Seq::new(v.len(), |i: int| v[i]@)
}

/// The content of the message that a choice holds.
fn read_content(choice: &Json) -> (r: Option<String>)
    ensures
        text::opt(r) == content_of(choice@),
{
    match choice.get("message") {
        Some(message) => match message.text_at("role") {
            Some(_) => message.text_at("content"),
            None => None,
        },
        None => None,
    }
}

proof fn lemma_one_fails_all(choices: Seq<JsonView>, n: int)
    requires
        0 <= n <= choices.len(),
        contents_of(choices.take(n)) is None,
    ensures
        contents_of(choices) is None,
    decreases choices.len() - n,
{
    if n < choices.len() {
        assert(choices.take(n + 1).drop_last() =~= choices.take(n));
        lemma_one_fails_all(choices, n + 1);
    } else {
        assert(choices.take(n) =~= choices);
    }
}

/// The contents of a list of choices.
fn read_contents(choices: &Vec<Json>) -> (r: Option<Vec<String>>)
    ensures
        opt_texts(r) == contents_of(values_view(choices@)),
{
    let ghost all = values_view(choices@);
    let mut out: Vec<String> = Vec::new();
    let mut i: usize = 0;
    assert(all.take(0) =~= Seq::empty());
    assert(text::texts(out@) =~= Seq::empty());
    while i < choices.len()
        invariant
            i <= choices@.len(),
            all == values_view(choices@),
            contents_of(all.take(i as int)) == Some(text::texts(out@)),
        decreases choices@.len() - i,
    {
        let ghost before = out@;
        assert(all.take(i + 1).drop_last() =~= all.take(i as int));
        assert(all.take(i + 1).last() == choices@[i as int]@);
        match read_content(&choices[i]) {
            Some(content) => {
                out.push(content);
                assert(text::texts(out@) =~= text::texts(before).push(content@));
            },
            None => {
                proof {
                    lemma_one_fails_all(all, i + 1);
                }
                return None;
            },
        }
        i += 1;
    }
    assert(all.take(all.len() as int) =~= all);
    Some(out)
}

/// The contents of the choices that a document lists, if it has the form of an answer of the
/// model.
pub fn read_choices(document: &Json) -> (r: Option<Vec<String>>)
    ensures
        opt_texts(r) == choices_of(document@),
{
    match document.get("choices") {
        Some(Json::Array(choices)) => {
            assert(document@.get("choices"@)->0->Array_0 =~= values_view(choices@));
            read_contents(choices)
        },
        _ => None,
    }
}

/// What an HTTP answer of the model comes to, by what its body was read as.
pub fn answer_of_reading(
    success: bool,
    status: &str,
    body: &str,
    read: Result<Json, String>,
) -> (r: Result<String, String>)
    ensures
        text_result(r) == completion(success, status@, body@, json::json_read(read)),
{
    if !success {
        let mut e = "HTTP ".to_string();
        e.append(status);
        e.append(": ");
        e.append(body);
        return Err(e);
    }
    let choices = match read {
        Err(_) => None,
        Ok(document) => read_choices(&document),
    };
    match choices {
        None => Err("parse JSON chat/completions".to_string()),
        Some(contents) => {
            assert(text::texts(contents@).len() == contents@.len());
            if contents.len() > 0 {
                assert(text::texts(contents@)[0] == contents@[0]@);
                Ok(contents[0].clone())
            } else {
                Ok("(réponse vide)".to_string())
            }
        },
    }
}

/// What an HTTP answer of the model comes to.
pub fn completion_answer(success: bool, status: &str, body: &str) -> (r: Result<String, String>)
    ensures
        text_result(r) == completion(success, status@, body@, json::json_document(body@)),
{
    answer_of_reading(success, status, body, json::parse_json(body))
}

} // verus!
