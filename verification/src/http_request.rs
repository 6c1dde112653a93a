//! The HTTP request tool: what to send, and how to report what came back.

use vstd::prelude::*;

use crate::json::{Json, JsonView};
use crate::{json, order, search, text};

verus! {

// ---------------------------------------------------------------------------------------
// What to send

/// The payload of a request.
pub enum HttpBody {
    Json(Json),
    Text(String),
    Empty,
}

/// A request to send.
pub struct HttpCall {
    pub method: String,
    pub url: String,
    pub timeout_ms: u64,
    pub max_chars: usize,
    pub headers: Vec<(String, String)>,
    pub query: Vec<(String, String)>,
    pub body: HttpBody,
}

/// What a payload holds.
pub enum BodyView {
    Json(JsonView),
    Text(Seq<char>),
    Empty,
}

/// What a request holds.
#[verifier::ext_equal]
pub struct CallView {
    pub method: Seq<char>,
    pub url: Seq<char>,
    pub timeout_ms: u64,
    pub max_chars: int,
    pub headers: Seq<(Seq<char>, Seq<char>)>,
    pub query: Seq<(Seq<char>, Seq<char>)>,
    pub body: BodyView,
}

impl View for HttpBody {
    type V = BodyView;

    open spec fn view(&self) -> BodyView {
        match *self {
            HttpBody::Json(v) => BodyView::Json(v@),
            HttpBody::Text(s) => BodyView::Text(s@),
            HttpBody::Empty => BodyView::Empty,
        }
    }
}

/// The texts of a list of pairs.
pub open spec fn pairs_view(v: Seq<(String, String)>) -> Seq<(Seq<char>, Seq<char>)> {
    Seq::new(v.len(), |i: int| (v[i].0@, v[i].1@))
}

impl View for HttpCall {
    type V = CallView;

    open spec fn view(&self) -> CallView {
        CallView {
            method: self.method@,
            url: self.url@,
            timeout_ms: self.timeout_ms,
            max_chars: self.max_chars as int,
            headers: pairs_view(self.headers@),
            query: pairs_view(self.query@),
            body: self.body@,
        }
    }
}

/// What a result holds, an error by its message.
pub open spec fn call_view(r: Result<HttpCall, String>) -> Result<CallView, Seq<char>> {
    match r {
        Ok(call) => Ok(call@),
        Err(e) => Err(e@),
    }
}

/// What a result holds, an error by its message.
pub open spec fn pairs_read(r: Result<Vec<(String, String)>, String>) -> Result<
    Seq<(Seq<char>, Seq<char>)>,
    Seq<char>,
> {
    match r {
        Ok(v) => Ok(pairs_view(v@)),
        Err(e) => Err(e@),
    }
}

/// `n`, or the nearer bound if it lies outside.
pub open spec fn clamped(n: u64, low: u64, high: u64) -> u64 {
    if n < low {
        low
    } else if n > high {
        high
    } else {
        n
    }
}

/// The headers that a list of members gives; each value must be a text.
pub open spec fn headers_of(members: Seq<(Seq<char>, JsonView)>) -> Result<
    Seq<(Seq<char>, Seq<char>)>,
    Seq<char>,
>
    decreases members.len(),
{
    if members.len() == 0 {
        Ok(Seq::empty())
    } else {
        match headers_of(members.drop_last()) {
            Err(e) => Err(e),
            Ok(before) => match members.last().1 {
                JsonView::Text(value) => Ok(before.push((members.last().0, value))),
                _ => Err(
                    "erreur http_request: header '"@ + members.last().0
                        + "' doit être une string"@,
                ),
            },
        }
    }
}

/// The text that a query parameter takes for a value; none for arrays and objects.
pub open spec fn query_text(v: JsonView) -> Option<Seq<char>> {
    match v {
        JsonView::Text(s) => Some(s),
        JsonView::Number(s, _) => Some(s),
        JsonView::Bool(b) => Some(
            if b {
                "true"@
            } else {
                "false"@
            },
        ),
        JsonView::Null => Some("null"@),
        JsonView::Array(_) => None,
        JsonView::Object(_) => None,
    }
}

/// The query parameters that a list of members gives.
pub open spec fn query_of(members: Seq<(Seq<char>, JsonView)>) -> Result<
    Seq<(Seq<char>, Seq<char>)>,
    Seq<char>,
>
    decreases members.len(),
{
    if members.len() == 0 {
        Ok(Seq::empty())
    } else {
        match query_of(members.drop_last()) {
            Err(e) => Err(e),
            Ok(before) => match query_text(members.last().1) {
                Some(value) => Ok(before.push((members.last().0, value))),
                None => Err(
                    "erreur http_request: query '"@ + members.last().0
                        + "' doit être string/number/bool/null"@,
                ),
            },
        }
    }
}

/// The members of the object that stands at a key; none if there is no object.
pub open spec fn members_at(v: JsonView, key: Seq<char>) -> Seq<(Seq<char>, JsonView)> {
    match v.get(key) {
        Some(JsonView::Object(members)) => members,
        _ => Seq::empty(),
    }
}

/// The payload that the arguments give: `json` goes before `body`.
pub open spec fn body_of(args: JsonView) -> BodyView {
    match args.get("json"@) {
        Some(v) => BodyView::Json(v),
        None => match args.text_at("body"@) {
            Some(s) => BodyView::Text(s),
            None => BodyView::Empty,
        },
    }
}

/// An absolute web address.
pub open spec fn web_address(url: Seq<char>) -> bool {
    "http://"@.is_prefix_of(url) || "https://"@.is_prefix_of(url)
}

/// The number at a key, or `default`, brought between the bounds.
pub open spec fn bounded_at(args: JsonView, key: Seq<char>, default: u64, low: u64, high: u64) -> u64 {
    clamped(
        match args.unsigned_at(key) {
            Some(n) => n,
            None => default,
        },
        low,
        high,
    )
}

/// The method that the arguments name, in any mix of upper and lower case.
pub open spec fn method_of(args: JsonView) -> Seq<char> {
    match args.text_at("method"@) {
        Some(method) => method,
        None => "GET"@,
    }
}

/// The request that the arguments ask for, or why there is none.
pub open spec fn request_of(args: JsonView) -> Result<CallView, Seq<char>> {
    match args.text_at("url"@) {
        None => Err("erreur http_request: url manquante"@),
        Some(url) => if !web_address(url) {
            Err("erreur http_request: url doit commencer par http:// ou https://"@)
        } else {
            match headers_of(members_at(args, "headers"@)) {
                Err(e) => Err(e),
                Ok(headers) => match query_of(members_at(args, "query"@)) {
                    Err(e) => Err(e),
                    Ok(query) => Ok(
                        CallView {
                            method: text::uppercase(method_of(args)),
                            url,
                            timeout_ms: bounded_at(args, "timeout_ms"@, 15_000, 100, 120_000),
                            max_chars: bounded_at(args, "max_chars"@, 4_000, 200, 20_000) as int,
                            headers,
                            query,
                            body: body_of(args),
                        },
                    ),
                },
            }
        },
    }
}

/// Brings `n` between the bounds.
fn clamp(n: u64, low: u64, high: u64) -> (r: u64)
    ensures
        r == clamped(n, low, high),
{
    if n < low {
        low
    } else if n > high {
        high
    } else {
        n
    }
}

/// The number at a key, or `default`, brought between the bounds.
fn bounded_number(args: &Json, key: &str, default: u64, low: u64, high: u64) -> (r: u64)
    ensures
        r == bounded_at(args@, key@, default, low, high),
{
    match args.unsigned_at(key) {
        Some(n) => clamp(n, low, high),
        None => clamp(default, low, high),
    }
}

proof fn lemma_headers_error(members: Seq<(Seq<char>, JsonView)>, n: int)
    requires
        0 <= n <= members.len(),
        headers_of(members.take(n)) is Err,
    ensures
        headers_of(members) == headers_of(members.take(n)),
    decreases members.len() - n,
{
    if n < members.len() {
        assert(members.take(n + 1).drop_last() =~= members.take(n));
        lemma_headers_error(members, n + 1);
    } else {
        assert(members.take(n) =~= members);
    }
}

proof fn lemma_query_error(members: Seq<(Seq<char>, JsonView)>, n: int)
    requires
        0 <= n <= members.len(),
        query_of(members.take(n)) is Err,
    ensures
        query_of(members) == query_of(members.take(n)),
    decreases members.len() - n,
{
    if n < members.len() {
        assert(members.take(n + 1).drop_last() =~= members.take(n));
        lemma_query_error(members, n + 1);
    } else {
        assert(members.take(n) =~= members);
    }
}

/// The headers that the arguments give.
fn read_headers(args: &Json) -> (r: Result<Vec<(String, String)>, String>)
    ensures
        pairs_read(r) == headers_of(members_at(args@, "headers"@)),
{
    let mut out: Vec<(String, String)> = Vec::new();
    assert(pairs_view(out@) =~= Seq::empty());
    match args.get("headers") {
        Some(Json::Object(members)) => {
            let ghost all = members_at(args@, "headers"@);
            assert(all =~= json::members_view(members@));
            let mut i: usize = 0;
            assert(all.take(0) =~= Seq::empty());
            while i < members.len()
                invariant
                    i <= members@.len(),
                    all == json::members_view(members@),
                    all == members_at(args@, "headers"@),
                    headers_of(all.take(i as int)) == pairs_read(Ok(out)),
                decreases members@.len() - i,
            {
                assert(all.take(i + 1).drop_last() =~= all.take(i as int));
                match &members[i].1 {
                    Json::Text(value) => {
                        let ghost before = pairs_view(out@);
                        out.push((members[i].0.clone(), value.clone()));
                        assert(pairs_view(out@) =~= before.push((all[i as int].0, value@)));
                    },
                    _ => {
                        let mut e = "erreur http_request: header '".to_string();
                        e.append(members[i].0.as_str());
                        e.append("' doit être une string");
                        proof {
                            lemma_headers_error(all, i + 1);
                        }
                        return Err(e);
                    },
                }
                i += 1;
            }
            assert(all.take(all.len() as int) =~= all);
            Ok(out)
        },
        _ => Ok(out),
    }
}

/// The text that a query parameter takes for a value.
fn query_value(v: &Json) -> (r: Option<String>)
    ensures
        text::opt(r) == query_text(v@),
{
    match v {
        Json::Text(s) => Some(s.clone()),
        Json::Number(n) => Some(n.text.clone()),
        Json::Bool(b) => Some(
            if *b {
                "true".to_string()
            } else {
                "false".to_string()
            },
        ),
        Json::Null => Some("null".to_string()),
        _ => None,
    }
}

/// The query parameters that the arguments give.
fn read_query(args: &Json) -> (r: Result<Vec<(String, String)>, String>)
    ensures
        pairs_read(r) == query_of(members_at(args@, "query"@)),
{
    let mut out: Vec<(String, String)> = Vec::new();
    assert(pairs_view(out@) =~= Seq::empty());
    match args.get("query") {
        Some(Json::Object(members)) => {
            let ghost all = members_at(args@, "query"@);
            assert(all =~= json::members_view(members@));
            let mut i: usize = 0;
            assert(all.take(0) =~= Seq::empty());
            while i < members.len()
                invariant
                    i <= members@.len(),
                    all == json::members_view(members@),
                    all == members_at(args@, "query"@),
                    query_of(all.take(i as int)) == pairs_read(Ok(out)),
                decreases members@.len() - i,
            {
                assert(all.take(i + 1).drop_last() =~= all.take(i as int));
                match query_value(&members[i].1) {
                    Some(value) => {
                        let ghost before = pairs_view(out@);
                        out.push((members[i].0.clone(), value));
                        assert(pairs_view(out@) =~= before.push((all[i as int].0, value@)));
                    },
                    None => {
                        let mut e = "erreur http_request: query '".to_string();
                        e.append(members[i].0.as_str());
                        e.append("' doit être string/number/bool/null");
                        proof {
                            lemma_query_error(all, i + 1);
                        }
                        return Err(e);
                    },
                }
                i += 1;
            }
            assert(all.take(all.len() as int) =~= all);
            Ok(out)
        },
        _ => Ok(out),
    }
}

/// The payload that the arguments give.
fn read_body(args: &Json) -> (r: HttpBody)
    ensures
        r@ == body_of(args@),
{
    match args.get("json") {
        Some(v) => HttpBody::Json(v.copy()),
        None => match args.text_at("body") {
            Some(s) => HttpBody::Text(s),
            None => HttpBody::Empty,
        },
    }
}

/// The request that the arguments ask for, or why there is none.
pub fn plan_request(args: &Json) -> (r: Result<HttpCall, String>)
    ensures
        call_view(r) == request_of(args@),
        r is Ok && text::ascii(method_of(args@)) ==> r->Ok_0.method@ == text::raised(
            method_of(args@),
        ),
{
    let named = match args.text_at("method") {
        Some(method) => method,
        None => "GET".to_string(),
    };
    let method = named.as_str().to_uppercase();
    let url = match args.text_at("url") {
        None => {
            return Err("erreur http_request: url manquante".to_string());
        },
        Some(url) => url,
    };
    if !search::starts_with(url.as_str(), "http://") && !search::starts_with(
        url.as_str(),
        "https://",
    ) {
        return Err(
            "erreur http_request: url doit commencer par http:// ou https://".to_string(),
        );
    }
    let timeout_ms = bounded_number(args, "timeout_ms", 15_000, 100, 120_000);
    let max_chars = bounded_number(args, "max_chars", 4_000, 200, 20_000);
    let headers = match read_headers(args) {
        Err(e) => {
            return Err(e);
        },
        Ok(headers) => headers,
    };
    let query = match read_query(args) {
        Err(e) => {
            return Err(e);
        },
        Ok(query) => query,
    };
    let body = read_body(args);
    Ok(HttpCall { method, url, timeout_ms, max_chars: max_chars as usize, headers, query, body })
}

// ---------------------------------------------------------------------------------------
// What came back

/// What came back for a request.
pub enum HttpOutcome {
    /// An answer; `accepted` where the client did not take it for an error.
    Answer { accepted: bool, status: u16, url: String, content_type: String, body: String },
    /// No answer, with the reason.
    Transport(String),
}

/// What an outcome holds.
pub enum OutcomeView {
    Answer { accepted: bool, status: u16, url: Seq<char>, content_type: Seq<char>, body: Seq<char> },
    Transport(Seq<char>),
}

impl View for HttpOutcome {
    type V = OutcomeView;

    open spec fn view(&self) -> OutcomeView {
        match *self {
            HttpOutcome::Answer {
                accepted,
                status,
                url,
                content_type,
                body,
            } => OutcomeView::Answer {
                accepted,
                status,
                url: url@,
                content_type: content_type@,
                body: body@,
            },
            HttpOutcome::Transport(e) => OutcomeView::Transport(e@),
        }
    }
}

/// A text of at most `max_chars` characters as it stands, a longer one cut and marked.
pub open spec fn shortened(body: Seq<char>, max_chars: int) -> Seq<char> {
    if body.len() > max_chars {
        search::cut(body, max_chars) + "\n...[truncated]"@
    } else {
        body
    }
}

/// The record of an answer.
pub open spec fn answer_record(
    method: Seq<char>,
    ok: bool,
    status: u16,
    url: Seq<char>,
    content_type: Seq<char>,
    body: Seq<char>,
) -> JsonView {
    JsonView::Object(
        seq![
            ("body"@, JsonView::Text(body)),
            ("content_type"@, JsonView::Text(content_type)),
            ("method"@, JsonView::Text(method)),
            ("ok"@, JsonView::Bool(ok)),
            ("status"@, json::number_view(status as u64)),
            ("url"@, JsonView::Text(url)),
        ],
    )
}

/// The report on an outcome: the record of an answer as indented JSON, or the reason why there is
/// none. An answer counts as good if it was accepted and its status lies in the 200s.
pub open spec fn report_text(method: Seq<char>, max_chars: int, outcome: OutcomeView) -> Seq<char> {
    match outcome {
        OutcomeView::Transport(e) => "erreur http_request: transport: "@ + e,
        OutcomeView::Answer { accepted, status, url, content_type, body } => {
            let record = answer_record(
                method,
                accepted && 200 <= status < 300,
                status,
                url,
                content_type,
                shortened(body, max_chars),
            );
            match json::json_pretty(record) {
                Ok(s) => s,
                Err(e) => "erreur http_request: sérialisation résultat: "@ + e,
            }
        },
    }
}

/// Cuts a text down to `max_chars` characters and marks the cut.
pub fn shorten(body: &str, max_chars: usize) -> (r: String)
    ensures
        r@ == shortened(body@, max_chars as int),
{
    let cs = text::chars_of(body);
    if cs.len() > max_chars {
        let mut out = search::take_chars(body, max_chars);
        out.append("\n...[truncated]");
        out
    } else {
        body.to_string()
    }
}

proof fn lemma_record_keys()
    ensures
        order::precedes("body"@, "content_type"@),
        order::precedes("body"@, "method"@),
        order::precedes("body"@, "ok"@),
        order::precedes("body"@, "status"@),
        order::precedes("body"@, "url"@),
        order::precedes("content_type"@, "method"@),
        order::precedes("content_type"@, "ok"@),
        order::precedes("content_type"@, "status"@),
        order::precedes("content_type"@, "url"@),
        order::precedes("method"@, "ok"@),
        order::precedes("method"@, "status"@),
        order::precedes("method"@, "url"@),
        order::precedes("ok"@, "status"@),
        order::precedes("ok"@, "url"@),
        order::precedes("status"@, "url"@),
{
    reveal_strlit("body");
    reveal_strlit("content_type");
    reveal_strlit("method");
    reveal_strlit("ok");
    reveal_strlit("status");
    reveal_strlit("url");
}

/// The report on an outcome.
pub fn report(method: &str, max_chars: usize, outcome: HttpOutcome) -> (r: String)
    ensures
        r@ == report_text(method@, max_chars as int, outcome@),
{
    match outcome {
        HttpOutcome::Transport(reason) => {
            let mut e = "erreur http_request: transport: ".to_string();
            e.append(reason.as_str());
            e
        },
        HttpOutcome::Answer { accepted, status, url, content_type, body } => {
            let ok = accepted && 200 <= status && status < 300;
            let short = shorten(body.as_str(), max_chars);
            let mut members: Vec<(String, serde_json::Value)> = Vec::new();
            members.push(("body".to_string(), json::value_of_text(short.as_str())));
            members.push(("content_type".to_string(), json::value_of_text(content_type.as_str())));
            members.push(("method".to_string(), json::value_of_text(method)));
            members.push(("ok".to_string(), json::value_of_bool(ok)));
            members.push(("status".to_string(), json::value_of_number(status as u64)));
            members.push(("url".to_string(), json::value_of_text(url.as_str())));
            let ghost record = answer_record(method@, ok, status, url@, content_type@, short@);
            assert(json::members_contents(members@) =~= record->Object_0);
            proof {
                lemma_record_keys();
            }
            let value = json::value_of_members(members);
            match json::pretty_text(&value) {
                Ok(s) => s,
                Err(reason) => {
                    let mut e = "erreur http_request: sérialisation résultat: ".to_string();
                    e.append(reason.as_str());
                    e
                },
            }
        },
    }
}

/// A shortened text is a prefix of the body, or the first `max_chars` characters and the mark.
pub proof fn law_shortened_keeps_the_front(body: Seq<char>, max_chars: int)
    requires
        0 <= max_chars,
    ensures
        body.len() <= max_chars ==> shortened(body, max_chars) == body,
        body.len() > max_chars ==> shortened(body, max_chars).len() == max_chars
            + "\n...[truncated]"@.len(),
        forall|i: int|
            0 <= i < body.len() && i < max_chars ==> shortened(body, max_chars)[i] == body[i],
{
}

} // verus!
