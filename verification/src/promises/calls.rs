//! What the tools are for: the arguments of a call decide what is done.

use vstd::prelude::*;

use crate::cron_tool::CronRequestView;
use crate::http_request::{BodyView, OutcomeView};
use crate::json::JsonView;
use crate::promises::facts;
use crate::tools::{PlanView, ToolSpecView, ToolView};
use crate::{guard, http_request, json, layout, notes, numerals, paths, search, text, tools};

verus! {

/// The echo tool answers with the text that it was given.
pub proof fn law_echo_repeats_its_text(args: JsonView, s: Seq<char>)
    requires
        facts::gives(args, "text"@, JsonView::Text(s)),
    ensures
        tools::plan_of(ToolView::Echo, args) == PlanView::Reply(s),
{
    facts::lemma_gives(args, "text"@, JsonView::Text(s));
}

/// The clock is read whatever the arguments are, and a tool described by hand gets its call as it
/// came.
pub proof fn law_calls_are_handed_on(shown: ToolSpecView, args: JsonView)
    ensures
        tools::plan_of(ToolView::Time, args) == PlanView::Now,
        tools::plan_of(ToolView::Custom(shown), args) == (PlanView::Custom {
            name: shown.name,
            args,
        }),
        tools::tool_name(ToolView::Custom(shown)) == shown.name,
        tools::tool_spec(ToolView::Custom(shown)) == shown,
{
}

/// A search in the memory is for the text of the question as it was given, with the limit and the
/// archive that were asked for; five rows and no archive where nothing is said of them.
pub proof fn law_a_search_takes_its_arguments(
    basedir: Seq<char>,
    args: JsonView,
    q: Seq<char>,
    digits: Seq<char>,
    n: u64,
    b: bool,
)
    requires
        facts::gives(args, "query"@, JsonView::Text(q)),
        facts::filled(q),
    ensures
        ({
            let plan = tools::plan_of(ToolView::MemorySearch(basedir), args);
            &&& plan matches PlanView::Search { basedir: base, query, limit, archive } && {
                &&& base == basedir
                &&& query == q
                &&& facts::gives(args, "archive"@, JsonView::Bool(b)) ==> archive == b
                &&& facts::lacks(args, "archive"@) ==> archive == false
                &&& facts::gives(args, "limit"@, JsonView::Number(digits, Some(n))) && n
                    <= usize::MAX ==> limit == n
                &&& facts::lacks(args, "limit"@) ==> limit == 5
            }
        }),
{
    facts::lemma_gives(args, "query"@, JsonView::Text(q));
    facts::lemma_filled(q);
    if facts::gives(args, "archive"@, JsonView::Bool(b)) {
        facts::lemma_gives(args, "archive"@, JsonView::Bool(b));
    }
    if facts::lacks(args, "archive"@) {
        facts::lemma_lacks(args, "archive"@);
    }
    if facts::gives(args, "limit"@, JsonView::Number(digits, Some(n))) {
        facts::lemma_gives(args, "limit"@, JsonView::Number(digits, Some(n)));
    }
    if facts::lacks(args, "limit"@) {
        facts::lemma_lacks(args, "limit"@);
    }
}

/// An entry is looked up under the identity that was given.
pub proof fn law_a_look_up_takes_its_identity(basedir: Seq<char>, args: JsonView, id: Seq<char>)
    requires
        facts::gives(args, "id"@, JsonView::Text(id)),
        facts::filled(id),
    ensures
        tools::plan_of(ToolView::MemoryGet(basedir), args) == (PlanView::Get { basedir, id }),
{
    facts::lemma_gives(args, "id"@, JsonView::Text(id));
    facts::lemma_filled(id);
}

/// Without a question there is no search, and without an identity no look-up.
pub proof fn law_nothing_is_looked_for_without_a_question(
    basedir: Seq<char>,
    args: JsonView,
    s: Seq<char>,
)
    requires
        layout::all_white(s),
    ensures
        facts::lacks(args, "query"@) || facts::gives(args, "query"@, JsonView::Text(s))
            ==> tools::plan_of(ToolView::MemorySearch(basedir), args) is Reply,
        facts::lacks(args, "id"@) || facts::gives(args, "id"@, JsonView::Text(s))
            ==> tools::plan_of(ToolView::MemoryGet(basedir), args) is Reply,
{
    facts::lemma_filled(s);
    facts::lemma_filled(Seq::empty());
    if facts::lacks(args, "query"@) {
        facts::lemma_lacks(args, "query"@);
    } else if facts::gives(args, "query"@, JsonView::Text(s)) {
        facts::lemma_gives(args, "query"@, JsonView::Text(s));
    }
    if facts::lacks(args, "id"@) {
        facts::lemma_lacks(args, "id"@);
    } else if facts::gives(args, "id"@, JsonView::Text(s)) {
        facts::lemma_gives(args, "id"@, JsonView::Text(s));
    }
}

// ---------------------------------------------------------------------------------------
// Requests over HTTP

/// A request goes to the address that was given, in the method that was given, in upper case; a
/// call without an address on the web sends none.
pub proof fn law_a_request_goes_to_its_address(args: JsonView, url: Seq<char>, method: Seq<char>)
    requires
        facts::gives(args, "url"@, JsonView::Text(url)),
    ensures
        ({
            let plan = tools::plan_of(ToolView::HttpRequest, args);
            &&& plan matches PlanView::Http(call) ==> {
                &&& call.url == url
                &&& facts::gives(args, "method"@, JsonView::Text(method)) ==> call.method
                    == text::uppercase(method)
                &&& facts::lacks(args, "method"@) ==> call.method == text::uppercase("GET"@)
            }
            &&& plan is Http || plan is Reply
            &&& !"http://"@.is_prefix_of(url) && !"https://"@.is_prefix_of(url) ==> plan is Reply
            &&& ("http://"@.is_prefix_of(url) || "https://"@.is_prefix_of(url)) && facts::lacks(
                args,
                "headers"@,
            ) && facts::lacks(args, "query"@) ==> plan is Http
        }),
{
    facts::lemma_gives(args, "url"@, JsonView::Text(url));
    if facts::gives(args, "method"@, JsonView::Text(method)) {
        facts::lemma_gives(args, "method"@, JsonView::Text(method));
    }
    if facts::lacks(args, "method"@) {
        facts::lemma_lacks(args, "method"@);
    }
    if facts::lacks(args, "headers"@) {
        facts::lemma_lacks(args, "headers"@);
    }
    if facts::lacks(args, "query"@) {
        facts::lemma_lacks(args, "query"@);
    }
}

/// A request carries the payload that was given: a JSON value before a text, and none where
/// neither is given.
pub proof fn law_a_request_carries_its_payload(args: JsonView, v: JsonView, s: Seq<char>)
    ensures
        tools::plan_of(ToolView::HttpRequest, args) matches PlanView::Http(call) ==> {
            &&& facts::gives(args, "json"@, v) ==> call.body == BodyView::Json(v)
            &&& facts::lacks(args, "json"@) && facts::gives(args, "body"@, JsonView::Text(s))
                ==> call.body == BodyView::Text(s)
            &&& facts::lacks(args, "json"@) && facts::lacks(args, "body"@) ==> call.body
                == BodyView::Empty
        },
{
    if facts::gives(args, "json"@, v) {
        facts::lemma_gives(args, "json"@, v);
    }
    if facts::lacks(args, "json"@) {
        facts::lemma_lacks(args, "json"@);
    }
    if facts::gives(args, "body"@, JsonView::Text(s)) {
        facts::lemma_gives(args, "body"@, JsonView::Text(s));
    }
    if facts::lacks(args, "body"@) {
        facts::lemma_lacks(args, "body"@);
    }
}

/// The time and the size that were asked for are kept within their bounds.
pub proof fn law_a_request_is_bounded(args: JsonView, digits: Seq<char>, n: u64)
    ensures
        tools::plan_of(ToolView::HttpRequest, args) matches PlanView::Http(call) ==> {
            &&& 100 <= call.timeout_ms <= 120_000
            &&& 200 <= call.max_chars <= 20_000
            &&& facts::gives(args, "timeout_ms"@, JsonView::Number(digits, Some(n))) ==> {
                &&& 100 <= n <= 120_000 ==> call.timeout_ms == n
                &&& n < 100 ==> call.timeout_ms == 100
                &&& n > 120_000 ==> call.timeout_ms == 120_000
            }
            &&& facts::gives(args, "max_chars"@, JsonView::Number(digits, Some(n))) ==> {
                &&& 200 <= n <= 20_000 ==> call.max_chars == n
                &&& n < 200 ==> call.max_chars == 200
                &&& n > 20_000 ==> call.max_chars == 20_000
            }
            &&& facts::lacks(args, "timeout_ms"@) ==> call.timeout_ms == 15_000
            &&& facts::lacks(args, "max_chars"@) ==> call.max_chars == 4_000
        },
{
    if facts::gives(args, "timeout_ms"@, JsonView::Number(digits, Some(n))) {
        facts::lemma_gives(args, "timeout_ms"@, JsonView::Number(digits, Some(n)));
    }
    if facts::gives(args, "max_chars"@, JsonView::Number(digits, Some(n))) {
        facts::lemma_gives(args, "max_chars"@, JsonView::Number(digits, Some(n)));
    }
    if facts::lacks(args, "timeout_ms"@) {
        facts::lemma_lacks(args, "timeout_ms"@);
    }
    if facts::lacks(args, "max_chars"@) {
        facts::lemma_lacks(args, "max_chars"@);
    }
}

/// A list of pairs writes down each of a list of members, in order.
pub open spec fn writes_each(
    pairs: Seq<(Seq<char>, Seq<char>)>,
    members: Seq<(Seq<char>, JsonView)>,
) -> bool {
    &&& pairs.len() == members.len()
    &&& forall|i: int|
        0 <= i < members.len() ==> {
            &&& (#[trigger] pairs[i]).0 == members[i].0
            &&& members[i].1 matches JsonView::Text(s) ==> pairs[i].1 == s
            &&& members[i].1 matches JsonView::Number(digits, _) ==> pairs[i].1 == digits
            &&& members[i].1 == JsonView::Bool(true) ==> pairs[i].1 == "true"@
            &&& members[i].1 == JsonView::Bool(false) ==> pairs[i].1 == "false"@
            &&& members[i].1 is Null ==> pairs[i].1 == "null"@
        }
}

proof fn lemma_headers(members: Seq<(Seq<char>, JsonView)>)
    ensures
        match http_request::headers_of(members) {
            Ok(pairs) => writes_each(pairs, members) && forall|i: int|
                0 <= i < members.len() ==> (#[trigger] members[i]).1 is Text,
            Err(_) => exists|i: int| 0 <= i < members.len() && !((#[trigger] members[i]).1 is Text),
        },
    decreases members.len(),
{
    if members.len() > 0 {
        let front = members.drop_last();
        lemma_headers(front);
        let n = members.len() - 1;
        assert(members[n] == members.last());
        match http_request::headers_of(front) {
            Ok(before) => {
                assert forall|i: int| 0 <= i < n implies #[trigger] front[i] == members[i] by {}
                if members.last().1 is Text {
                    let pairs = http_request::headers_of(members)->Ok_0;
                    assert forall|i: int| 0 <= i < members.len() implies (#[trigger] members[i]).1 is Text by {
                        if i < n {
                            assert(front[i] == members[i]);
                        }
                    }
                    assert forall|i: int| 0 <= i < n implies #[trigger] pairs[i] == before[i] by {}
                }
            },
            Err(_) => {
                let i = choose|i: int|
                    0 <= i < front.len() && !((#[trigger] front[i]).1 is Text);
                assert(members[i] == front[i]);
            },
        }
    }
}

proof fn lemma_query(members: Seq<(Seq<char>, JsonView)>)
    ensures
        match http_request::query_of(members) {
            Ok(pairs) => writes_each(pairs, members) && forall|i: int|
                0 <= i < members.len() ==> !((#[trigger] members[i]).1 is Array || members[i].1 is Object),
            Err(_) => exists|i: int|
                0 <= i < members.len() && ((#[trigger] members[i]).1 is Array || members[i].1 is Object),
        },
    decreases members.len(),
{
    if members.len() > 0 {
        let front = members.drop_last();
        lemma_query(front);
        let n = members.len() - 1;
        assert(members[n] == members.last());
        match http_request::query_of(front) {
            Ok(before) => {
                assert forall|i: int| 0 <= i < n implies #[trigger] front[i] == members[i] by {}
                if !(members.last().1 is Array || members.last().1 is Object) {
                    let pairs = http_request::query_of(members)->Ok_0;
                    assert forall|i: int| 0 <= i < members.len() implies !((#[trigger] members[i]).1 is Array
                        || members[i].1 is Object) by {
                        if i < n {
                            assert(front[i] == members[i]);
                        }
                    }
                    assert forall|i: int| 0 <= i < n implies #[trigger] pairs[i] == before[i] by {}
                }
            },
            Err(_) => {
                let i = choose|i: int|
                    0 <= i < front.len() && ((#[trigger] front[i]).1 is Array || front[i].1 is Object);
                assert(members[i] == front[i]);
            },
        }
    }
}

/// A request carries each header and each query parameter that was given, in order; one that
/// cannot be written down stops it.
pub proof fn law_a_request_carries_its_headers_and_parameters(
    args: JsonView,
    headers: Seq<(Seq<char>, JsonView)>,
    query: Seq<(Seq<char>, JsonView)>,
)
    ensures
        ({
            let plan = tools::plan_of(ToolView::HttpRequest, args);
            &&& facts::gives(args, "headers"@, JsonView::Object(headers)) ==> {
                &&& plan matches PlanView::Http(call) ==> writes_each(call.headers, headers)
                &&& (exists|i: int|
                    0 <= i < headers.len() && !((#[trigger] headers[i]).1 is Text)) ==> plan is Reply
            }
            &&& facts::gives(args, "query"@, JsonView::Object(query)) ==> {
                &&& plan matches PlanView::Http(call) ==> writes_each(call.query, query)
                &&& (exists|i: int|
                    0 <= i < query.len() && ((#[trigger] query[i]).1 is Array || query[i].1 is Object))
                    ==> plan is Reply
            }
            &&& plan matches PlanView::Http(call) ==> {
                &&& facts::lacks(args, "headers"@) ==> call.headers.len() == 0
                &&& facts::lacks(args, "query"@) ==> call.query.len() == 0
            }
        }),
{
    lemma_headers(headers);
    lemma_query(query);
    if facts::gives(args, "headers"@, JsonView::Object(headers)) {
        facts::lemma_gives(args, "headers"@, JsonView::Object(headers));
    }
    if facts::gives(args, "query"@, JsonView::Object(query)) {
        facts::lemma_gives(args, "query"@, JsonView::Object(query));
    }
    if facts::lacks(args, "headers"@) {
        facts::lemma_lacks(args, "headers"@);
    }
    if facts::lacks(args, "query"@) {
        facts::lemma_lacks(args, "query"@);
    }
}

/// A request with an address on the web, headers that are texts and parameters that can be
/// written down is sent.
pub proof fn law_a_good_request_is_sent(
    args: JsonView,
    url: Seq<char>,
    headers: Seq<(Seq<char>, JsonView)>,
    query: Seq<(Seq<char>, JsonView)>,
)
    requires
        facts::gives(args, "url"@, JsonView::Text(url)),
        "http://"@.is_prefix_of(url) || "https://"@.is_prefix_of(url),
        facts::lacks(args, "headers"@) || facts::gives(args, "headers"@, JsonView::Object(headers)),
        facts::lacks(args, "query"@) || facts::gives(args, "query"@, JsonView::Object(query)),
        forall|i: int| 0 <= i < headers.len() ==> (#[trigger] headers[i]).1 is Text,
        forall|i: int|
            0 <= i < query.len() ==> !((#[trigger] query[i]).1 is Array || query[i].1 is Object),
    ensures
        tools::plan_of(ToolView::HttpRequest, args) is Http,
{
    facts::lemma_gives(args, "url"@, JsonView::Text(url));
    lemma_headers(headers);
    lemma_query(query);
    if facts::lacks(args, "headers"@) {
        facts::lemma_lacks(args, "headers"@);
    } else {
        facts::lemma_gives(args, "headers"@, JsonView::Object(headers));
    }
    if facts::lacks(args, "query"@) {
        facts::lemma_lacks(args, "query"@);
    } else {
        facts::lemma_gives(args, "query"@, JsonView::Object(query));
    }
}

/// The report on an answer holds all that was received: whether it is good, the status, the
/// address, the type, and the body, cut only where it is too long.
pub proof fn law_the_record_of_an_answer_holds_it_all(
    method: Seq<char>,
    ok: bool,
    status: u16,
    url: Seq<char>,
    content_type: Seq<char>,
    body: Seq<char>,
)
    ensures
        ({
            let record = http_request::answer_record(method, ok, status, url, content_type, body);
            &&& facts::gives(record, "body"@, JsonView::Text(body))
            &&& facts::gives(record, "content_type"@, JsonView::Text(content_type))
            &&& facts::gives(record, "method"@, JsonView::Text(method))
            &&& facts::gives(record, "ok"@, JsonView::Bool(ok))
            &&& facts::gives(record, "url"@, JsonView::Text(url))
            &&& exists|digits: Seq<char>| #[trigger]
                facts::gives(record, "status"@, JsonView::Number(digits, Some(status as u64)))
        }),
{
    reveal_strlit("body");
    reveal_strlit("content_type");
    reveal_strlit("method");
    reveal_strlit("ok");
    reveal_strlit("status");
    reveal_strlit("url");
    assert("body"@.len() == 4 && "content_type"@.len() == 12 && "method"@.len() == 6);
    assert("ok"@.len() == 2 && "status"@.len() == 6 && "url"@.len() == 3);
    assert("method"@[0] == 'm' && "status"@[0] == 's');
    let record = http_request::answer_record(method, ok, status, url, content_type, body);
    let members = record->Object_0;
    assert(members[0] == ("body"@, JsonView::Text(body)));
    assert(members[1] == ("content_type"@, JsonView::Text(content_type)));
    assert(members[2] == ("method"@, JsonView::Text(method)));
    assert(members[3] == ("ok"@, JsonView::Bool(ok)));
    assert(members[4].0 == "status"@);
    assert(members[5] == ("url"@, JsonView::Text(url)));
    let digits = members[4].1->Number_0;
    assert(facts::gives(record, "status"@, JsonView::Number(digits, Some(status as u64))));
}

// ---------------------------------------------------------------------------------------
// Notes

/// A fit note for the agent or the user is granted for that file, as it was given, without the
/// white space around it.
pub proof fn law_a_fit_note_is_granted(
    basedir: Seq<char>,
    args: JsonView,
    before: Seq<char>,
    w: Seq<char>,
    after: Seq<char>,
)
    requires
        layout::all_white(before),
        layout::all_white(after),
        facts::tight(w),
        facts::gives(args, "text"@, JsonView::Text(before + w + after)),
        guard::byte_len(w) <= 500,
        !guard::sensitive(w),
    ensures
        ({
            let plan = tools::plan_of(ToolView::InfoAppend(basedir), args);
            &&& facts::gives(args, "target"@, JsonView::Text("agent"@)) ==> (plan matches PlanView::Append(
                request,
            ) && request.note == w && request.file == "AGENT.md"@ && request.path == paths::joined(
                basedir,
                "AGENT.md"@,
            ))
            &&& facts::gives(args, "target"@, JsonView::Text("user"@)) ==> (plan matches PlanView::Append(
                request,
            ) && request.note == w && request.file == "USER.md"@ && request.path == paths::joined(
                basedir,
                "USER.md"@,
            ))
        }),
{
    facts::lemma_padded(before, w, after);
    facts::lemma_gives(args, "text"@, JsonView::Text(before + w + after));
    reveal_strlit("agent");
    reveal_strlit("user");
    assert("agent"@.len() != "user"@.len());
    if facts::gives(args, "target"@, JsonView::Text("agent"@)) {
        facts::lemma_gives(args, "target"@, JsonView::Text("agent"@));
    }
    if facts::gives(args, "target"@, JsonView::Text("user"@)) {
        facts::lemma_gives(args, "target"@, JsonView::Text("user"@));
    }
}

/// An unfit note is refused, and so is one for any other file.
pub proof fn law_an_unfit_note_is_refused(
    basedir: Seq<char>,
    args: JsonView,
    before: Seq<char>,
    w: Seq<char>,
    after: Seq<char>,
    target: Seq<char>,
)
    requires
        layout::all_white(before),
        layout::all_white(after),
        facts::tight(w),
    ensures
        facts::gives(args, "text"@, JsonView::Text(before + w + after)) && (guard::byte_len(w) > 500
            || guard::sensitive(w)) ==> tools::plan_of(ToolView::InfoAppend(basedir), args) is Reply,
        facts::gives(args, "target"@, JsonView::Text(target)) && target != "agent"@ && target
            != "user"@ ==> tools::plan_of(ToolView::InfoAppend(basedir), args) is Reply,
        facts::lacks(args, "text"@) || facts::gives(args, "text"@, JsonView::Text(before))
            ==> tools::plan_of(ToolView::InfoAppend(basedir), args) is Reply,
{
    facts::lemma_padded(before, w, after);
    facts::lemma_filled(before);
    facts::lemma_filled(Seq::empty());
    if facts::gives(args, "text"@, JsonView::Text(before + w + after)) {
        facts::lemma_gives(args, "text"@, JsonView::Text(before + w + after));
    }
    if facts::gives(args, "text"@, JsonView::Text(before)) {
        facts::lemma_gives(args, "text"@, JsonView::Text(before));
    }
    if facts::lacks(args, "text"@) {
        facts::lemma_lacks(args, "text"@);
    }
    if facts::gives(args, "target"@, JsonView::Text(target)) {
        facts::lemma_gives(args, "target"@, JsonView::Text(target));
    }
}

/// The line that a note adds is a new one that ends with the note, whole, behind its time.
pub proof fn law_a_note_is_added_whole(ts: Seq<char>, note: Seq<char>)
    ensures
        notes::note_line(ts, note) == seq!['\n', '-', ' ', '['] + ts + seq![']', ' '] + note,
{
    reveal_strlit("\n- [");
    reveal_strlit("] ");
    assert("\n- ["@ =~= seq!['\n', '-', ' ', '[']);
    assert("] "@ =~= seq![']', ' ']);
}

// ---------------------------------------------------------------------------------------
// Scheduled jobs

/// The cron tool does what its action names, with the message or the identity that was given,
/// without the white space around it.
pub proof fn law_the_cron_tool_does_what_it_is_told(
    args: JsonView,
    before: Seq<char>,
    w: Seq<char>,
    after: Seq<char>,
)
    requires
        layout::all_white(before),
        layout::all_white(after),
        facts::tight(w),
    ensures
        ({
            let plan = tools::plan_of(ToolView::CronManage, args);
            let message = facts::gives(args, "message"@, JsonView::Text(before + w + after));
            let job = facts::gives(args, "job_id"@, JsonView::Text(before + w + after));
            &&& facts::gives(args, "action"@, JsonView::Text("list"@)) ==> plan == PlanView::Cron(
                CronRequestView::List,
            )
            &&& facts::gives(args, "action"@, JsonView::Text("add_notify"@)) && message ==> plan
                == PlanView::Cron(CronRequestView::AddNotify(w))
            &&& facts::gives(args, "action"@, JsonView::Text("add_agent_turn"@)) && message ==> plan
                == PlanView::Cron(CronRequestView::AddAgentTurn(w))
            &&& facts::gives(args, "action"@, JsonView::Text("runs"@)) && job ==> plan
                == PlanView::Cron(CronRequestView::Runs(w))
            &&& facts::gives(args, "action"@, JsonView::Text("run"@)) && job ==> plan
                == PlanView::Cron(CronRequestView::Run(w))
        }),
{
    facts::lemma_padded(before, w, after);
    reveal_strlit("list");
    reveal_strlit("add_notify");
    reveal_strlit("add_agent_turn");
    reveal_strlit("runs");
    reveal_strlit("run");
    assert("list"@.len() == 4 && "add_notify"@.len() == 10 && "add_agent_turn"@.len() == 14);
    assert("runs"@.len() == 4 && "run"@.len() == 3);
    assert("list"@[0] == 'l' && "runs"@[0] == 'r');
    if facts::gives(args, "message"@, JsonView::Text(before + w + after)) {
        facts::lemma_gives(args, "message"@, JsonView::Text(before + w + after));
    }
    if facts::gives(args, "job_id"@, JsonView::Text(before + w + after)) {
        facts::lemma_gives(args, "job_id"@, JsonView::Text(before + w + after));
    }
    lemma_action(args, "list"@);
    lemma_action(args, "add_notify"@);
    lemma_action(args, "add_agent_turn"@);
    lemma_action(args, "runs"@);
    lemma_action(args, "run"@);
}

proof fn lemma_action(args: JsonView, action: Seq<char>)
    ensures
        facts::gives(args, "action"@, JsonView::Text(action)) ==> notes::text_or_empty(
            args,
            "action"@,
        ) == action,
{
    if facts::gives(args, "action"@, JsonView::Text(action)) {
        facts::lemma_gives(args, "action"@, JsonView::Text(action));
    }
}

// ---------------------------------------------------------------------------------------
// Replies

/// The reply to a search holds all rows, each on a line of its own, in order.
pub proof fn law_the_reply_to_a_search_holds_every_row(rows: Seq<Seq<char>>, row: Seq<char>)
    ensures
        tools::search_reply_text(Ok(seq![row])) == row,
        rows.len() > 0 ==> tools::search_reply_text(Ok(rows.push(row)))
            == tools::search_reply_text(Ok(rows)) + seq!['\n'] + row,
        rows.len() == 0 ==> tools::search_reply_text(Ok(rows)) == "Aucun souvenir trouvé."@,
{
    reveal_strlit("\n");
    assert("\n"@ =~= seq!['\n']);
    assert(rows.push(row).drop_last() =~= rows);
    reveal_with_fuel(search::joined, 2);
}

/// The reply to a look-up is the row that was found.
pub proof fn law_the_reply_to_a_look_up_is_the_row(id: Seq<char>, row: Seq<char>, e: Seq<char>)
    ensures
        tools::get_reply_text(id, Ok(Some(row))) == row,
        tools::get_reply_text(id, Ok(None)) == "Aucune entrée pour id="@ + id,
        tools::get_reply_text(id, Err(e)) == "erreur memory_get: "@ + e,
        tools::search_reply_text(Err(e)) == "erreur memory_search: "@ + e,
{
}

/// A note that no line of the file holds is added to it, whole; one that is there already is not.
pub proof fn law_a_new_note_is_added(
    file: Seq<char>,
    note: Seq<char>,
    existing: Seq<char>,
    ts: Seq<char>,
)
    ensures
        ({
            let (addition, reply) = notes::noted_down(file, note, existing, ts);
            let known = exists|i: int|
                0 <= i < search::lines(existing).len() && search::holds(
                    #[trigger] search::lines(existing)[i],
                    note,
                );
            &&& !known ==> addition == Some(
                seq!['\n', '-', ' ', '['] + ts + seq![']', ' '] + note,
            ) && reply == "info_append: ajouté dans "@ + file
            &&& known ==> addition is None && reply == "info_append: déjà présent dans "@ + file
        }),
{
    law_a_note_is_added_whole(ts, note);
}

/// What is given under a key in another form than the tool takes counts as if it were not there.
pub proof fn law_other_forms_count_as_absent(
    basedir: Seq<char>,
    args: JsonView,
    q: Seq<char>,
    v: JsonView,
)
    ensures
        facts::gives(args, "query"@, JsonView::Text(q)) && facts::filled(q) ==> {
            let plan = tools::plan_of(ToolView::MemorySearch(basedir), args);
            &&& plan is Search
            &&& facts::gives(args, "archive"@, v) && !(v is Bool) ==> plan->archive == false
            &&& facts::gives(args, "limit"@, v) && !(v is Number && v->Number_1 is Some)
                ==> plan->limit == 5
        },
        facts::gives(args, "query"@, v) && !(v is Text) ==> tools::plan_of(
            ToolView::MemorySearch(basedir),
            args,
        ) is Reply,
        facts::gives(args, "id"@, v) && !(v is Text) ==> tools::plan_of(
            ToolView::MemoryGet(basedir),
            args,
        ) is Reply,
        facts::gives(args, "url"@, v) && !(v is Text) || facts::lacks(args, "url"@)
            ==> tools::plan_of(ToolView::HttpRequest, args) is Reply,
        tools::plan_of(ToolView::HttpRequest, args) matches PlanView::Http(call) ==> {
            &&& facts::gives(args, "method"@, v) && !(v is Text) ==> call.method
                == text::uppercase("GET"@)
            &&& facts::gives(args, "timeout_ms"@, v) && !(v is Number && v->Number_1 is Some)
                ==> call.timeout_ms == 15_000
            &&& facts::gives(args, "max_chars"@, v) && !(v is Number && v->Number_1 is Some)
                ==> call.max_chars == 4_000
            &&& facts::gives(args, "headers"@, v) && !(v is Object) ==> call.headers.len() == 0
            &&& facts::gives(args, "query"@, v) && !(v is Object) ==> call.query.len() == 0
            &&& facts::lacks(args, "json"@) && facts::gives(args, "body"@, v) && !(v is Text)
                ==> call.body == BodyView::Empty
        },
{
    facts::lemma_filled(q);
    lemma_given(args, "query"@, JsonView::Text(q));
    lemma_given(args, "archive"@, v);
    lemma_given(args, "limit"@, v);
    lemma_given(args, "query"@, v);
    lemma_given(args, "id"@, v);
    lemma_given(args, "url"@, v);
    lemma_given(args, "method"@, v);
    lemma_given(args, "timeout_ms"@, v);
    lemma_given(args, "max_chars"@, v);
    lemma_given(args, "headers"@, v);
    lemma_given(args, "body"@, v);
    lemma_given(args, "json"@, v);
    assert(text::trimmed(Seq::<char>::empty()).len() == 0);
}

proof fn lemma_given(args: JsonView, key: Seq<char>, v: JsonView)
    ensures
        facts::gives(args, key, v) ==> args.get(key) == Some(v),
        facts::lacks(args, key) ==> args.get(key) is None,
{
    if facts::gives(args, key, v) {
        facts::lemma_gives(args, key, v);
    }
    if facts::lacks(args, key) {
        facts::lemma_lacks(args, key);
    }
}

/// A fresh registry answers to the names of the seven tools, each working under the base
/// directory.
pub proof fn law_a_fresh_registry_knows_its_tools(basedir: Seq<char>, args: JsonView)
    ensures
        ({
            let all = tools::default_tools(basedir);
            &&& all.len() == 7
            &&& tools::executed(all, "time"@, args) == PlanView::Now
            &&& tools::executed(all, "echo"@, args) == tools::plan_of(ToolView::Echo, args)
            &&& tools::executed(all, "http_request"@, args) == tools::plan_of(
                ToolView::HttpRequest,
                args,
            )
            &&& tools::executed(all, "info_append"@, args) == tools::plan_of(
                ToolView::InfoAppend(basedir),
                args,
            )
            &&& tools::executed(all, "memory_search"@, args) == tools::plan_of(
                ToolView::MemorySearch(basedir),
                args,
            )
            &&& tools::executed(all, "memory_get"@, args) == tools::plan_of(
                ToolView::MemoryGet(basedir),
                args,
            )
            &&& tools::executed(all, "cron_manage"@, args) == tools::plan_of(
                ToolView::CronManage,
                args,
            )
        }),
{
    reveal_strlit("time");
    reveal_strlit("echo");
    reveal_strlit("http_request");
    reveal_strlit("info_append");
    reveal_strlit("memory_search");
    reveal_strlit("memory_get");
    reveal_strlit("cron_manage");
    assert("time"@.len() == 4 && "echo"@.len() == 4 && "http_request"@.len() == 12);
    assert("info_append"@.len() == 11 && "memory_search"@.len() == 13);
    assert("memory_get"@.len() == 10 && "cron_manage"@.len() == 11);
    assert("time"@[0] != "echo"@[0]);
    assert("info_append"@[0] != "cron_manage"@[0]);
    let all = tools::default_tools(basedir);
    let t1 = all.drop_first();
    let t2 = t1.drop_first();
    let t3 = t2.drop_first();
    let t4 = t3.drop_first();
    let t5 = t4.drop_first();
    let t6 = t5.drop_first();
    assert(all[0] == ToolView::Time && t1[0] == ToolView::Echo && t2[0] == ToolView::HttpRequest);
    assert(t3[0] == ToolView::InfoAppend(basedir) && t4[0] == ToolView::MemorySearch(basedir));
    assert(t5[0] == ToolView::MemoryGet(basedir) && t6[0] == ToolView::CronManage);
    reveal_with_fuel(tools::position_of, 8);
    assert(tools::position_of(all, "time"@) == 0);
    assert(tools::position_of(all, "echo"@) == 1);
    assert(tools::position_of(all, "http_request"@) == 2);
    assert(tools::position_of(all, "info_append"@) == 3);
    assert(tools::position_of(all, "memory_search"@) == 4);
    assert(tools::position_of(all, "memory_get"@) == 5);
    assert(tools::position_of(all, "cron_manage"@) == 6);
}

/// The schema of a tool's arguments names the properties that it takes, and those that it must
/// get.
pub proof fn law_a_schema_names_its_properties(
    properties: Seq<(Seq<char>, JsonView)>,
    required: Seq<Seq<char>>,
)
    ensures
        ({
            let schema = tools::object_schema(properties, required);
            &&& facts::gives(schema, "properties"@, JsonView::Object(properties))
            &&& facts::gives(schema, "type"@, JsonView::Text("object"@))
            &&& facts::gives(schema, "additionalProperties"@, JsonView::Bool(false))
            &&& required.len() == 0 ==> facts::lacks(schema, "required"@)
            &&& required.len() > 0 ==> facts::gives(
                schema,
                "required"@,
                JsonView::Array(required.map_values(|s: Seq<char>| JsonView::Text(s))),
            )
        }),
{
    reveal_strlit("additionalProperties");
    reveal_strlit("properties");
    reveal_strlit("required");
    reveal_strlit("type");
    assert("additionalProperties"@.len() == 20 && "properties"@.len() == 10);
    assert("required"@.len() == 8 && "type"@.len() == 4);
    let schema = tools::object_schema(properties, required);
    let m = schema->Object_0;
    assert(m[0] == ("additionalProperties"@, JsonView::Bool(false)));
    assert(m[1] == ("properties"@, JsonView::Object(properties)));
    if required.len() > 0 {
        let list = required.map_values(|s: Seq<char>| JsonView::Text(s));
        assert(list =~= Seq::new(required.len(), |i: int| JsonView::Text(required[i])));
        assert(m[2] == ("required"@, JsonView::Array(list)));
        assert(m[3] == ("type"@, JsonView::Text("object"@)));
    } else {
        assert(m[2] == ("type"@, JsonView::Text("object"@)));
    }
}

/// The report on a request holds the body that came back, whole where it is no longer than asked
/// for, else its front and a mark; an answer is good where it was accepted with a status of
/// success.
pub proof fn law_a_report_holds_the_body(
    method: Seq<char>,
    max_chars: int,
    accepted: bool,
    status: u16,
    url: Seq<char>,
    content_type: Seq<char>,
    body: Seq<char>,
    e: Seq<char>,
)
    requires
        0 <= max_chars,
    ensures
        ({
            let shown = if body.len() <= max_chars {
                body
            } else {
                body.take(max_chars) + "\n...[truncated]"@
            };
            let good = accepted && status >= 200 && status <= 299;
            let record = http_request::answer_record(
                method,
                good,
                status,
                url,
                content_type,
                shown,
            );
            let outcome = OutcomeView::Answer { accepted, status, url, content_type, body };
            &&& json::json_pretty(record) matches Ok(s) ==> http_request::report_text(
                method,
                max_chars,
                outcome,
            ) == s
            &&& http_request::report_text(method, max_chars, OutcomeView::Transport(e))
                == "erreur http_request: transport: "@ + e
        }),
{
}

/// Each tool takes the properties that its calls read, and must get those without which nothing
/// can be done.
pub proof fn law_schemas_fit_the_calls(basedir: Seq<char>)
    ensures
        names(tools::http_properties()) == seq![
            "body"@,
            "headers"@,
            "json"@,
            "max_chars"@,
            "method"@,
            "query"@,
            "timeout_ms"@,
            "url"@,
        ],
        names(tools::search_properties()) == seq!["archive"@, "limit"@, "query"@],
        names(tools::cron_properties()) == seq!["action"@, "job_id"@, "message"@],
        tools::tool_schema(ToolView::Time) == tools::object_schema(Seq::empty(), Seq::empty()),
        tools::tool_schema(ToolView::HttpRequest) == tools::object_schema(
            tools::http_properties(),
            seq!["url"@],
        ),
        tools::tool_schema(ToolView::MemorySearch(basedir)) == tools::object_schema(
            tools::search_properties(),
            seq!["query"@],
        ),
        tools::tool_schema(ToolView::CronManage) == tools::object_schema(
            tools::cron_properties(),
            seq!["action"@],
        ),
        takes(tools::tool_schema(ToolView::Echo), seq!["text"@], seq!["text"@]),
        takes(tools::tool_schema(ToolView::MemoryGet(basedir)), seq!["id"@], seq!["id"@]),
        takes(
            tools::tool_schema(ToolView::InfoAppend(basedir)),
            seq!["target"@, "text"@],
            seq!["target"@, "text"@],
        ),
{
    assert(names(tools::http_properties()) =~= seq![
        "body"@,
        "headers"@,
        "json"@,
        "max_chars"@,
        "method"@,
        "query"@,
        "timeout_ms"@,
        "url"@,
    ]);
    assert(names(tools::search_properties()) =~= seq!["archive"@, "limit"@, "query"@]);
    assert(names(tools::cron_properties()) =~= seq!["action"@, "job_id"@, "message"@]);
    let echo = seq![("text"@, tools::described("string"@, "Texte à répéter"@))];
    assert(names(echo) =~= seq!["text"@]);
    assert(tools::tool_schema(ToolView::Echo) == tools::object_schema(echo, seq!["text"@]));
    let get = seq![
        (
            "id"@,
            tools::described(
                "string"@,
                "Identifiant d'entrée renvoyé par memory_search (ex: mem-42-7ab3...)"@,
            ),
        ),
    ];
    assert(names(get) =~= seq!["id"@]);
    assert(tools::tool_schema(ToolView::MemoryGet(basedir)) == tools::object_schema(
        get,
        seq!["id"@],
    ));
    let note = seq![
        ("target"@, tools::either_text("agent"@, "user"@)),
        ("text"@, tools::described("string"@, "Information stable et utile à retenir"@)),
    ];
    assert(names(note) =~= seq!["target"@, "text"@]);
    assert(tools::tool_schema(ToolView::InfoAppend(basedir)) == tools::object_schema(
        note,
        seq!["target"@, "text"@],
    ));
}

/// The names of a list of properties.
pub open spec fn names(properties: Seq<(Seq<char>, JsonView)>) -> Seq<Seq<char>> {
    Seq::new(properties.len(), |i: int| properties[i].0)
}

/// A schema takes properties of these names, and must get those.
pub open spec fn takes(schema: JsonView, named: Seq<Seq<char>>, required: Seq<Seq<char>>) -> bool {
    exists|properties: Seq<(Seq<char>, JsonView)>|
        schema == #[trigger] tools::object_schema(properties, required) && names(properties)
            == named
}

/// The cron tool answers with what is wrong where its action is unknown or missing, or where the
/// action lacks its message or its job.
pub proof fn law_other_cron_calls_do_nothing(args: JsonView, s: Seq<char>, blank: Seq<char>)
    requires
        layout::all_white(blank),
    ensures
        ({
            let plan = tools::plan_of(ToolView::CronManage, args);
            let silent = facts::lacks(args, "message"@) || facts::gives(
                args,
                "message"@,
                JsonView::Text(blank),
            );
            let nameless = facts::lacks(args, "job_id"@) || facts::gives(
                args,
                "job_id"@,
                JsonView::Text(blank),
            );
            &&& facts::lacks(args, "action"@) ==> plan is Reply
            &&& facts::gives(args, "action"@, JsonView::Text(s)) && s != "list"@ && s
                != "add_notify"@ && s != "add_agent_turn"@ && s != "runs"@ && s != "run"@
                ==> plan is Reply
            &&& facts::gives(args, "action"@, JsonView::Text(s)) && (s == "add_notify"@ || s
                == "add_agent_turn"@) && silent ==> plan is Reply
            &&& facts::gives(args, "action"@, JsonView::Text(s)) && (s == "runs"@ || s == "run"@)
                && nameless ==> plan is Reply
        }),
{
    reveal_strlit("list");
    reveal_strlit("add_notify");
    reveal_strlit("add_agent_turn");
    reveal_strlit("runs");
    reveal_strlit("run");
    assert("list"@.len() == 4 && "add_notify"@.len() == 10 && "add_agent_turn"@.len() == 14);
    assert("runs"@.len() == 4 && "run"@.len() == 3);
    assert("list"@[0] == 'l' && "runs"@[0] == 'r');
    facts::lemma_filled(blank);
    facts::lemma_filled(Seq::empty());
    lemma_given(args, "action"@, JsonView::Text(s));
    lemma_given(args, "message"@, JsonView::Text(blank));
    lemma_given(args, "job_id"@, JsonView::Text(blank));
}

/// Without a text the echo says so, and without a target no note is taken.
pub proof fn law_what_is_missing_is_said(basedir: Seq<char>, args: JsonView, v: JsonView)
    ensures
        facts::lacks(args, "text"@) || (facts::gives(args, "text"@, v) && !(v is Text))
            ==> tools::plan_of(ToolView::Echo, args) == PlanView::Reply("(echo sans texte)"@),
        facts::lacks(args, "text"@) || (facts::gives(args, "text"@, v) && !(v is Text))
            ==> tools::plan_of(ToolView::InfoAppend(basedir), args) is Reply,
        facts::lacks(args, "target"@) || (facts::gives(args, "target"@, v) && !(v is Text))
            ==> tools::plan_of(ToolView::InfoAppend(basedir), args) is Reply,
{
    reveal_strlit("agent");
    reveal_strlit("user");
    reveal_strlit("soul");
    assert("agent"@.len() == 5 && "user"@.len() == 4);
    lemma_given(args, "text"@, v);
    lemma_given(args, "target"@, v);
    facts::lemma_filled(Seq::empty());
}

/// The schemas name the bounds that the calls keep to.
pub proof fn law_schemas_name_the_bounds(description: Seq<char>, low: u64, high: u64)
    ensures
        facts::gives(
            tools::bounded(description, low, high),
            "minimum"@,
            JsonView::Number(numerals::decimal(low as nat), Some(low)),
        ),
        facts::gives(
            tools::bounded(description, low, high),
            "maximum"@,
            JsonView::Number(numerals::decimal(high as nat), Some(high)),
        ),
        facts::gives(
            tools::between(low, high),
            "minimum"@,
            JsonView::Number(numerals::decimal(low as nat), Some(low)),
        ),
        facts::gives(
            tools::between(low, high),
            "maximum"@,
            JsonView::Number(numerals::decimal(high as nat), Some(high)),
        ),
        exists|said: Seq<char>|
            tools::http_properties().contains(
                ("max_chars"@, #[trigger] tools::bounded(said, 200, 20_000)),
            ),
        exists|said: Seq<char>|
            tools::http_properties().contains(
                ("timeout_ms"@, #[trigger] tools::bounded(said, 100, 120_000)),
            ),
        tools::search_properties().contains(("limit"@, tools::between(1, 10))),
{
    reveal_strlit("description");
    reveal_strlit("maximum");
    reveal_strlit("minimum");
    reveal_strlit("type");
    assert("description"@.len() == 11 && "maximum"@.len() == 7 && "minimum"@.len() == 7);
    assert("type"@.len() == 4 && "maximum"@[1] == 'a' && "minimum"@[1] == 'i');
    let a = tools::bounded(description, low, high)->Object_0;
    assert(a[0].0 == "description"@ && a[3].0 == "type"@);
    assert(a[1] == ("maximum"@, JsonView::Number(numerals::decimal(high as nat), Some(high))));
    assert(a[2] == ("minimum"@, JsonView::Number(numerals::decimal(low as nat), Some(low))));
    let b = tools::between(low, high)->Object_0;
    assert(b[0] == ("maximum"@, JsonView::Number(numerals::decimal(high as nat), Some(high))));
    assert(b[1] == ("minimum"@, JsonView::Number(numerals::decimal(low as nat), Some(low))));
    assert(b[2].0 == "type"@);
    let h = tools::http_properties();
    assert(h[3] == ("max_chars"@, tools::bounded("Troncature du body de réponse"@, 200, 20_000)));
    assert(h[6] == ("timeout_ms"@, tools::bounded("Timeout réseau"@, 100, 120_000)));
    assert(tools::search_properties()[1] == ("limit"@, tools::between(1, 10)));
}

/// What a tool says where it does nothing.
pub proof fn law_refusals_say_why(
    basedir: Seq<char>,
    args: JsonView,
    blank: Seq<char>,
    before: Seq<char>,
    w: Seq<char>,
    after: Seq<char>,
    s: Seq<char>,
)
    requires
        layout::all_white(blank),
        layout::all_white(before),
        layout::all_white(after),
        facts::tight(w),
    ensures
        facts::lacks(args, "query"@) || facts::gives(args, "query"@, JsonView::Text(blank))
            ==> tools::plan_of(ToolView::MemorySearch(basedir), args) == PlanView::Reply(
            "query vide"@,
        ),
        facts::lacks(args, "id"@) || facts::gives(args, "id"@, JsonView::Text(blank))
            ==> tools::plan_of(ToolView::MemoryGet(basedir), args) == PlanView::Reply(
            "id manquant"@,
        ),
        facts::lacks(args, "url"@) ==> tools::plan_of(ToolView::HttpRequest, args)
            == PlanView::Reply("erreur http_request: url manquante"@),
        facts::gives(args, "url"@, JsonView::Text(s)) && !"http://"@.is_prefix_of(s)
            && !"https://"@.is_prefix_of(s) ==> tools::plan_of(ToolView::HttpRequest, args)
            == PlanView::Reply(
            "erreur http_request: url doit commencer par http:// ou https://"@,
        ),
        facts::lacks(args, "text"@) || facts::gives(args, "text"@, JsonView::Text(blank))
            ==> tools::plan_of(ToolView::InfoAppend(basedir), args) == PlanView::Reply(
            "erreur info_append: text vide"@,
        ),
        facts::gives(args, "text"@, JsonView::Text(before + w + after)) ==> {
            let plan = tools::plan_of(ToolView::InfoAppend(basedir), args);
            &&& guard::byte_len(w) > 500 ==> plan == PlanView::Reply(
                "erreur info_append: text trop long (>500)"@,
            )
            &&& guard::byte_len(w) <= 500 && guard::sensitive(w) ==> plan == PlanView::Reply(
                "erreur info_append: contenu sensible détecté, refusé"@,
            )
            &&& guard::byte_len(w) <= 500 && !guard::sensitive(w) ==> {
                &&& facts::gives(args, "target"@, JsonView::Text("soul"@)) ==> plan
                    == PlanView::Reply("erreur info_append: SOUL.md est immuable"@)
                &&& facts::gives(args, "target"@, JsonView::Text(s)) && s != "agent"@ && s
                    != "user"@ && s != "soul"@ || facts::lacks(args, "target"@) ==> plan
                    == PlanView::Reply(
                    "erreur info_append: target doit être 'agent' ou 'user'"@,
                )
            }
        },
{
    facts::lemma_filled(blank);
    facts::lemma_filled(Seq::empty());
    facts::lemma_padded(before, w, after);
    reveal_strlit("agent");
    reveal_strlit("user");
    reveal_strlit("soul");
    assert("agent"@.len() == 5 && "user"@.len() == 4 && "soul"@.len() == 4);
    assert("user"@[0] == 'u' && "soul"@[0] == 's');
    lemma_given(args, "query"@, JsonView::Text(blank));
    lemma_given(args, "id"@, JsonView::Text(blank));
    lemma_given(args, "url"@, JsonView::Text(s));
    lemma_given(args, "text"@, JsonView::Text(blank));
    lemma_given(args, "text"@, JsonView::Text(before + w + after));
    lemma_given(args, "target"@, JsonView::Text("soul"@));
    lemma_given(args, "target"@, JsonView::Text(s));
}

} // verus!
