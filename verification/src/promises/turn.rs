//! What a turn is for: the model's reply reaches the user, or the tool that it calls.

use vstd::prelude::*;

use crate::engine::{EngineView, MoveView, StepInput};
use crate::json::JsonView;
use crate::promises::facts;
use crate::session::MessageView;
use crate::tools::{ActionView, PlanView, ToolView};
use crate::{engine, json, layout, llm, session, text, tools};

verus! {

// ---------------------------------------------------------------------------------------
// Reading a reply

/// A reply in plain words is the answer, whole, with all its lines and without the white space
/// around it.
pub proof fn law_plain_words_are_the_answer(before: Seq<char>, w: Seq<char>, after: Seq<char>)
    requires
        layout::all_white(before),
        layout::all_white(after),
        facts::tight(w),
        w[0] != '{',
    ensures
        tools::action_of(before + w + after) == Ok::<ActionView, Seq<char>>(
            ActionView::FinalAnswer(w),
        ),
{
    facts::lemma_padded(before, w, after);
}

/// A blank reply is an empty answer.
pub proof fn law_a_blank_reply_is_an_empty_answer(raw: Seq<char>)
    requires
        layout::all_white(raw),
    ensures
        tools::action_of(raw) == Ok::<ActionView, Seq<char>>(
            ActionView::FinalAnswer(Seq::empty()),
        ),
{
    facts::lemma_filled(raw);
    assert(text::trimmed(raw) =~= Seq::empty());
}

/// A reply that opens a JSON object is taken by what the object says: a final answer with its
/// text, or a call of the named tool with its arguments, the empty object where none are given.
pub proof fn law_a_json_reply_says_what_to_do(
    before: Seq<char>,
    w: Seq<char>,
    after: Seq<char>,
    document: JsonView,
    s: Seq<char>,
    args: JsonView,
)
    requires
        layout::all_white(before),
        layout::all_white(after),
        facts::tight(w),
        w[0] == '{',
        json::json_document(w) == Ok::<JsonView, Seq<char>>(document),
    ensures
        facts::gives(document, "type"@, JsonView::Text("final_answer"@)) && facts::gives(
            document,
            "answer"@,
            JsonView::Text(s),
        ) ==> tools::action_of(before + w + after) == Ok::<ActionView, Seq<char>>(
            ActionView::FinalAnswer(s),
        ),
        facts::gives(document, "type"@, JsonView::Text("tool_call"@)) && facts::gives(
            document,
            "name"@,
            JsonView::Text(s),
        ) && facts::gives(document, "args"@, args) ==> tools::action_of(before + w + after) == Ok::<
            ActionView,
            Seq<char>,
        >(ActionView::ToolCall { name: s, args }),
        facts::gives(document, "type"@, JsonView::Text("tool_call"@)) && facts::gives(
            document,
            "name"@,
            JsonView::Text(s),
        ) && facts::lacks(document, "args"@) ==> tools::action_of(before + w + after) == Ok::<
            ActionView,
            Seq<char>,
        >(ActionView::ToolCall { name: s, args: JsonView::Object(Seq::empty()) }),
{
    facts::lemma_padded(before, w, after);
    reveal_strlit("tool_call");
    reveal_strlit("final_answer");
    assert("tool_call"@.len() != "final_answer"@.len());
    if facts::gives(document, "type"@, JsonView::Text("final_answer"@)) {
        facts::lemma_gives(document, "type"@, JsonView::Text("final_answer"@));
    }
    if facts::gives(document, "type"@, JsonView::Text("tool_call"@)) {
        facts::lemma_gives(document, "type"@, JsonView::Text("tool_call"@));
    }
    if facts::gives(document, "answer"@, JsonView::Text(s)) {
        facts::lemma_gives(document, "answer"@, JsonView::Text(s));
    }
    if facts::gives(document, "name"@, JsonView::Text(s)) {
        facts::lemma_gives(document, "name"@, JsonView::Text(s));
    }
    if facts::gives(document, "args"@, args) {
        facts::lemma_gives(document, "args"@, args);
    }
    if facts::lacks(document, "args"@) {
        facts::lemma_lacks(document, "args"@);
    }
}

/// A reply that opens a JSON object but asks for nothing that can be done breaks the protocol: it
/// cannot be read, names no type or an unknown one, or lacks what its type needs.
pub proof fn law_other_json_replies_break_the_protocol(
    before: Seq<char>,
    w: Seq<char>,
    after: Seq<char>,
    document: JsonView,
    kind: Seq<char>,
    e: Seq<char>,
)
    requires
        layout::all_white(before),
        layout::all_white(after),
        facts::tight(w),
        w[0] == '{',
    ensures
        json::json_document(w) == Err::<JsonView, Seq<char>>(e) ==> tools::action_of(
            before + w + after,
        ) == Err::<ActionView, Seq<char>>("JSON invalide: "@ + e),
        json::json_document(w) == Ok::<JsonView, Seq<char>>(document) && facts::lacks(
            document,
            "type"@,
        ) ==> tools::action_of(before + w + after) is Err,
        json::json_document(w) == Ok::<JsonView, Seq<char>>(document) && facts::gives(
            document,
            "type"@,
            JsonView::Text(kind),
        ) && (kind != "tool_call"@ || facts::lacks(document, "name"@)) && (kind != "final_answer"@
            || facts::lacks(document, "answer"@)) ==> tools::action_of(before + w + after) is Err,
{
    facts::lemma_padded(before, w, after);
    if facts::lacks(document, "type"@) {
        facts::lemma_lacks(document, "type"@);
    }
    if facts::gives(document, "type"@, JsonView::Text(kind)) {
        facts::lemma_gives(document, "type"@, JsonView::Text(kind));
    }
    if facts::lacks(document, "name"@) {
        facts::lemma_lacks(document, "name"@);
    }
    if facts::lacks(document, "answer"@) {
        facts::lemma_lacks(document, "answer"@);
    }
}

// ---------------------------------------------------------------------------------------
// The turn

/// The messages of the model and of the program, by what they hold.
pub open spec fn is_message(m: MessageView, role: Seq<char>, content: Seq<char>) -> bool {
    m.role == role && m.content == content
}

/// The history is the old one with two more messages behind it.
pub open spec fn grown_by_two(
    h: Seq<MessageView>,
    history: Seq<MessageView>,
    said: Seq<char>,
    told: Seq<char>,
) -> bool {
    &&& h.len() == history.len() + 2
    &&& h.take(history.len() as int) == history
    &&& is_message(h[history.len() as int], "assistant"@, said)
    &&& is_message(h[history.len() as int + 1], "system"@, told)
}

/// The next request shows the model all of the history.
pub open spec fn asks_with(e: EngineView, m: MoveView, n: nat, history: Seq<MessageView>) -> bool {
    m matches MoveView::Ask { step, request } && step == n && request.model == e.model
        && request.messages == history && request.temperature_milli == 200
}

/// A turn begins with a request that shows the model all of the history.
pub proof fn law_a_turn_begins_with_a_request(e: EngineView, history: Seq<MessageView>)
    requires
        e.max_steps > 0,
    ensures
        asks_with(e, engine::next_move(e, history, 0), 0, history),
{
}

/// A reply in plain words ends the turn, and the user gets it whole; the history keeps the reply
/// as the model gave it.
pub proof fn law_plain_words_reach_the_user(
    e: EngineView,
    history: Seq<MessageView>,
    step: nat,
    before: Seq<char>,
    w: Seq<char>,
    after: Seq<char>,
)
    requires
        layout::all_white(before),
        layout::all_white(after),
        facts::tight(w),
        w[0] != '{',
    ensures
        ({
            let raw = before + w + after;
            let (h, m) = engine::reply_move(e, history, step, Ok(raw));
            &&& m == MoveView::Finish(Ok(w))
            &&& h.len() == history.len() + 1
            &&& h.take(history.len() as int) == history
            &&& is_message(h[history.len() as int], "assistant"@, raw)
        }),
{
    law_plain_words_are_the_answer(before, w, after);
    let raw = before + w + after;
    let h = engine::reply_move(e, history, step, Ok(raw)).0;
    assert(h.take(history.len() as int) =~= history);
}

/// A final answer ends the turn with its text.
pub proof fn law_a_final_answer_reaches_the_user(
    e: EngineView,
    history: Seq<MessageView>,
    step: nat,
    raw: Seq<char>,
    answer: Seq<char>,
)
    requires
        tools::action_of(raw) == Ok::<ActionView, Seq<char>>(ActionView::FinalAnswer(answer)),
    ensures
        ({
            let (h, m) = engine::reply_move(e, history, step, Ok(raw));
            &&& m == MoveView::Finish(Ok(answer))
            &&& h.len() == history.len() + 1
            &&& h.take(history.len() as int) == history
            &&& is_message(h[history.len() as int], "assistant"@, raw)
        }),
{
    let h = engine::reply_move(e, history, step, Ok(raw)).0;
    assert(h.take(history.len() as int) =~= history);
}

/// A request that fails ends the turn with its failure and leaves the history alone.
pub proof fn law_a_failed_request_ends_the_turn(
    e: EngineView,
    history: Seq<MessageView>,
    step: nat,
    failure: Seq<char>,
)
    ensures
        engine::reply_move(e, history, step, Err(failure)) == (
            history,
            MoveView::Finish(Err(failure)),
        ),
{
}

/// A call reaches the tool of that name with its arguments. What a tool answers at once is
/// reported to the model; else the turn waits for the output.
pub proof fn law_a_call_reaches_its_tool(
    e: EngineView,
    history: Seq<MessageView>,
    step: nat,
    raw: Seq<char>,
    i: int,
    args: JsonView,
)
    requires
        tools::names_distinct(e.tools),
        0 <= i < e.tools.len(),
        tools::action_of(raw) == Ok::<ActionView, Seq<char>>(
            ActionView::ToolCall { name: tools::tool_name(e.tools[i]), args },
        ),
    ensures
        ({
            let name = tools::tool_name(e.tools[i]);
            let plan = tools::plan_of(e.tools[i], args);
            let (h, m) = engine::reply_move(e, history, step, Ok(raw));
            &&& !(plan is Reply) ==> h == history && m == MoveView::Run {
                step,
                reply: raw,
                name,
                plan,
            }
            &&& plan matches PlanView::Reply(output) ==> grown_by_two(
                h,
                history,
                raw,
                report(name, output),
            )
        }),
{
    lemma_found_by_name(e.tools, i);
    let h = engine::reply_move(e, history, step, Ok(raw)).0;
    assert(h.len() >= history.len() ==> h.take(history.len() as int) =~= history);
    lemma_report(tools::tool_name(e.tools[i]), tools::plan_of(e.tools[i], args)->Reply_0);
}

proof fn lemma_found_by_name(all: Seq<ToolView>, i: int)
    requires
        tools::names_distinct(all),
        0 <= i < all.len(),
    ensures
        tools::position_of(all, tools::tool_name(all[i])) == i,
    decreases all.len(),
{
    let name = tools::tool_name(all[i]);
    if i > 0 {
        let rest = all.drop_first();
        assert(tools::tool_name(all[0]) != tools::tool_name(all[i]));
        assert forall|a: int, b: int| 0 <= a < b < rest.len() implies tools::tool_name(
            #[trigger] rest[a],
        ) != tools::tool_name(#[trigger] rest[b]) by {
            assert(rest[a] == all[a + 1] && rest[b] == all[b + 1]);
        }
        assert(rest[i - 1] == all[i]);
        lemma_found_by_name(rest, i - 1);
    }
}

/// The report on a tool's output: a JSON object of its name and of its output, each quote,
/// backslash and line feed of the output escaped.
pub open spec fn report(name: Seq<char>, output: Seq<char>) -> Seq<char> {
    "TOOL_RESULT {\"name\":\""@ + name + "\",\"output\":\""@ + json::escaped(output) + "\"}"@
}

proof fn lemma_report(name: Seq<char>, output: Seq<char>)
    ensures
        session::tool_result_text(name, output) == report(name, output),
{
    reveal_strlit("TOOL_RESULT {\"name\":\"");
    reveal_strlit("\",\"output\":\"");
    reveal_strlit("\"}");
    reveal_strlit("TOOL_RESULT ");
    reveal_strlit("{\"");
    reveal_strlit("\":\"");
    reveal_strlit("\",\"");
    reveal_strlit("name");
    reveal_strlit("output");
    assert(session::tool_result_text(name, output) =~= report(name, output));
}

/// Each character of an output stands in the report: quotes, backslashes and line feeds with a
/// backslash before them, every other one as it is, in the order of the output.
pub proof fn law_escaping_writes_each_character(s: Seq<char>, c: char)
    ensures
        json::escaped(s.push(c)) == json::escaped(s) + if c == '"' {
            seq!['\\', '"']
        } else if c == '\\' {
            seq!['\\', '\\']
        } else if c == '\n' {
            seq!['\\', 'n']
        } else {
            seq![c]
        },
        json::escaped(Seq::empty()) == Seq::<char>::empty(),
{
    assert(s.push(c).drop_last() =~= s);
}

/// The output of a tool is reported to the model behind its call, and the next request shows
/// both, as long as a step is left.
pub proof fn law_an_output_is_reported(
    e: EngineView,
    history: Seq<MessageView>,
    step: nat,
    reply: Seq<char>,
    name: Seq<char>,
    output: Seq<char>,
)
    ensures
        ({
            let (h, m) = engine::output_move(e, history, step, reply, name, output);
            &&& grown_by_two(h, history, reply, report(name, output))
            &&& step + 1 < e.max_steps ==> asks_with(e, m, step + 1, h)
            &&& step + 1 >= e.max_steps ==> m is Finish
        }),
{
    lemma_report(name, output);
    let h = engine::output_move(e, history, step, reply, name, output).0;
    assert(h.take(history.len() as int) =~= history);
}

/// A reply that breaks the protocol is kept, the model is told how it does and what is expected,
/// and is asked again as long as a step is left.
pub proof fn law_a_broken_reply_is_corrected(
    e: EngineView,
    history: Seq<MessageView>,
    step: nat,
    raw: Seq<char>,
    why: Seq<char>,
)
    requires
        tools::action_of(raw) == Err::<ActionView, Seq<char>>(why),
    ensures
        ({
            let (h, m) = engine::reply_move(e, history, step, Ok(raw));
            &&& grown_by_two(h, history, raw, "PROTOCOLE_INVALIDE: "@ + why + engine::REPAIR@)
            &&& step + 1 < e.max_steps ==> asks_with(e, m, step + 1, h)
            &&& step + 1 >= e.max_steps ==> m is Finish
        }),
{
    let h = engine::reply_move(e, history, step, Ok(raw)).0;
    assert(h.take(history.len() as int) =~= history);
}

/// A turn whose replies are never a final answer uses all its steps, no fewer.
pub proof fn law_a_turn_without_an_answer_uses_every_step(
    e: EngineView,
    history: Seq<MessageView>,
    step: nat,
    inputs: Seq<StepInput>,
)
    requires
        step <= e.max_steps,
        inputs.len() >= e.max_steps - step,
        forall|i: int|
            0 <= i < inputs.len() ==> ((#[trigger] inputs[i]).reply matches Ok(raw)
                && !(tools::action_of(raw) matches Ok(ActionView::FinalAnswer(_)))),
    ensures
        engine::requests_sent(e, history, engine::next_move(e, history, step), inputs)
            == e.max_steps - step,
    decreases inputs.len(),
{
    reveal_with_fuel(engine::requests_sent, 2);
    if step < e.max_steps {
        let input = inputs[0];
        let (h, m) = engine::step_move(e, history, step, input);
        assert(m == engine::next_move(e, h, step + 1));
        let rest = inputs.drop_first();
        assert forall|i: int| 0 <= i < rest.len() implies ((#[trigger] rest[i]).reply matches Ok(raw)
            && !(tools::action_of(raw) matches Ok(ActionView::FinalAnswer(_)))) by {
            assert(rest[i] == inputs[i + 1]);
        }
        law_a_turn_without_an_answer_uses_every_step(e, h, step + 1, rest);
        assert(inputs.drop_first() == rest);
    }
}

/// The last report in a history is the one behind which none follows.
pub proof fn law_the_last_report_is_found(history: Seq<MessageView>, k: int)
    requires
        0 <= k < history.len(),
        "TOOL_RESULT "@.is_prefix_of(history[k].content),
        forall|i: int|
            k < i < history.len() ==> !"TOOL_RESULT "@.is_prefix_of((#[trigger] history[i]).content),
    ensures
        session::last_tool_message(history) == Some(history[k].content),
    decreases history.len(),
{
    if k < history.len() - 1 {
        let front = history.drop_last();
        assert(history[history.len() - 1] == history.last());
        assert forall|i: int| k < i < front.len() implies !"TOOL_RESULT "@.is_prefix_of(
            (#[trigger] front[i]).content,
        ) by {
            assert(front[i] == history[i]);
        }
        law_the_last_report_is_found(front, k);
    }
}

/// A turn that has used up its steps ends with the output of the last report, where that can be
/// read, and else fails.
pub proof fn law_an_exhausted_turn_gives_the_last_output(
    history: Seq<MessageView>,
    k: int,
    name: Seq<char>,
    output: Seq<char>,
    rest: Seq<char>,
)
    requires
        0 <= k < history.len(),
        history[k].content == "TOOL_RESULT "@ + rest,
        !rest.contains('\n'),
        rest.len() > 0,
        forall|i: int|
            k < i < history.len() ==> !"TOOL_RESULT "@.is_prefix_of((#[trigger] history[i]).content),
        json::json_document(rest) matches Ok(record) && facts::gives(
            record,
            "name"@,
            JsonView::Text(name),
        ) && facts::gives(record, "output"@, JsonView::Text(output)),
    ensures
        engine::exhausted(history) == Ok::<Seq<char>, Seq<char>>("(fallback) "@ + output),
{
    let content = history[k].content;
    assert(content.subrange(0, "TOOL_RESULT "@.len() as int) =~= "TOOL_RESULT "@);
    law_the_last_report_is_found(history, k);
    assert(content.skip("TOOL_RESULT "@.len() as int) =~= rest);
    session::lemma_single_line(rest);
    let record = json::json_document(rest)->Ok_0;
    facts::lemma_gives(record, "name"@, JsonView::Text(name));
    facts::lemma_gives(record, "output"@, JsonView::Text(output));
}

/// A turn that has used up its steps without a report fails.
pub proof fn law_an_exhausted_turn_without_a_report_fails(history: Seq<MessageView>)
    requires
        forall|i: int|
            0 <= i < history.len() ==> !"TOOL_RESULT "@.is_prefix_of((#[trigger] history[i]).content),
    ensures
        engine::exhausted(history) is Err,
    decreases history.len(),
{
    if history.len() > 0 {
        let front = history.drop_last();
        assert(history[history.len() - 1] == history.last());
        assert forall|i: int| 0 <= i < front.len() implies !"TOOL_RESULT "@.is_prefix_of(
            (#[trigger] front[i]).content,
        ) by {
            assert(front[i] == history[i]);
        }
        law_an_exhausted_turn_without_a_report_fails(front);
    }
}

/// A new prompt takes the place of the first message and leaves the others alone.
pub proof fn law_a_new_prompt_takes_the_first_place(history: Seq<MessageView>, prompt: Seq<char>)
    ensures
        ({
            let h = session::with_system_prompt(history, prompt);
            &&& h.len() == if history.len() > 0 {
                history.len()
            } else {
                1
            }
            &&& is_message(h[0], "system"@, prompt)
            &&& forall|i: int| 0 < i < history.len() ==> #[trigger] h[i] == history[i]
        }),
{
}

/// Taking back leaves out one message of the user at the end, and nothing else.
pub proof fn law_taking_back_leaves_out_one_question(history: Seq<MessageView>)
    ensures
        ({
            let h = session::rolled_back(history);
            let asked = history.len() > 0 && history[history.len() - 1].role == "user"@;
            &&& asked ==> h == history.take(history.len() - 1)
            &&& !asked ==> h == history
        }),
{
    if history.len() > 0 {
        assert(history.drop_last() =~= history.take(history.len() - 1));
        assert(history.last() == history[history.len() - 1]);
    }
}

// ---------------------------------------------------------------------------------------
// The conversation

/// A message is appended as it is, behind all the others; emptying the conversation keeps its
/// first message.
pub proof fn law_messages_are_kept_as_they_are(
    history: Seq<MessageView>,
    role: Seq<char>,
    s: Seq<char>,
)
    ensures
        ({
            let after = session::grown(history, role, s);
            &&& after.len() == history.len() + 1
            &&& history.is_prefix_of(after)
            &&& after[history.len() as int].role == role
            &&& after[history.len() as int].content == s
        }),
        history.len() > 0 ==> session::emptied(history) == seq![history[0]],
        history.len() == 0 ==> session::emptied(history).len() == 0,
{
    assert(history =~= session::grown(history, role, s).subrange(0, history.len() as int));
    if history.len() > 0 {
        assert(history.take(1) =~= seq![history[0]]);
    }
}

/// A choice holds a message with a role and this content.
pub open spec fn speaks(choice: JsonView, content: Seq<char>) -> bool {
    exists|message: JsonView, role: Seq<char>| #[trigger]
        facts::gives(choice, "message"@, message) && #[trigger] facts::gives(
            message,
            "role"@,
            JsonView::Text(role),
        ) && facts::gives(message, "content"@, JsonView::Text(content))
}

proof fn lemma_speaks(choice: JsonView, content: Seq<char>)
    requires
        speaks(choice, content),
    ensures
        llm::content_of(choice) == Some(content),
{
    let (message, role) = choose|message: JsonView, role: Seq<char>| #[trigger]
        facts::gives(choice, "message"@, message) && #[trigger] facts::gives(
            message,
            "role"@,
            JsonView::Text(role),
        ) && facts::gives(message, "content"@, JsonView::Text(content));
    facts::lemma_gives(choice, "message"@, message);
    facts::lemma_gives(message, "role"@, JsonView::Text(role));
    facts::lemma_gives(message, "content"@, JsonView::Text(content));
}

proof fn lemma_all_speak(choices: Seq<JsonView>, contents: Seq<Seq<char>>)
    requires
        choices.len() == contents.len(),
        forall|i: int| 0 <= i < choices.len() ==> speaks(#[trigger] choices[i], contents[i]),
    ensures
        llm::contents_of(choices) == Some(contents),
    decreases choices.len(),
{
    if choices.len() > 0 {
        let n = choices.len() - 1;
        let front = choices.drop_last();
        let fewer = contents.drop_last();
        assert forall|i: int| 0 <= i < front.len() implies speaks(#[trigger] front[i], fewer[i]) by {
            assert(front[i] == choices[i] && fewer[i] == contents[i]);
        }
        lemma_all_speak(front, fewer);
        assert(choices.last() == choices[n]);
        lemma_speaks(choices[n], contents[n]);
        assert(fewer.push(contents[n]) =~= contents);
    } else {
        assert(contents =~= Seq::empty());
    }
}

/// What the model says in its first choice is the answer, whole, where the request was accepted
/// and each choice holds a message; a refusal is reported with its status and its text.
pub proof fn law_the_first_choice_is_the_answer(
    status: Seq<char>,
    body: Seq<char>,
    document: JsonView,
    choices: Seq<JsonView>,
    contents: Seq<Seq<char>>,
    read: Result<JsonView, Seq<char>>,
)
    requires
        facts::gives(document, "choices"@, JsonView::Array(choices)),
        choices.len() == contents.len(),
        forall|i: int| 0 <= i < choices.len() ==> speaks(#[trigger] choices[i], contents[i]),
    ensures
        contents.len() > 0 ==> llm::completion(true, status, body, Ok(document)) == Ok::<
            Seq<char>,
            Seq<char>,
        >(contents[0]),
        contents.len() == 0 ==> llm::completion(true, status, body, Ok(document)) == Ok::<
            Seq<char>,
            Seq<char>,
        >("(réponse vide)"@),
        llm::completion(false, status, body, read) == Err::<Seq<char>, Seq<char>>(
            "HTTP "@ + status + ": "@ + body,
        ),
        read is Err ==> llm::completion(true, status, body, read) is Err,
{
    facts::lemma_gives(document, "choices"@, JsonView::Array(choices));
    lemma_all_speak(choices, contents);
}

/// An answer without choices, or with a choice that holds no message, is an error.
pub proof fn law_other_answers_are_errors(
    status: Seq<char>,
    body: Seq<char>,
    document: JsonView,
    choices: Seq<JsonView>,
    i: int,
    v: JsonView,
)
    ensures
        facts::lacks(document, "choices"@) ==> llm::completion(
            true,
            status,
            body,
            Ok(document),
        ) is Err,
        facts::gives(document, "choices"@, JsonView::Array(choices)) && 0 <= i < choices.len()
            && facts::lacks(choices[i], "message"@) ==> llm::completion(
            true,
            status,
            body,
            Ok(document),
        ) is Err,
        facts::gives(document, "choices"@, JsonView::Array(choices)) && 0 <= i < choices.len()
            && facts::gives(choices[i], "message"@, v) && (facts::lacks(v, "role"@)
            || facts::lacks(v, "content"@)) ==> llm::completion(
            true,
            status,
            body,
            Ok(document),
        ) is Err,
        facts::gives(document, "choices"@, v) && !(v is Array) ==> llm::completion(
            true,
            status,
            body,
            Ok(document),
        ) is Err,
{
    if facts::gives(document, "choices"@, v) {
        facts::lemma_gives(document, "choices"@, v);
    }
    if facts::gives(document, "choices"@, JsonView::Array(choices)) && 0 <= i < choices.len()
        && facts::gives(choices[i], "message"@, v) && (facts::lacks(v, "role"@) || facts::lacks(
        v,
        "content"@,
    )) {
        facts::lemma_gives(document, "choices"@, JsonView::Array(choices));
        facts::lemma_gives(choices[i], "message"@, v);
        if facts::lacks(v, "role"@) {
            facts::lemma_lacks(v, "role"@);
        } else {
            facts::lemma_lacks(v, "content"@);
        }
        lemma_silent(choices, i);
    }
    if facts::lacks(document, "choices"@) {
        facts::lemma_lacks(document, "choices"@);
    }
    if facts::gives(document, "choices"@, JsonView::Array(choices)) && 0 <= i < choices.len()
        && facts::lacks(choices[i], "message"@) {
        facts::lemma_gives(document, "choices"@, JsonView::Array(choices));
        facts::lemma_lacks(choices[i], "message"@);
        lemma_silent(choices, i);
    }
}

proof fn lemma_silent(choices: Seq<JsonView>, i: int)
    requires
        0 <= i < choices.len(),
        llm::content_of(choices[i]) is None,
    ensures
        llm::contents_of(choices) is None,
    decreases choices.len(),
{
    if i < choices.len() - 1 {
        assert(choices.drop_last()[i] == choices[i]);
        lemma_silent(choices.drop_last(), i);
    } else {
        assert(choices.last() == choices[i]);
    }
}

/// A fresh engine asks its model with its tools, in six steps a turn; the limit can be set, to one
/// step at least, and nothing else changes.
pub proof fn law_an_engine_is_as_it_was_made(
    model: Seq<char>,
    known: Seq<ToolView>,
    e: EngineView,
    n: nat,
)
    ensures
        engine::fresh_engine(model, known) == (EngineView {
            model,
            tools: known,
            max_steps: 6,
            debug: false,
        }),
        n > 0 ==> engine::limited(e, n) == (EngineView { max_steps: n, ..e }),
        engine::limited(e, 0) == (EngineView { max_steps: 1, ..e }),
{
}

} // verus!
