//! A turn of the conversation: the model is asked, calls tools, is corrected where it breaks the
//! protocol, and answers, within a limit of steps.

use vstd::prelude::*;

use crate::llm::{LlmRequest, RequestView};
use crate::session::{MessageView, Session};
use crate::tools::{ActionView, ModelAction, PlanView, ToolPlan, ToolRegistry, ToolView};
use crate::{json, llm, session, tools};

verus! {

/// The settings of a turn, and the tools that the model may call.
pub struct Engine {
    model: String,
    tools: ToolRegistry,
    max_steps: usize,
    debug: bool,
}

/// What an engine holds.
pub struct EngineView {
    pub model: Seq<char>,
    pub tools: Seq<ToolView>,
    pub max_steps: nat,
    pub debug: bool,
}

impl View for Engine {
    type V = EngineView;

    closed spec fn view(&self) -> EngineView {
        EngineView {
            model: self.model@,
            tools: self.tools.tools(),
            max_steps: self.max_steps as nat,
            debug: self.debug,
        }
    }
}

/// The model is being asked.
pub struct Asking {
    step: usize,
}

impl Asking {
    /// The number of requests that went before.
    pub closed spec fn step(self) -> nat {
        self.step as nat
    }
}

/// A tool call waits for its output.
pub struct Running {
    step: usize,
    reply: String,
    name: String,
}

impl Running {
    /// The number of requests that went before the one which brought the call.
    pub closed spec fn step(self) -> nat {
        self.step as nat
    }

    /// The model's reply that holds the call.
    pub closed spec fn reply(self) -> Seq<char> {
        self.reply@
    }

    /// The name of the tool.
    pub closed spec fn name(self) -> Seq<char> {
        self.name@
    }
}

/// What a turn needs next.
pub enum Move {
    /// The model's reply to a request.
    Ask(Asking, LlmRequest),
    /// The output of a tool.
    Run(Running, ToolPlan),
    /// Nothing: the turn is over.
    Finish(Result<String, String>),
}

/// What a move holds.
pub enum MoveView {
    Ask { step: nat, request: RequestView },
    Run { step: nat, reply: Seq<char>, name: Seq<char>, plan: PlanView },
    Finish(Result<Seq<char>, Seq<char>>),
}

impl View for Move {
    type V = MoveView;

    open spec fn view(&self) -> MoveView {
        match *self {
            Move::Ask(asking, request) => MoveView::Ask { step: asking.step(), request: request@ },
            Move::Run(running, plan) => MoveView::Run {
                step: running.step(),
                reply: running.reply(),
                name: running.name(),
                plan: plan@,
            },
            Move::Finish(r) => MoveView::Finish(llm::text_result(r)),
        }
    }
}

/// What the model is told to do where its reply breaks the protocol.
pub const REPAIR: &'static str = ". Réponds MAINTENANT en JSON strict avec exactement l'un des formats suivants:
{\"type\":\"tool_call\",\"name\":\"<tool_name>\",\"args\":{...}}
ou
{\"type\":\"final_answer\",\"answer\":\"<texte>\"}";

/// How the model is told that its reply breaks the protocol.
pub open spec fn repair_text(e: Seq<char>) -> Seq<char> {
    "PROTOCOLE_INVALIDE: "@ + e + REPAIR@
}

/// How a turn ends that has used up its steps: with the output of the last tool, if there is one.
pub open spec fn exhausted(history: Seq<MessageView>) -> Result<Seq<char>, Seq<char>> {
    match session::last_tool_record(history) {
        Some((_, output)) => Ok("(fallback) "@ + output),
        None => Err("Trop d'étapes dans le turn (boucle interrompue)"@),
    }
}

/// The next move after `step` requests: one more request, or the end.
pub open spec fn next_move(e: EngineView, history: Seq<MessageView>, step: nat) -> MoveView {
    if step < e.max_steps {
        MoveView::Ask {
            step,
            request: RequestView { model: e.model, messages: history, temperature_milli: 200 },
        }
    } else {
        MoveView::Finish(exhausted(history))
    }
}

/// The history with a tool call and its output.
pub open spec fn with_tool_output(
    history: Seq<MessageView>,
    reply: Seq<char>,
    name: Seq<char>,
    output: Seq<char>,
) -> Seq<MessageView> {
    history.push(session::message("assistant"@, reply)).push(
        session::message("system"@, session::tool_result_text(name, output)),
    )
}

/// The history with a reply that breaks the protocol, and the correction.
pub open spec fn with_repair(
    history: Seq<MessageView>,
    reply: Seq<char>,
    e: Seq<char>,
) -> Seq<MessageView> {
    history.push(session::message("assistant"@, reply)).push(
        session::message("system"@, repair_text(e)),
    )
}

/// The history and the next move after the model's reply to the request number `step`.
pub open spec fn reply_move(
    e: EngineView,
    history: Seq<MessageView>,
    step: nat,
    reply: Result<Seq<char>, Seq<char>>,
) -> (Seq<MessageView>, MoveView) {
    match reply {
        Err(failure) => (history, MoveView::Finish(Err(failure))),
        Ok(reply) => action_move(e, history, step, reply, tools::action_of(reply)),
    }
}

/// The history and the next move after a reply that asks for an action, or breaks the protocol.
pub open spec fn action_move(
    e: EngineView,
    history: Seq<MessageView>,
    step: nat,
    reply: Seq<char>,
    action: Result<ActionView, Seq<char>>,
) -> (Seq<MessageView>, MoveView) {
    match action {
        Ok(ActionView::ToolCall { name, args }) => match tools::executed(e.tools, name, args) {
            PlanView::Reply(output) => {
                let h = with_tool_output(history, reply, name, output);
                (h, next_move(e, h, step + 1))
            },
            plan => (history, MoveView::Run { step, reply, name, plan }),
        },
        Ok(ActionView::FinalAnswer(answer)) => (
            history.push(session::message("assistant"@, reply)),
            MoveView::Finish(Ok(answer)),
        ),
        Err(err) => {
            let h = with_repair(history, reply, err);
            (h, next_move(e, h, step + 1))
        },
    }
}

/// The history and the next move after the output of a tool.
pub open spec fn output_move(
    e: EngineView,
    history: Seq<MessageView>,
    step: nat,
    reply: Seq<char>,
    name: Seq<char>,
    output: Seq<char>,
) -> (Seq<MessageView>, MoveView) {
    let h = with_tool_output(history, reply, name, output);
    (h, next_move(e, h, step + 1))
}

/// Where a turn ends for want of steps and the last tool report was written for a plain name and
/// a quotable output, it ends with that output.
pub open spec fn ends_with_last_output(history: Seq<MessageView>, m: MoveView) -> bool {
    forall|name: Seq<char>, output: Seq<char>|
        session::plain(name) && json::quotable(output) && session::last_tool_message(history)
            == Some(#[trigger] session::tool_result_text(name, output)) && m == MoveView::Finish(
            exhausted(history),
        ) ==> m == MoveView::Finish(finished("(fallback) "@ + output))
}

/// The action is a final answer.
pub open spec fn answers(action: Result<ActionView, Seq<char>>) -> bool {
    action matches Ok(ActionView::FinalAnswer(_))
}

/// The request brought a reply that is no final answer.
pub open spec fn goes_on(reply: Result<Seq<char>, Seq<char>>) -> bool {
    reply matches Ok(t) && !answers(tools::action_of(t))
}

/// A turn that ended with an answer.
pub open spec fn finished(answer: Seq<char>) -> Result<Seq<char>, Seq<char>> {
    Ok(answer)
}

/// An engine for a model.
pub open spec fn fresh_engine(model: Seq<char>, tools: Seq<ToolView>) -> EngineView {
    EngineView { model, tools, max_steps: 6, debug: false }
}

/// The engine with another limit of steps.
pub open spec fn limited(e: EngineView, max_steps: nat) -> EngineView {
    EngineView {
        max_steps: if max_steps == 0 {
            1
        } else {
            max_steps
        },
        ..e
    }
}

impl Engine {
    /// An engine for a model, with six steps a turn.
    pub fn new(model: String, tools: ToolRegistry) -> (r: Engine)
        ensures
            r@ == (EngineView {
                model: model@,
                tools: tools.tools(),
                max_steps: 6,
                debug: false,
            }),
            r@ == fresh_engine(model@, tools.tools()),
    {
        Engine { model, tools, max_steps: 6, debug: false }
    }

    /// The engine with its debug traces on or off.
    pub fn with_debug(self, debug: bool) -> (r: Engine)
        ensures
            r@ == (EngineView { debug, ..self@ }),
    {
        Engine { model: self.model, tools: self.tools, max_steps: self.max_steps, debug }
    }

    /// The engine with another limit of steps, at least one.
    pub fn with_max_steps(self, max_steps: usize) -> (r: Engine)
        ensures
            r@ == (EngineView {
                max_steps: if max_steps == 0 {
                    1
                } else {
                    max_steps as nat
                },
                ..self@
            }),
            r@ == limited(self@, max_steps as nat),
    {
        let max_steps: usize = if max_steps == 0 {
            1
        } else {
            max_steps
        };
        Engine { model: self.model, tools: self.tools, max_steps, debug: self.debug }
    }

    /// Are the debug traces on?
    pub fn debug(&self) -> (r: bool)
        ensures
            r == self@.debug,
    {
        self.debug
    }

    /// The limit of steps.
    pub fn max_steps(&self) -> (r: usize)
        ensures
            r == self@.max_steps,
    {
        self.max_steps
    }

    /// The next move after `step` requests.
    fn next(&self, session: &Session, step: usize) -> (r: Move)
        ensures
            r@ == next_move(self@, session.history(), step as nat),
            ends_with_last_output(session.history(), r@),
    {
        if step < self.max_steps {
            let request = LlmRequest {
                model: self.model.clone(),
                messages: session.messages(),
                temperature_milli: 200,
            };
            return Move::Ask(Asking { step }, request);
        }
        let found = session.last_tool_result();
        proof {
            assert forall|name: Seq<char>, output: Seq<char>|
                session::plain(name) && json::quotable(output) && session::last_tool_message(
                    session.history(),
                ) == Some(#[trigger] session::tool_result_text(name, output)) implies exhausted(
                session.history(),
            ) == finished("(fallback) "@ + output) by {}
        }
        match found {
            Some((_, output)) => {
                let mut answer = "(fallback) ".to_string();
                answer.append(output.as_str());
                Move::Finish(Ok(answer))
            },
            None => Move::Finish(
                Err("Trop d'étapes dans le turn (boucle interrompue)".to_string()),
            ),
        }
    }

    /// Starts a turn.
    pub fn start(&self, session: &Session) -> (r: Move)
        ensures
            r@ == next_move(self@, session.history(), 0),
            ends_with_last_output(session.history(), r@),
    {
        self.next(session, 0)
    }

    /// Records a tool call and its output, and goes on.
    fn record_output(
        &self,
        session: &mut Session,
        step: usize,
        reply: String,
        name: &str,
        output: &str,
    ) -> (r: Move)
        requires
            step < self@.max_steps,
        ensures
            (final(session).history(), r@) == output_move(
                self@,
                old(session).history(),
                step as nat,
                reply@,
                name@,
                output@,
            ),
            final(session).id() == old(session).id(),
            ends_with_last_output(final(session).history(), r@),
    {
        session.push_assistant(reply);
        let escaped = tools::escape_for_json_string(output);
        let mut report = "TOOL_RESULT {\"name\":\"".to_string();
        report.append(name);
        report.append("\",\"output\":\"");
        report.append(escaped.as_str());
        report.append("\"}");
        proof {
            lemma_report_text(name@, output@);
        }
        session.push_system(report);
        self.next(session, step + 1)
    }

    /// Takes the model's reply to a request, or the failure of the request.
    pub fn on_reply(
        &self,
        session: &mut Session,
        asking: Asking,
        reply: Result<String, String>,
    ) -> (r: Move)
        requires
            asking.step() < self@.max_steps,
        ensures
            (final(session).history(), r@) == reply_move(
                self@,
                old(session).history(),
                asking.step(),
                llm::text_result(reply),
            ),
            final(session).id() == old(session).id(),
            goes_on(llm::text_result(reply)) ==> ends_with_last_output(
                final(session).history(),
                r@,
            ),
    {
        match reply {
            Err(failure) => Move::Finish(Err(failure)),
            Ok(reply) => {
                let action = tools::parse_model_action(reply.as_str());
                self.on_action(session, asking, reply, action)
            },
        }
    }

    /// Takes a reply of the model together with the action that it asks for, or the way in which
    /// it breaks the protocol.
    pub fn on_action(
        &self,
        session: &mut Session,
        asking: Asking,
        reply: String,
        action: Result<ModelAction, String>,
    ) -> (r: Move)
        requires
            asking.step() < self@.max_steps,
        ensures
            (final(session).history(), r@) == action_move(
                self@,
                old(session).history(),
                asking.step(),
                reply@,
                tools::action_view(action),
            ),
            final(session).id() == old(session).id(),
            !answers(tools::action_view(action)) ==> ends_with_last_output(
                final(session).history(),
                r@,
            ),
    {
        match action {
            Ok(ModelAction::ToolCall { name, args }) => {
                match self.tools.execute(name.as_str(), &args) {
                    ToolPlan::Reply(output) => self.record_output(
                        session,
                        asking.step,
                        reply,
                        name.as_str(),
                        output.as_str(),
                    ),
                    plan => Move::Run(Running { step: asking.step, reply, name }, plan),
                }
            },
            Ok(ModelAction::FinalAnswer(answer)) => {
                session.push_assistant(reply);
                Move::Finish(Ok(answer))
            },
            Err(err) => {
                session.push_assistant(reply);
                let mut correction = "PROTOCOLE_INVALIDE: ".to_string();
                correction.append(err.as_str());
                correction.append(REPAIR);
                session.push_system(correction);
                self.next(session, asking.step + 1)
            },
        }
    }

    /// Takes the output of a tool.
    pub fn on_output(&self, session: &mut Session, running: Running, output: String) -> (r: Move)
        requires
            running.step() < self@.max_steps,
        ensures
            (final(session).history(), r@) == output_move(
                self@,
                old(session).history(),
                running.step(),
                running.reply(),
                running.name(),
                output@,
            ),
            final(session).id() == old(session).id(),
            ends_with_last_output(final(session).history(), r@),
    {
        self.record_output(
            session,
            running.step,
            running.reply,
            running.name.as_str(),
            output.as_str(),
        )
    }
}

proof fn lemma_report_text(name: Seq<char>, output: Seq<char>)
    ensures
        "TOOL_RESULT {\"name\":\""@ + name + "\",\"output\":\""@ + json::escaped(output) + "\"}"@
            == session::tool_result_text(name, output),
{
    reveal_strlit("TOOL_RESULT {\"name\":\"");
    reveal_strlit("\",\"output\":\"");
    reveal_strlit("\"}");
    reveal_strlit("TOOL_RESULT ");
    reveal_strlit("{\"");
    reveal_strlit("\":\"");
    reveal_strlit("\",\"");
    reveal_strlit("name");
    reveal_strlit("output");
    assert("TOOL_RESULT {\"name\":\""@ + name + "\",\"output\":\""@ + json::escaped(output)
        + "\"}"@ =~= session::tool_result_text(name, output));
}

// ---------------------------------------------------------------------------------------
// Whole turns

/// What the outside gives in one step: the model's reply, and the output of the tool that the
/// reply calls, if it calls one.
pub struct StepInput {
    pub reply: Result<Seq<char>, Seq<char>>,
    pub output: Seq<char>,
}

/// The history and the next move after one step that starts with a request.
pub open spec fn step_move(
    e: EngineView,
    history: Seq<MessageView>,
    step: nat,
    input: StepInput,
) -> (Seq<MessageView>, MoveView) {
    let (h, m) = reply_move(e, history, step, input.reply);
    match m {
        MoveView::Run { step, reply, name, .. } => output_move(e, h, step, reply, name, input.output),
        _ => (h, m),
    }
}

/// The history and the move that a turn comes to, from a request or the end, when the outside
/// gives `inputs`, one per step; it stays at a request once they are used up.
pub open spec fn turn(
    e: EngineView,
    history: Seq<MessageView>,
    m: MoveView,
    inputs: Seq<StepInput>,
) -> (Seq<MessageView>, MoveView)
    decreases inputs.len(),
{
    match m {
        MoveView::Ask { step, .. } => if inputs.len() == 0 {
            (history, m)
        } else {
            let (h, next) = step_move(e, history, step, inputs[0]);
            turn(e, h, next, inputs.drop_first())
        },
        _ => (history, m),
    }
}

/// The number of requests that a turn sends when the outside gives `inputs`.
pub open spec fn requests_sent(
    e: EngineView,
    history: Seq<MessageView>,
    m: MoveView,
    inputs: Seq<StepInput>,
) -> nat
    decreases inputs.len(),
{
    match m {
        MoveView::Ask { step, .. } => if inputs.len() == 0 {
            1
        } else {
            let (h, next) = step_move(e, history, step, inputs[0]);
            1 + requests_sent(e, h, next, inputs.drop_first())
        },
        _ => 0,
    }
}

/// A step ends the turn or goes on with the next request; the history keeps all that it held.
proof fn lemma_step(e: EngineView, history: Seq<MessageView>, step: nat, input: StepInput)
    requires
        step < e.max_steps,
    ensures
        ({
            let (h, m) = step_move(e, history, step, input);
            &&& history.is_prefix_of(h)
            &&& m is Finish || (m is Ask && m->Ask_step == step + 1 && step + 1 < e.max_steps)
        }),
{
    let (h, m) = reply_move(e, history, step, input.reply);
    assert(history.is_prefix_of(h));
}

/// A turn sends at most `max_steps` requests, whatever the model replies and the tools put out.
pub proof fn law_steps_are_limited(
    e: EngineView,
    history: Seq<MessageView>,
    step: nat,
    inputs: Seq<StepInput>,
)
    ensures
        requests_sent(e, history, next_move(e, history, step), inputs) <= if step < e.max_steps {
            (e.max_steps - step) as nat
        } else {
            0
        },
    decreases inputs.len(),
{
    reveal_with_fuel(requests_sent, 2);
    if step < e.max_steps && inputs.len() > 0 {
        lemma_step(e, history, step, inputs[0]);
        let (h, m) = step_move(e, history, step, inputs[0]);
        if m is Ask {
            lemma_ask_is_next(e, history, step, inputs[0]);
            law_steps_are_limited(e, h, step + 1, inputs.drop_first());
        }
    }
}

proof fn lemma_ask_is_next(e: EngineView, history: Seq<MessageView>, step: nat, input: StepInput)
    requires
        step_move(e, history, step, input).1 is Ask,
    ensures
        step_move(e, history, step, input).1 == next_move(
            e,
            step_move(e, history, step, input).0,
            step + 1,
        ),
{
}

/// A turn that gets a reply and an output for each step comes to its end.
pub proof fn law_turn_ends(
    e: EngineView,
    history: Seq<MessageView>,
    step: nat,
    inputs: Seq<StepInput>,
)
    requires
        inputs.len() + step >= e.max_steps,
    ensures
        turn(e, history, next_move(e, history, step), inputs).1 is Finish,
    decreases inputs.len(),
{
    reveal_with_fuel(turn, 2);
    if step < e.max_steps {
        lemma_step(e, history, step, inputs[0]);
        let (h, m) = step_move(e, history, step, inputs[0]);
        if m is Ask {
            lemma_ask_is_next(e, history, step, inputs[0]);
            law_turn_ends(e, h, step + 1, inputs.drop_first());
        }
    }
}

/// A turn only adds to the history: what it held, the system prompt first, stays as it was.
pub proof fn law_history_only_grows(
    e: EngineView,
    history: Seq<MessageView>,
    step: nat,
    inputs: Seq<StepInput>,
)
    ensures
        history.is_prefix_of(turn(e, history, next_move(e, history, step), inputs).0),
    decreases inputs.len(),
{
    reveal_with_fuel(turn, 2);
    if step < e.max_steps && inputs.len() > 0 {
        lemma_step(e, history, step, inputs[0]);
        let (h, m) = step_move(e, history, step, inputs[0]);
        if m is Ask {
            lemma_ask_is_next(e, history, step, inputs[0]);
            law_history_only_grows(e, h, step + 1, inputs.drop_first());
            let last = turn(e, history, next_move(e, history, step), inputs).0;
            assert(h.is_prefix_of(last));
            assert(history =~= last.subrange(0, history.len() as int)) by {
                assert(h == last.subrange(0, h.len() as int));
                assert(history == h.subrange(0, history.len() as int));
            }
        }
    }
}

/// A reply that breaks the protocol is answered with a correction and, as long as steps are left,
/// with another request that holds both.
pub proof fn law_broken_protocol_is_corrected(
    e: EngineView,
    history: Seq<MessageView>,
    step: nat,
    reply: Seq<char>,
)
    requires
        step + 1 < e.max_steps,
        tools::action_of(reply) is Err,
    ensures
        reply_move(e, history, step, Ok(reply)).1 is Ask,
        reply_move(e, history, step, Ok(reply)).1->request.messages == with_repair(
            history,
            reply,
            tools::action_of(reply)->Err_0,
        ),
{
}

/// A turn whose tool calls use up the steps ends with the report of the last tool as the last
/// message, and it is that report which decides the answer.
pub proof fn law_last_report_decides(
    e: EngineView,
    history: Seq<MessageView>,
    step: nat,
    reply: Seq<char>,
    name: Seq<char>,
    output: Seq<char>,
)
    requires
        step + 1 >= e.max_steps,
    ensures
        output_move(e, history, step, reply, name, output).1 == MoveView::Finish(
            exhausted(with_tool_output(history, reply, name, output)),
        ),
        session::last_tool_message(with_tool_output(history, reply, name, output)) == Some(
            session::tool_result_text(name, output),
        ),
{
    let h = with_tool_output(history, reply, name, output);
    let report = session::tool_result_text(name, output);
    assert(h.last().content == report);
    assert("TOOL_RESULT "@.is_prefix_of(report));
}

} // verus!
