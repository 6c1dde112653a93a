//! What the runtime is for: a message reaches the conversation, a command does what it names, and
//! a scheduled run is recorded and passed on.

use vstd::prelude::*;

use crate::cron_store::{CronJob, CronRun};
use crate::json::JsonView;
use crate::promises::{facts, words};
use crate::runtime::{
    CommandView, CronFault, CronView, EventView, OutputView, RuntimeEvent, SystemRunView, WorkerView,
};
use crate::session::MessageView;
use crate::telegram::{PollView, StepView, Update};
use crate::{cron_tool, json, layout, numerals, runtime, search, session, telegram, text};

verus! {

// ---------------------------------------------------------------------------------------
// Messages

/// The message comes with this text, from a chat that may be served.
pub open spec fn says(update: Update, allowed: Option<i64>, chat_id: i64, s: Seq<char>) -> bool {
    &&& update.message is Some
    &&& update.message->0.chat_id == chat_id
    &&& update.message->0.text is Some
    &&& update.message->0.text->0@ == s
    &&& allowed is None || allowed == Some(chat_id)
}

/// A message that is no command is answered in its chat with all that it says, all lines, without
/// the white space around it.
pub proof fn law_a_message_is_answered_whole(
    update: Update,
    allowed: Option<i64>,
    chat_id: i64,
    before: Seq<char>,
    w: Seq<char>,
    after: Seq<char>,
)
    requires
        layout::all_white(before),
        layout::all_white(after),
        facts::tight(w),
        w[0] != '/',
        says(update, allowed, chat_id, before + w + after),
    ensures
        telegram::step_of(update, allowed) == (StepView::Answer { chat_id, text: w }),
        telegram::normalized_command(before + w + after) == w,
{
    let none = Seq::<char>::empty();
    facts::lemma_padded(before, w, after);
    assert(none + w + none =~= w);
    facts::lemma_padded(none, w, none);
}

/// The word that names a command, with no name of a bot in it.
pub open spec fn command_name(name: Seq<char>) -> bool {
    &&& layout::word(name)
    &&& name[0] == '/'
    &&& !name.contains('@')
}

/// Nothing, or the name of a bot behind its mark.
pub open spec fn mention(s: Seq<char>) -> bool {
    s.len() == 0 || (layout::word(s) && s[0] == '@')
}

/// A command is answered in its chat by its name, without that of the bot; all that stands behind
/// it, all lines, follows behind one space, without the white space around it.
pub proof fn law_a_command_keeps_its_arguments(
    update: Update,
    allowed: Option<i64>,
    chat_id: i64,
    before: Seq<char>,
    name: Seq<char>,
    bot: Seq<char>,
    gap: Seq<char>,
    rest: Seq<char>,
    after: Seq<char>,
)
    requires
        layout::all_white(before),
        layout::all_white(gap),
        gap.len() > 0,
        layout::all_white(after),
        command_name(name),
        mention(bot),
        facts::tight(rest),
        says(update, allowed, chat_id, before + (name + bot + (gap + rest)) + after),
    ensures
        telegram::step_of(update, allowed) == (StepView::Answer {
            chat_id,
            text: name + seq![' '] + rest,
        }),
        telegram::normalized_command(before + (name + bot + (gap + rest)) + after) == name + seq![
            ' ',
        ] + rest,
{
    reveal_strlit(" ");
    assert(" "@ =~= seq![' ']);
    let none = Seq::<char>::empty();
    let tail = gap + rest;
    let w = name + bot + tail;
    assert(w[0] == name[0]);
    assert(w[w.len() - 1] == rest[rest.len() - 1]);
    facts::lemma_padded(before, w, after);
    assert(none + w + none =~= w);
    facts::lemma_padded(none, w, none);
    assert(tail[0] == gap[0]);
    lemma_command_word(name, bot, tail);
    let n = (name + bot).len() as int;
    assert(w.skip(n + 1) =~= gap.drop_first() + rest + none);
    assert forall|i: int| 0 <= i < gap.drop_first().len() implies text::white(
        #[trigger] gap.drop_first()[i],
    ) by {
        assert(gap.drop_first()[i] == gap[i + 1]);
    }
    facts::lemma_padded(gap.drop_first(), rest, none);
}

/// A command without arguments is answered by its name alone.
pub proof fn law_a_bare_command_is_its_name(
    update: Update,
    allowed: Option<i64>,
    chat_id: i64,
    before: Seq<char>,
    name: Seq<char>,
    bot: Seq<char>,
    after: Seq<char>,
)
    requires
        layout::all_white(before),
        layout::all_white(after),
        command_name(name),
        mention(bot),
        says(update, allowed, chat_id, before + (name + bot) + after),
    ensures
        telegram::step_of(update, allowed) == (StepView::Answer { chat_id, text: name }),
        telegram::normalized_command(before + (name + bot) + after) == name,
{
    let none = Seq::<char>::empty();
    let w = name + bot;
    assert(w[0] == name[0]);
    if bot.len() > 0 {
        assert(w[w.len() - 1] == bot[bot.len() - 1]);
    } else {
        assert(w[w.len() - 1] == name[name.len() - 1]);
    }
    facts::lemma_padded(before, w, after);
    assert(none + w + none =~= w);
    facts::lemma_padded(none, w, none);
    assert(name + bot + none =~= w);
    lemma_command_word(name, bot, none);
}

proof fn lemma_command_word(name: Seq<char>, bot: Seq<char>, tail: Seq<char>)
    requires
        command_name(name),
        mention(bot),
        tail.len() == 0 || text::white(tail[0]),
    ensures
        ({
            let w = name + bot + tail;
            let n = text::word_len(w) as int;
            &&& n == (name + bot).len()
            &&& text::trimmed(w.take(n).take(search::first_of(w.take(n), '@'))) == name
        }),
{
    let word = name + bot;
    let w = word + tail;
    assert forall|i: int| 0 <= i < word.len() implies !text::white(#[trigger] word[i]) by {
        if i < name.len() {
            assert(word[i] == name[i]);
        } else {
            assert(word[i] == bot[i - name.len()]);
        }
    }
    layout::lemma_word_in_front(word, tail);
    let n = word.len() as int;
    assert(w.take(n) =~= word);
    search::lemma_first_of(word, '@');
    let k = search::first_of(word, '@');
    if bot.len() > 0 {
        assert(word[name.len() as int] == '@');
    }
    if k < name.len() {
        assert(name[k] == word[k]);
        assert(name.contains('@'));
    }
    assert(k == name.len());
    assert(word.take(k) =~= name);
    let none = Seq::<char>::empty();
    assert(none + name + none =~= name);
    facts::lemma_padded(none, name, none);
}

/// A message without text, or with a blank one, is ignored; one from a chat that may not be
/// served is refused, whatever it says.
pub proof fn law_other_messages_are_not_answered(
    update: Update,
    allowed: Option<i64>,
    chat_id: i64,
)
    ensures
        update.message is None ==> telegram::step_of(update, allowed) == StepView::Ignore,
        update.message matches Some(m) ==> {
            &&& m.text is None ==> telegram::step_of(update, allowed) == StepView::Ignore
            &&& m.text matches Some(s) ==> {
                &&& layout::all_white(s@) ==> telegram::step_of(update, allowed)
                    == StepView::Ignore
                &&& facts::filled(s@) && allowed == Some(chat_id) && chat_id != m.chat_id
                    ==> telegram::step_of(update, allowed) == StepView::Refuse(m.chat_id)
            }
        },
{
    if update.message is Some && update.message->0.text is Some {
        facts::lemma_filled(update.message->0.text->0@);
    }
}

/// A chat is set by its number, with or without white space around it.
pub proof fn law_a_chat_is_its_number(before: Seq<char>, n: u64, after: Seq<char>)
    requires
        layout::all_white(before),
        layout::all_white(after),
        n <= i64::MAX,
    ensures
        telegram::chat_of(Some(before + numerals::decimal(n as nat) + after)) == Some(n as i64),
        telegram::chat_of(Some(before + (seq!['-'] + numerals::decimal(n as nat)) + after)) == Some(
            (0 - n) as i64,
        ),
        telegram::chat_of(None) is None,
{
    let d = numerals::decimal(n as nat);
    words::law_a_number_is_written_by_its_digits(n as nat, n as nat);
    assert(!text::white(d[0]) && !text::white(d[d.len() - 1]));
    facts::lemma_padded(before, d, after);
    assert(d[0] != '-' && d[0] != '+');
    let below = seq!['-'] + d;
    assert(below[0] == '-' && below[below.len() - 1] == d[d.len() - 1]);
    facts::lemma_padded(before, below, after);
    assert(below.drop_first() =~= d);
}

// ---------------------------------------------------------------------------------------
// Lines of input

/// A line that does not begin with a slash, and is no word of farewell, is said to the model, as
/// it is.
pub proof fn law_other_lines_are_said_to_the_model(msg: Seq<char>)
    requires
        msg != "quit"@,
        msg != "exit"@,
        msg.len() == 0 || msg[0] != '/',
    ensures
        runtime::command_of(msg) == CommandView::Turn(msg),
{
    reveal_strlit("/quit");
    reveal_strlit("/help");
    reveal_strlit("/reload-persona");
    reveal_strlit("/reset");
    reveal_strlit("/curate");
    reveal_strlit("/curator-start");
    reveal_strlit("/curator-stop");
    reveal_strlit("/workers");
    reveal_strlit("/cron");
    assert("/quit"@[0] == '/' && "/help"@[0] == '/' && "/reload-persona"@[0] == '/');
    assert("/reset"@[0] == '/' && "/curate"@[0] == '/' && "/curator-start"@[0] == '/');
    assert("/curator-stop"@[0] == '/' && "/workers"@[0] == '/' && "/cron"@[0] == '/');
    if "/cron"@.is_prefix_of(msg) {
        assert(msg.subrange(0, 5)[0] == "/cron"@[0]);
    }
}

/// A cron command is read by its words: the verb, and what follows it.
pub proof fn law_a_cron_command_is_read_by_its_words(
    msg: Seq<char>,
    first: Seq<char>,
    rest: Seq<Seq<char>>,
    id: Seq<char>,
)
    requires
        "/cron"@.is_prefix_of(msg),
    ensures
        ({
            let command = runtime::command_of(msg);
            let words = text::words(msg);
            &&& command is Cron
            &&& words == seq![first, "status"@] + rest ==> command == CommandView::Cron(
                CronView::Status,
            )
            &&& words == seq![first, "list"@] + rest ==> command == CommandView::Cron(
                CronView::List,
            )
            &&& words == seq![first, "add-curator-nightly"@] + rest ==> command
                == CommandView::Cron(CronView::AddCuratorNightly)
            &&& words == seq![first, "add-notify"@] + rest && rest.len() > 0 ==> command
                == CommandView::Cron(CronView::AddNotify(search::joined(rest, seq![' '])))
            &&& words == seq![first, "run"@, id] + rest ==> command == CommandView::Cron(
                CronView::Run(id),
            )
            &&& words == seq![first, "runs"@, id] + rest ==> command == CommandView::Cron(
                CronView::Runs(id),
            )
        }),
{
    reveal_strlit("/quit");
    reveal_strlit("quit");
    reveal_strlit("exit");
    reveal_strlit("/help");
    reveal_strlit("/reload-persona");
    reveal_strlit("/reset");
    reveal_strlit("/curate");
    reveal_strlit("/curator-start");
    reveal_strlit("/curator-stop");
    reveal_strlit("/workers");
    reveal_strlit("/cron");
    assert(msg.subrange(0, 5)[0] == "/cron"@[0] && msg.subrange(0, 5)[1] == "/cron"@[1]);
    assert(msg.subrange(0, 5)[2] == "/cron"@[2] && msg[0] == '/' && msg[1] == 'c');
    assert("/quit"@[1] == 'q' && "quit"@[0] == 'q' && "exit"@[0] == 'e' && "/help"@[1] == 'h');
    assert("/reload-persona"@[1] == 'r' && "/reset"@[1] == 'r' && "/workers"@[1] == 'w');
    assert("/curate"@[2] == 'u' && "/curator-start"@[2] == 'u' && "/curator-stop"@[2] == 'u');
    assert(msg[2] == 'r');
    reveal_strlit("status");
    reveal_strlit("list");
    reveal_strlit("add-curator-nightly");
    reveal_strlit("add-notify");
    reveal_strlit("run");
    reveal_strlit("runs");
    assert("status"@.len() == 6 && "list"@.len() == 4 && "add-curator-nightly"@.len() == 19);
    assert("add-notify"@.len() == 10 && "run"@.len() == 3 && "runs"@.len() == 4);
    assert("list"@[0] == 'l' && "runs"@[0] == 'r');
    reveal_strlit(" ");
    assert(" "@ =~= seq![' ']);
    assert((seq![first, "add-notify"@] + rest).skip(2) =~= rest);
}

/// A line of words with spaces between them: each word follows the ones before it.
pub proof fn law_words_follow_each_other(words: Seq<Seq<char>>, w: Seq<char>, sep: Seq<char>)
    ensures
        search::joined(Seq::empty(), sep) == Seq::<char>::empty(),
        search::joined(seq![w], sep) == w,
        words.len() > 0 ==> search::joined(words.push(w), sep) == search::joined(words, sep) + sep
            + w,
{
    assert(words.push(w).drop_last() =~= words);
}

// ---------------------------------------------------------------------------------------
// Turns

/// What the model answers is what is shown and what the transcript keeps, whole; an error is
/// shown behind its mark and kept as it is.
pub proof fn law_an_answer_is_shown_and_kept(
    outcome: Result<Seq<char>, Seq<char>>,
    event: RuntimeEvent,
    closing: Seq<char>,
)
    requires
        runtime::turn_event(outcome, event),
    ensures
        outcome matches Ok(answer) ==> {
            &&& event is Reply
            &&& runtime::event_text(event, closing) == answer
            &&& runtime::turn_note(outcome) == ("assistant"@, answer)
        },
        outcome matches Err(e) ==> {
            &&& event is Info
            &&& runtime::event_text(event, closing) == "[erreur LLM] "@ + e
            &&& runtime::turn_note(outcome) == ("error"@, e)
        },
{
}

/// The text of an event is shown as it is.
pub proof fn law_an_event_shows_its_text(event: RuntimeEvent, closing: Seq<char>)
    ensures
        event matches RuntimeEvent::Reply(s) ==> runtime::event_text(event, closing) == s@,
        event matches RuntimeEvent::Info(s) ==> runtime::event_text(event, closing) == s@,
        event is Exit ==> runtime::event_text(event, closing) == closing,
{
}

/// A turn that went well leaves the conversation as it is; one that failed takes at most its own
/// question back.
pub proof fn law_a_turn_takes_at_most_its_question_back(
    history: Seq<MessageView>,
    outcome: Result<Seq<char>, Seq<char>>,
    s: Seq<char>,
)
    ensures
        outcome is Ok ==> runtime::history_after_turn(history, outcome) == history,
        outcome is Err ==> runtime::history_after_turn(
            history.push(session::message("user"@, s)),
            outcome,
        ) == history,
        outcome is Err ==> runtime::history_after_turn(history, outcome).is_prefix_of(history),
        outcome is Err && history.len() > 0 && history.last().role != "user"@
            ==> runtime::history_after_turn(history, outcome) == history,
{
    session::law_rollback_undoes_push_user(history, s);
    let after = runtime::history_after_turn(history, outcome);
    assert(after =~= history.take(after.len() as int));
}

// ---------------------------------------------------------------------------------------
// Workers

/// The line on a report ends with all that was reported.
pub proof fn law_a_report_is_recorded_whole(s: Seq<char>)
    ensures
        runtime::supervisor_line(EventView::CuratorTickOk(s)) == "[worker] curator ok: "@ + s,
        runtime::supervisor_line(EventView::CuratorTickErr(s)) == "[worker] curator error: "@ + s,
        runtime::supervisor_line(EventView::CronRunOk(s)) == "[worker] cron ok: "@ + s,
        runtime::supervisor_line(EventView::CronRunErr(s)) == "[worker] cron error: "@ + s,
        runtime::supervisor_line(EventView::CronNotify(s)) == "[cron notify] "@ + s,
{
}

/// The interval is the number that the variable holds, if it is ten or more.
pub proof fn law_the_interval_is_as_set(n: u64, variable: Option<Seq<char>>)
    ensures
        variable == Some(numerals::decimal(n as nat)) && n >= 10 ==> runtime::interval_of(variable)
            == n,
        variable == Some(numerals::decimal(n as nat)) && n < 10 ==> runtime::interval_of(variable)
            == 300,
        variable is None ==> runtime::interval_of(variable) == 300,
{
    numerals::law_number_read_back(n);
}

/// The list of jobs has a row for each of them, in order, with what is on record.
pub proof fn law_every_job_is_listed(jobs: Seq<CronJob>, i: int)
    requires
        0 <= i < jobs.len(),
    ensures
        runtime::jobs_text(jobs) == search::joined(runtime::job_lines(jobs), seq!['\n']),
        runtime::job_lines(jobs).len() == jobs.len() + 1,
        runtime::job_lines(jobs)[0] == "cron: "@ + numerals::decimal(jobs.len()) + " job(s)"@,
        runtime::job_lines(jobs)[i + 1] == "- "@ + jobs[i].id@ + " | "@ + (match jobs[i].name {
            Some(name) => name@,
            None => "(sans nom)"@,
        }) + " | schedule="@ + jobs[i].schedule_kind@ + " | payload="@ + jobs[i].payload_kind@
            + " | target="@ + jobs[i].session_target@ + " | enabled="@ + (if jobs[i].enabled {
            "true"@
        } else {
            "false"@
        }) + " | next="@ + (match jobs[i].next_run_at {
            Some(at) => at@,
            None => "-"@,
        }) + " | last="@ + (match jobs[i].last_run_at {
            Some(at) => at@,
            None => "-"@,
        }),
{
    reveal_strlit("\n");
    assert("\n"@ =~= seq!['\n']);
}

/// The list of the runs of a job has a row for each of them, in order, with what is on record.
pub proof fn law_every_run_is_listed(job_id: Seq<char>, runs: Seq<CronRun>, i: int)
    requires
        0 <= i < runs.len(),
    ensures
        runtime::runs_text(job_id, runs) == search::joined(
            runtime::run_lines(job_id, runs),
            seq!['\n'],
        ),
        runtime::run_lines(job_id, runs).len() == runs.len() + 1,
        runtime::run_lines(job_id, runs)[0] == "cron runs: "@ + job_id,
        runtime::run_lines(job_id, runs)[i + 1] == "- "@ + runs[i].run_id@ + " | job="@
            + runs[i].job_id@ + " | status="@ + runs[i].status@ + " | trigger="@
            + runs[i].trigger_source@ + " | at="@ + runs[i].created_at@,
{
    reveal_strlit("\n");
    assert("\n"@ =~= seq!['\n']);
}

// ---------------------------------------------------------------------------------------
// Scheduled runs

/// An event that asks for a notification notifies with its message, whole; one that asks for
/// curation curates.
pub proof fn law_an_event_does_what_its_type_says(
    payload: JsonView,
    data: JsonView,
    message: Seq<char>,
    model: Seq<char>,
)
    ensures
        ({
            let run = runtime::system_run_of(
                "systemEvent"@,
                Ok::<JsonView, Seq<char>>(payload),
                model,
            );
            &&& facts::gives(payload, "type"@, JsonView::Text("curate"@)) ==> run == Ok::<
                SystemRunView,
                Seq<char>,
            >(SystemRunView::Curate)
            &&& facts::gives(payload, "type"@, JsonView::Text("notify"@)) && facts::gives(
                payload,
                "data"@,
                data,
            ) && facts::gives(data, "message"@, JsonView::Text(message)) ==> {
                &&& run is Ok
                &&& run->Ok_0 is Done
                &&& run->Ok_0->Done_0.notify_main == Some(message)
                &&& run->Ok_0->Done_0.output_json == json::json_compact(
                    runtime::event_record("notify"@, message),
                )
            }
            &&& facts::lacks(payload, "type"@) ==> run is Err
        }),
{
    reveal_strlit("curate");
    reveal_strlit("notify");
    reveal_strlit("unknown");
    assert("curate"@[0] == 'c' && "notify"@[0] == 'n' && "unknown"@[0] == 'u');
    if facts::gives(payload, "type"@, JsonView::Text("curate"@)) {
        facts::lemma_gives(payload, "type"@, JsonView::Text("curate"@));
    }
    if facts::gives(payload, "type"@, JsonView::Text("notify"@)) {
        facts::lemma_gives(payload, "type"@, JsonView::Text("notify"@));
    }
    if facts::gives(payload, "data"@, data) {
        facts::lemma_gives(payload, "data"@, data);
    }
    if facts::gives(data, "message"@, JsonView::Text(message)) {
        facts::lemma_gives(data, "message"@, JsonView::Text(message));
    }
    if facts::lacks(payload, "type"@) {
        facts::lemma_lacks(payload, "type"@);
    }
}

/// An agent's turn asks the model with the message that was given, whole, and the model that was
/// given, or the usual one.
pub proof fn law_an_agent_turn_asks_with_its_message(
    payload: JsonView,
    message: Seq<char>,
    model: Seq<char>,
    own: Seq<char>,
    v: JsonView,
)
    ensures
        ({
            let run = runtime::system_run_of(
                "agentTurn"@,
                Ok::<JsonView, Seq<char>>(payload),
                model,
            );
            &&& facts::gives(payload, "message"@, JsonView::Text(message)) ==> {
                &&& run is Ok
                &&& run->Ok_0 is Ask
                &&& run->Ok_0->Ask_0.messages.len() == 2
                &&& run->Ok_0->Ask_0.messages[0].role == "system"@
                &&& run->Ok_0->Ask_0.messages[1] == (MessageView {
                    role: "user"@,
                    content: message,
                })
                &&& facts::gives(payload, "model"@, JsonView::Text(own))
                    ==> run->Ok_0->Ask_0.model == own
                &&& facts::lacks(payload, "model"@) || (facts::gives(payload, "model"@, v) && !(
                v is Text)) ==> run->Ok_0->Ask_0.model == model
                &&& run->Ok_0->Ask_0.temperature_milli == 200
            }
            &&& facts::lacks(payload, "message"@) || (facts::gives(payload, "message"@, v) && !(
            v is Text)) ==> run is Err
        }),
{
    if facts::gives(payload, "model"@, v) {
        facts::lemma_gives(payload, "model"@, v);
    }
    if facts::gives(payload, "message"@, v) {
        facts::lemma_gives(payload, "message"@, v);
    }
    reveal_strlit("agentTurn");
    reveal_strlit("systemEvent");
    assert("agentTurn"@[0] != "systemEvent"@[0]);
    if facts::gives(payload, "message"@, JsonView::Text(message)) {
        facts::lemma_gives(payload, "message"@, JsonView::Text(message));
    }
    if facts::lacks(payload, "message"@) {
        facts::lemma_lacks(payload, "message"@);
    }
    if facts::gives(payload, "model"@, JsonView::Text(own)) {
        facts::lemma_gives(payload, "model"@, JsonView::Text(own));
    }
    if facts::lacks(payload, "model"@) {
        facts::lemma_lacks(payload, "model"@);
    }
}

/// The records of runs hold what was said, whole.
pub proof fn law_records_hold_what_was_said(event: Seq<char>, message: Seq<char>)
    ensures
        facts::gives(runtime::event_record(event, message), "event"@, JsonView::Text(event)),
        facts::gives(runtime::event_record(event, message), "message"@, JsonView::Text(message)),
        facts::gives(runtime::event_record(event, message), "ok"@, JsonView::Bool(true)),
        facts::gives(runtime::turn_record(message), "answer"@, JsonView::Text(message)),
        facts::gives(runtime::turn_record(message), "kind"@, JsonView::Text("agentTurn"@)),
        facts::gives(runtime::turn_record(message), "ok"@, JsonView::Bool(true)),
{
    reveal_strlit("event");
    reveal_strlit("message");
    reveal_strlit("ok");
    reveal_strlit("answer");
    reveal_strlit("kind");
    assert("event"@.len() == 5 && "message"@.len() == 7 && "ok"@.len() == 2);
    assert("answer"@.len() == 6 && "kind"@.len() == 4);
    let a = runtime::event_record(event, message)->Object_0;
    assert(a[0] == ("event"@, JsonView::Text(event)));
    assert(a[1] == ("message"@, JsonView::Text(message)));
    assert(a[2] == ("ok"@, JsonView::Bool(true)));
    let b = runtime::turn_record(message)->Object_0;
    assert(b[0] == ("answer"@, JsonView::Text(message)));
    assert(b[1] == ("kind"@, JsonView::Text("agentTurn"@)));
    assert(b[2] == ("ok"@, JsonView::Bool(true)));
}

/// A run that has asked the model records the whole answer, and notifies with its first three
/// hundred characters; one that has curated records what the curator said and notifies nobody.
pub proof fn law_a_run_leaves_its_answer(answer: Seq<char>)
    ensures
        runtime::turn_leaves(answer).output_json == json::json_compact(
            runtime::turn_record(answer),
        ),
        answer.len() <= 300 ==> runtime::turn_leaves(answer).notify_main == Some(
            "[cron agentTurn] "@ + answer,
        ),
        answer.len() > 300 ==> runtime::turn_leaves(answer).notify_main == Some(
            "[cron agentTurn] "@ + answer.take(300),
        ),
        runtime::curation_leaves(answer).output_json == json::json_compact(
            runtime::event_record("curate"@, answer),
        ),
        runtime::curation_leaves(answer).notify_main is None,
{
}

/// A notification goes to the chat that is set, where there is a token, and to the main session.
pub proof fn law_a_notification_is_passed_on(
    job_id: Seq<char>,
    run_id: Seq<char>,
    output: OutputView,
    target: Option<(Seq<char>, i64)>,
    message: Seq<char>,
)
    ensures
        ({
            let actions = runtime::actions_after_run(
                job_id,
                run_id,
                Ok::<OutputView, Seq<char>>(output),
                target,
            );
            let told = WorkerView::Report(EventView::CronNotify(message));
            let done = WorkerView::Report(
                EventView::CronRunOk("job="@ + job_id + " run="@ + run_id + " ok"@),
            );
            let recorded = WorkerView::RecordSuccess { run_id, output_json: output.output_json };
            &&& output.notify_main is None ==> actions == seq![recorded, done]
            &&& output.notify_main == Some(message) && target is None ==> actions == seq![
                recorded,
                told,
                done,
            ]
            &&& output.notify_main == Some(message) && target is Some ==> actions == seq![
                recorded,
                WorkerView::SendTelegram {
                    token: (target->0).0,
                    chat_id: (target->0).1,
                    text: message,
                },
                told,
                done,
            ]
        }),
{
    let actions = runtime::actions_after_run(
        job_id,
        run_id,
        Ok::<OutputView, Seq<char>>(output),
        target,
    );
    let told = WorkerView::Report(EventView::CronNotify(message));
    let done = WorkerView::Report(
        EventView::CronRunOk("job="@ + job_id + " run="@ + run_id + " ok"@),
    );
    let recorded = WorkerView::RecordSuccess { run_id, output_json: output.output_json };
    if output.notify_main is None {
        assert(actions =~= seq![recorded, done]);
    } else if output.notify_main == Some(message) {
        if target is None {
            assert(actions =~= seq![recorded, told, done]);
        } else {
            assert(actions =~= seq![
                recorded,
                WorkerView::SendTelegram {
                    token: (target->0).0,
                    chat_id: (target->0).1,
                    text: message,
                },
                told,
                done,
            ]);
        }
    }
}

/// A run that failed is recorded and reported with its error, and notifies nobody.
pub proof fn law_a_failed_run_is_recorded(
    job_id: Seq<char>,
    run_id: Seq<char>,
    e: Seq<char>,
    target: Option<(Seq<char>, i64)>,
)
    ensures
        runtime::actions_after_run(job_id, run_id, Err::<OutputView, Seq<char>>(e), target) == seq![
            WorkerView::RecordFailure { run_id, error: e },
            WorkerView::Report(
                EventView::CronRunErr("job="@ + job_id + " run="@ + run_id + " err="@ + e),
            ),
        ],
{
    let a = "job="@ + job_id + " run="@ + run_id;
    assert(a + (" err="@ + e) =~= a + " err="@ + e);
}

/// A run that was taken up is executed; otherwise the worker waits, and reports what went wrong.
pub proof fn law_a_claimed_run_is_executed(e: Seq<char>)
    ensures
        runtime::actions_after_claim(Ok::<bool, Seq<char>>(true)) == seq![WorkerView::Execute],
        runtime::actions_after_claim(Ok::<bool, Seq<char>>(false)) == seq![
            WorkerView::Sleep { seconds: 5 },
        ],
        runtime::actions_after_claim(Err::<bool, Seq<char>>(e)) == seq![
            WorkerView::Report(EventView::CronRunErr("store error: "@ + e)),
            WorkerView::Sleep { seconds: 5 },
        ],
{
}

/// A notification goes to a chat exactly where there is a token and the chat is set by its
/// number.
pub proof fn law_notifications_go_to_the_chat_that_is_set(
    token: Option<Seq<char>>,
    chat: Option<Seq<char>>,
    n: u64,
)
    requires
        n <= i64::MAX,
    ensures
        token is Some && chat == Some(numerals::decimal(n as nat)) ==> runtime::target_of(
            token,
            chat,
        ) == Some((token->0, n as i64)),
        token is None || chat is None ==> runtime::target_of(token, chat) is None,
{
    let none = Seq::<char>::empty();
    law_a_chat_is_its_number(none, n, none);
    assert(none + numerals::decimal(n as nat) + none =~= numerals::decimal(n as nat));
}

// ---------------------------------------------------------------------------------------
// Answers to the commands

/// What a command gives is answered as it is, and an error behind its mark, whole.
pub proof fn law_an_outcome_is_answered_whole(s: Seq<char>, mark: Seq<char>)
    ensures
        runtime::or_error(Ok::<Seq<char>, Seq<char>>(s), mark) == s,
        runtime::or_error(Err::<Seq<char>, Seq<char>>(s), mark) == mark + s,
{
}

/// The answers name the job and the run that they are about.
pub proof fn law_answers_name_the_job_and_the_run(job: Seq<char>, run: Seq<char>)
    ensures
        runtime::nightly_added(job) == "cron add: ok\n- job_id: "@ + job
            + "\n- name: curator-nightly"@,
        runtime::notify_added(job, run) == "cron add-notify: ok\n- job_id: "@ + job
            + "\n- run_id: "@ + run,
        runtime::run_queued(job, run) == "cron run: queued\n- job_id: "@ + job + "\n- run_id: "@
            + run,
{
}

/// The answer on the workers says which of them run.
pub proof fn law_the_workers_are_told_apart(curator: bool, cron: bool, path: Seq<char>)
    ensures
        runtime::workers_text(curator, cron, path) == "workers:\n- curator: "@ + (if curator {
            "running"@
        } else {
            "stopped"@
        }) + "\n- cron: "@ + (if cron {
            "running"@
        } else {
            "stopped"@
        }) + "\ncron:\n- db: "@ + path,
{
}

/// A line that is no command of the program is said to the model, as it is, whatever it begins
/// with.
pub proof fn law_unknown_commands_are_said_to_the_model(msg: Seq<char>)
    requires
        msg != "/quit"@ && msg != "quit"@ && msg != "exit"@ && msg != "/help"@,
        msg != "/reload-persona"@ && msg != "/reset"@ && msg != "/curate"@ && msg != "/workers"@,
        msg != "/curator-start"@ && msg != "/curator-stop"@,
        !"/cron"@.is_prefix_of(msg),
    ensures
        runtime::command_of(msg) == CommandView::Turn(msg),
{
}

/// A cron command that lacks its verb, or what the verb needs, or has an unknown verb, is answered
/// by how it should be used.
pub proof fn law_other_cron_commands_are_explained(words: Seq<Seq<char>>)
    ensures
        words.len() < 2 ==> runtime::cron_command_of(words) is Usage,
        words.len() == 2 && (words[1] == "add-notify"@ || words[1] == "run"@ || words[1]
            == "runs"@) ==> runtime::cron_command_of(words) is Usage,
        words.len() >= 2 && words[1] != "status"@ && words[1] != "list"@ && words[1]
            != "add-curator-nightly"@ && words[1] != "add-notify"@ && words[1] != "run"@ && words[1]
            != "runs"@ ==> runtime::cron_command_of(words) == CronView::Usage(runtime::CRON_USAGE@),
{
    reveal_strlit("status");
    reveal_strlit("list");
    reveal_strlit("add-curator-nightly");
    reveal_strlit("add-notify");
    reveal_strlit("run");
    reveal_strlit("runs");
    assert("status"@.len() == 6 && "list"@.len() == 4 && "add-curator-nightly"@.len() == 19);
    assert("add-notify"@.len() == 10 && "run"@.len() == 3 && "runs"@.len() == 4);
    assert("list"@[0] == 'l' && "runs"@[0] == 'r');
}

/// A notification goes into the conversation, whole, behind all that was said; other reports leave
/// it as it is.
pub proof fn law_a_notification_enters_the_conversation(
    history: Seq<MessageView>,
    message: Seq<char>,
    ev: EventView,
)
    ensures
        ({
            let after = runtime::absorbed(history, EventView::CronNotify(message));
            &&& after.len() == history.len() + 1
            &&& history.is_prefix_of(after)
            &&& after[history.len() as int].role == "system"@
            &&& after[history.len() as int].content == "[cron notify] "@ + message
        }),
        !(ev is CronNotify) ==> runtime::absorbed(history, ev) == history,
{
    let after = runtime::absorbed(history, EventView::CronNotify(message));
    assert(history =~= after.subrange(0, history.len() as int));
}

/// A failed step of the worker is reported with its name and its error, whole.
pub proof fn law_a_fault_is_named(e: Seq<char>)
    ensures
        runtime::fault_name(CronFault::Enqueue) + e == "enqueue error: "@ + e,
        runtime::fault_name(CronFault::Store) + e == "store error: "@ + e,
        runtime::fault_name(CronFault::Telegram) + e == "notify telegram error: "@ + e,
{
}

/// The reply on an agent job names it, or the error.
pub proof fn law_an_added_turn_is_named(s: Seq<char>)
    ensures
        cron_tool::turn_added(Ok::<Seq<char>, Seq<char>>(s))
            == "cron add-agent-turn: ok\n- job_id: "@ + s,
        cron_tool::turn_added(Err::<Seq<char>, Seq<char>>(s))
            == "cron add-agent-turn: erreur: "@ + s,
{
}

/// Updates are handled where the answer is good; else the reason is reported and the program
/// waits.
pub proof fn law_a_poll_is_handled_or_repeated(e: Seq<char>)
    ensures
        telegram::poll_of(Ok::<bool, Seq<char>>(true)) == PollView::Handle,
        telegram::poll_of(Ok::<bool, Seq<char>>(false)) == (PollView::Wait {
            report: "[telegram] getUpdates returned ok=false"@,
            seconds: 3,
        }),
        telegram::poll_of(Err::<bool, Seq<char>>(e)) == (PollView::Wait {
            report: "[telegram] getUpdates error: "@ + e,
            seconds: 3,
        }),
{
}

/// The next request asks for the updates behind the last one, and for all of them.
pub proof fn law_no_update_is_asked_for_twice(update_id: i64, other: i64)
    ensures
        other >= telegram::offset_behind(update_id) <==> other > update_id,
{
}

/// A chat is welcomed exactly where it was not before.
pub proof fn law_a_new_chat_is_welcomed(welcomed: Set<i64>, chat_id: i64)
    ensures
        welcomed.contains(chat_id) ==> telegram::welcome_due(welcomed, chat_id) is None,
        !welcomed.contains(chat_id) ==> telegram::welcome_due(welcomed, chat_id) == Some(
            telegram::WELCOME@,
        ),
{
}

/// Each command of the program is told by its own line, and by no other.
pub proof fn law_commands_are_told_by_their_lines(msg: Seq<char>)
    ensures
        runtime::command_of(msg) is Quit <==> msg == "/quit"@ || msg == "quit"@ || msg == "exit"@,
        runtime::command_of(msg) is Help <==> msg == "/help"@,
        runtime::command_of(msg) is ReloadPersona <==> msg == "/reload-persona"@,
        runtime::command_of(msg) is Reset <==> msg == "/reset"@,
        runtime::command_of(msg) is Curate <==> msg == "/curate"@,
        runtime::command_of(msg) is CuratorStart <==> msg == "/curator-start"@,
        runtime::command_of(msg) is CuratorStop <==> msg == "/curator-stop"@,
        runtime::command_of(msg) is Workers <==> msg == "/workers"@,
{
    reveal_strlit("/quit");
    reveal_strlit("quit");
    reveal_strlit("exit");
    reveal_strlit("/help");
    reveal_strlit("/reload-persona");
    reveal_strlit("/reset");
    reveal_strlit("/curate");
    reveal_strlit("/curator-start");
    reveal_strlit("/curator-stop");
    reveal_strlit("/workers");
    assert("/quit"@[1] == 'q' && "quit"@[0] == 'q' && "exit"@[0] == 'e' && "/help"@[1] == 'h');
    assert("/reload-persona"@.len() == 15 && "/reset"@.len() == 6 && "/workers"@.len() == 8);
    assert("/curate"@.len() == 7 && "/curator-start"@.len() == 14 && "/curator-stop"@.len() == 13);
    assert("/quit"@.len() == 5 && "quit"@.len() == 4 && "exit"@.len() == 4 && "/help"@.len() == 5);
}

/// A run whose payload cannot be read, or whose sort or event is not known, fails; a notification
/// without a message still notifies.
pub proof fn law_other_runs_fail(
    kind: Seq<char>,
    payload: JsonView,
    read: Result<JsonView, Seq<char>>,
    s: Seq<char>,
    model: Seq<char>,
    data: JsonView,
)
    ensures
        kind != "systemEvent"@ && kind != "agentTurn"@ ==> runtime::system_run_of(
            kind,
            read,
            model,
        ) == Err::<SystemRunView, Seq<char>>("payload_kind non supporté: "@ + kind),
        (kind == "systemEvent"@ || kind == "agentTurn"@) && read is Err ==> runtime::system_run_of(
            kind,
            read,
            model,
        ) == Err::<SystemRunView, Seq<char>>(read->Err_0),
        facts::gives(payload, "type"@, JsonView::Text(s)) && s != "curate"@ && s != "notify"@
            ==> runtime::system_run_of(
            "systemEvent"@,
            Ok::<JsonView, Seq<char>>(payload),
            model,
        ) == Err::<SystemRunView, Seq<char>>("systemEvent non supporté: "@ + s),
        facts::gives(payload, "type"@, JsonView::Text("notify"@)) && (facts::lacks(payload, "data"@)
            || (facts::gives(payload, "data"@, data) && facts::lacks(data, "message"@))) ==> ({
            let run = runtime::system_run_of(
                "systemEvent"@,
                Ok::<JsonView, Seq<char>>(payload),
                model,
            );
            run is Ok && run->Ok_0 is Done && run->Ok_0->Done_0.notify_main == Some(
                "notification"@,
            )
        }),
{
    reveal_strlit("agentTurn");
    reveal_strlit("systemEvent");
    assert("agentTurn"@[0] != "systemEvent"@[0]);
    reveal_strlit("curate");
    reveal_strlit("notify");
    assert("curate"@[0] == 'c' && "notify"@[0] == 'n');
    if facts::gives(payload, "type"@, JsonView::Text(s)) {
        facts::lemma_gives(payload, "type"@, JsonView::Text(s));
    }
    if facts::gives(payload, "type"@, JsonView::Text("notify"@)) {
        facts::lemma_gives(payload, "type"@, JsonView::Text("notify"@));
    }
    if facts::lacks(payload, "data"@) {
        facts::lemma_lacks(payload, "data"@);
    }
    if facts::gives(payload, "data"@, data) {
        facts::lemma_gives(payload, "data"@, data);
    }
    if facts::lacks(data, "message"@) {
        facts::lemma_lacks(data, "message"@);
    }
}

/// A worker is started or stopped, and the answer says so.
pub proof fn law_workers_are_started_and_stopped(n: nat)
    ensures
        runtime::start_text(true, n) == "curator-worker: déjà démarré"@,
        runtime::start_text(false, n) == "curator-worker: démarré (tick="@ + numerals::decimal(n)
            + "s, OXICLAW_CURATOR_INTERVAL_SECS)"@,
        runtime::stop_text(true) == "curator-worker: arrêt demandé"@,
        runtime::stop_text(false) == "curator-worker: déjà arrêté"@,
{
}

/// Only the line that starts a chat is answered by a greeting.
pub proof fn law_only_a_start_is_greeted(s: Seq<char>)
    ensures
        telegram::greeting_for(s) is Some <==> s == "/start"@,
        s == "/start"@ ==> telegram::greeting_for(s) == Some(telegram::GREETING@),
{
}

} // verus!
