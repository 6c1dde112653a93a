//! The conversation that the model sees.

use vstd::prelude::*;

use crate::text;
use crate::search;
use crate::order;
use crate::json;
use crate::json::{Json, JsonView};

verus! {

/// One message of the conversation.
pub struct ChatMessage {
    pub role: String,
    pub content: String,
}

/// What a message holds.
pub struct MessageView {
    pub role: Seq<char>,
    pub content: Seq<char>,
}

impl View for ChatMessage {
    type V = MessageView;

    open spec fn view(&self) -> MessageView {
        MessageView { role: self.role@, content: self.content@ }
    }
}

impl ChatMessage {
    /// A message of the given role.
    pub fn new(role: &str, content: &str) -> (r: ChatMessage)
        ensures
            r@ == message(role@, content@),
    {
        ChatMessage { role: role.to_string(), content: content.to_string() }
    }

    /// A copy of the message.
    pub fn copy(&self) -> (r: ChatMessage)
        ensures
            r@ == self@,
    {
        ChatMessage { role: self.role.clone(), content: self.content.clone() }
    }
}

/// A message of the given role.
pub open spec fn message(role: Seq<char>, content: Seq<char>) -> MessageView {
    MessageView { role, content }
}

/// What a list of messages holds.
pub open spec fn messages_view(v: Seq<ChatMessage>) -> Seq<MessageView> {
    Seq::new(v.len(), |i: int| v[i]@)
}

/// A conversation under an identifier.
pub struct Session {
    history: Vec<ChatMessage>,
    session_id: String,
}

/// The conversation opens with a system message.
pub open spec fn opens_with_system(history: Seq<MessageView>) -> bool {
    history.len() >= 1 && history[0].role == "system"@
}

/// A lower-case hexadecimal digit.
pub open spec fn hex_digit(c: char) -> bool {
    ('0' <= c && c <= '9') || ('a' <= c && c <= 'f')
}

/// The shape of a random identifier: five groups of lower-case hexadecimal digits, of 8, 4, 4, 4
/// and 12 digits, parted by hyphens; the third begins with `4`, the fourth with `8`, `9`, `a` or
/// `b`.
pub open spec fn random_id_shape(s: Seq<char>) -> bool {
    &&& s.len() == 36
    &&& forall|i: int|
        0 <= i < 36 ==> if i == 8 || i == 13 || i == 18 || i == 23 {
            #[trigger] s[i] == '-'
        } else {
            hex_digit(s[i])
        }
    &&& s[14] == '4'
    &&& s[19] == '8' || s[19] == '9' || s[19] == 'a' || s[19] == 'b'
}

/// `uuid::Uuid::new_v4`, written by its `to_string`: random, so only its shape is stated.
#[verifier::external_body]
fn random_id() -> (r: String)
    ensures
        random_id_shape(r@),
{
    uuid::Uuid::new_v4().to_string()
}

// ---------------------------------------------------------------------------------------
// Tool results inside the conversation

/// The line that reports what a tool returned.
pub open spec fn tool_result_text(name: Seq<char>, output: Seq<char>) -> Seq<char> {
    "TOOL_RESULT "@ + json::pair_text("name"@, name, "output"@, json::escaped(output))
}

/// The content of the last message that reports a tool result.
pub open spec fn last_tool_message(history: Seq<MessageView>) -> Option<Seq<char>>
    decreases history.len(),
{
    if history.len() == 0 {
        None
    } else if "TOOL_RESULT "@.is_prefix_of(history.last().content) {
        Some(history.last().content)
    } else {
        last_tool_message(history.drop_last())
    }
}

/// The JSON text of a tool report: the first line behind its mark.
pub open spec fn tool_record_text(content: Seq<char>) -> Option<Seq<char>> {
    let rest = search::lines(content.skip("TOOL_RESULT "@.len() as int));
    if rest.len() > 0 {
        Some(rest[0])
    } else {
        None
    }
}

/// The name and the output that a tool record holds.
pub open spec fn tool_record(record: JsonView) -> Option<(Seq<char>, Seq<char>)> {
    match (record.text_at("name"@), record.text_at("output"@)) {
        (Some(name), Some(output)) => Some((name, output)),
        _ => None,
    }
}

/// The name and the output of the last tool result, if its record can be read.
pub open spec fn last_tool_record(history: Seq<MessageView>) -> Option<(Seq<char>, Seq<char>)> {
    match last_tool_message(history) {
        None => None,
        Some(content) => match tool_record_text(content) {
            None => None,
            Some(text) => match json::json_document(text) {
                Ok(record) => tool_record(record),
                Err(_) => None,
            },
        },
    }
}

/// The texts of an optional pair of strings.
pub open spec fn pair_of(r: Option<(String, String)>) -> Option<(Seq<char>, Seq<char>)> {
    match r {
        Some((a, b)) => Some((a@, b@)),
        None => None,
    }
}

/// A name that needs no escape between the quotes of a JSON string.
pub open spec fn plain(s: Seq<char>) -> bool {
    forall|i: int|
        0 <= i < s.len() ==> (#[trigger] s[i]) as int >= 0x20 && s[i] != '"' && s[i] != '\\'
}

/// Wherever the last tool report was written for a plain name and a quotable output, `found` is
/// that name and that output.
pub open spec fn gives_back_reports(
    history: Seq<MessageView>,
    found: Option<(Seq<char>, Seq<char>)>,
) -> bool {
    forall|name: Seq<char>, output: Seq<char>|
        plain(name) && json::quotable(output) && last_tool_message(history) == Some(
            #[trigger] tool_result_text(name, output),
        ) ==> found == Some((name, output))
}

proof fn lemma_plain_escaped(s: Seq<char>)
    requires
        plain(s),
    ensures
        json::escaped(s) == s,
        json::quotable(s),
    decreases s.len(),
{
    if s.len() > 0 {
        let t = s.drop_last();
        assert forall|i: int| 0 <= i < t.len() implies (#[trigger] t[i]) as int >= 0x20 && t[i]
            != '"' && t[i] != '\\' by {
            assert(t[i] == s[i]);
        }
        lemma_plain_escaped(t);
        assert(s.last() == s[s.len() - 1]);
        assert(t + seq![s.last()] =~= s);
    } else {
        assert(json::escaped(s) =~= s);
    }
}

/// A text without a line feed is its own only line.
pub proof fn lemma_single_line(s: Seq<char>)
    requires
        !s.contains('\n'),
        s.len() > 0,
    ensures
        search::lines(s) == seq![s],
{
    search::lemma_first_of(s, '\n');
}

proof fn lemma_no_newline_concat(a: Seq<char>, b: Seq<char>)
    requires
        !a.contains('\n'),
        !b.contains('\n'),
    ensures
        !(a + b).contains('\n'),
{
    assert forall|i: int| 0 <= i < (a + b).len() implies (a + b)[i] != '\n' by {
        if i < a.len() {
            assert(a.contains((a + b)[i]));
        } else {
            assert((a + b)[i] == b[i - a.len()]);
            assert(b.contains((a + b)[i]));
        }
    }
}

/// The JSON text of a written report is the whole rest of the message.
proof fn lemma_report_is_one_line(name: Seq<char>, output: Seq<char>)
    requires
        plain(name),
    ensures
        tool_record_text(tool_result_text(name, output)) == Some(
            json::pair_text("name"@, name, "output"@, json::escaped(output)),
        ),
{
    let text = json::pair_text("name"@, name, "output"@, json::escaped(output));
    reveal_strlit("name");
    reveal_strlit("output");
    reveal_strlit("{\"");
    reveal_strlit("\":\"");
    reveal_strlit("\",\"");
    reveal_strlit("\"}");
    json::law_escaping_leaves_no_line_feed(output);
    assert(!name.contains('\n'));
    assert(!"name"@.contains('\n') && !"output"@.contains('\n'));
    assert(!"{\""@.contains('\n') && !"\":\""@.contains('\n') && !"\",\""@.contains('\n')
        && !"\"}"@.contains('\n'));
    let t1 = "{\""@ + "name"@;
    let t2 = t1 + "\":\""@;
    let t3 = t2 + name;
    let t4 = t3 + "\",\""@;
    let t5 = t4 + "output"@;
    let t6 = t5 + "\":\""@;
    let t7 = t6 + json::escaped(output);
    lemma_no_newline_concat("{\""@, "name"@);
    lemma_no_newline_concat(t1, "\":\""@);
    lemma_no_newline_concat(t2, name);
    lemma_no_newline_concat(t3, "\",\""@);
    lemma_no_newline_concat(t4, "output"@);
    lemma_no_newline_concat(t5, "\":\""@);
    lemma_no_newline_concat(t6, json::escaped(output));
    lemma_no_newline_concat(t7, "\"}"@);
    lemma_single_line(text);
    assert(tool_result_text(name, output).skip("TOOL_RESULT "@.len() as int) =~= text);
}

/// The JSON text of a written report holds the name and the output.
proof fn lemma_report_read_back(name: Seq<char>, output: Seq<char>)
    requires
        plain(name),
        json::quotable(output),
        ({
            let text = json::pair_text("name"@, name, "output"@, json::escaped(output));
            json::reads_pairs(text, json::json_document(text))
        }),
    ensures
        json::json_document(json::pair_text("name"@, name, "output"@, json::escaped(output))) matches Ok(record)
            && tool_record(record) == Some((name, output)),
{
    let text = json::pair_text("name"@, name, "output"@, json::escaped(output));
    reveal_strlit("name");
    reveal_strlit("output");
    lemma_plain_escaped(name);
    lemma_plain_escaped("name"@);
    lemma_plain_escaped("output"@);
    assert(order::precedes("name"@, "output"@));
    json::lemma_ordinary("name"@);
    json::lemma_ordinary("output"@);
    assert(text == json::pair_text(json::escaped("name"@), json::escaped(name), json::escaped("output"@), json::escaped(output)));
    let record = JsonView::Object(
        seq![("name"@, JsonView::Text(name)), ("output"@, JsonView::Text(output))],
    );
    assert(json::json_document(text) == json::accepted(record));
    let members = record->Object_0;
    assert("name"@ != "output"@);
    assert(members.drop_first()[0].0 == "output"@);
    reveal_with_fuel(json::first_member, 2);
}

/// The name and the output that a tool record holds: both must be strings.
pub fn read_tool_record(record: &Json) -> (r: Option<(String, String)>)
    ensures
        pair_of(r) == tool_record(record@),
{
    match (record.text_at("name"), record.text_at("output")) {
        (Some(name), Some(output)) => Some((name, output)),
        _ => None,
    }
}

// ---------------------------------------------------------------------------------------
// The session

/// The history with a prompt in the place of its first message.
pub open spec fn with_system_prompt(history: Seq<MessageView>, prompt: Seq<char>) -> Seq<
    MessageView,
> {
    if history.len() == 0 {
        seq![message("system"@, prompt)]
    } else {
        history.update(0, message("system"@, prompt))
    }
}

/// The history with one more message.
pub open spec fn grown(history: Seq<MessageView>, role: Seq<char>, text: Seq<char>) -> Seq<
    MessageView,
> {
    history.push(message(role, text))
}

/// The first message of the history alone.
pub open spec fn emptied(history: Seq<MessageView>) -> Seq<MessageView> {
    if history.len() >= 1 {
        history.take(1)
    } else {
        history
    }
}

impl Session {
    /// The messages, in order.
    pub closed spec fn history(self) -> Seq<MessageView> {
        messages_view(self.history@)
    }

    /// The identifier.
    pub closed spec fn id(self) -> Seq<char> {
        self.session_id@
    }

    /// A session under a given identifier, with the system prompt as its only message.
    pub fn with_id(system_prompt: String, session_id: String) -> (r: Session)
        ensures
            r.history() == seq![message("system"@, system_prompt@)],
            r.id() == session_id@,
    {
        let mut history: Vec<ChatMessage> = Vec::new();
        history.push(ChatMessage { role: "system".to_string(), content: system_prompt });
        let r = Session { history, session_id };
        assert(r.history() =~= seq![message("system"@, system_prompt@)]);
        r
    }

    /// A session under a fresh random identifier, with the system prompt as its only message.
    pub fn new(system_prompt: String) -> (r: Session)
        ensures
            r.history() == seq![message("system"@, system_prompt@)],
            random_id_shape(r.id()),
    {
        Session::with_id(system_prompt, random_id())
    }

    /// Keeps the first message only and takes a given identifier.
    pub fn reset_with_id(&mut self, session_id: String)
        ensures
            final(self).history() == old(self).history().take(
                if old(self).history().len() >= 1 {
                    1
                } else {
                    0
                },
            ),
            final(self).id() == session_id@,
            final(self).history() == emptied(old(self).history()),
    {
        self.history.truncate(1);
        self.session_id = session_id;
        assert(self.history() =~= emptied(old(self).history()));
        assert(self.history() =~= old(self).history().take(
            if old(self).history().len() >= 1 {
                1
            } else {
                0
            },
        ));
    }

    /// Keeps the first message only and takes a fresh random identifier.
    pub fn reset(&mut self)
        ensures
            final(self).history() == old(self).history().take(
                if old(self).history().len() >= 1 {
                    1
                } else {
                    0
                },
            ),
            random_id_shape(final(self).id()),
            final(self).history() == emptied(old(self).history()),
    {
        self.reset_with_id(random_id());
    }

    /// The identifier.
    pub fn session_id(&self) -> (r: &str)
        ensures
            r@ == self.id(),
    {
        self.session_id.as_str()
    }

    /// Puts the prompt in the place of the first message.
    pub fn set_system_prompt(&mut self, system_prompt: String)
        ensures
            final(self).history() == with_system_prompt(old(self).history(), system_prompt@),
            final(self).id() == old(self).id(),
    {
        let ghost prompt = system_prompt@;
        let first = ChatMessage { role: "system".to_string(), content: system_prompt };
        if self.history.is_empty() {
            self.history.push(first);
            assert(self.history() =~= seq![message("system"@, prompt)]);
            return;
        }
        self.history.set(0, first);
        assert(self.history() =~= old(self).history().update(0, message("system"@, prompt)));
    }

    /// Appends a message.
    fn push(&mut self, role: &str, text: String)
        ensures
            final(self).history() == old(self).history().push(message(role@, text@)),
            final(self).id() == old(self).id(),
    {
        let ghost content = text@;
        self.history.push(ChatMessage { role: role.to_string(), content: text });
        assert(self.history() =~= old(self).history().push(message(role@, content)));
    }

    /// Appends a message of the user.
    pub fn push_user(&mut self, text: String)
        ensures
            final(self).history() == old(self).history().push(message("user"@, text@)),
            final(self).history() == grown(old(self).history(), "user"@, text@),
            final(self).id() == old(self).id(),
    {
        self.push("user", text);
    }

    /// Appends a message of the assistant.
    pub fn push_assistant(&mut self, text: String)
        ensures
            final(self).history() == old(self).history().push(message("assistant"@, text@)),
            final(self).history() == grown(old(self).history(), "assistant"@, text@),
            final(self).id() == old(self).id(),
    {
        self.push("assistant", text);
    }

    /// Appends a system message.
    pub fn push_system(&mut self, text: String)
        ensures
            final(self).history() == old(self).history().push(message("system"@, text@)),
            final(self).history() == grown(old(self).history(), "system"@, text@),
            final(self).id() == old(self).id(),
    {
        self.push("system", text);
    }

    /// Drops the last message if it is one of the user.
    pub fn rollback_last_user_if_any(&mut self)
        ensures
            final(self).history() == rolled_back(old(self).history()),
            final(self).id() == old(self).id(),
    {
        let n: usize = self.history.len();
        if n > 0 {
            assert(self.history().last() == self.history@[n - 1]@);
            if text::same(self.history[n - 1].role.as_str(), "user") {
                self.history.truncate(n - 1);
                assert(self.history() =~= old(self).history().drop_last());
            }
        }
    }

    /// A copy of the messages.
    pub fn messages(&self) -> (r: Vec<ChatMessage>)
        ensures
            messages_view(r@) == self.history(),
    {
        let mut out: Vec<ChatMessage> = Vec::new();
        let mut i: usize = 0;
        while i < self.history.len()
            invariant
                i <= self.history@.len(),
                messages_view(out@) == self.history().take(i as int),
            decreases self.history@.len() - i,
        {
            let ghost before = out@;
            out.push(self.history[i].copy());
            assert(messages_view(out@) =~= messages_view(before).push(self.history@[i as int]@));
            assert(self.history().take(i + 1) =~= self.history().take(i as int).push(
                self.history()[i as int],
            ));
            i += 1;
        }
        assert(self.history().take(self.history@.len() as int) =~= self.history());
        out
    }

    /// The name and the output of the last tool result, if its record can be read. A report that
    /// was written for a plain name and a quotable output gives them back.
    pub fn last_tool_result(&self) -> (r: Option<(String, String)>)
        ensures
            pair_of(r) == last_tool_record(self.history()),
            gives_back_reports(self.history(), pair_of(r)),
    {
        let mut n: usize = self.history.len();
        assert(self.history().take(n as int) =~= self.history());
        while n > 0
            invariant
                n <= self.history@.len(),
                last_tool_message(self.history()) == last_tool_message(
                    self.history().take(n as int),
                ),
            decreases n,
        {
            let content = &self.history[n - 1].content;
            assert(self.history().take(n as int).last() == self.history@[n - 1]@);
            assert(self.history().take(n as int).drop_last() =~= self.history().take(n - 1));
            if search::starts_with(content.as_str(), "TOOL_RESULT ") {
                let cs = text::chars_of(content.as_str());
                let mark: usize = text::chars_of("TOOL_RESULT ").len();
                let rest = text::string_of(&cs, mark, cs.len());
                assert(rest@ =~= content@.skip(mark as int));
                let parts = search::split_lines(rest.as_str());
                assert(text::texts(parts@).len() == parts@.len());
                if parts.len() == 0 {
                    assert(gives_back_reports(self.history(), None)) by {
                        assert forall|name: Seq<char>, output: Seq<char>|
                            plain(name) && json::quotable(output) && last_tool_message(self.history())
                                == Some(#[trigger] tool_result_text(name, output)) implies false by {
                            lemma_report_is_one_line(name, output);
                        }
                    }
                    return None;
                }
                assert(text::texts(parts@)[0] == parts@[0]@);
                let parsed = json::parse_json(parts[0].as_str());
                let found = match &parsed {
                    Ok(record) => read_tool_record(record),
                    Err(_) => None,
                };
                assert(gives_back_reports(self.history(), pair_of(found))) by {
                    assert forall|name: Seq<char>, output: Seq<char>|
                        plain(name) && json::quotable(output) && last_tool_message(self.history()) == Some(
                            #[trigger] tool_result_text(name, output),
                        ) implies pair_of(found) == Some((name, output)) by {
                        lemma_report_is_one_line(name, output);
                        lemma_report_read_back(name, output);
                    }
                }
                return found;
            }
            n -= 1;
        }
        None
    }
}

/// The messages without the last one, if that is one of the user.
pub open spec fn rolled_back(history: Seq<MessageView>) -> Seq<MessageView> {
    if history.len() > 0 && history.last().role == "user"@ {
        history.drop_last()
    } else {
        history
    }
}

// ---------------------------------------------------------------------------------------
// Laws

/// Taking back the last message of the user undoes the appending of it.
pub proof fn law_rollback_undoes_push_user(history: Seq<MessageView>, text: Seq<char>)
    ensures
        rolled_back(history.push(message("user"@, text))) == history,
{
    assert(history.push(message("user"@, text)).drop_last() =~= history);
}

/// A message that is not of the user is never taken back.
pub proof fn law_rollback_keeps_other_roles(
    history: Seq<MessageView>,
    role: Seq<char>,
    text: Seq<char>,
)
    requires
        role != "user"@,
    ensures
        rolled_back(history.push(message(role, text))) == history.push(message(role, text)),
{
}

/// A session opens with a system message, and every operation keeps it so; only
/// `set_system_prompt` changes that message.
pub proof fn law_system_prompt_stays(history: Seq<MessageView>, m: MessageView, prompt: Seq<char>)
    requires
        opens_with_system(history),
    ensures
        opens_with_system(history.push(m)) && history.push(m)[0] == history[0],
        opens_with_system(rolled_back(history)) && rolled_back(history)[0] == history[0],
        opens_with_system(history.take(1)) && history.take(1) == seq![history[0]],
        opens_with_system(with_system_prompt(history, prompt)),
{
    reveal_strlit("system");
    reveal_strlit("user");
    assert("system"@[0] != "user"@[0]);
    assert(history.take(1) =~= seq![history[0]]);
}

} // verus!
