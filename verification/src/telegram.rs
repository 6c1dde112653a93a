//! Telegram: which updates are answered, and with what.

use vstd::prelude::*;

use crate::runtime::RuntimeEvent;
use crate::{layout, numerals, runtime, search, text};

verus! {

/// A command without the name of the bot, and with one space before its arguments; other text
/// without the white space around it.
pub open spec fn normalized_command(input: Seq<char>) -> Seq<char> {
    let t = text::trimmed(input);
    if t.len() == 0 || t[0] != '/' {
        t
    } else {
        let n = text::word_len(t) as int;
        let name = text::trimmed(t.take(n).take(search::first_of(t.take(n), '@')));
        let rest = if n < t.len() {
            text::trimmed(t.skip(n + 1))
        } else {
            Seq::empty()
        };
        if rest.len() == 0 {
            name
        } else {
            name + " "@ + rest
        }
    }
}

/// The number of characters before the first white space.
fn word_end(cs: &Vec<char>) -> (r: usize)
    ensures
        r == text::word_len(cs@),
        r <= cs@.len(),
{
    let mut i: usize = 0;
    assert(cs@.skip(0) =~= cs@);
    while i < cs.len() && !text::is_white(cs[i])
        invariant
            i <= cs@.len(),
            text::word_len(cs@) == i + text::word_len(cs@.skip(i as int)),
        decreases cs@.len() - i,
    {
        assert(cs@.skip(i as int).drop_first() =~= cs@.skip(i + 1));
        i += 1;
    }
    i
}

/// A command without the name of the bot, and with one space before its arguments; other text
/// without the white space around it.
pub fn normalize_telegram_command(input: &str) -> (r: String)
    ensures
        r@ == normalized_command(input@),
{
    let t = text::trim(input);
    let cs = text::chars_of(t.as_str());
    if cs.len() == 0 || cs[0] != '/' {
        return t;
    }
    let n = word_end(&cs);
    let word = text::string_of(&cs, 0, n);
    assert(cs@.subrange(0, n as int) =~= cs@.take(n as int));
    let bare = search::before_char(word.as_str(), '@');
    let mut name = text::trim(bare.as_str());
    let rest = if n < cs.len() {
        let tail = text::string_of(&cs, n + 1, cs.len());
        assert(cs@.subrange(n + 1, cs@.len() as int) =~= cs@.skip(n + 1));
        text::trim(tail.as_str())
    } else {
        String::new()
    };
    if rest.as_str().is_empty() {
        name
    } else {
        name.append(" ");
        name.append(rest.as_str());
        name
    }
}

/// Normalizing a second time changes nothing.
pub proof fn law_normalizing_twice_changes_nothing(input: Seq<char>)
    ensures
        normalized_command(normalized_command(input)) == normalized_command(input),
{
    let t = text::trimmed(input);
    let once = normalized_command(input);
    if t.len() > 0 {
        text::lemma_trimmed_starts(input);
        text::lemma_trimmed_ends(input);
        text::lemma_trimmed_fixed(t);
    }
    if t.len() > 0 && t[0] == '/' {
        let n = text::word_len(t) as int;
        text::lemma_word_len(t);
        assert(n >= 1);
        let word = t.take(n);
        search::lemma_first_of(word, '@');
        let bare = word.take(search::first_of(word, '@'));
        assert(word[0] == '/');
        assert(bare.len() >= 1);
        assert forall|i: int| 0 <= i < bare.len() implies !text::white(#[trigger] bare[i])
            && bare[i] != '@' by {
            assert(bare[i] == word[i] && word[i] == t[i]);
        }
        assert(!text::white(bare[bare.len() - 1]));
        text::lemma_trimmed_fixed(bare);
        search::lemma_first_of(bare, '@');
        assert(bare.take(bare.len() as int) =~= bare);
        let rest = if n < t.len() {
            text::trimmed(t.skip(n + 1))
        } else {
            Seq::empty()
        };
        if rest.len() == 0 {
            assert(once == bare);
            layout::lemma_word_in_front(bare, Seq::empty());
            assert(bare + Seq::empty() =~= bare);
        } else {
            reveal_strlit(" ");
            assert(" "@ =~= seq![' ']);
            text::lemma_trimmed_starts(t.skip(n + 1));
            text::lemma_trimmed_ends(t.skip(n + 1));
            text::lemma_trimmed_fixed(rest);
            assert(once == bare + " "@ + rest);
            assert(once =~= bare + (" "@ + rest));
            assert((" "@ + rest)[0] == ' ');
            layout::lemma_word_in_front(bare, " "@ + rest);
            assert(once[0] == '/' && once.last() == rest.last());
            text::lemma_trimmed_fixed(once);
            assert(once.take(bare.len() as int) =~= bare);
            assert(once.skip(bare.len() as int + 1) =~= rest);
        }
    }
}

/// A message of an update: the chat that it comes from, and its text if it has one.
pub struct IncomingMessage {
    pub chat_id: i64,
    pub text: Option<String>,
}

/// An update.
pub struct Update {
    pub update_id: i64,
    pub message: Option<IncomingMessage>,
}

/// What to do with an update.
pub enum UpdateStep {
    /// Nothing.
    Ignore,
    /// Nothing, for the chat may not be served.
    Refuse(i64),
    /// Answer the text in the chat.
    Answer { chat_id: i64, text: String },
}

/// What a step holds.
pub enum StepView {
    Ignore,
    Refuse(i64),
    Answer { chat_id: i64, text: Seq<char> },
}

impl View for UpdateStep {
    type V = StepView;

    open spec fn view(&self) -> StepView {
        match *self {
            UpdateStep::Ignore => StepView::Ignore,
            UpdateStep::Refuse(id) => StepView::Refuse(id),
            UpdateStep::Answer { chat_id, text } => StepView::Answer { chat_id, text: text@ },
        }
    }
}

/// What to do with an update: one without text is ignored, one from another chat than the allowed
/// one is refused, the others are answered.
pub open spec fn step_of(update: Update, allowed: Option<i64>) -> StepView {
    match update.message {
        None => StepView::Ignore,
        Some(message) => match message.text {
            None => StepView::Ignore,
            Some(s) => if text::trimmed(s@).len() == 0 {
                StepView::Ignore
            } else if allowed matches Some(id) && id != message.chat_id {
                StepView::Refuse(message.chat_id)
            } else {
                StepView::Answer {
                    chat_id: message.chat_id,
                    text: normalized_command(text::trimmed(s@)),
                }
            },
        },
    }
}

/// What to do with an update.
pub fn triage(update: &Update, allowed: Option<i64>) -> (r: UpdateStep)
    ensures
        r@ == step_of(*update, allowed),
{
    match &update.message {
        None => UpdateStep::Ignore,
        Some(message) => match &message.text {
            None => UpdateStep::Ignore,
            Some(given) => {
                let t = text::trim(given.as_str());
                if t.as_str().is_empty() {
                    return UpdateStep::Ignore;
                }
                match allowed {
                    Some(id) => {
                        if id != message.chat_id {
                            return UpdateStep::Refuse(message.chat_id);
                        }
                    },
                    None => {},
                }
                UpdateStep::Answer {
                    chat_id: message.chat_id,
                    text: normalize_telegram_command(t.as_str()),
                }
            },
        },
    }
}

/// Only the allowed chat is ever answered, where one is set.
pub proof fn law_only_the_allowed_chat_is_answered(update: Update, allowed: i64)
    ensures
        step_of(update, Some(allowed)) matches StepView::Answer { chat_id, .. } ==> chat_id
            == allowed,
{
}

/// The offset that asks for the updates behind this one.
pub open spec fn offset_behind(update_id: i64) -> int {
    update_id + 1
}

/// The offset that asks for the updates behind this one.
pub fn next_offset(update_id: i64) -> (r: i64)
    requires
        update_id < i64::MAX,
    ensures
        r == update_id + 1,
        r == offset_behind(update_id),
{
    update_id + 1
}

/// The chat that a setting names, if it is a number.
pub open spec fn chat_of(setting: Option<Seq<char>>) -> Option<i64> {
    match setting {
        Some(s) => numerals::signed_of(text::trimmed(s)),
        None => None,
    }
}

/// The chat that a setting names, if it is a number.
pub fn allowed_chat(setting: &Option<String>) -> (r: Option<i64>)
    ensures
        r == chat_of(text::opt(*setting)),
{
    match setting {
        Some(s) => {
            let t = text::trim(s.as_str());
            numerals::read_signed(t.as_str())
        },
        None => None,
    }
}

/// What a chat is told before its first message is answered.
pub const WELCOME: &'static str = "Bienvenue 👋 Je suis OxiClaw. Écris-moi, ou envoie /help pour voir les commandes.";

/// The chats that were welcomed since the process began.
pub struct Welcomed {
    chats: Vec<i64>,
}

/// The welcome that is due to a chat: none where it had one before.
pub open spec fn welcome_due(welcomed: Set<i64>, chat_id: i64) -> Option<Seq<char>> {
    if welcomed.contains(chat_id) {
        None
    } else {
        Some(WELCOME@)
    }
}

impl Welcomed {
    /// The chats that were welcomed.
    pub closed spec fn chats(self) -> Set<i64> {
        self.chats@.to_set()
    }

    /// No chat was welcomed yet.
    pub fn new() -> (r: Welcomed)
        ensures
            r.chats() == Set::<i64>::empty(),
    {
        let r = Welcomed { chats: Vec::new() };
        assert(r.chats() =~= Set::<i64>::empty());
        r
    }

    /// The welcome that is due to a chat that is about to be answered; from then on none is.
    pub fn welcome(&mut self, chat_id: i64) -> (r: Option<String>)
        ensures
            text::opt(r) == welcome_due(old(self).chats(), chat_id),
            final(self).chats() == old(self).chats().insert(chat_id),
    {
        let mut i: usize = 0;
        while i < self.chats.len()
            invariant
                i <= self.chats@.len(),
                *self == *old(self),
                forall|j: int| 0 <= j < i ==> self.chats@[j] != chat_id,
            decreases self.chats@.len() - i,
        {
            if self.chats[i] == chat_id {
                assert(self.chats@[i as int] == chat_id);
                assert(self.chats() =~= old(self).chats().insert(chat_id));
                return None;
            }
            i += 1;
        }
        let ghost before = self.chats@;
        self.chats.push(chat_id);
        proof {
            assert(!before.contains(chat_id));
            assert forall|c: i64| self.chats().contains(c) <==> before.to_set().insert(
                chat_id,
            ).contains(c) by {
                if before.contains(c) {
                    let k = choose|k: int| 0 <= k < before.len() && before[k] == c;
                    assert(self.chats@[k] == c);
                }
                assert(self.chats@[before.len() as int] == chat_id);
            }
            assert(self.chats() =~= old(self).chats().insert(chat_id));
        }
        Some(WELCOME.to_string())
    }
}

/// The chats that were welcomed after messages from these chats were answered.
pub open spec fn welcomed_after(answered: Seq<i64>) -> Set<i64>
    decreases answered.len(),
{
    if answered.len() == 0 {
        Set::empty()
    } else {
        welcomed_after(answered.drop_last()).insert(answered.last())
    }
}

proof fn lemma_welcomed_after(answered: Seq<i64>, chat_id: i64)
    ensures
        welcomed_after(answered).contains(chat_id) <==> answered.contains(chat_id),
    decreases answered.len(),
{
    if answered.len() > 0 {
        let before = answered.drop_last();
        lemma_welcomed_after(before, chat_id);
        if before.contains(chat_id) {
            let k = choose|k: int| 0 <= k < before.len() && before[k] == chat_id;
            assert(answered[k] == chat_id);
        }
        if answered.contains(chat_id) && answered.last() != chat_id {
            let k = choose|k: int| 0 <= k < answered.len() && answered[k] == chat_id;
            assert(before[k] == chat_id);
        }
        assert(answered[answered.len() - 1] == answered.last());
    }
}

/// A chat is welcomed at its first message that is answered, and never again.
pub proof fn law_each_chat_is_welcomed_once(answered: Seq<i64>, i: int)
    requires
        0 <= i < answered.len(),
    ensures
        welcome_due(welcomed_after(answered.take(i)), answered[i]) is Some <==> forall|j: int|
            0 <= j < i ==> answered[j] != answered[i],
{
    let before = answered.take(i);
    lemma_welcomed_after(before, answered[i]);
    if before.contains(answered[i]) {
        let k = choose|k: int| 0 <= k < before.len() && before[k] == answered[i];
        assert(answered[k] == answered[i]);
    } else {
        assert forall|j: int| 0 <= j < i implies answered[j] != answered[i] by {
            assert(before[j] == answered[j]);
        }
    }
}

/// What follows a request for updates.
pub enum PollStep {
    /// Work through the updates.
    Handle,
    /// Report this, wait, and ask again.
    Wait { report: String, seconds: u64 },
}

/// What a step holds.
pub enum PollView {
    Handle,
    Wait { report: Seq<char>, seconds: u64 },
}

impl View for PollStep {
    type V = PollView;

    open spec fn view(&self) -> PollView {
        match *self {
            PollStep::Handle => PollView::Handle,
            PollStep::Wait { report, seconds } => PollView::Wait { report: report@, seconds },
        }
    }
}

/// What follows a request for updates: they are handled if the answer says that it is good, else
/// three seconds pass.
pub open spec fn poll_of(polled: Result<bool, Seq<char>>) -> PollView {
    match polled {
        Ok(true) => PollView::Handle,
        Ok(false) => PollView::Wait {
            report: "[telegram] getUpdates returned ok=false"@,
            seconds: 3,
        },
        Err(e) => PollView::Wait { report: "[telegram] getUpdates error: "@ + e, seconds: 3 },
    }
}

/// What follows a request for updates, by whether the answer says that it is good.
pub fn after_poll(polled: Result<bool, String>) -> (r: PollStep)
    ensures
        r@ == poll_of(runtime::claim_view(polled)),
{
    match polled {
        Ok(true) => PollStep::Handle,
        Ok(false) => PollStep::Wait {
            report: "[telegram] getUpdates returned ok=false".to_string(),
            seconds: 3,
        },
        Err(e) => {
            let mut report = "[telegram] getUpdates error: ".to_string();
            report.append(e.as_str());
            PollStep::Wait { report, seconds: 3 }
        },
    }
}

/// The greeting.
pub const GREETING: &'static str = "Salut 👋 Je suis là si tu veux. Dis-moi juste ce qu’on fait.";

/// The greeting that answers `/start` without a turn; none for other texts.
pub open spec fn greeting_for(text: Seq<char>) -> Option<Seq<char>> {
    if text == "/start"@ {
        Some(GREETING@)
    } else {
        None
    }
}

/// The greeting that answers `/start` without a turn; none for other texts.
pub fn greeting(text: &str) -> (r: Option<String>)
    ensures
        text::opt(r) == if text@ == "/start"@ {
            Some("Salut 👋 Je suis là si tu veux. Dis-moi juste ce qu’on fait."@)
        } else {
            None
        },
        text::opt(r) == greeting_for(text@),
{
    if text::same(text, "/start") {
        Some(GREETING.to_string())
    } else {
        None
    }
}

/// What is sent back for an event.
pub fn reply_text(event: RuntimeEvent) -> (r: String)
    ensures
        r@ == runtime::event_text(
            event,
            "Session fermée (/quit ignoré en mode Telegram)."@,
        ),
{
    match event {
        RuntimeEvent::Reply(s) => s,
        RuntimeEvent::Info(s) => s,
        RuntimeEvent::Exit => "Session fermée (/quit ignoré en mode Telegram).".to_string(),
    }
}

} // verus!
