//! The note tool: stable facts go append-only into `AGENT.md` or `USER.md`.

use vstd::prelude::*;

use crate::json::{Json, JsonView};
use crate::{guard, paths, search, text};

verus! {

/// A note that may be appended.
pub struct AppendRequest {
    pub path: String,
    pub file: String,
    pub note: String,
}

/// What a note request holds.
#[verifier::ext_equal]
pub struct AppendView {
    pub path: Seq<char>,
    pub file: Seq<char>,
    pub note: Seq<char>,
}

impl View for AppendRequest {
    type V = AppendView;

    open spec fn view(&self) -> AppendView {
        AppendView { path: self.path@, file: self.file@, note: self.note@ }
    }
}

/// What a result holds, an error by its message.
pub open spec fn append_view(r: Result<AppendRequest, String>) -> Result<AppendView, Seq<char>> {
    match r {
        Ok(request) => Ok(request@),
        Err(e) => Err(e@),
    }
}

/// The text at a key, or the empty text.
pub open spec fn text_or_empty(args: JsonView, key: Seq<char>) -> Seq<char> {
    match args.text_at(key) {
        Some(s) => s,
        None => Seq::empty(),
    }
}

/// The text at a key, or the empty text.
pub fn text_at_or_empty(args: &Json, key: &str) -> (r: String)
    ensures
        r@ == text_or_empty(args@, key@),
{
    match args.text_at(key) {
        Some(s) => s,
        None => String::new(),
    }
}

/// The note that the arguments ask for, or why it is refused.
pub open spec fn append_of(basedir: Seq<char>, args: JsonView) -> Result<AppendView, Seq<char>> {
    let target = text_or_empty(args, "target"@);
    let note = text::trimmed(text_or_empty(args, "text"@));
    if note.len() == 0 {
        Err("erreur info_append: text vide"@)
    } else if guard::byte_len(note) > 500 {
        Err("erreur info_append: text trop long (>500)"@)
    } else if guard::sensitive(note) {
        Err("erreur info_append: contenu sensible détecté, refusé"@)
    } else if target == "agent"@ {
        Ok(AppendView { path: paths::joined(basedir, "AGENT.md"@), file: "AGENT.md"@, note })
    } else if target == "user"@ {
        Ok(AppendView { path: paths::joined(basedir, "USER.md"@), file: "USER.md"@, note })
    } else if target == "soul"@ {
        Err("erreur info_append: SOUL.md est immuable"@)
    } else {
        Err("erreur info_append: target doit être 'agent' ou 'user'"@)
    }
}

/// The note that the arguments ask for, or why it is refused.
pub fn plan_append(basedir: &str, args: &Json) -> (r: Result<AppendRequest, String>)
    ensures
        append_view(r) == append_of(basedir@, args@),
{
    let target = text_at_or_empty(args, "target");
    let given = text_at_or_empty(args, "text");
    let note = text::trim(given.as_str());
    if note.as_str().is_empty() {
        return Err("erreur info_append: text vide".to_string());
    }
    if guard::longer_than(note.as_str(), 500) {
        return Err("erreur info_append: text trop long (>500)".to_string());
    }
    if guard::contains_sensitive(note.as_str()) {
        return Err("erreur info_append: contenu sensible détecté, refusé".to_string());
    }
    if text::same(target.as_str(), "agent") {
        let path = paths::join(basedir, "AGENT.md");
        Ok(AppendRequest { path, file: "AGENT.md".to_string(), note })
    } else if text::same(target.as_str(), "user") {
        let path = paths::join(basedir, "USER.md");
        Ok(AppendRequest { path, file: "USER.md".to_string(), note })
    } else if text::same(target.as_str(), "soul") {
        Err("erreur info_append: SOUL.md est immuable".to_string())
    } else {
        Err("erreur info_append: target doit être 'agent' ou 'user'".to_string())
    }
}

/// What to do with a note once the file has been read.
pub struct AppendStep {
    /// The text to append; none where the note already stands in the file.
    pub addition: Option<String>,
    /// The reply, once the addition has been written.
    pub reply: String,
}

/// A note already stands in a file if one of its lines holds it.
pub open spec fn noted(existing: Seq<char>, note: Seq<char>) -> bool {
    search::some_line_holds(existing, note)
}

/// The text that a note adds to a file.
pub open spec fn note_line(ts: Seq<char>, note: Seq<char>) -> Seq<char> {
    "\n- ["@ + ts + "] "@ + note
}

/// What a note adds to a file that holds `existing` at the time `ts`, and the answer.
pub open spec fn noted_down(
    file: Seq<char>,
    note: Seq<char>,
    existing: Seq<char>,
    ts: Seq<char>,
) -> (Option<Seq<char>>, Seq<char>) {
    if noted(existing, note) {
        (None, "info_append: déjà présent dans "@ + file)
    } else {
        (Some(note_line(ts, note)), "info_append: ajouté dans "@ + file)
    }
}

/// The step that appends a note at the time `ts` to a file that holds `existing`.
pub fn append_step(request: &AppendRequest, existing: &str, ts: &str) -> (r: AppendStep)
    ensures
        text::opt(r.addition) == if noted(existing@, request@.note) {
            None
        } else {
            Some(note_line(ts@, request@.note))
        },
        r.reply@ == if noted(existing@, request@.note) {
            "info_append: déjà présent dans "@ + request@.file
        } else {
            "info_append: ajouté dans "@ + request@.file
        },
        (text::opt(r.addition), r.reply@) == noted_down(
            request@.file,
            request@.note,
            existing@,
            ts@,
        ),
{
    if search::any_line_contains(existing, request.note.as_str()) {
        let mut reply = "info_append: déjà présent dans ".to_string();
        reply.append(request.file.as_str());
        return AppendStep { addition: None, reply };
    }
    let mut line = "\n- [".to_string();
    line.append(ts);
    line.append("] ");
    line.append(request.note.as_str());
    let mut reply = "info_append: ajouté dans ".to_string();
    reply.append(request.file.as_str());
    AppendStep { addition: Some(line), reply }
}

/// A request is granted for `AGENT.md` and `USER.md` only, with a note that is neither empty nor
/// over 500 bytes nor names a credential.
pub proof fn law_only_fit_notes_are_granted(basedir: Seq<char>, args: JsonView)
    requires
        append_of(basedir, args) is Ok,
    ensures
        ({
            let granted = append_of(basedir, args)->Ok_0;
            &&& granted.note.len() > 0
            &&& guard::byte_len(granted.note) <= 500
            &&& !guard::sensitive(granted.note)
            &&& granted.file == "AGENT.md"@ || granted.file == "USER.md"@
            &&& granted.path == paths::joined(basedir, granted.file)
        }),
{
}

/// `SOUL.md` is never granted.
pub proof fn law_soul_is_never_granted(basedir: Seq<char>, args: JsonView)
    requires
        text_or_empty(args, "target"@) == "soul"@,
    ensures
        append_of(basedir, args) is Err,
{
    reveal_strlit("soul");
    reveal_strlit("agent");
    reveal_strlit("user");
    assert("soul"@.len() != "agent"@.len());
    assert("soul"@[0] != "user"@[0]);
}

/// A granted single-line note, once appended, is found in the file: asking for it again appends
/// nothing.
pub proof fn law_appended_note_is_found(
    basedir: Seq<char>,
    args: JsonView,
    existing: Seq<char>,
    ts: Seq<char>,
)
    requires
        append_of(basedir, args) is Ok,
        !append_of(basedir, args)->Ok_0.note.contains('\n'),
    ensures
        noted(existing + note_line(ts, append_of(basedir, args)->Ok_0.note), append_of(
            basedir,
            args,
        )->Ok_0.note),
{
    let note = append_of(basedir, args)->Ok_0.note;
    text::lemma_trimmed_ends(text_or_empty(args, "text"@));
    assert(note.last() != '\r');
    let before = existing + ("\n- ["@ + ts + "] "@);
    assert(existing + note_line(ts, note) =~= before + note + Seq::empty());
    search::lemma_piece_on_some_line(before, note, Seq::empty());
}

} // verus!
