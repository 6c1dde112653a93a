//! Memory entries: what is indexed, under which identity, and how old it is.

use std::collections::hash_map::DefaultHasher;
use std::hash::Hasher;

use vstd::prelude::*;
use vstd::std_specs::hash::DefaultHasherAdditionalSpecFns;

use crate::{layout, numerals, search, text};

verus! {

/// One line of a transcript.
pub struct TranscriptLine {
    pub ts: String,
    pub session_id: String,
    pub role: String,
    pub content: String,
}

/// What a line of a transcript holds.
#[verifier::ext_equal]
pub struct LineView {
    pub ts: Seq<char>,
    pub session_id: Seq<char>,
    pub role: Seq<char>,
    pub content: Seq<char>,
}

impl View for TranscriptLine {
    type V = LineView;

    open spec fn view(&self) -> LineView {
        LineView {
            ts: self.ts@,
            session_id: self.session_id@,
            role: self.role@,
            content: self.content@,
        }
    }
}

/// An entry of the memory.
pub struct MemorySearchHit {
    pub id: String,
    pub ts: String,
    pub role: String,
    pub session_id: String,
    pub source_type: String,
    pub source_file: String,
    pub source_line: u64,
    pub mention_count: u64,
    pub ts_epoch: i64,
    pub content: String,
}

/// What an entry holds.
#[verifier::ext_equal]
pub struct HitView {
    pub id: Seq<char>,
    pub ts: Seq<char>,
    pub role: Seq<char>,
    pub session_id: Seq<char>,
    pub source_type: Seq<char>,
    pub source_file: Seq<char>,
    pub source_line: int,
    pub mention_count: int,
    pub ts_epoch: int,
    pub content: Seq<char>,
}

impl View for MemorySearchHit {
    type V = HitView;

    open spec fn view(&self) -> HitView {
        HitView {
            id: self.id@,
            ts: self.ts@,
            role: self.role@,
            session_id: self.session_id@,
            source_type: self.source_type@,
            source_file: self.source_file@,
            source_line: self.source_line as int,
            mention_count: self.mention_count as int,
            ts_epoch: self.ts_epoch as int,
            content: self.content@,
        }
    }
}

impl MemorySearchHit {
    /// A copy of the entry.
    pub fn copy(&self) -> (r: MemorySearchHit)
        ensures
            r@ == self@,
    {
        MemorySearchHit {
            id: self.id.clone(),
            ts: self.ts.clone(),
            role: self.role.clone(),
            session_id: self.session_id.clone(),
            source_type: self.source_type.clone(),
            source_file: self.source_file.clone(),
            source_line: self.source_line,
            mention_count: self.mention_count,
            ts_epoch: self.ts_epoch,
            content: self.content.clone(),
        }
    }
}

/// What a list of entries holds.
pub open spec fn hits_view(v: Seq<MemorySearchHit>) -> Seq<HitView> {
    Seq::new(v.len(), |i: int| v[i]@)
}

// ---------------------------------------------------------------------------------------
// Identity

/// A text with its words parted by single spaces, in lower case.
pub open spec fn normalized(s: Seq<char>) -> Seq<char> {
    text::lowercase(search::joined(text::words(s), " "@))
}

/// A text with its words parted by single spaces, its ASCII letters in lower case.
pub open spec fn plainly_normalized(s: Seq<char>) -> Seq<char> {
    text::lowered(search::joined(text::words(s), " "@))
}

/// A text with its words parted by single spaces, in lower case.
pub fn normalize_for_hash(input: &str) -> (r: String)
    ensures
        r@ == normalized(input@),
        r@ == text::lowercase(plainly_normalized(input@)),
        text::ascii(search::joined(text::words(input@), " "@)) ==> r@ == plainly_normalized(input@),
{
    let words = text::split_whitespace(input);
    let joined = search::join(&words, " ");
    joined.as_str().to_lowercase()
}

/// Texts of the same words have the same normal form, however the words are laid out.
pub proof fn law_layout_does_not_matter(
    parts: Seq<Seq<char>>,
    gaps: Seq<Seq<char>>,
    others: Seq<Seq<char>>,
)
    requires
        layout::fits(parts, gaps),
        layout::fits(parts, others),
    ensures
        normalized(layout::laid_out(parts, gaps)) == normalized(layout::laid_out(parts, others)),
        plainly_normalized(layout::laid_out(parts, gaps)) == plainly_normalized(
            layout::laid_out(parts, others),
        ),
{
    layout::law_words_of_a_layout(parts, gaps);
    layout::law_words_of_a_layout(parts, others);
}

/// Texts whose words differ in the case of ASCII letters alone have the same normal form: the
/// plain one, and so the one that `normalize_for_hash` gives, which depends on it alone.
pub proof fn law_case_does_not_matter(a: Seq<char>, b: Seq<char>)
    requires
        layout::all_lowered(text::words(a)) == layout::all_lowered(text::words(b)),
    ensures
        plainly_normalized(a) == plainly_normalized(b),
        text::lowercase(plainly_normalized(a)) == text::lowercase(plainly_normalized(b)),
{
    layout::lemma_lowered_joined(text::words(a));
    layout::lemma_lowered_joined(text::words(b));
}

/// The words of the normal form are those of the text in lower case, parted by single spaces and
/// by nothing else; and what was normalized is its own normal form.
pub proof fn law_normal_form(s: Seq<char>)
    ensures
        text::words(plainly_normalized(s)) == layout::all_lowered(text::words(s)),
        layout::single_spaced(plainly_normalized(s)),
        plainly_normalized(plainly_normalized(s)) == plainly_normalized(s),
{
    let parts = text::words(s);
    let low = layout::all_lowered(parts);
    layout::lemma_words_are_words(s);
    layout::lemma_lowered_words(parts);
    layout::lemma_lowered_joined(parts);
    layout::lemma_words_of_joined(low);
    layout::lemma_joined_single_spaced(low);
    text::lemma_lowered_again(search::joined(parts, " "@));
}

/// The words of an ASCII text, joined by single spaces, are ASCII text: on ASCII text,
/// `normalize_for_hash` gives the plain normal form.
pub proof fn law_ascii_text_is_plainly_normalized(s: Seq<char>)
    requires
        text::ascii(s),
    ensures
        text::ascii(search::joined(text::words(s), " "@)),
{
    layout::lemma_words_are_words(s);
    lemma_joined_ascii(text::words(s));
}

proof fn lemma_joined_ascii(parts: Seq<Seq<char>>)
    requires
        forall|i: int| 0 <= i < parts.len() ==> text::ascii(#[trigger] parts[i]),
    ensures
        text::ascii(search::joined(parts, " "@)),
    decreases parts.len(),
{
    reveal_strlit(" ");
    if parts.len() == 1 {
        assert(text::ascii(parts[0]));
    } else if parts.len() > 1 {
        let before = parts.drop_last();
        assert forall|i: int| 0 <= i < before.len() implies text::ascii(#[trigger] before[i]) by {
            assert(before[i] == parts[i]);
        }
        lemma_joined_ascii(before);
        let front = search::joined(before, " "@);
        let last = parts[parts.len() - 1];
        assert(text::ascii(last));
        let s = search::joined(parts, " "@);
        assert forall|i: int| 0 <= i < s.len() implies (#[trigger] s[i]) as int <= 0x7f by {
            if i < front.len() {
                assert(s[i] == front[i]);
            } else if i > front.len() {
                assert(s[i] == last[i - front.len() - 1]);
            } else {
                assert(s[i] == ' ');
            }
        }
    }
}

/// What hashing a text writes: its bytes, and a byte that no text holds.
pub open spec fn text_writes(s: Seq<char>) -> Seq<Seq<u8>> {
    seq![vstd::utf8::encode_utf8(s), seq![0xffu8]]
}

/// The hash of a place in a file; the line number goes in as eight bytes, the lowest first.
pub open spec fn place_hash(file: Seq<char>, line: nat) -> u64 {
    DefaultHasher::spec_finish(
        text_writes(file).push(vstd::bytes::spec_u64_to_le_bytes(line as u64)),
    )
}

/// The hash of a place in a file together with what stands there.
pub open spec fn entry_hash(file: Seq<char>, line: nat, content: Seq<char>) -> u64 {
    DefaultHasher::spec_finish(
        text_writes(file).push(vstd::bytes::spec_u64_to_le_bytes(line as u64)) + text_writes(
            normalized(content),
        ),
    )
}

/// The identity of a transcript line.
pub open spec fn entry_id(file: Seq<char>, line: nat, content: Seq<char>) -> Seq<char> {
    "mem-"@ + numerals::decimal(line) + "-"@ + numerals::hexadecimal(
        entry_hash(file, line, content) as nat,
        16,
    )
}

/// The identity of a line of a memory file.
pub open spec fn memory_line_id(file: Seq<char>, line: nat) -> Seq<char> {
    "mline-"@ + numerals::decimal(line) + "-"@ + numerals::hexadecimal(
        place_hash(file, line) as nat,
        16,
    )
}

/// Hashes a text.
fn write_text(hasher: &mut DefaultHasher, s: &str)
    ensures
        final(hasher)@ == old(hasher)@ + text_writes(s@),
{
    let mut end: Vec<u8> = Vec::new();
    end.push(0xff);
    hasher.write(s.as_bytes());
    hasher.write(end.as_slice());
    assert(end@ =~= seq![0xffu8]);
    assert(hasher@ =~= old(hasher)@ + text_writes(s@));
}

/// Hashes a line number.
fn write_line(hasher: &mut DefaultHasher, line: u64)
    ensures
        final(hasher)@ == old(hasher)@.push(vstd::bytes::spec_u64_to_le_bytes(line)),
{
    let bytes = vstd::bytes::u64_to_le_bytes(line);
    hasher.write(bytes.as_slice());
}

/// The identity of a transcript line, stable as long as its file, its number and its normalized
/// content are.
pub fn stable_entry_id(source_file: &str, line_no: u64, content: &str) -> (r: String)
    ensures
        r@ == entry_id(source_file@, line_no as nat, content@),
{
    let normal = normalize_for_hash(content);
    let mut hasher = DefaultHasher::new();
    write_text(&mut hasher, source_file);
    write_line(&mut hasher, line_no);
    write_text(&mut hasher, normal.as_str());
    assert(hasher@ =~= text_writes(source_file@).push(
        vstd::bytes::spec_u64_to_le_bytes(line_no),
    ) + text_writes(normal@));
    let hash = hasher.finish();
    let number = numerals::write_decimal(line_no);
    let code = numerals::write_hexadecimal(hash, 16);
    let mut id = "mem-".to_string();
    id.append(number.as_str());
    id.append("-");
    id.append(code.as_str());
    id
}

/// The identity of a line of a memory file, stable as long as its file and its number are.
pub fn stable_memory_line_id(source_file: &str, line_no: u64) -> (r: String)
    ensures
        r@ == memory_line_id(source_file@, line_no as nat),
{
    let mut hasher = DefaultHasher::new();
    write_text(&mut hasher, source_file);
    write_line(&mut hasher, line_no);
    assert(hasher@ =~= text_writes(source_file@).push(
        vstd::bytes::spec_u64_to_le_bytes(line_no),
    ));
    let hash = hasher.finish();
    let number = numerals::write_decimal(line_no);
    let code = numerals::write_hexadecimal(hash, 16);
    let mut id = "mline-".to_string();
    id.append(number.as_str());
    id.append("-");
    id.append(code.as_str());
    id
}

/// White space and case do not change the identity of an entry: contents that are the same once
/// normalized have the same identity at the same place.
pub proof fn law_identity_ignores_layout(
    file: Seq<char>,
    line: nat,
    a: Seq<char>,
    b: Seq<char>,
)
    requires
        normalized(a) == normalized(b),
    ensures
        entry_id(file, line, a) == entry_id(file, line, b),
{
}

/// An entry of a transcript and one of a memory file never have the same identity.
pub proof fn law_identities_of_sources_differ(
    file: Seq<char>,
    line: nat,
    content: Seq<char>,
    other_file: Seq<char>,
    other_line: nat,
)
    ensures
        entry_id(file, line, content) != memory_line_id(other_file, other_line),
{
    reveal_strlit("mem-");
    reveal_strlit("mline-");
    assert(entry_id(file, line, content)[1] == 'e');
    assert(memory_line_id(other_file, other_line)[1] == 'l');
}

// ---------------------------------------------------------------------------------------
// Age

/// The seconds since the epoch that `chrono::DateTime::parse_from_rfc3339` reads from a text.
pub uninterp spec fn rfc3339_seconds(s: Seq<char>) -> Option<i64>;

/// `chrono::DateTime::parse_from_rfc3339`, then `timestamp`: the seconds since the epoch depend
/// on the text alone; none where it is no RFC 3339 time.
#[verifier::external_body]
pub(crate) fn read_rfc3339(s: &str) -> (r: Option<i64>)
    ensures
        r == rfc3339_seconds(s@),
{
    match chrono::DateTime::parse_from_rfc3339(s) {
        Ok(t) => Some(t.timestamp()),
        Err(_) => None,
    }
}

/// The seconds that were read, or the current time.
pub open spec fn epoch_or_now(read: Option<i64>, now: i64) -> i64 {
    match read {
        Some(t) => t,
        None => now,
    }
}

/// The time of an entry in seconds since the epoch; the current time where it cannot be read.
pub fn parse_ts_epoch(ts: &str, now: i64) -> (r: i64)
    ensures
        r == epoch_or_now(rfc3339_seconds(ts@), now),
{
    match read_rfc3339(ts) {
        Some(t) => t,
        None => now,
    }
}

/// The number of seconds in the two days for which a transcript stays hot.
pub const HOT_SECONDS: i64 = 172_800;

/// The sort of an entry: from a memory file, or from a transcript that is at most two days old,
/// or older.
pub open spec fn source_type_of(file: Seq<char>, ts_epoch: int, now: int) -> Seq<char> {
    if "MEMORY-"@.is_prefix_of(file) {
        "memory"@
    } else if now - ts_epoch <= HOT_SECONDS {
        "transcript_hot"@
    } else {
        "transcript_archive"@
    }
}

/// The sort of an entry.
pub fn infer_source_type(source_file: &str, ts_epoch: i64, now: i64) -> (r: String)
    ensures
        r@ == source_type_of(source_file@, ts_epoch as int, now as int),
{
    if search::starts_with(source_file, "MEMORY-") {
        return "memory".to_string();
    }
    let age: i128 = now as i128 - ts_epoch as i128;
    if age <= HOT_SECONDS as i128 {
        "transcript_hot".to_string()
    } else {
        "transcript_archive".to_string()
    }
}

/// A transcript entry never turns hot again: once archived, it stays so as time goes on.
pub proof fn law_archived_stays_archived(file: Seq<char>, ts_epoch: int, now: int, later: int)
    requires
        now <= later,
        source_type_of(file, ts_epoch, now) == "transcript_archive"@,
    ensures
        source_type_of(file, ts_epoch, later) == "transcript_archive"@,
{
    reveal_strlit("memory");
    reveal_strlit("transcript_hot");
    reveal_strlit("transcript_archive");
    assert("memory"@.len() != "transcript_archive"@.len());
    assert("transcript_hot"@.len() != "transcript_archive"@.len());
}

} // verus!
