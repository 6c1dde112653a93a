//! The indexer: which lines of the transcripts and the memory files become entries, and how far
//! the transcripts have been read.

use vstd::prelude::*;

use crate::entries::{HitView, LineView, MemorySearchHit, TranscriptLine};
use crate::{entries, order, search, text};

verus! {

// ---------------------------------------------------------------------------------------
// Files

/// The name of a transcript.
pub open spec fn transcript_name(name: Seq<char>) -> bool {
    "session-"@.is_prefix_of(name) && ".jsonl"@.is_suffix_of(name)
}

/// The name of a memory file.
pub open spec fn memory_name(name: Seq<char>) -> bool {
    "MEMORY-"@.is_prefix_of(name) && ".md"@.is_suffix_of(name)
}

/// A list holds the names of the transcripts among the files of a directory, in ascending order.
pub open spec fn lists_transcripts(listed: Seq<Seq<char>>, names: Seq<Seq<char>>) -> bool {
    &&& order::in_order(listed)
    &&& listed.to_multiset() == names.filter(|n: Seq<char>| transcript_name(n)).to_multiset()
}

/// A list holds the names of the memory files among the files of a directory, in ascending order.
pub open spec fn lists_memory_files(listed: Seq<Seq<char>>, names: Seq<Seq<char>>) -> bool {
    &&& order::in_order(listed)
    &&& listed.to_multiset() == names.filter(|n: Seq<char>| memory_name(n)).to_multiset()
}

/// The names of the transcripts among the files of a directory, in ascending order.
pub fn list_transcript_files(names: Vec<String>) -> (r: Vec<String>)
    ensures
        order::in_order(text::texts(r@)),
        text::texts(r@).to_multiset() == text::texts(names@).filter(
            |n: Seq<char>| transcript_name(n),
        ).to_multiset(),
        lists_transcripts(text::texts(r@), text::texts(names@)),
{
    let ghost all = text::texts(names@);
    let ghost fits = |n: Seq<char>| transcript_name(n);
    let mut kept: Vec<String> = Vec::new();
    let mut i: usize = 0;
    proof {
        reveal(Seq::filter);
    }
    assert(all.take(0).filter(fits) =~= Seq::empty());
    assert(text::texts(kept@) =~= Seq::empty());
    while i < names.len()
        invariant
            i <= names@.len(),
            all == text::texts(names@),
            fits == |n: Seq<char>| transcript_name(n),
            text::texts(kept@) == all.take(i as int).filter(fits),
        decreases names@.len() - i,
    {
        let ghost before = kept@;
        proof {
            reveal(Seq::filter);
            assert(all.take(i + 1).drop_last() =~= all.take(i as int));
            assert(all.take(i + 1).last() == names@[i as int]@);
        }
        let name = &names[i];
        if search::starts_with(name.as_str(), "session-") && search::ends_with(
            name.as_str(),
            ".jsonl",
        ) {
            kept.push(name.clone());
            assert(text::texts(kept@) =~= text::texts(before).push(name@));
        }
        i += 1;
    }
    assert(all.take(all.len() as int) =~= all);
    order::sort_names(kept)
}

/// The names of the memory files among the files of a directory, in ascending order.
pub fn list_memory_files(names: Vec<String>) -> (r: Vec<String>)
    ensures
        order::in_order(text::texts(r@)),
        text::texts(r@).to_multiset() == text::texts(names@).filter(
            |n: Seq<char>| memory_name(n),
        ).to_multiset(),
        lists_memory_files(text::texts(r@), text::texts(names@)),
{
    let ghost all = text::texts(names@);
    let ghost fits = |n: Seq<char>| memory_name(n);
    let mut kept: Vec<String> = Vec::new();
    let mut i: usize = 0;
    proof {
        reveal(Seq::filter);
    }
    assert(all.take(0).filter(fits) =~= Seq::empty());
    assert(text::texts(kept@) =~= Seq::empty());
    while i < names.len()
        invariant
            i <= names@.len(),
            all == text::texts(names@),
            fits == |n: Seq<char>| memory_name(n),
            text::texts(kept@) == all.take(i as int).filter(fits),
        decreases names@.len() - i,
    {
        let ghost before = kept@;
        proof {
            reveal(Seq::filter);
            assert(all.take(i + 1).drop_last() =~= all.take(i as int));
            assert(all.take(i + 1).last() == names@[i as int]@);
        }
        let name = &names[i];
        if search::starts_with(name.as_str(), "MEMORY-") && search::ends_with(
            name.as_str(),
            ".md",
        ) {
            kept.push(name.clone());
            assert(text::texts(kept@) =~= text::texts(before).push(name@));
        }
        i += 1;
    }
    assert(all.take(all.len() as int) =~= all);
    order::sort_names(kept)
}

/// A transcript: its name and its lines, each either an entry or unreadable.
pub struct TranscriptFile {
    pub name: String,
    pub lines: Vec<Option<TranscriptLine>>,
}

/// What a transcript holds.
#[verifier::ext_equal]
pub struct FileView {
    pub name: Seq<char>,
    pub lines: Seq<Option<LineView>>,
}

/// What a line holds, if it can be read.
pub open spec fn line_view(l: Option<TranscriptLine>) -> Option<LineView> {
    match l {
        Some(l) => Some(l@),
        None => None,
    }
}

/// What a list of lines holds.
pub open spec fn lines_view(v: Seq<Option<TranscriptLine>>) -> Seq<Option<LineView>> {
    Seq::new(v.len(), |i: int| line_view(v[i]))
}

impl View for TranscriptFile {
    type V = FileView;

    open spec fn view(&self) -> FileView {
        FileView { name: self.name@, lines: lines_view(self.lines@) }
    }
}

/// What a list of transcripts holds.
pub open spec fn files_view(v: Seq<TranscriptFile>) -> Seq<FileView> {
    Seq::new(v.len(), |i: int| v[i]@)
}

/// A memory file: its name and its text.
pub struct MemoryFile {
    pub name: String,
    pub text: String,
}

/// What a memory file holds: its name and its lines.
#[verifier::ext_equal]
pub struct MemoryView {
    pub name: Seq<char>,
    pub lines: Seq<Seq<char>>,
}

impl View for MemoryFile {
    type V = MemoryView;

    open spec fn view(&self) -> MemoryView {
        MemoryView { name: self.name@, lines: search::lines(self.text@) }
    }
}

/// What a list of memory files holds.
pub open spec fn memory_view(v: Seq<MemoryFile>) -> Seq<MemoryView> {
    Seq::new(v.len(), |i: int| v[i]@)
}

// ---------------------------------------------------------------------------------------
// Transcripts

/// The entry of a transcript line, at a time in seconds.
pub open spec fn hit_at(
    file: Seq<char>,
    line: nat,
    l: LineView,
    ts_epoch: i64,
    now: i64,
) -> HitView {
    HitView {
        id: entries::entry_id(file, line, l.content),
        ts: l.ts,
        role: l.role,
        session_id: l.session_id,
        source_type: entries::source_type_of(file, ts_epoch as int, now as int),
        source_file: file,
        source_line: line as int,
        mention_count: 1,
        ts_epoch: ts_epoch as int,
        content: l.content,
    }
}

/// The entry of a transcript line, at the time that it names or else now.
pub open spec fn transcript_hit(file: Seq<char>, line: nat, l: LineView, now: i64) -> HitView {
    hit_at(file, line, l, entries::epoch_or_now(entries::rfc3339_seconds(l.ts), now), now)
}

/// The entries of the readable lines behind the first `done` ones.
pub open spec fn transcript_hits(
    file: Seq<char>,
    lines: Seq<Option<LineView>>,
    done: nat,
    now: i64,
) -> Seq<HitView>
    decreases lines.len(),
{
    if lines.len() == 0 {
        Seq::empty()
    } else {
        let before = transcript_hits(file, lines.drop_last(), done, now);
        match lines.last() {
            Some(l) => if lines.len() > done {
                before.push(transcript_hit(file, lines.len(), l, now))
            } else {
                before
            },
            None => before,
        }
    }
}

proof fn lemma_hits_fit(file: Seq<char>, lines: Seq<Option<LineView>>, done: nat, now: i64)
    ensures
        transcript_hits(file, lines, done, now).len() == 0 || transcript_hits(
            file,
            lines,
            done,
            now,
        ).len() + done <= lines.len(),
    decreases lines.len(),
{
    if lines.len() > 0 {
        lemma_hits_fit(file, lines.drop_last(), done, now);
    }
}

/// The entry of a transcript line, at a time in seconds.
pub fn transcript_entry(
    source_file: &str,
    line_no: usize,
    l: &TranscriptLine,
    ts_epoch: i64,
    now: i64,
) -> (r: MemorySearchHit)
    ensures
        r@ == hit_at(source_file@, line_no as nat, l@, ts_epoch, now),
{
    let source_type = entries::infer_source_type(source_file, ts_epoch, now);
    let id = entries::stable_entry_id(source_file, line_no as u64, l.content.as_str());
    MemorySearchHit {
        id,
        ts: l.ts.clone(),
        role: l.role.clone(),
        session_id: l.session_id.clone(),
        source_type,
        source_file: source_file.to_string(),
        source_line: line_no as u64,
        mention_count: 1,
        ts_epoch,
        content: l.content.clone(),
    }
}

/// The entries of the readable lines of a transcript behind the first `done` ones.
pub fn index_transcript_file(
    source_file: &str,
    lines: &Vec<Option<TranscriptLine>>,
    done: usize,
    now: i64,
) -> (r: Vec<MemorySearchHit>)
    ensures
        entries::hits_view(r@) == transcript_hits(
            source_file@,
            lines_view(lines@),
            done as nat,
            now,
        ),
        r@.len() == 0 || r@.len() + done <= lines@.len(),
{
    let ghost all = lines_view(lines@);
    let mut out: Vec<MemorySearchHit> = Vec::new();
    let mut i: usize = 0;
    assert(entries::hits_view(out@) =~= Seq::empty());
    while i < lines.len()
        invariant
            i <= lines@.len(),
            all == lines_view(lines@),
            entries::hits_view(out@) == transcript_hits(
                source_file@,
                all.take(i as int),
                done as nat,
                now,
            ),
        decreases lines@.len() - i,
    {
        let ghost before = out@;
        assert(all.take(i + 1).drop_last() =~= all.take(i as int));
        assert(all.take(i + 1).last() == line_view(lines@[i as int]));
        if i >= done {
            match &lines[i] {
                Some(l) => {
                    let ts_epoch = entries::parse_ts_epoch(l.ts.as_str(), now);
                    let hit = transcript_entry(source_file, i + 1, l, ts_epoch, now);
                    out.push(hit);
                    assert(entries::hits_view(out@) =~= entries::hits_view(before).push(hit@));
                },
                None => {},
            }
        }
        i += 1;
    }
    assert(all.take(all.len() as int) =~= all);
    proof {
        lemma_hits_fit(source_file@, all, done as nat, now);
    }
    out
}

/// How far the transcripts have been indexed.
pub struct IndexerState {
    pub last_file: Option<String>,
    pub last_line: usize,
    pub updated_at: String,
    pub last_memory_reindex_at: String,
}

/// What the state of the indexer holds.
#[verifier::ext_equal]
pub struct StateView {
    pub last_file: Option<Seq<char>>,
    pub last_line: nat,
    pub updated_at: Seq<char>,
    pub last_memory_reindex_at: Seq<char>,
}

impl View for IndexerState {
    type V = StateView;

    open spec fn view(&self) -> StateView {
        StateView {
            last_file: text::opt(self.last_file),
            last_line: self.last_line as nat,
            updated_at: self.updated_at@,
            last_memory_reindex_at: self.last_memory_reindex_at@,
        }
    }
}

/// The state before anything has been indexed.
pub open spec fn fresh_state() -> StateView {
    StateView {
        last_file: None,
        last_line: 0,
        updated_at: Seq::empty(),
        last_memory_reindex_at: Seq::empty(),
    }
}

/// The number of lines at the front of a transcript that lie behind a cursor, which is a file and
/// a line in it; none where the whole transcript does.
pub open spec fn behind_cursor(
    last_file: Option<Seq<char>>,
    last_line: nat,
    name: Seq<char>,
) -> Option<nat> {
    match last_file {
        None => Some(0),
        Some(last) => if last == name {
            Some(last_line)
        } else if order::precedes(last, name) {
            Some(0)
        } else {
            None
        },
    }
}

/// What an optional number holds.
pub open spec fn count_view(n: Option<usize>) -> Option<nat> {
    match n {
        Some(n) => Some(n as nat),
        None => None,
    }
}

/// The number of lines at the front of a transcript that lie behind a cursor; none where the
/// whole transcript does.
pub fn count_behind_cursor(last_file: &Option<String>, last_line: usize, name: &str) -> (r: Option<
    usize,
>)
    ensures
        count_view(r) == behind_cursor(text::opt(*last_file), last_line as nat, name@),
{
    match last_file {
        None => Some(0),
        Some(last) => if text::same(last.as_str(), name) {
            Some(last_line)
        } else if order::is_before(last.as_str(), name) {
            Some(0)
        } else {
            None
        },
    }
}

/// The number of lines at the front of a transcript that are already indexed; none where the
/// whole transcript lies behind the cursor.
pub open spec fn lines_done(state: StateView, name: Seq<char>) -> Option<nat> {
    behind_cursor(state.last_file, state.last_line, name)
}

/// The state after `added` entries from a transcript whose first `done` lines were already
/// indexed.
pub open spec fn advanced(
    state: StateView,
    name: Seq<char>,
    done: nat,
    added: nat,
    stamp: Seq<char>,
) -> StateView {
    if added > 0 {
        StateView { last_file: Some(name), last_line: done + added, updated_at: stamp, ..state }
    } else {
        state
    }
}

/// The state and the entries after one transcript.
pub open spec fn file_indexed(
    state: StateView,
    file: FileView,
    now: i64,
    stamp: Seq<char>,
) -> (StateView, Seq<HitView>) {
    match lines_done(state, file.name) {
        None => (state, Seq::empty()),
        Some(done) => {
            let hits = transcript_hits(file.name, file.lines, done, now);
            (advanced(state, file.name, done, hits.len(), stamp), hits)
        },
    }
}

/// The state and the entries after a list of transcripts.
pub open spec fn files_indexed(
    state: StateView,
    files: Seq<FileView>,
    now: i64,
    stamp: Seq<char>,
) -> (StateView, Seq<HitView>)
    decreases files.len(),
{
    if files.len() == 0 {
        (state, Seq::empty())
    } else {
        let (before, hits) = files_indexed(state, files.drop_last(), now, stamp);
        let (after, more) = file_indexed(before, files.last(), now, stamp);
        (after, hits + more)
    }
}

impl IndexerState {
    /// The state before anything has been indexed.
    pub fn fresh() -> (r: IndexerState)
        ensures
            r@ == fresh_state(),
    {
        IndexerState {
            last_file: None,
            last_line: 0,
            updated_at: String::new(),
            last_memory_reindex_at: String::new(),
        }
    }

    /// The number of lines at the front of a transcript that are already indexed; none where the
    /// whole transcript lies behind the cursor and need not be read.
    pub fn done(&self, name: &str) -> (r: Option<usize>)
        ensures
            count_view(r) == lines_done(self@, name@),
    {
        count_behind_cursor(&self.last_file, self.last_line, name)
    }

    /// Indexes one transcript from where the state left off, and moves the state on.
    pub fn index_file(&mut self, file: &TranscriptFile, now: i64, stamp: &str) -> (r: Vec<
        MemorySearchHit,
    >)
        ensures
            (final(self)@, entries::hits_view(r@)) == file_indexed(
                old(self)@,
                file@,
                now,
                stamp@,
            ),
    {
        match self.done(file.name.as_str()) {
            None => {
                let none: Vec<MemorySearchHit> = Vec::new();
                assert(entries::hits_view(none@) =~= Seq::empty());
                none
            },
            Some(done) => {
                let hits = index_transcript_file(file.name.as_str(), &file.lines, done, now);
                if hits.len() > 0 {
                    assert(file.lines.len() <= usize::MAX);
                    self.last_file = Some(file.name.clone());
                    self.last_line = done + hits.len();
                    self.updated_at = stamp.to_string();
                }
                hits
            },
        }
    }

    /// Indexes a list of transcripts from where the state left off, and moves the state on.
    pub fn index_files(&mut self, files: &Vec<TranscriptFile>, now: i64, stamp: &str) -> (r: Vec<
        MemorySearchHit,
    >)
        ensures
            (final(self)@, entries::hits_view(r@)) == files_indexed(
                old(self)@,
                files_view(files@),
                now,
                stamp@,
            ),
    {
        let ghost all = files_view(files@);
        let ghost start = self@;
        let mut out: Vec<MemorySearchHit> = Vec::new();
        let mut i: usize = 0;
        assert(entries::hits_view(out@) =~= Seq::empty());
        assert(all.take(0) =~= Seq::empty());
        while i < files.len()
            invariant
                i <= files@.len(),
                all == files_view(files@),
                (self@, entries::hits_view(out@)) == files_indexed(
                    start,
                    all.take(i as int),
                    now,
                    stamp@,
                ),
            decreases files@.len() - i,
        {
            let ghost before = out@;
            assert(all.take(i + 1).drop_last() =~= all.take(i as int));
            assert(all.take(i + 1).last() == files@[i as int]@);
            let mut hits = self.index_file(&files[i], now, stamp);
            let ghost more = hits@;
            out.append(&mut hits);
            assert(entries::hits_view(out@) =~= entries::hits_view(before) + entries::hits_view(
                more,
            ));
            i += 1;
        }
        assert(all.take(all.len() as int) =~= all);
        out
    }
}

// ---------------------------------------------------------------------------------------
// Memory files

/// A line of a memory file that is an entry: an item of a list.
pub open spec fn bullet(line: Seq<char>) -> bool {
    text::trimmed(line).len() > 0 && text::trimmed(line)[0] == '-'
}

/// The entries of a memory file: the number of each line and its content.
pub open spec fn bullets(lines: Seq<Seq<char>>) -> Seq<(nat, Seq<char>)>
    decreases lines.len(),
{
    if lines.len() == 0 {
        Seq::empty()
    } else if bullet(lines.last()) {
        bullets(lines.drop_last()).push((lines.len(), text::trimmed(lines.last())))
    } else {
        bullets(lines.drop_last())
    }
}

/// The contents of all entries of a list of memory files, normalized.
pub open spec fn normalized_bullets(files: Seq<MemoryView>) -> Seq<Seq<char>>
    decreases files.len(),
{
    if files.len() == 0 {
        Seq::empty()
    } else {
        normalized_bullets(files.drop_last()) + bullets(files.last().lines).map_values(
            |b: (nat, Seq<char>)| entries::normalized(b.1),
        )
    }
}

/// How often a text occurs in a list.
pub open spec fn occurrences(list: Seq<Seq<char>>, s: Seq<char>) -> nat
    decreases list.len(),
{
    if list.len() == 0 {
        0
    } else if list.last() == s {
        occurrences(list.drop_last(), s) + 1
    } else {
        occurrences(list.drop_last(), s)
    }
}

/// The entry of a line of a memory file.
pub open spec fn memory_hit(
    file: Seq<char>,
    b: (nat, Seq<char>),
    mentions: Seq<Seq<char>>,
    now: i64,
    stamp: Seq<char>,
) -> HitView {
    HitView {
        id: entries::memory_line_id(file, b.0),
        ts: stamp,
        role: "memory"@,
        session_id: "memory"@,
        source_type: "memory"@,
        source_file: file,
        source_line: b.0 as int,
        mention_count: occurrences(mentions, entries::normalized(b.1)) as int,
        ts_epoch: now as int,
        content: b.1,
    }
}

/// The entries of a list of memory files, each with the number of its mentions in `mentions`.
pub open spec fn memory_hits(
    files: Seq<MemoryView>,
    mentions: Seq<Seq<char>>,
    now: i64,
    stamp: Seq<char>,
) -> Seq<HitView>
    decreases files.len(),
{
    if files.len() == 0 {
        Seq::empty()
    } else {
        memory_hits(files.drop_last(), mentions, now, stamp) + bullets(
            files.last().lines,
        ).map_values(
            |b: (nat, Seq<char>)| memory_hit(files.last().name, b, mentions, now, stamp),
        )
    }
}

/// What a list of numbered lines holds.
pub open spec fn numbered_view(v: Seq<(usize, String)>) -> Seq<(nat, Seq<char>)> {
    Seq::new(v.len(), |i: int| (v[i].0 as nat, v[i].1@))
}

/// The entries of a memory file.
fn read_bullets(text: &str) -> (r: Vec<(usize, String)>)
    ensures
        numbered_view(r@) == bullets(search::lines(text@)),
{
    let lines = search::split_lines(text);
    let ghost all = text::texts(lines@);
    let mut out: Vec<(usize, String)> = Vec::new();
    let mut i: usize = 0;
    assert(numbered_view(out@) =~= Seq::empty());
    assert(all.take(0) =~= Seq::empty());
    while i < lines.len()
        invariant
            i <= lines@.len(),
            all == text::texts(lines@),
            numbered_view(out@) == bullets(all.take(i as int)),
        decreases lines@.len() - i,
    {
        let ghost before = out@;
        assert(all.take(i + 1).drop_last() =~= all.take(i as int));
        assert(all.take(i + 1).last() == lines@[i as int]@);
        let content = text::trim(lines[i].as_str());
        let cs = text::chars_of(content.as_str());
        if cs.len() > 0 && cs[0] == '-' {
            out.push((i + 1, content));
            assert(numbered_view(out@) =~= numbered_view(before).push(((i + 1) as nat, cs@)));
        }
        i += 1;
    }
    assert(all.take(all.len() as int) =~= all);
    out
}

/// The contents of all entries of a list of memory files, normalized.
fn read_mentions(files: &Vec<MemoryFile>) -> (r: Vec<String>)
    ensures
        text::texts(r@) == normalized_bullets(memory_view(files@)),
{
    let ghost all = memory_view(files@);
    let mut out: Vec<String> = Vec::new();
    let mut i: usize = 0;
    assert(text::texts(out@) =~= Seq::empty());
    assert(all.take(0) =~= Seq::empty());
    while i < files.len()
        invariant
            i <= files@.len(),
            all == memory_view(files@),
            text::texts(out@) == normalized_bullets(all.take(i as int)),
        decreases files@.len() - i,
    {
        assert(all.take(i + 1).drop_last() =~= all.take(i as int));
        assert(all.take(i + 1).last() == files@[i as int]@);
        let items = read_bullets(files[i].text.as_str());
        let ghost front = text::texts(out@);
        let ghost found = bullets(all[i as int].lines);
        let ghost normal = |b: (nat, Seq<char>)| entries::normalized(b.1);
        let mut j: usize = 0;
        assert(front =~= front + found.take(0).map_values(normal));
        while j < items.len()
            invariant
                j <= items@.len(),
                numbered_view(items@) == found,
                normal == |b: (nat, Seq<char>)| entries::normalized(b.1),
                text::texts(out@) == front + found.take(j as int).map_values(normal),
            decreases items@.len() - j,
        {
            let ghost before = out@;
            let n = entries::normalize_for_hash(items[j].1.as_str());
            out.push(n);
            assert(found[j as int] == (items@[j as int].0 as nat, items@[j as int].1@));
            assert(text::texts(out@) =~= text::texts(before).push(n@));
            assert(front + found.take(j + 1).map_values(normal) =~= (front + found.take(
                j as int,
            ).map_values(normal)).push(normal(found[j as int])));
            j += 1;
        }
        assert(found.take(found.len() as int) =~= found);
        i += 1;
    }
    assert(all.take(all.len() as int) =~= all);
    out
}

/// How often a text occurs in a list.
fn count_occurrences(list: &Vec<String>, s: &str) -> (r: u64)
    ensures
        r == occurrences(text::texts(list@), s@),
{
    let ghost all = text::texts(list@);
    let mut n: u64 = 0;
    let mut i: usize = 0;
    assert(all.take(0) =~= Seq::empty());
    while i < list.len()
        invariant
            i <= list@.len(),
            n <= i,
            all == text::texts(list@),
            n == occurrences(all.take(i as int), s@),
        decreases list@.len() - i,
    {
        assert(all.take(i + 1).drop_last() =~= all.take(i as int));
        assert(all.take(i + 1).last() == list@[i as int]@);
        if text::same(list[i].as_str(), s) {
            n += 1;
        }
        i += 1;
    }
    assert(all.take(all.len() as int) =~= all);
    n
}

/// The entries of a list of memory files; each counts how often its content is mentioned in them.
pub fn index_memory_markdown_files(files: &Vec<MemoryFile>, now: i64, stamp: &str) -> (r: Vec<
    MemorySearchHit,
>)
    ensures
        entries::hits_view(r@) == memory_hits(
            memory_view(files@),
            normalized_bullets(memory_view(files@)),
            now,
            stamp@,
        ),
{
    let ghost all = memory_view(files@);
    let mentions = read_mentions(files);
    let ghost named = text::texts(mentions@);
    let mut out: Vec<MemorySearchHit> = Vec::new();
    let mut i: usize = 0;
    assert(entries::hits_view(out@) =~= Seq::empty());
    assert(all.take(0) =~= Seq::empty());
    while i < files.len()
        invariant
            i <= files@.len(),
            all == memory_view(files@),
            named == text::texts(mentions@),
            entries::hits_view(out@) == memory_hits(all.take(i as int), named, now, stamp@),
        decreases files@.len() - i,
    {
        assert(all.take(i + 1).drop_last() =~= all.take(i as int));
        assert(all.take(i + 1).last() == files@[i as int]@);
        let file = files[i].name.as_str();
        let items = read_bullets(files[i].text.as_str());
        let ghost front = entries::hits_view(out@);
        let ghost found = bullets(all[i as int].lines);
        let ghost entry = |b: (nat, Seq<char>)| memory_hit(file@, b, named, now, stamp@);
        let mut j: usize = 0;
        assert(front =~= front + found.take(0).map_values(entry));
        while j < items.len()
            invariant
                j <= items@.len(),
                named == text::texts(mentions@),
                numbered_view(items@) == found,
                entry == |b: (nat, Seq<char>)| memory_hit(file@, b, named, now, stamp@),
                entries::hits_view(out@) == front + found.take(j as int).map_values(entry),
            decreases items@.len() - j,
        {
            let ghost before = out@;
            let line_no: usize = items[j].0;
            let content = items[j].1.clone();
            let normal = entries::normalize_for_hash(content.as_str());
            let mention_count = count_occurrences(&mentions, normal.as_str());
            let hit = MemorySearchHit {
                id: entries::stable_memory_line_id(file, line_no as u64),
                ts: stamp.to_string(),
                role: "memory".to_string(),
                session_id: "memory".to_string(),
                source_type: "memory".to_string(),
                source_file: file.to_string(),
                source_line: line_no as u64,
                mention_count,
                ts_epoch: now,
                content,
            };
            assert(found[j as int] == (line_no as nat, hit.content@));
            assert(hit@ == entry(found[j as int]));
            out.push(hit);
            assert(entries::hits_view(out@) =~= entries::hits_view(before).push(hit@));
            assert(front + found.take(j + 1).map_values(entry) =~= (front + found.take(
                j as int,
            ).map_values(entry)).push(entry(found[j as int])));
            j += 1;
        }
        assert(found.take(found.len() as int) =~= found);
        assert(found.map_values(entry) =~= found.map_values(
            |b: (nat, Seq<char>)| memory_hit(all.take(i + 1).last().name, b, named, now, stamp@),
        ));
        i += 1;
    }
    assert(all.take(all.len() as int) =~= all);
    out
}

// ---------------------------------------------------------------------------------------
// One run

/// What one run of the indexer comes to: the state that it leaves, and the entries that replace
/// those of the same identity in the index.
pub struct IndexRun {
    pub state: IndexerState,
    pub entries: Vec<MemorySearchHit>,
}

/// The state that one run of the indexer leaves.
pub open spec fn run_state(
    state: StateView,
    files: Seq<FileView>,
    now: i64,
    stamp: Seq<char>,
) -> StateView {
    StateView { last_memory_reindex_at: stamp, ..files_indexed(state, files, now, stamp).0 }
}

/// The entries of one run of the indexer: the new lines of the transcripts, and all items of the
/// memory files.
pub open spec fn run_entries(
    state: StateView,
    files: Seq<FileView>,
    memory_files: Seq<MemoryView>,
    now: i64,
    stamp: Seq<char>,
) -> Seq<HitView> {
    files_indexed(state, files, now, stamp).1 + memory_hits(
        memory_files,
        normalized_bullets(memory_files),
        now,
        stamp,
    )
}

/// One run of the indexer at the time `now`, written `stamp`: the new lines of the transcripts,
/// and all items of the memory files.
pub fn run_indexer_once(
    state: IndexerState,
    files: &Vec<TranscriptFile>,
    memory_files: &Vec<MemoryFile>,
    now: i64,
    stamp: &str,
) -> (r: IndexRun)
    ensures
        r.state@ == run_state(state@, files_view(files@), now, stamp@),
        entries::hits_view(r.entries@) == run_entries(
            state@,
            files_view(files@),
            memory_view(memory_files@),
            now,
            stamp@,
        ),
{
    let mut state = state;
    let mut found = state.index_files(files, now, stamp);
    let mut items = index_memory_markdown_files(memory_files, now, stamp);
    let ghost before = found@;
    let ghost more = items@;
    found.append(&mut items);
    assert(entries::hits_view(found@) =~= entries::hits_view(before) + entries::hits_view(more));
    state.last_memory_reindex_at = stamp.to_string();
    IndexRun { state, entries: found }
}

// ---------------------------------------------------------------------------------------
// Everything, for the vector index

/// The entries of all readable lines of a list of transcripts.
pub open spec fn all_transcript_hits(files: Seq<FileView>, now: i64) -> Seq<HitView>
    decreases files.len(),
{
    if files.len() == 0 {
        Seq::empty()
    } else {
        all_transcript_hits(files.drop_last(), now) + transcript_hits(
            files.last().name,
            files.last().lines,
            0,
            now,
        )
    }
}

/// The entries of all transcripts, then of all memory files.
pub fn collect_vector_docs(
    files: &Vec<TranscriptFile>,
    memory_files: &Vec<MemoryFile>,
    now: i64,
    stamp: &str,
) -> (r: Vec<MemorySearchHit>)
    ensures
        entries::hits_view(r@) == all_transcript_hits(files_view(files@), now) + memory_hits(
            memory_view(memory_files@),
            normalized_bullets(memory_view(memory_files@)),
            now,
            stamp@,
        ),
{
    let ghost all = files_view(files@);
    let mut out: Vec<MemorySearchHit> = Vec::new();
    let mut i: usize = 0;
    assert(entries::hits_view(out@) =~= Seq::empty());
    assert(all.take(0) =~= Seq::empty());
    while i < files.len()
        invariant
            i <= files@.len(),
            all == files_view(files@),
            entries::hits_view(out@) == all_transcript_hits(all.take(i as int), now),
        decreases files@.len() - i,
    {
        let ghost before = out@;
        assert(all.take(i + 1).drop_last() =~= all.take(i as int));
        assert(all.take(i + 1).last() == files@[i as int]@);
        let mut hits = index_transcript_file(files[i].name.as_str(), &files[i].lines, 0, now);
        let ghost more = hits@;
        out.append(&mut hits);
        assert(entries::hits_view(out@) =~= entries::hits_view(before) + entries::hits_view(more));
        i += 1;
    }
    assert(all.take(all.len() as int) =~= all);
    let mut notes = index_memory_markdown_files(memory_files, now, stamp);
    let ghost before = out@;
    let ghost more = notes@;
    out.append(&mut notes);
    assert(entries::hits_view(out@) =~= entries::hits_view(before) + entries::hits_view(more));
    out
}

// ---------------------------------------------------------------------------------------
// What holds of every run

/// The number of readable lines behind the first `done` ones.
pub open spec fn readable_behind(lines: Seq<Option<LineView>>, done: nat) -> nat
    decreases lines.len(),
{
    if lines.len() == 0 {
        0
    } else if lines.last() is Some && lines.len() > done {
        readable_behind(lines.drop_last(), done) + 1
    } else {
        readable_behind(lines.drop_last(), done)
    }
}

/// All lines can be read.
pub open spec fn all_readable(lines: Seq<Option<LineView>>) -> bool {
    forall|i: int| 0 <= i < lines.len() ==> #[trigger] lines[i] is Some
}

proof fn lemma_hits_count(file: Seq<char>, lines: Seq<Option<LineView>>, done: nat, now: i64)
    ensures
        transcript_hits(file, lines, done, now).len() == readable_behind(lines, done),
    decreases lines.len(),
{
    if lines.len() > 0 {
        lemma_hits_count(file, lines.drop_last(), done, now);
    }
}

proof fn lemma_readable_count(lines: Seq<Option<LineView>>, done: nat)
    requires
        all_readable(lines),
    ensures
        readable_behind(lines, done) == if lines.len() > done {
            (lines.len() - done) as nat
        } else {
            0
        },
    decreases lines.len(),
{
    if lines.len() > 0 {
        assert(lines.last() == lines[lines.len() - 1]);
        assert forall|i: int| 0 <= i < lines.drop_last().len() implies #[trigger] lines.drop_last()[i] is Some by {
            assert(lines.drop_last()[i] == lines[i]);
        }
        lemma_readable_count(lines.drop_last(), done);
    }
}

/// The entries of a run are exactly the readable lines that were not indexed before: each entry
/// comes from such a line, and each such line has its entry.
pub proof fn law_entries_are_the_new_lines(
    file: Seq<char>,
    lines: Seq<Option<LineView>>,
    done: nat,
    now: i64,
)
    ensures
        forall|i: int|
            0 <= i < transcript_hits(file, lines, done, now).len() ==> {
                let hit = #[trigger] transcript_hits(file, lines, done, now)[i];
                &&& done < hit.source_line <= lines.len()
                &&& lines[hit.source_line - 1] is Some
                &&& hit == transcript_hit(
                    file,
                    hit.source_line as nat,
                    lines[hit.source_line - 1]->0,
                    now,
                )
            },
        forall|n: int|
            done < n <= lines.len() && (#[trigger] lines[n - 1]) is Some ==> transcript_hits(
                file,
                lines,
                done,
                now,
            ).contains(transcript_hit(file, n as nat, lines[n - 1]->0, now)),
    decreases lines.len(),
{
    let hits = transcript_hits(file, lines, done, now);
    if lines.len() > 0 {
        let front = lines.drop_last();
        let before = transcript_hits(file, front, done, now);
        law_entries_are_the_new_lines(file, front, done, now);
        assert forall|i: int| 0 <= i < hits.len() implies {
            let hit = #[trigger] hits[i];
            &&& done < hit.source_line <= lines.len()
            &&& lines[hit.source_line - 1] is Some
            &&& hit == transcript_hit(
                file,
                hit.source_line as nat,
                lines[hit.source_line - 1]->0,
                now,
            )
        } by {
            if i < before.len() {
                assert(hits[i] == before[i]);
                assert(front[before[i].source_line - 1] == lines[before[i].source_line - 1]);
            }
        }
        assert forall|n: int| done < n <= lines.len() && (#[trigger] lines[n - 1]) is Some implies hits.contains(
            transcript_hit(file, n as nat, lines[n - 1]->0, now),
        ) by {
            let hit = transcript_hit(file, n as nat, lines[n - 1]->0, now);
            if n < lines.len() {
                assert(front[n - 1] == lines[n - 1]);
                let k = choose|k: int| 0 <= k < before.len() && before[k] == hit;
                assert(hits[k] == hit);
            } else {
                assert(lines.last() == lines[n - 1]);
                assert(hits[before.len() as int] == hit);
            }
        }
    }
}

/// The cursor never passes over a readable line that has not been indexed: after a run that added
/// entries, it stands at or before the last line that became one.
pub proof fn law_cursor_passes_no_new_line(
    state: StateView,
    file: FileView,
    now: i64,
    stamp: Seq<char>,
)
    requires
        file_indexed(state, file, now, stamp).1.len() > 0,
    ensures
        file_indexed(state, file, now, stamp).0.last_file == Some(file.name),
        file_indexed(state, file, now, stamp).0.last_line <= file_indexed(
            state,
            file,
            now,
            stamp,
        ).1.last().source_line,
{
    let done = lines_done(state, file.name)->0;
    lemma_last_hit(file.name, file.lines, done, now);
}

proof fn lemma_last_hit(file: Seq<char>, lines: Seq<Option<LineView>>, done: nat, now: i64)
    requires
        transcript_hits(file, lines, done, now).len() > 0,
    ensures
        done + transcript_hits(file, lines, done, now).len() <= transcript_hits(
            file,
            lines,
            done,
            now,
        ).last().source_line,
    decreases lines.len(),
{
    if lines.len() > 0 {
        let before = transcript_hits(file, lines.drop_last(), done, now);
        if lines.last() is Some && lines.len() > done {
            lemma_hits_fit(file, lines.drop_last(), done, now);
        } else {
            lemma_last_hit(file, lines.drop_last(), done, now);
        }
    }
}

/// The names of the transcripts stand in strictly ascending order.
pub open spec fn names_ascend(files: Seq<FileView>) -> bool {
    forall|i: int, j: int|
        0 <= i < j < files.len() ==> order::precedes(
            (#[trigger] files[i]).name,
            (#[trigger] files[j]).name,
        )
}

/// Nothing in the transcript is left to index.
pub open spec fn nothing_left(state: StateView, file: FileView) -> bool {
    lines_done(state, file.name) matches Some(done) ==> readable_behind(file.lines, done) == 0
}

proof fn lemma_all_left_behind(
    state: StateView,
    files: Seq<FileView>,
    now: i64,
    stamp: Seq<char>,
)
    requires
        names_ascend(files),
        forall|i: int| 0 <= i < files.len() ==> all_readable((#[trigger] files[i]).lines),
    ensures
        forall|i: int|
            0 <= i < files.len() ==> nothing_left(
                files_indexed(state, files, now, stamp).0,
                #[trigger] files[i],
            ),
    decreases files.len(),
{
    if files.len() > 0 {
        let front = files.drop_last();
        assert forall|i: int| 0 <= i < front.len() implies all_readable(
            (#[trigger] front[i]).lines,
        ) by {
            assert(front[i] == files[i]);
        }
        lemma_front_ascends(files);
        lemma_all_left_behind(state, front, now, stamp);
        let before = files_indexed(state, front, now, stamp).0;
        let file = files.last();
        let after = file_indexed(before, file, now, stamp).0;
        assert(file == files[files.len() - 1]);
        assert(all_readable(file.lines));
        if lines_done(before, file.name) is Some {
            let done = lines_done(before, file.name)->0;
            lemma_hits_count(file.name, file.lines, done, now);
            lemma_readable_count(file.lines, done);
            if transcript_hits(file.name, file.lines, done, now).len() > 0 {
                lemma_readable_count(file.lines, after.last_line);
            }
        }
        assert forall|i: int| 0 <= i < files.len() implies nothing_left(
            after,
            #[trigger] files[i],
        ) by {
            if i < front.len() {
                assert(front[i] == files[i]);
                assert(nothing_left(before, front[i]));
                assert(order::precedes(files[i].name, files[files.len() - 1].name));
                order::lemma_precedes_asymmetric(files[i].name, file.name);
            }
        }
    }
}

proof fn lemma_nothing_to_do(
    state: StateView,
    files: Seq<FileView>,
    now: i64,
    stamp: Seq<char>,
)
    requires
        forall|i: int| 0 <= i < files.len() ==> nothing_left(state, #[trigger] files[i]),
    ensures
        files_indexed(state, files, now, stamp) == (state, Seq::<HitView>::empty()),
    decreases files.len(),
{
    if files.len() > 0 {
        let front = files.drop_last();
        assert forall|i: int| 0 <= i < front.len() implies nothing_left(
            state,
            #[trigger] front[i],
        ) by {
            assert(front[i] == files[i]);
        }
        lemma_nothing_to_do(state, front, now, stamp);
        let file = files.last();
        assert(nothing_left(state, files[files.len() - 1]));
        if lines_done(state, file.name) is Some {
            lemma_hits_count(file.name, file.lines, lines_done(state, file.name)->0, now);
        }
        assert(file_indexed(state, file, now, stamp).1 =~= Seq::<HitView>::empty());
    }
}

/// A second run over the same transcripts adds nothing and leaves the cursor where it is. The
/// transcripts come in ascending order of their names, and their lines can all be read.
pub proof fn law_second_run_adds_nothing(
    state: StateView,
    files: Seq<FileView>,
    now: i64,
    stamp: Seq<char>,
    later: i64,
    later_stamp: Seq<char>,
)
    requires
        names_ascend(files),
        forall|i: int| 0 <= i < files.len() ==> all_readable((#[trigger] files[i]).lines),
    ensures
        files_indexed(files_indexed(state, files, now, stamp).0, files, later, later_stamp) == (
            files_indexed(state, files, now, stamp).0,
            Seq::<HitView>::empty(),
        ),
{
    lemma_all_left_behind(state, files, now, stamp);
    lemma_nothing_to_do(files_indexed(state, files, now, stamp).0, files, later, later_stamp);
}

/// The last entries of a list.
pub open spec fn tail_of(tail: Seq<HitView>, all: Seq<HitView>) -> bool {
    tail.len() <= all.len() && tail == all.skip(all.len() - tail.len())
}

proof fn lemma_later_start(file: Seq<char>, lines: Seq<Option<LineView>>, d: nat, e: nat, now: i64)
    requires
        d <= e,
    ensures
        tail_of(transcript_hits(file, lines, e, now), transcript_hits(file, lines, d, now)),
    decreases lines.len(),
{
    let early = transcript_hits(file, lines, d, now);
    let late = transcript_hits(file, lines, e, now);
    if lines.len() <= e {
        lemma_hits_fit(file, lines, e, now);
        assert(late =~= early.skip(early.len() as int));
    } else {
        let front = lines.drop_last();
        lemma_later_start(file, front, d, e, now);
        assert(late =~= early.skip(early.len() - late.len()));
    }
}

/// The cursor stands in the transcript at `k`, and those behind it have no entries.
pub open spec fn stands_at(state: StateView, files: Seq<FileView>, k: int, now: i64) -> bool {
    &&& 0 <= k < files.len()
    &&& state.last_file == Some(files[k].name)
    &&& forall|i: int|
        k < i < files.len() ==> transcript_hits(
            (#[trigger] files[i]).name,
            files[i].lines,
            0,
            now,
        ).len() == 0
}

proof fn lemma_nothing_before(
    state: StateView,
    files: Seq<FileView>,
    last: Seq<char>,
    now: i64,
    stamp: Seq<char>,
)
    requires
        state.last_file == Some(last),
        forall|i: int| 0 <= i < files.len() ==> order::precedes((#[trigger] files[i]).name, last),
    ensures
        files_indexed(state, files, now, stamp) == (state, Seq::<HitView>::empty()),
    decreases files.len(),
{
    if files.len() > 0 {
        let front = files.drop_last();
        assert forall|i: int| 0 <= i < front.len() implies order::precedes(
            (#[trigger] front[i]).name,
            last,
        ) by {
            assert(front[i] == files[i]);
        }
        lemma_nothing_before(state, front, last, now, stamp);
        assert(order::precedes(files[files.len() - 1].name, last));
        order::lemma_precedes_asymmetric(files.last().name, last);
        assert(Seq::<HitView>::empty() + Seq::<HitView>::empty() =~= Seq::<HitView>::empty());
    }
}

proof fn lemma_run_from(
    state: StateView,
    files: Seq<FileView>,
    k: int,
    now: i64,
    stamp: Seq<char>,
)
    requires
        names_ascend(files),
        stands_at(state, files, k, now),
    ensures
        files_indexed(state, files, now, stamp).1 == transcript_hits(
            files[k].name,
            files[k].lines,
            state.last_line,
            now,
        ),
        files_indexed(state, files, now, stamp).0.last_file == state.last_file,
    decreases files.len(),
{
    let front = files.drop_last();
    let file = files.last();
    lemma_front_ascends(files);
    if k == files.len() - 1 {
        assert forall|i: int| 0 <= i < front.len() implies order::precedes(
            (#[trigger] front[i]).name,
            file.name,
        ) by {
            assert(front[i] == files[i]);
            assert(order::precedes(files[i].name, files[files.len() - 1].name));
        }
        lemma_nothing_before(state, front, file.name, now, stamp);
    } else {
        assert(front[k] == files[k]);
        assert(stands_at(state, front, k, now)) by {
            assert forall|i: int| k < i < front.len() implies transcript_hits(
                (#[trigger] front[i]).name,
                front[i].lines,
                0,
                now,
            ).len() == 0 by {
                assert(front[i] == files[i]);
            }
        }
        lemma_run_from(state, front, k, now, stamp);
        let (middle, hits) = files_indexed(state, front, now, stamp);
        assert(order::precedes(files[k].name, files[files.len() - 1].name));
        order::lemma_precedes_asymmetric(files[k].name, file.name);
        assert(transcript_hits(files[files.len() - 1].name, file.lines, 0, now).len() == 0);
        assert(hits + file_indexed(middle, file, now, stamp).1 =~= hits);
    }
}

proof fn lemma_front_ascends(files: Seq<FileView>)
    requires
        names_ascend(files),
        files.len() > 0,
    ensures
        names_ascend(files.drop_last()),
{
    let front = files.drop_last();
    assert forall|i: int, j: int| 0 <= i < j < front.len() implies order::precedes(
        (#[trigger] front[i]).name,
        (#[trigger] front[j]).name,
    ) by {
        assert(front[i] == files[i] && front[j] == files[j]);
    }
}

/// Where a run over transcripts leaves the cursor: where it was, or in a transcript of which the
/// entries from some line on are the last of the run.
proof fn lemma_where_it_stands(
    state: StateView,
    files: Seq<FileView>,
    now: i64,
    stamp: Seq<char>,
) -> (r: (int, nat))
    requires
        names_ascend(files),
    ensures
        ({
            let (after, hits) = files_indexed(state, files, now, stamp);
            ||| hits.len() == 0 && after == state
            ||| {
                &&& stands_at(after, files, r.0, now)
                &&& r.1 <= after.last_line
                &&& tail_of(transcript_hits(files[r.0].name, files[r.0].lines, r.1, now), hits)
            }
        }),
    decreases files.len(),
{
    if files.len() == 0 {
        (0, 0)
    } else {
        let front = files.drop_last();
        let file = files.last();
        lemma_front_ascends(files);
        let r = lemma_where_it_stands(state, front, now, stamp);
        let (middle, hits) = files_indexed(state, front, now, stamp);
        let (after, more) = file_indexed(middle, file, now, stamp);
        let n = files.len() - 1;
        if more.len() > 0 {
            let done = lines_done(middle, file.name)->0;
            assert((hits + more).skip(hits.len() as int) =~= more);
            (n, done)
        } else {
            assert(hits + more =~= hits);
            if hits.len() > 0 || middle != state {
                assert(stands_at(middle, front, r.0, now));
                let k = r.0;
                assert(front[k] == files[k]);
                assert(order::precedes(files[k].name, files[n].name));
                order::lemma_precedes_asymmetric(files[k].name, file.name);
                assert forall|i: int| k < i < files.len() implies transcript_hits(
                    (#[trigger] files[i]).name,
                    files[i].lines,
                    0,
                    now,
                ).len() == 0 by {
                    if i < n {
                        assert(front[i] == files[i]);
                    }
                }
            }
            r
        }
    }
}

/// Two entries are the same but for their times, and for the sort that depends on them.
pub open spec fn alike(a: HitView, b: HitView) -> bool {
    &&& a.id == b.id
    &&& a.role == b.role
    &&& a.session_id == b.session_id
    &&& a.source_file == b.source_file
    &&& a.source_line == b.source_line
    &&& a.mention_count == b.mention_count
    &&& a.content == b.content
}

/// Two lists of entries are the same but for their times.
pub open spec fn all_alike(a: Seq<HitView>, b: Seq<HitView>) -> bool {
    a.len() == b.len() && forall|i: int| 0 <= i < a.len() ==> alike(#[trigger] a[i], b[i])
}

/// Two lists of entries are the same but for the age in seconds and the sort that depends on it.
pub open spec fn same_but_age(a: Seq<HitView>, b: Seq<HitView>) -> bool {
    all_alike(a, b) && forall|i: int| 0 <= i < a.len() ==> (#[trigger] a[i]).ts == b[i].ts
}

proof fn lemma_hits_at_another_time(
    file: Seq<char>,
    lines: Seq<Option<LineView>>,
    done: nat,
    now: i64,
    later: i64,
)
    ensures
        same_but_age(
            transcript_hits(file, lines, done, later),
            transcript_hits(file, lines, done, now),
        ),
    decreases lines.len(),
{
    if lines.len() > 0 {
        lemma_hits_at_another_time(file, lines.drop_last(), done, now, later);
    }
}

proof fn lemma_run_at_another_time(
    state: StateView,
    files: Seq<FileView>,
    now: i64,
    stamp: Seq<char>,
    later: i64,
    later_stamp: Seq<char>,
)
    ensures
        ({
            let a = files_indexed(state, files, now, stamp);
            let b = files_indexed(state, files, later, later_stamp);
            same_but_age(b.1, a.1) && a.0.last_file == b.0.last_file && a.0.last_line
                == b.0.last_line
        }),
    decreases files.len(),
{
    if files.len() > 0 {
        let front = files.drop_last();
        let file = files.last();
        lemma_run_at_another_time(state, front, now, stamp, later, later_stamp);
        let (middle, hits) = files_indexed(state, front, now, stamp);
        let (other, others) = files_indexed(state, front, later, later_stamp);
        assert(lines_done(middle, file.name) == lines_done(other, file.name));
        if lines_done(middle, file.name) is Some {
            let done = lines_done(middle, file.name)->0;
            lemma_hits_at_another_time(file.name, file.lines, done, now, later);
        }
        let more = file_indexed(middle, file, now, stamp).1;
        let others_more = file_indexed(other, file, later, later_stamp).1;
        assert(same_but_age(others_more, more));
        lemma_same_but_age_pieces(others, hits, others_more, more);
    }
}

proof fn lemma_same_but_age_pieces(
    a: Seq<HitView>,
    b: Seq<HitView>,
    c: Seq<HitView>,
    d: Seq<HitView>,
)
    requires
        same_but_age(a, b),
        same_but_age(c, d),
    ensures
        same_but_age(a + c, b + d),
{
    assert forall|i: int| 0 <= i < (a + c).len() implies alike(#[trigger] (a + c)[i], (b + d)[i])
        && (a + c)[i].ts == (b + d)[i].ts by {
        if i < a.len() {
            assert((a + c)[i] == a[i] && (b + d)[i] == b[i]);
        } else {
            assert((a + c)[i] == c[i - a.len()] && (b + d)[i] == d[i - a.len()]);
        }
    }
}

/// The last entries of a list, but for the age in seconds and the sort that depends on it.
pub open spec fn aged_tail_of(tail: Seq<HitView>, all: Seq<HitView>) -> bool {
    tail.len() <= all.len() && same_but_age(tail, all.skip(all.len() - tail.len()))
}

/// Whatever the lines of the transcripts are, a second run adds at most what the first run added
/// last, so that it adds no entry that is not already there; at the same time, the very same
/// entries. The transcripts come in ascending order of their names.
pub proof fn law_second_run_repeats_at_most_a_tail(
    state: StateView,
    files: Seq<FileView>,
    now: i64,
    stamp: Seq<char>,
    later: i64,
    later_stamp: Seq<char>,
)
    requires
        names_ascend(files),
    ensures
        aged_tail_of(
            files_indexed(files_indexed(state, files, now, stamp).0, files, later, later_stamp).1,
            files_indexed(state, files, now, stamp).1,
        ),
        later == now ==> tail_of(
            files_indexed(files_indexed(state, files, now, stamp).0, files, later, later_stamp).1,
            files_indexed(state, files, now, stamp).1,
        ),
{
    let r = lemma_where_it_stands(state, files, now, stamp);
    let (after, hits) = files_indexed(state, files, now, stamp);
    let again = files_indexed(after, files, now, later_stamp).1;
    if hits.len() == 0 && after == state {
        lemma_run_at_another_time(state, files, now, stamp, now, later_stamp);
        assert(again =~= hits.skip(0));
    } else {
        let k = r.0;
        lemma_run_from(after, files, k, now, later_stamp);
        lemma_later_start(files[k].name, files[k].lines, r.1, after.last_line, now);
        assert(again =~= hits.skip(hits.len() - again.len()));
    }
    lemma_run_at_another_time(after, files, now, later_stamp, later, later_stamp);
}

proof fn lemma_memory_at_another_time(
    files: Seq<MemoryView>,
    mentions: Seq<Seq<char>>,
    now: i64,
    stamp: Seq<char>,
    later: i64,
    later_stamp: Seq<char>,
)
    ensures
        all_alike(
            memory_hits(files, mentions, later, later_stamp),
            memory_hits(files, mentions, now, stamp),
        ),
    decreases files.len(),
{
    if files.len() > 0 {
        let front = files.drop_last();
        lemma_memory_at_another_time(front, mentions, now, stamp, later, later_stamp);
        let a = memory_hits(front, mentions, now, stamp);
        let b = memory_hits(front, mentions, later, later_stamp);
        let all = memory_hits(files, mentions, now, stamp);
        let others = memory_hits(files, mentions, later, later_stamp);
        assert forall|i: int| 0 <= i < others.len() implies alike(#[trigger] others[i], all[i]) by {
            if i < b.len() {
                assert(others[i] == b[i] && all[i] == a[i]);
            }
        }
    }
}

/// The index after entries were written to it: each takes the place of the one of its identity.
pub open spec fn indexed(index: Map<Seq<char>, HitView>, written: Seq<HitView>) -> Map<
    Seq<char>,
    HitView,
>
    decreases written.len(),
{
    if written.len() == 0 {
        index
    } else {
        indexed(index, written.drop_last()).insert(written.last().id, written.last())
    }
}

/// The last entry of an identity in a list.
pub open spec fn last_of(list: Seq<HitView>, id: Seq<char>) -> Option<HitView>
    decreases list.len(),
{
    if list.len() == 0 {
        None
    } else if list.last().id == id {
        Some(list.last())
    } else {
        last_of(list.drop_last(), id)
    }
}

proof fn lemma_indexed(index: Map<Seq<char>, HitView>, written: Seq<HitView>, id: Seq<char>)
    ensures
        indexed(index, written).dom().contains(id) <==> index.dom().contains(id) || last_of(
            written,
            id,
        ) is Some,
        indexed(index, written).dom().contains(id) ==> indexed(index, written)[id] == match last_of(
            written,
            id,
        ) {
            Some(h) => h,
            None => index[id],
        },
    decreases written.len(),
{
    if written.len() > 0 {
        lemma_indexed(index, written.drop_last(), id);
    }
}

proof fn lemma_last_of_both(a: Seq<HitView>, b: Seq<HitView>, id: Seq<char>)
    ensures
        last_of(a + b, id) == match last_of(b, id) {
            Some(h) => Some(h),
            None => last_of(a, id),
        },
    decreases b.len(),
{
    if b.len() == 0 {
        assert(a + b =~= a);
    } else {
        assert((a + b).drop_last() =~= a + b.drop_last());
        assert((a + b).last() == b.last());
        lemma_last_of_both(a, b.drop_last(), id);
    }
}

proof fn lemma_last_of_alike(a: Seq<HitView>, b: Seq<HitView>, id: Seq<char>)
    requires
        all_alike(a, b),
    ensures
        last_of(a, id) is Some <==> last_of(b, id) is Some,
        last_of(a, id) is Some ==> alike(last_of(a, id)->0, last_of(b, id)->0),
    decreases a.len(),
{
    if a.len() > 0 {
        let n = a.len() - 1;
        assert(alike(a[n], b[n]));
        assert forall|i: int| 0 <= i < n implies alike(#[trigger] a.drop_last()[i], b.drop_last()[i]) by {
            assert(alike(a[i], b[i]));
        }
        lemma_last_of_alike(a.drop_last(), b.drop_last(), id);
    }
}

/// A second run over the same files, however much later, leaves the index as it is: the same
/// identities, and under each the same entry but for its times and the sort that depends on them.
/// The transcripts come in ascending order of their names; their lines need not be readable.
pub proof fn law_second_run_leaves_the_index(
    index: Map<Seq<char>, HitView>,
    state: StateView,
    files: Seq<FileView>,
    memory_files: Seq<MemoryView>,
    now: i64,
    stamp: Seq<char>,
    later: i64,
    later_stamp: Seq<char>,
)
    requires
        names_ascend(files),
    ensures
        ({
            let once = indexed(index, run_entries(state, files, memory_files, now, stamp));
            let twice = indexed(
                once,
                run_entries(
                    run_state(state, files, now, stamp),
                    files,
                    memory_files,
                    later,
                    later_stamp,
                ),
            );
            &&& twice.dom() == once.dom()
            &&& forall|id: Seq<char>| #[trigger]
                once.dom().contains(id) ==> alike(twice[id], once[id])
        }),
{
    let after = run_state(state, files, now, stamp);
    let first = run_entries(state, files, memory_files, now, stamp);
    let second = run_entries(after, files, memory_files, later, later_stamp);
    let once = indexed(index, first);
    let twice = indexed(once, second);
    let mentions = normalized_bullets(memory_files);
    let t1 = files_indexed(state, files, now, stamp).1;
    let m1 = memory_hits(memory_files, mentions, now, stamp);
    let t2 = files_indexed(after, files, later, later_stamp).1;
    let m2 = memory_hits(memory_files, mentions, later, later_stamp);
    lemma_memory_at_another_time(memory_files, mentions, now, stamp, later, later_stamp);
    law_second_run_repeats_at_most_a_tail(state, files, now, stamp, later, later_stamp);
    lemma_cursor_alone_counts(
        after,
        files_indexed(state, files, now, stamp).0,
        files,
        later,
        later_stamp,
    );
    let tail = t1.skip(t1.len() - t2.len());
    let front = t1.take(t1.len() - t2.len());
    assert(front + tail =~= t1);
    assert forall|id: Seq<char>|
        (twice.dom().contains(id) <==> once.dom().contains(id)) && (once.dom().contains(id)
            ==> alike(#[trigger] twice[id], once[id])) by {
        lemma_indexed(index, first, id);
        lemma_indexed(once, second, id);
        lemma_last_of_both(t1, m1, id);
        lemma_last_of_both(t2, m2, id);
        lemma_last_of_both(front, tail, id);
        lemma_last_of_alike(m2, m1, id);
        lemma_last_of_alike(t2, tail, id);
    }
    assert forall|id: Seq<char>| twice.dom().contains(id) <==> once.dom().contains(id) by {
        let entry = twice[id];
    }
    assert(twice.dom() =~= once.dom());
}

/// What a run over transcripts adds depends on the cursor alone, not on the rest of the state.
proof fn lemma_cursor_alone_counts(
    a: StateView,
    b: StateView,
    files: Seq<FileView>,
    now: i64,
    stamp: Seq<char>,
)
    requires
        a.last_file == b.last_file,
        a.last_line == b.last_line,
    ensures
        ({
            let x = files_indexed(a, files, now, stamp);
            let y = files_indexed(b, files, now, stamp);
            x.1 == y.1 && x.0.last_file == y.0.last_file && x.0.last_line == y.0.last_line
        }),
    decreases files.len(),
{
    if files.len() > 0 {
        lemma_cursor_alone_counts(a, b, files.drop_last(), now, stamp);
    }
}

/// A line that is appended to the transcript at the cursor becomes the one new entry of the next
/// run.
pub proof fn law_appended_line_is_indexed(
    state: StateView,
    file: FileView,
    line: LineView,
    now: i64,
    stamp: Seq<char>,
)
    requires
        state.last_file == Some(file.name),
        state.last_line == file.lines.len(),
    ensures
        file_indexed(
            state,
            (FileView { lines: file.lines.push(Some(line)), ..file }),
            now,
            stamp,
        ).1 == seq![transcript_hit(file.name, file.lines.len() + 1, line, now)],
        file_indexed(
            state,
            (FileView { lines: file.lines.push(Some(line)), ..file }),
            now,
            stamp,
        ).0.last_line == file.lines.len() + 1,
{
    let lines = file.lines.push(Some(line));
    let done = file.lines.len();
    assert(lines.drop_last() =~= file.lines);
    lemma_hits_fit(file.name, file.lines, done, now);
    assert(transcript_hits(file.name, file.lines, done, now) =~= Seq::<HitView>::empty());
    assert(transcript_hits(file.name, lines, done, now) =~= seq![
        transcript_hit(file.name, file.lines.len() + 1, line, now),
    ]);
}

proof fn lemma_occurs(list: Seq<Seq<char>>, s: Seq<char>)
    requires
        list.contains(s),
    ensures
        occurrences(list, s) >= 1,
    decreases list.len(),
{
    if list.last() != s {
        let k = choose|k: int| 0 <= k < list.len() && list[k] == s;
        assert(list.drop_last()[k] == s);
        lemma_occurs(list.drop_last(), s);
    }
}

proof fn lemma_hits_mentioned(
    files: Seq<MemoryView>,
    mentions: Seq<Seq<char>>,
    now: i64,
    stamp: Seq<char>,
)
    requires
        forall|i: int|
            0 <= i < normalized_bullets(files).len() ==> mentions.contains(
                #[trigger] normalized_bullets(files)[i],
            ),
    ensures
        forall|i: int|
            0 <= i < memory_hits(files, mentions, now, stamp).len() ==> (
            #[trigger] memory_hits(files, mentions, now, stamp)[i]).mention_count >= 1,
    decreases files.len(),
{
    if files.len() > 0 {
        let front = files.drop_last();
        let file = files.last();
        let found = bullets(file.lines);
        let normal = found.map_values(|b: (nat, Seq<char>)| entries::normalized(b.1));
        let all = normalized_bullets(files);
        let before = normalized_bullets(front);
        assert(all == before + normal);
        assert forall|i: int| 0 <= i < before.len() implies mentions.contains(
            #[trigger] before[i],
        ) by {
            assert(all[i] == before[i]);
        }
        lemma_hits_mentioned(front, mentions, now, stamp);
        let hits = memory_hits(files, mentions, now, stamp);
        let head = memory_hits(front, mentions, now, stamp);
        assert forall|i: int| 0 <= i < hits.len() implies (#[trigger] hits[i]).mention_count >= 1 by {
            if i < head.len() {
                assert(hits[i] == head[i]);
            } else {
                let j = i - head.len();
                assert(all[before.len() + j] == entries::normalized(found[j].1));
                lemma_occurs(mentions, entries::normalized(found[j].1));
            }
        }
    }
}

/// Every entry of the memory files counts itself among its mentions.
pub proof fn law_entries_mention_themselves(files: Seq<MemoryView>, now: i64, stamp: Seq<char>)
    ensures
        forall|i: int|
            0 <= i < memory_hits(files, normalized_bullets(files), now, stamp).len() ==> (
            #[trigger] memory_hits(
                files,
                normalized_bullets(files),
                now,
                stamp,
            )[i]).mention_count >= 1,
{
    lemma_hits_mentioned(files, normalized_bullets(files), now, stamp);
}

} // verus!
