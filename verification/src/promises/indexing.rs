//! What the indexer is for: every new line has its entry, and an entry holds its line.

use std::collections::hash_map::DefaultHasher;

use vstd::prelude::*;
use vstd::std_specs::hash::DefaultHasherAdditionalSpecFns;

use crate::entries::{HitView, LineView};
use crate::indexer::{FileView, MemoryView, StateView};
use crate::promises::{facts, places, words};
use crate::{curator, entries, indexer, layout, numerals, order, search, text};

verus! {

/// The entry of a transcript line: who said what, when and where, as the line has it.
pub open spec fn records(hit: HitView, file: Seq<char>, n: int, l: LineView, now: i64) -> bool {
    &&& hit.content == l.content
    &&& hit.ts == l.ts
    &&& hit.role == l.role
    &&& hit.session_id == l.session_id
    &&& hit.source_file == file
    &&& hit.source_line == n
    &&& hit.mention_count == 1
    &&& hit.id == entries::entry_id(file, n as nat, l.content)
    &&& entries::rfc3339_seconds(l.ts) matches Some(t) ==> hit.ts_epoch == t
    &&& entries::rfc3339_seconds(l.ts) is None ==> hit.ts_epoch == now
    &&& "MEMORY-"@.is_prefix_of(file) ==> hit.source_type == "memory"@
    &&& !"MEMORY-"@.is_prefix_of(file) && now - hit.ts_epoch <= 2 * 24 * 60 * 60
        ==> hit.source_type == "transcript_hot"@
    &&& !"MEMORY-"@.is_prefix_of(file) && now - hit.ts_epoch > 2 * 24 * 60 * 60
        ==> hit.source_type == "transcript_archive"@
}

/// The entry of a line holds the line as it is, whole.
pub proof fn law_an_entry_holds_its_line(
    file: Seq<char>,
    line: nat,
    l: LineView,
    ts_epoch: i64,
    now: i64,
)
    ensures
        ({
            let hit = indexer::hit_at(file, line, l, ts_epoch, now);
            &&& hit.content == l.content
            &&& hit.ts == l.ts
            &&& hit.role == l.role
            &&& hit.session_id == l.session_id
            &&& hit.source_file == file
            &&& hit.source_line == line
            &&& hit.ts_epoch == ts_epoch
        }),
        records(indexer::transcript_hit(file, line, l, now), file, line as int, l, now),
{
}

/// The entries of a transcript are those of its readable lines behind the first `done` ones: one
/// for each, in their order, with what the line holds. The places of these lines are returned.
pub proof fn law_every_new_line_has_its_entry(
    file: Seq<char>,
    lines: Seq<Option<LineView>>,
    done: nat,
    now: i64,
) -> (at: Seq<int>)
    ensures
        places::lists_new(at, lines, done),
        indexer::transcript_hits(file, lines, done, now).len() == at.len(),
        forall|i: int|
            0 <= i < at.len() ==> {
                let hit = #[trigger] indexer::transcript_hits(file, lines, done, now)[i];
                &&& hit.source_line == at[i]
                &&& hit.content == lines[hit.source_line - 1]->0.content
                &&& records(hit, file, at[i], lines[at[i] - 1]->0, now)
            },
{
    places::lemma_new_numbers(lines, done);
    lemma_entries(file, lines, done, now);
    places::new_numbers(lines, done)
}

proof fn lemma_entries(file: Seq<char>, lines: Seq<Option<LineView>>, done: nat, now: i64)
    ensures
        ({
            let at = places::new_numbers(lines, done);
            let hits = indexer::transcript_hits(file, lines, done, now);
            &&& hits.len() == at.len()
            &&& forall|i: int|
                #![trigger hits[i]]
                #![trigger at[i]]
                0 <= i < at.len() ==> {
                    &&& 0 < at[i] <= lines.len()
                    &&& hits[i] == indexer::transcript_hit(
                        file,
                        at[i] as nat,
                        lines[at[i] - 1]->0,
                        now,
                    )
                }
        }),
    decreases lines.len(),
{
    if lines.len() > 0 {
        let front = lines.drop_last();
        lemma_entries(file, front, done, now);
        let at = places::new_numbers(lines, done);
        let hits = indexer::transcript_hits(file, lines, done, now);
        let earlier = indexer::transcript_hits(file, front, done, now);
        let before = places::new_numbers(front, done);
        assert forall|i: int|
            #![trigger hits[i]]
            #![trigger at[i]]
            0 <= i < at.len() implies {
            &&& 0 < at[i] <= lines.len()
            &&& hits[i] == indexer::transcript_hit(
                file,
                at[i] as nat,
                lines[at[i] - 1]->0,
                now,
            )
        } by {
            if i < before.len() {
                assert(hits[i] == earlier[i] && at[i] == before[i]);
                assert(front[before[i] - 1] == lines[before[i] - 1]);
            } else {
                assert(lines.last() == lines[at[i] - 1]);
            }
        }
    }
}

/// The names of the transcripts.
pub open spec fn names_of(files: Seq<FileView>) -> Seq<Seq<char>> {
    Seq::new(files.len(), |k: int| files[k].name)
}

/// The lines of the transcripts.
pub open spec fn texts_of(files: Seq<FileView>) -> Seq<Seq<Option<LineView>>> {
    Seq::new(files.len(), |k: int| files[k].lines)
}

proof fn lemma_one_file(
    state: StateView,
    first: StateView,
    files: Seq<FileView>,
    earlier: Seq<HitView>,
    before: Seq<(int, int)>,
    now: i64,
    stamp: Seq<char>,
)
    requires
        files.len() > 0,
        indexer::lines_done(state, files.last().name) == indexer::lines_done(
            first,
            files.last().name,
        ),
        before == places::places_ahead(
            first.last_file,
            first.last_line,
            names_of(files),
            texts_of(files).drop_last(),
        ),
        earlier.len() == before.len(),
        forall|i: int|
            0 <= i < before.len() ==> {
                &&& 0 <= (#[trigger] before[i]).0 < files.len() - 1
                &&& records(
                    earlier[i],
                    files[before[i].0].name,
                    before[i].1,
                    files[before[i].0].lines[before[i].1 - 1]->0,
                    now,
                )
            },
    ensures
        ({
            let at = places::places_ahead(
                first.last_file,
                first.last_line,
                names_of(files),
                texts_of(files),
            );
            let all = earlier + indexer::file_indexed(state, files.last(), now, stamp).1;
            &&& all.len() == at.len()
            &&& forall|i: int|
                0 <= i < at.len() ==> {
                    &&& 0 <= at[i].0 < files.len()
                    &&& records(
                        #[trigger] all[i],
                        files[at[i].0].name,
                        at[i].1,
                        files[at[i].0].lines[at[i].1 - 1]->0,
                        now,
                    )
                }
        }),
{
    let file = files.last();
    let k = files.len() - 1;
    assert(file == files[k]);
    assert(texts_of(files).last() == file.lines);
    assert(names_of(files)[k] == file.name);
    let at = places::places_ahead(
        first.last_file,
        first.last_line,
        names_of(files),
        texts_of(files),
    );
    let more = indexer::file_indexed(state, file, now, stamp).1;
    let all = earlier + more;
    match indexer::lines_done(first, file.name) {
        None => {},
        Some(done) => {
            lemma_entries(file.name, file.lines, done, now);
            let numbers = places::new_numbers(file.lines, done);
            assert(more.len() == numbers.len());
            assert forall|i: int| 0 <= i < at.len() implies {
                &&& 0 <= at[i].0 < files.len()
                &&& records(
                    #[trigger] all[i],
                    files[at[i].0].name,
                    at[i].1,
                    files[at[i].0].lines[at[i].1 - 1]->0,
                    now,
                )
            } by {
                if i < before.len() {
                    assert(at[i] == before[i]);
                    assert(all[i] == earlier[i]);
                } else {
                    let j = i - before.len();
                    assert(at[i] == (k, numbers[j]));
                    assert(all[i] == more[j]);
                    law_an_entry_holds_its_line(
                        file.name,
                        numbers[j] as nat,
                        file.lines[numbers[j] - 1]->0,
                        entries::epoch_or_now(
                            entries::rfc3339_seconds(file.lines[numbers[j] - 1]->0.ts),
                            now,
                        ),
                        now,
                    );
                }
            }
        },
    }
}

proof fn lemma_names_and_texts(files: Seq<FileView>)
    requires
        files.len() > 0,
    ensures
        texts_of(files).drop_last() == texts_of(files.drop_last()),
        forall|last_file: Option<Seq<char>>, last_line: nat| #[trigger]
            places::places_ahead(
                last_file,
                last_line,
                names_of(files),
                texts_of(files.drop_last()),
            ) == places::places_ahead(
                last_file,
                last_line,
                names_of(files.drop_last()),
                texts_of(files.drop_last()),
            ),
{
    assert(texts_of(files).drop_last() =~= texts_of(files.drop_last()));
    assert forall|last_file: Option<Seq<char>>, last_line: nat| #[trigger]
        places::places_ahead(last_file, last_line, names_of(files), texts_of(files.drop_last()))
            == places::places_ahead(
            last_file,
            last_line,
            names_of(files.drop_last()),
            texts_of(files.drop_last()),
        ) by {
        lemma_same_names(
            last_file,
            last_line,
            names_of(files),
            names_of(files.drop_last()),
            texts_of(files.drop_last()),
        );
    }
}

proof fn lemma_same_names(
    last_file: Option<Seq<char>>,
    last_line: nat,
    a: Seq<Seq<char>>,
    b: Seq<Seq<char>>,
    texts: Seq<Seq<Option<LineView>>>,
)
    requires
        forall|k: int| 0 <= k < texts.len() ==> #[trigger] a[k] == b[k],
    ensures
        places::places_ahead(last_file, last_line, a, texts) == places::places_ahead(
            last_file,
            last_line,
            b,
            texts,
        ),
    decreases texts.len(),
{
    if texts.len() > 0 {
        lemma_same_names(last_file, last_line, a, b, texts.drop_last());
        assert(a[texts.len() - 1] == b[texts.len() - 1]);
    }
}

/// A run over transcripts in ascending order of their names makes an entry of each readable line
/// ahead of the cursor, in order, with what the line holds, and no others. The places of these
/// lines are returned.
pub proof fn law_a_run_indexes_every_new_line(
    state: StateView,
    files: Seq<FileView>,
    now: i64,
    stamp: Seq<char>,
) -> (at: Seq<(int, int)>)
    requires
        indexer::names_ascend(files),
    ensures
        places::lists_ahead(
            at,
            state.last_file,
            state.last_line,
            names_of(files),
            texts_of(files),
        ),
        indexer::files_indexed(state, files, now, stamp).1.len() == at.len(),
        forall|i: int|
            0 <= i < at.len() ==> records(
                #[trigger] indexer::files_indexed(state, files, now, stamp).1[i],
                files[at[i].0].name,
                at[i].1,
                files[at[i].0].lines[at[i].1 - 1]->0,
                now,
            ),
{
    places::lemma_places_ahead(
        state.last_file,
        state.last_line,
        names_of(files),
        texts_of(files),
    );
    lemma_run(state, files, now, stamp);
    places::places_ahead(state.last_file, state.last_line, names_of(files), texts_of(files))
}

/// Where the cursor stands after a run: where it stood, or in one of the transcripts, none of
/// whose lines lay behind it as a whole.
spec fn cursor_follows(state: StateView, after: StateView, files: Seq<FileView>) -> bool {
    (after.last_file == state.last_file && after.last_line == state.last_line) || exists|k: int|
        0 <= k < files.len() && after.last_file == Some((#[trigger] files[k]).name)
            && indexer::lines_done(state, files[k].name) is Some
}

proof fn lemma_run(state: StateView, files: Seq<FileView>, now: i64, stamp: Seq<char>)
    requires
        indexer::names_ascend(files),
    ensures
        ({
            let at = places::places_ahead(
                state.last_file,
                state.last_line,
                names_of(files),
                texts_of(files),
            );
            let (after, all) = indexer::files_indexed(state, files, now, stamp);
            &&& cursor_follows(state, after, files)
            &&& all.len() == at.len()
            &&& forall|i: int|
                0 <= i < at.len() ==> {
                    &&& 0 <= at[i].0 < files.len()
                    &&& records(
                        #[trigger] all[i],
                        files[at[i].0].name,
                        at[i].1,
                        files[at[i].0].lines[at[i].1 - 1]->0,
                        now,
                    )
                }
        }),
    decreases files.len(),
{
    if files.len() > 0 {
        let front = files.drop_last();
        let file = files.last();
        let last = files.len() - 1;
        assert(file == files[last]);
        assert forall|i: int, j: int| 0 <= i < j < front.len() implies order::precedes(
            (#[trigger] front[i]).name,
            (#[trigger] front[j]).name,
        ) by {
            assert(front[i] == files[i] && front[j] == files[j]);
        }
        lemma_run(state, front, now, stamp);
        lemma_names_and_texts(files);
        let (mid, earlier) = indexer::files_indexed(state, front, now, stamp);
        let before = places::places_ahead(
            state.last_file,
            state.last_line,
            names_of(files),
            texts_of(files).drop_last(),
        );
        assert forall|i: int| 0 <= i < before.len() implies {
            &&& 0 <= (#[trigger] before[i]).0 < files.len() - 1
            &&& records(
                earlier[i],
                files[before[i].0].name,
                before[i].1,
                files[before[i].0].lines[before[i].1 - 1]->0,
                now,
            )
        } by {
            let hit = earlier[i];
            assert(front[before[i].0] == files[before[i].0]);
        }
        if !(mid.last_file == state.last_file && mid.last_line == state.last_line) {
            let k = choose|k: int|
                0 <= k < front.len() && mid.last_file == Some((#[trigger] front[k]).name)
                    && indexer::lines_done(state, front[k].name) is Some;
            assert(front[k] == files[k]);
            assert(order::precedes(files[k].name, files[last].name));
            order::lemma_precedes_asymmetric(files[k].name, file.name);
            if state.last_file is Some && state.last_file->0 != files[k].name {
                order::lemma_precedes_transitive(state.last_file->0, files[k].name, file.name);
            }
            if state.last_file is Some {
                order::lemma_precedes_asymmetric(state.last_file->0, file.name);
            }
            assert(indexer::lines_done(mid, file.name) == Some(0nat));
            assert(indexer::lines_done(state, file.name) == Some(0nat));
            assert(files[k].name == front[k].name);
        }
        lemma_one_file(mid, state, files, earlier, before, now, stamp);
        let after = indexer::files_indexed(state, files, now, stamp).0;
        if after.last_file == mid.last_file && after.last_line == mid.last_line {
        } else {
            assert(after.last_file == Some(files[last].name));
        }
    }
}

/// For the vector index every readable line of every transcript has its entry, in order, with
/// what the line holds. The places of these lines are returned.
pub proof fn law_the_vector_index_gets_every_line(files: Seq<FileView>, now: i64) -> (at: Seq<
    (int, int),
>)
    ensures
        places::lists_ahead(at, None, 0, names_of(files), texts_of(files)),
        indexer::all_transcript_hits(files, now).len() == at.len(),
        forall|i: int|
            0 <= i < at.len() ==> records(
                #[trigger] indexer::all_transcript_hits(files, now)[i],
                files[at[i].0].name,
                at[i].1,
                files[at[i].0].lines[at[i].1 - 1]->0,
                now,
            ),
{
    places::lemma_places_ahead(None, 0, names_of(files), texts_of(files));
    lemma_all(files, now);
    places::places_ahead(None, 0, names_of(files), texts_of(files))
}

proof fn lemma_all(files: Seq<FileView>, now: i64)
    ensures
        ({
            let at = places::places_ahead(None, 0, names_of(files), texts_of(files));
            let all = indexer::all_transcript_hits(files, now);
            &&& all.len() == at.len()
            &&& forall|i: int|
                0 <= i < at.len() ==> {
                    &&& 0 <= at[i].0 < files.len()
                    &&& records(
                        #[trigger] all[i],
                        files[at[i].0].name,
                        at[i].1,
                        files[at[i].0].lines[at[i].1 - 1]->0,
                        now,
                    )
                }
        }),
    decreases files.len(),
{
    if files.len() > 0 {
        let front = files.drop_last();
        lemma_all(front, now);
        lemma_names_and_texts(files);
        let before = places::places_ahead(
            None,
            0,
            names_of(files),
            texts_of(files).drop_last(),
        );
        let earlier = indexer::all_transcript_hits(front, now);
        assert forall|i: int| 0 <= i < before.len() implies {
            &&& 0 <= (#[trigger] before[i]).0 < files.len() - 1
            &&& records(
                earlier[i],
                files[before[i].0].name,
                before[i].1,
                files[before[i].0].lines[before[i].1 - 1]->0,
                now,
            )
        } by {
            let hit = earlier[i];
            assert(front[before[i].0] == files[before[i].0]);
        }
        let fresh = indexer::fresh_state();
        lemma_one_file(fresh, fresh, files, earlier, before, now, Seq::empty());
    }
}

// ---------------------------------------------------------------------------------------
// Memory files

/// A line of a memory file is an entry exactly where its first character that is no white space
/// is a dash; its content is the line without the white space around it.
pub proof fn law_items_of_a_list_are_entries(
    before: Seq<char>,
    w: Seq<char>,
    after: Seq<char>,
)
    requires
        layout::all_white(before),
        layout::all_white(after),
        facts::tight(w),
    ensures
        indexer::bullet(before + w + after) <==> w[0] == '-',
        !indexer::bullet(before),
        w[0] == '-' ==> indexer::bullets(seq![before + w + after]) == seq![(1nat, w)],
        w[0] != '-' ==> indexer::bullets(seq![before + w + after]).len() == 0,
        indexer::bullets(seq![before]).len() == 0,
{
    facts::lemma_padded(before, w, after);
    facts::lemma_filled(before);
    reveal_with_fuel(indexer::bullets, 2);
    let one = seq![before + w + after];
    assert(one.last() == before + w + after);
    assert(one.drop_last() =~= Seq::empty());
    assert(seq![before].last() == before);
    assert(seq![before].drop_last() =~= Seq::empty());
    if w[0] == '-' {
        assert(indexer::bullets(one) =~= seq![(1nat, w)]);
    }
}

/// A line of a memory file that is an item of a list.
pub open spec fn item(line: Seq<char>) -> bool {
    exists|before: Seq<char>, w: Seq<char>, after: Seq<char>|
        layout::all_white(before) && layout::all_white(after) && facts::tight(w) && w[0] == '-'
            && line == #[trigger] (before + w + after)
}

proof fn lemma_item(line: Seq<char>)
    ensures
        item(line) <==> indexer::bullet(line),
{
    if item(line) {
        let (before, w, after) = choose|before: Seq<char>, w: Seq<char>, after: Seq<char>|
            layout::all_white(before) && layout::all_white(after) && facts::tight(w) && w[0] == '-'
                && line == #[trigger] (before + w + after);
        law_items_of_a_list_are_entries(before, w, after);
    }
    if indexer::bullet(line) {
        let (before, after) = facts::lemma_trimmed_parts(line);
        assert(line == before + text::trimmed(line) + after);
    }
}

/// Every item of a memory file is an entry, in order, under its line number and with the whole
/// line but for the white space around it, and nothing else is. The numbers are returned.
pub proof fn law_every_item_has_its_entry(lines: Seq<Seq<char>>) -> (at: Seq<int>)
    ensures
        at.len() == indexer::bullets(lines).len(),
        forall|i: int, j: int| 0 <= i < j < at.len() ==> #[trigger] at[i] < #[trigger] at[j],
        forall|i: int|
            0 <= i < at.len() ==> {
                &&& 0 < #[trigger] at[i] <= lines.len()
                &&& item(lines[at[i] - 1])
                &&& indexer::bullets(lines)[i] == (at[i] as nat, text::trimmed(lines[at[i] - 1]))
            },
        forall|n: int| 0 < n <= lines.len() && item(#[trigger] lines[n - 1]) ==> at.contains(n),
    decreases lines.len(),
{
    if lines.len() == 0 {
        Seq::empty()
    } else {
        let front = lines.drop_last();
        let before = law_every_item_has_its_entry(front);
        let n = lines.len() as int;
        lemma_item(lines.last());
        assert(lines.last() == lines[n - 1]);
        let at = if indexer::bullet(lines.last()) {
            before.push(n)
        } else {
            before
        };
        assert forall|i: int| 0 <= i < at.len() implies {
            &&& 0 < #[trigger] at[i] <= lines.len()
            &&& item(lines[at[i] - 1])
            &&& indexer::bullets(lines)[i] == (at[i] as nat, text::trimmed(lines[at[i] - 1]))
        } by {
            if i < before.len() {
                assert(at[i] == before[i]);
                assert(front[before[i] - 1] == lines[before[i] - 1]);
            }
        }
        assert forall|i: int, j: int| 0 <= i < j < at.len() implies #[trigger] at[i] < #[trigger] at[j] by {
            assert(at[i] == before[i]);
            if j < before.len() {
                assert(at[j] == before[j]);
            }
        }
        assert forall|m: int| 0 < m <= lines.len() && item(#[trigger] lines[m - 1]) implies at.contains(
            m,
        ) by {
            if m < n {
                assert(front[m - 1] == lines[m - 1]);
                let k = choose|k: int| 0 <= k < before.len() && before[k] == m;
                assert(at[k] == m);
            } else {
                assert(at[before.len() as int] == m);
            }
        }
        at
    }
}

/// The entries of memory files are those of their items, file by file and in order, each with the
/// file, the number and the content of its line, at the time of the run.
pub proof fn law_memory_entries_hold_their_items(
    files: Seq<MemoryView>,
    file: MemoryView,
    mentions: Seq<Seq<char>>,
    now: i64,
    stamp: Seq<char>,
)
    ensures
        ({
            let before = indexer::memory_hits(files, mentions, now, stamp);
            let all = indexer::memory_hits(files.push(file), mentions, now, stamp);
            let items = indexer::bullets(file.lines);
            &&& indexer::memory_hits(Seq::empty(), mentions, now, stamp).len() == 0
            &&& all.len() == before.len() + items.len()
            &&& forall|i: int| 0 <= i < before.len() ==> #[trigger] all[i] == before[i]
            &&& forall|i: int|
                0 <= i < items.len() ==> {
                    let hit = #[trigger] all[before.len() + i];
                    &&& hit.content == items[i].1
                    &&& hit.source_line == items[i].0
                    &&& hit.source_file == file.name
                    &&& hit.source_type == "memory"@
                    &&& hit.role == "memory"@
                    &&& hit.session_id == "memory"@
                    &&& hit.ts == stamp
                    &&& hit.ts_epoch == now
                    &&& hit.id == entries::memory_line_id(file.name, items[i].0)
                    &&& hit.mention_count == indexer::occurrences(
                        mentions,
                        entries::normalized(items[i].1),
                    )
                }
        }),
{
    assert(files.push(file).drop_last() =~= files);
}

/// An entry of a memory file counts the items of all files that are the same once normalized.
pub proof fn law_mentions_are_counted(
    files: Seq<MemoryView>,
    file: MemoryView,
    s: Seq<char>,
    line: Seq<char>,
)
    ensures
        ({
            let more = MemoryView { name: file.name, lines: file.lines.push(line) };
            let before = indexer::occurrences(indexer::normalized_bullets(files.push(file)), s);
            let after = indexer::occurrences(indexer::normalized_bullets(files.push(more)), s);
            &&& indexer::occurrences(indexer::normalized_bullets(Seq::empty()), s) == 0
            &&& item(line) && entries::normalized(text::trimmed(line)) == s ==> after == before + 1
            &&& !item(line) || entries::normalized(text::trimmed(line)) != s ==> after == before
            &&& file.lines.len() == 0 ==> before == indexer::occurrences(
                indexer::normalized_bullets(files),
                s,
            )
        }),
{
    lemma_item(line);
    let more = MemoryView { name: file.name, lines: file.lines.push(line) };
    assert(files.push(file).drop_last() =~= files);
    assert(files.push(more).drop_last() =~= files);
    assert(more.lines.drop_last() =~= file.lines);
    let a = indexer::normalized_bullets(files.push(file));
    let b = indexer::normalized_bullets(files.push(more));
    if indexer::bullet(line) {
        assert(b =~= a.push(entries::normalized(text::trimmed(line))));
        assert(b.drop_last() =~= a);
    } else {
        assert(b =~= a);
    }
    if file.lines.len() == 0 {
        assert(a =~= indexer::normalized_bullets(files));
    }
}

/// A run leaves the entries of the transcripts and of all memory files, in this order, and notes
/// the time of the second.
pub proof fn law_a_run_covers_transcripts_and_memory(
    state: StateView,
    files: Seq<FileView>,
    memory_files: Seq<MemoryView>,
    now: i64,
    stamp: Seq<char>,
)
    ensures
        ({
            let all = indexer::run_entries(state, files, memory_files, now, stamp);
            let new = indexer::files_indexed(state, files, now, stamp).1;
            &&& new.is_prefix_of(all)
            &&& all.skip(new.len() as int) == indexer::memory_hits(
                memory_files,
                indexer::normalized_bullets(memory_files),
                now,
                stamp,
            )
            &&& indexer::run_state(state, files, now, stamp).last_memory_reindex_at == stamp
        }),
{
    let all = indexer::run_entries(state, files, memory_files, now, stamp);
    let new = indexer::files_indexed(state, files, now, stamp).1;
    assert(new =~= all.take(new.len() as int));
    assert(all.skip(new.len() as int) =~= indexer::memory_hits(
        memory_files,
        indexer::normalized_bullets(memory_files),
        now,
        stamp,
    ));
}

// ---------------------------------------------------------------------------------------
// Files

/// The transcripts and the memory files are told by the front and the end of their names.
pub proof fn law_files_are_told_by_their_names(d: Seq<char>, name: Seq<char>)
    ensures
        indexer::transcript_name("session-"@ + d + ".jsonl"@),
        indexer::transcript_name(name) <==> "session-"@.is_prefix_of(name)
            && ".jsonl"@.is_suffix_of(name),
        indexer::memory_name("MEMORY-"@ + d + ".md"@),
        indexer::memory_name(name) <==> "MEMORY-"@.is_prefix_of(name) && ".md"@.is_suffix_of(name),
        indexer::memory_name(curator::memory_file_name(d)),
{
    let a = "session-"@ + d + ".jsonl"@;
    assert("session-"@ =~= a.subrange(0, "session-"@.len() as int));
    assert(".jsonl"@ =~= a.subrange(a.len() - ".jsonl"@.len(), a.len() as int));
    let b = "MEMORY-"@ + d + ".md"@;
    assert("MEMORY-"@ =~= b.subrange(0, "MEMORY-"@.len() as int));
    assert(".md"@ =~= b.subrange(b.len() - ".md"@.len(), b.len() as int));
}

/// Every transcript of a directory is listed, and nothing else, in ascending order; so is every
/// memory file.
pub proof fn law_every_file_is_listed(
    listed: Seq<Seq<char>>,
    names: Seq<Seq<char>>,
    name: Seq<char>,
)
    ensures
        indexer::lists_transcripts(listed, names) ==> {
            &&& listed.contains(name) <==> names.contains(name) && "session-"@.is_prefix_of(name)
                && ".jsonl"@.is_suffix_of(name)
            &&& forall|i: int, j: int|
                0 <= i < j < listed.len() ==> !order::precedes(
                    #[trigger] listed[j],
                    #[trigger] listed[i],
                )
        },
        indexer::lists_memory_files(listed, names) ==> {
            &&& listed.contains(name) <==> names.contains(name) && "MEMORY-"@.is_prefix_of(name)
                && ".md"@.is_suffix_of(name)
            &&& forall|i: int, j: int|
                0 <= i < j < listed.len() ==> !order::precedes(
                    #[trigger] listed[j],
                    #[trigger] listed[i],
                )
        },
{
    broadcast use vstd::seq_lib::group_to_multiset_ensures;

    let a = |n: Seq<char>| indexer::transcript_name(n);
    let b = |n: Seq<char>| indexer::memory_name(n);
    lemma_filtered(names, a, name);
    lemma_filtered(names, b, name);
    assert(listed.contains(name) <==> listed.to_multiset().count(name) > 0);
    assert(names.filter(a).contains(name) <==> names.filter(a).to_multiset().count(name) > 0);
    assert(names.filter(b).contains(name) <==> names.filter(b).to_multiset().count(name) > 0);
}

proof fn lemma_filtered(names: Seq<Seq<char>>, fits: spec_fn(Seq<char>) -> bool, name: Seq<char>)
    ensures
        names.filter(fits).contains(name) <==> names.contains(name) && fits(name),
    decreases names.len(),
{
    reveal(Seq::filter);
    if names.len() > 0 {
        let front = names.drop_last();
        let last = names.last();
        lemma_filtered(front, fits, name);
        let before = front.filter(fits);
        let all = names.filter(fits);
        assert(names[names.len() - 1] == last);
        if names.contains(name) && name != last {
            let k = choose|k: int| 0 <= k < names.len() && names[k] == name;
            assert(front[k] == name);
        }
        if front.contains(name) {
            let k = choose|k: int| 0 <= k < front.len() && front[k] == name;
            assert(names[k] == name);
        }
        if fits(last) {
            assert(all == before.push(last));
            assert(all[before.len() as int] == last);
            if before.contains(name) {
                let k = choose|k: int| 0 <= k < before.len() && before[k] == name;
                assert(all[k] == name);
            }
            if all.contains(name) && name != last {
                let k = choose|k: int| 0 <= k < all.len() && all[k] == name;
                assert(before[k] == name);
            }
        }
    }
}

// ---------------------------------------------------------------------------------------
// Identities

/// The identity of an entry names its line, and is made of the hash of its file, its line and its
/// words in lower case: entries of different lines have different identities.
pub proof fn law_an_identity_names_its_place(
    file: Seq<char>,
    line: u64,
    content: Seq<char>,
    other_file: Seq<char>,
    other_line: u64,
    other: Seq<char>,
)
    ensures
        entries::entry_id(file, line as nat, content) == "mem-"@ + numerals::decimal(line as nat)
            + "-"@ + numerals::hexadecimal(
            DefaultHasher::spec_finish(
                seq![
                    vstd::utf8::encode_utf8(file),
                    seq![0xffu8],
                    vstd::bytes::spec_u64_to_le_bytes(line),
                    vstd::utf8::encode_utf8(entries::normalized(content)),
                    seq![0xffu8],
                ],
            ) as nat,
            16,
        ),
        entries::memory_line_id(file, line as nat) == "mline-"@ + numerals::decimal(line as nat)
            + "-"@ + numerals::hexadecimal(
            DefaultHasher::spec_finish(
                seq![
                    vstd::utf8::encode_utf8(file),
                    seq![0xffu8],
                    vstd::bytes::spec_u64_to_le_bytes(line),
                ],
            ) as nat,
            16,
        ),
        line != other_line ==> entries::entry_id(file, line as nat, content) != entries::entry_id(
            other_file,
            other_line as nat,
            other,
        ),
        line != other_line ==> entries::memory_line_id(file, line as nat)
            != entries::memory_line_id(other_file, other_line as nat),
{
    let writes = seq![
        vstd::utf8::encode_utf8(file),
        seq![0xffu8],
        vstd::bytes::spec_u64_to_le_bytes(line),
    ];
    assert(entries::text_writes(file).push(vstd::bytes::spec_u64_to_le_bytes(line)) =~= writes);
    assert(writes + entries::text_writes(entries::normalized(content)) =~= seq![
        vstd::utf8::encode_utf8(file),
        seq![0xffu8],
        vstd::bytes::spec_u64_to_le_bytes(line),
        vstd::utf8::encode_utf8(entries::normalized(content)),
        seq![0xffu8],
    ]);
    if line != other_line {
        words::law_a_number_is_written_by_its_digits(line as nat, other_line as nat);
        words::law_a_number_is_written_by_its_digits(other_line as nat, line as nat);
        reveal_strlit("-");
        assert("-"@ =~= seq!['-']);
        let a = numerals::decimal(line as nat);
        let b = numerals::decimal(other_line as nat);
        let x = numerals::hexadecimal(
            entries::entry_hash(file, line as nat, content) as nat,
            16,
        );
        let y = numerals::hexadecimal(
            entries::entry_hash(other_file, other_line as nat, other) as nat,
            16,
        );
        lemma_parted("mem-"@, a, x, b, y);
        let v = numerals::hexadecimal(entries::place_hash(file, line as nat) as nat, 16);
        let w = numerals::hexadecimal(
            entries::place_hash(other_file, other_line as nat) as nat,
            16,
        );
        lemma_parted("mline-"@, a, v, b, w);
    }
}

proof fn lemma_parted(mark: Seq<char>, a: Seq<char>, x: Seq<char>, b: Seq<char>, y: Seq<char>)
    requires
        numerals::all_digits(a),
        numerals::all_digits(b),
        a != b,
    ensures
        mark + a + seq!['-'] + x != mark + b + seq!['-'] + y,
{
    let s = mark + a + seq!['-'] + x;
    let t = mark + b + seq!['-'] + y;
    let n = mark.len() as int;
    if s == t {
        if a.len() < b.len() {
            assert(s[n + a.len()] == '-');
            assert(t[n + a.len()] == b[a.len() as int]);
        }
        if b.len() < a.len() {
            assert(t[n + b.len()] == '-');
            assert(s[n + b.len()] == a[b.len() as int]);
        }
        assert forall|i: int| 0 <= i < a.len() implies #[trigger] a[i] == b[i] by {
            assert(s[n + i] == a[i]);
            assert(t[n + i] == b[i]);
        }
        assert(a =~= b);
    }
}

/// A text is normalized to its words, parted by single spaces, in lower case: where they are
/// ASCII, each letter in lower case.
pub proof fn law_a_text_is_normalized_to_its_words(
    parts: Seq<Seq<char>>,
    gaps: Seq<Seq<char>>,
)
    requires
        layout::fits(parts, gaps),
    ensures
        entries::normalized(layout::laid_out(parts, gaps)) == text::lowercase(
            search::joined(parts, seq![' ']),
        ),
        entries::plainly_normalized(layout::laid_out(parts, gaps)) == text::lowered(
            search::joined(parts, seq![' ']),
        ),
{
    reveal_strlit(" ");
    assert(" "@ =~= seq![' ']);
    layout::law_words_of_a_layout(parts, gaps);
}

// ---------------------------------------------------------------------------------------
// The cursor

/// After a transcript whose lines can all be read, and of which some were new, the cursor stands
/// at its last line; where none was new, or the transcript lies behind the cursor, nothing changes.
pub proof fn law_the_cursor_follows_the_lines(
    state: StateView,
    file: FileView,
    now: i64,
    stamp: Seq<char>,
)
    requires
        forall|i: int| 0 <= i < file.lines.len() ==> (#[trigger] file.lines[i]) is Some,
    ensures
        ({
            let (after, hits) = indexer::file_indexed(state, file, now, stamp);
            let n = file.lines.len() as int;
            let new = n > 0 && places::ahead(state.last_file, state.last_line, file.name, n);
            &&& new ==> {
                &&& after.last_file == Some(file.name)
                &&& after.last_line == n
                &&& after.updated_at == stamp
                &&& after.last_memory_reindex_at == state.last_memory_reindex_at
                &&& hits.len() > 0
            }
            &&& !new ==> after == state && hits.len() == 0
        }),
{
    match indexer::lines_done(state, file.name) {
        None => {
            let l = state.last_file->0;
        },
        Some(done) => {
            lemma_entries(file.name, file.lines, done, now);
            lemma_all_new(file.lines, done);
            if state.last_file is Some && state.last_file->0 != file.name {
                order::lemma_precedes_asymmetric(state.last_file->0, file.name);
            }
        },
    }
}

proof fn lemma_all_new(lines: Seq<Option<LineView>>, done: nat)
    requires
        forall|i: int| 0 <= i < lines.len() ==> (#[trigger] lines[i]) is Some,
    ensures
        places::new_numbers(lines, done).len() == if lines.len() > done {
            lines.len() - done
        } else {
            0
        },
    decreases lines.len(),
{
    if lines.len() > 0 {
        let front = lines.drop_last();
        assert forall|i: int| 0 <= i < front.len() implies (#[trigger] front[i]) is Some by {
            assert(front[i] == lines[i]);
        }
        lemma_all_new(front, done);
        assert(lines.last() == lines[lines.len() - 1]);
    }
}

} // verus!
