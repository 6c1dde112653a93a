//! What the searchable memory is for: the entries that fit best are found, and shown with what they
//! hold.

use vstd::prelude::*;

use crate::entries::HitView;
use crate::memory::{
    Candidate, CandidateView, FieldKind, Fields, IndexStep, Presence, QueryView, Record, StoredDoc,
};
use crate::promises::facts;
use crate::question::Place;
use crate::{layout, memory, numerals, question, ranking, search, text};

verus! {

// ---------------------------------------------------------------------------------------
// Rows

/// A row names the entry, its time, who said it, where it stands and how often it is mentioned,
/// and ends with this content.
pub open spec fn shows(row: Seq<char>, hit: HitView, content: Seq<char>) -> bool {
    row == seq!['['] + hit.id + seq![']', ' ', '['] + hit.ts + seq![']', ' ', '('] + hit.role + seq![
        ')',
        ' ',
        '[',
    ] + hit.source_file + seq![':'] + numerals::decimal(hit.source_line as nat)
        + "] [mentions="@ + numerals::decimal(hit.mention_count as nat) + seq![']', ' '] + content
}

/// The row of an entry that was looked up shows its whole content, that of one among others the
/// first hundred and eighty characters of it.
pub proof fn law_a_row_shows_its_entry(hit: HitView)
    ensures
        shows(memory::full_row(hit), hit, hit.content),
        hit.content.len() <= 180 ==> shows(memory::short_row(hit), hit, hit.content),
        hit.content.len() > 180 ==> shows(memory::short_row(hit), hit, hit.content.take(180)),
{
    lemma_row(hit, hit.content);
    lemma_row(hit, search::cut(hit.content, 180));
}

proof fn lemma_row(hit: HitView, content: Seq<char>)
    ensures
        shows(memory::row_text(hit, content), hit, content),
{
    reveal_strlit("[");
    reveal_strlit("] [");
    reveal_strlit("] (");
    reveal_strlit(") [");
    reveal_strlit(":");
    reveal_strlit("] ");
    assert("["@ =~= seq!['[']);
    assert("] ["@ =~= seq![']', ' ', '[']);
    assert("] ("@ =~= seq![']', ' ', '(']);
    assert(") ["@ =~= seq![')', ' ', '[']);
    assert(":"@ =~= seq![':']);
    assert("] "@ =~= seq![']', ' ']);
}

/// An entry holds what its document holds for each field.
pub proof fn law_an_entry_holds_its_document(doc: StoredDoc, now: i64)
    ensures
        ({
            let hit = memory::hit_of(doc, now);
            &&& doc.id matches Some(s) ==> hit.id == s@
            &&& doc.ts matches Some(s) ==> hit.ts == s@
            &&& doc.role matches Some(s) ==> hit.role == s@
            &&& doc.session_id matches Some(s) ==> hit.session_id == s@
            &&& doc.source_type matches Some(s) ==> hit.source_type == s@
            &&& doc.source_file matches Some(s) ==> hit.source_file == s@
            &&& doc.content matches Some(s) ==> hit.content == s@
            &&& doc.source_line matches Some(n) ==> hit.source_line == n
            &&& doc.mention_count matches Some(n) ==> hit.mention_count == n
            &&& doc.ts_epoch matches Some(t) ==> hit.ts_epoch == t
            &&& doc.ts_epoch is None ==> hit.ts_epoch == now
            &&& doc.id is None ==> hit.id == "?"@
            &&& doc.ts is None ==> hit.ts == "?"@
            &&& doc.role is None ==> hit.role == "?"@
            &&& doc.session_id is None ==> hit.session_id == "?"@
            &&& doc.source_type is None ==> hit.source_type == "?"@
            &&& doc.source_file is None ==> hit.source_file == "?"@
            &&& doc.content is None ==> hit.content.len() == 0
            &&& doc.source_line is None ==> hit.source_line == 0
            &&& doc.mention_count is None ==> hit.mention_count == 1
        }),
{
    reveal_strlit("");
}

/// A look-up shows the whole of the document that was found, and nothing where none was.
pub proof fn law_a_look_up_shows_the_whole_document(doc: StoredDoc, now: i64)
    ensures
        memory::looked_up(None, now) is None,
        memory::looked_up(Some(doc), now) is Some,
        doc.content matches Some(s) ==> shows(
            memory::looked_up(Some(doc), now)->0,
            memory::hit_of(doc, now),
            s@,
        ),
{
    law_a_row_shows_its_entry(memory::hit_of(doc, now));
}

// ---------------------------------------------------------------------------------------
// Ranking

/// The items of one key, in their order.
pub open spec fn of_key<T>(items: Seq<(i32, T)>, k: i32) -> Seq<(i32, T)> {
    items.filter(|x: (i32, T)| x.0 == k)
}

/// The items in descending order of their keys; those of one key in the order in which they came.
pub open spec fn orders<T>(order: Seq<(i32, T)>, items: Seq<(i32, T)>) -> bool {
    &&& order.len() == items.len()
    &&& order.to_multiset() == items.to_multiset()
    &&& forall|i: int, j: int|
        0 <= i < j < order.len() ==> (#[trigger] order[i]).0 >= (#[trigger] order[j]).0
    &&& forall|k: i32| of_key(order, k) == #[trigger] of_key(items, k)
}

proof fn lemma_orders<T>(items: Seq<(i32, T)>)
    ensures
        orders(ranking::ranked(items), items),
{
    ranking::law_ranking_descends(items);
    ranking::law_ranking_keeps_the_items(items);
    let order = ranking::ranked(items);
    assert forall|k: i32| of_key(order, k) == #[trigger] of_key(items, k) by {
        ranking::law_ranking_is_stable(items, k);
        assert(ranking::with_key(order, k) == of_key(order, k));
        assert(ranking::with_key(items, k) == of_key(items, k));
    }
}

/// The answer to a search shows the candidates with the highest keys, in descending order, each
/// with its entry: as many as were asked for, and at least one, where there are as many. The
/// order of the candidates is returned.
pub proof fn law_the_best_candidates_are_shown(
    scored: Seq<(i32, CandidateView)>,
    limit: nat,
) -> (order: Seq<(i32, CandidateView)>)
    ensures
        orders(order, scored),
        ({
            let rows = memory::answer(scored, limit);
            &&& limit > 0 && order.len() >= limit ==> rows.len() == limit
            &&& limit > 0 && order.len() < limit ==> rows.len() == order.len()
            &&& limit == 0 && order.len() > 0 ==> rows.len() == 1
            &&& order.len() == 0 ==> rows.len() == 0
            &&& forall|i: int|
                0 <= i < rows.len() ==> {
                    let hit = order[i].1.hit;
                    shows(
                        #[trigger] rows[i],
                        hit,
                        if hit.content.len() <= 180 {
                            hit.content
                        } else {
                            hit.content.take(180)
                        },
                    )
                }
        }),
{
    lemma_orders(scored);
    let order = ranking::ranked(scored);
    let rows = memory::answer(scored, limit);
    assert forall|i: int| 0 <= i < rows.len() implies {
        let hit = order[i].1.hit;
        shows(
            #[trigger] rows[i],
            hit,
            if hit.content.len() <= 180 {
                hit.content
            } else {
                hit.content.take(180)
            },
        )
    } by {
        law_a_row_shows_its_entry(order[i].1.hit);
        assert(ranking::front(order, memory::at_least_one(limit))[i] == order[i]);
    }
    order
}

/// The vector hits are the nearest of the entries that may be found, nearest first: with the
/// archive any entry, else those that are no old transcripts. The order of these entries is
/// returned.
pub proof fn law_the_nearest_entries_are_found(
    scored: Seq<(i32, HitView)>,
    archive: bool,
    count: nat,
) -> (order: Seq<(i32, HitView)>)
    ensures
        archive ==> orders(order, scored),
        !archive ==> orders(
            order,
            scored.filter(|x: (i32, HitView)| x.1.source_type != "transcript_archive"@),
        ),
        ({
            let hits = memory::nearest(scored, archive, count);
            &&& order.len() >= count ==> hits.len() == count
            &&& order.len() < count ==> hits.len() == order.len()
            &&& forall|i: int| 0 <= i < hits.len() ==> #[trigger] hits[i] == order[i].1
        }),
{
    let kept = scored.filter(|x: (i32, HitView)| memory::admitted(x.1, archive));
    if archive {
        lemma_all_kept(scored);
        assert(kept == scored.filter(|x: (i32, HitView)| memory::admitted(x.1, true)));
    } else {
        lemma_recent_kept(scored);
        assert(kept == scored.filter(|x: (i32, HitView)| memory::admitted(x.1, false)));
    }
    lemma_orders(kept);
    ranking::ranked(kept)
}

proof fn lemma_all_kept(scored: Seq<(i32, HitView)>)
    ensures
        scored.filter(|x: (i32, HitView)| memory::admitted(x.1, true)) == scored,
    decreases scored.len(),
{
    reveal(Seq::filter);
    if scored.len() > 0 {
        lemma_all_kept(scored.drop_last());
        assert(scored =~= scored.drop_last().push(scored.last()));
    } else {
        assert(scored =~= Seq::empty());
    }
}

proof fn lemma_recent_kept(scored: Seq<(i32, HitView)>)
    ensures
        scored.filter(|x: (i32, HitView)| memory::admitted(x.1, false)) == scored.filter(
            |x: (i32, HitView)| x.1.source_type != "transcript_archive"@,
        ),
    decreases scored.len(),
{
    reveal(Seq::filter);
    if scored.len() > 0 {
        lemma_recent_kept(scored.drop_last());
    }
}

// ---------------------------------------------------------------------------------------
// One list out of two

/// The rank of an identity in a list is the place of the last entry that has it, counted from
/// one, if any has.
pub open spec fn ranks(rank: Option<nat>, hits: Seq<HitView>, id: Seq<char>) -> bool {
    match rank {
        Some(n) => {
            &&& 1 <= n <= hits.len()
            &&& hits[n - 1].id == id
            &&& forall|i: int| n <= i < hits.len() ==> (#[trigger] hits[i]).id != id
        },
        None => forall|i: int| 0 <= i < hits.len() ==> (#[trigger] hits[i]).id != id,
    }
}

proof fn lemma_ranks(hits: Seq<HitView>, id: Seq<char>)
    ensures
        ranks(memory::rank_of(hits, id), hits, id),
    decreases hits.len(),
{
    if hits.len() > 0 {
        let front = hits.drop_last();
        lemma_ranks(front, id);
        assert(hits.last() == hits[hits.len() - 1]);
        if hits.last().id != id {
            match memory::rank_of(front, id) {
                Some(n) => {
                    assert(front[n - 1] == hits[n - 1]);
                    assert forall|i: int| n <= i < hits.len() implies (#[trigger] hits[i]).id
                        != id by {
                        if i < front.len() {
                            assert(front[i] == hits[i]);
                        }
                    }
                },
                None => {
                    assert forall|i: int| 0 <= i < hits.len() implies (#[trigger] hits[i]).id
                        != id by {
                        if i < front.len() {
                            assert(front[i] == hits[i]);
                        }
                    }
                },
            }
        }
    }
}

/// The places at which identities come up for the first time: all of them, in order.
pub open spec fn lists_first(at: Seq<int>, hits: Seq<HitView>) -> bool {
    &&& forall|i: int, j: int| 0 <= i < j < at.len() ==> #[trigger] at[i] < #[trigger] at[j]
    &&& forall|i: int|
        0 <= i < at.len() ==> 0 <= #[trigger] at[i] < hits.len() && first_at(hits, at[i])
    &&& forall|k: int| 0 <= k < hits.len() && #[trigger] first_at(hits, k) ==> at.contains(k)
}

/// No earlier entry has the identity of this one.
pub open spec fn first_at(hits: Seq<HitView>, k: int) -> bool {
    forall|j: int| 0 <= j < k ==> (#[trigger] hits[j]).id != hits[k].id
}

proof fn lemma_identities(hits: Seq<HitView>) -> (at: Seq<int>)
    ensures
        lists_first(at, hits),
        memory::identities(hits).len() == at.len(),
        forall|i: int|
            0 <= i < at.len() ==> #[trigger] memory::identities(hits)[i] == hits[at[i]].id,
        forall|k: int|
            0 <= k < hits.len() ==> memory::identities(hits).contains((#[trigger] hits[k]).id),
    decreases hits.len(),
{
    if hits.len() == 0 {
        Seq::empty()
    } else {
        let front = hits.drop_last();
        let n = hits.len() - 1;
        let before = lemma_identities(front);
        let ids = memory::identities(front);
        let all = memory::identities(hits);
        let id = hits[n].id;
        assert(hits.last() == hits[n]);
        assert forall|k: int| 0 <= k < n implies #[trigger] front[k] == hits[k] by {}
        assert forall|k: int| 0 <= k < n implies (#[trigger] first_at(front, k) <==> first_at(
            hits,
            k,
        )) by {
            if first_at(front, k) {
                assert forall|j: int| 0 <= j < k implies (#[trigger] hits[j]).id != hits[k].id by {
                    assert(front[j] == hits[j]);
                }
            }
            if first_at(hits, k) {
                assert forall|j: int| 0 <= j < k implies (#[trigger] front[j]).id
                    != front[k].id by {
                    assert(front[j] == hits[j]);
                }
            }
        }
        let at = if ids.contains(id) {
            before
        } else {
            before.push(n)
        };
        if ids.contains(id) {
            let i = choose|i: int| 0 <= i < ids.len() && ids[i] == id;
            assert(front[before[i]].id == id);
            assert(hits[before[i]].id == id);
            assert(!first_at(hits, n));
        } else {
            assert forall|j: int| 0 <= j < n implies (#[trigger] hits[j]).id != id by {
                assert(front[j] == hits[j]);
                assert(ids.contains(front[j].id));
            }
            assert(first_at(hits, n));
        }
        assert forall|i: int| 0 <= i < at.len() implies 0 <= #[trigger] at[i] < hits.len()
            && first_at(hits, at[i]) && all[i] == hits[at[i]].id by {
            if i < before.len() {
                assert(at[i] == before[i]);
                assert(first_at(front, before[i]));
                assert(all[i] == ids[i]);
                assert(front[before[i]] == hits[before[i]]);
            }
        }
        assert forall|i: int, j: int| 0 <= i < j < at.len() implies #[trigger] at[i] < #[trigger] at[j] by {
            assert(at[i] == before[i]);
            if j < before.len() {
                assert(at[j] == before[j]);
            }
        }
        assert forall|k: int| 0 <= k < hits.len() && #[trigger] first_at(hits, k) implies at.contains(
            k,
        ) by {
            if k < n {
                assert(first_at(front, k));
                let i = choose|i: int| 0 <= i < before.len() && before[i] == k;
                assert(at[i] == k);
            } else {
                assert(at[before.len() as int] == k);
            }
        }
        assert forall|k: int| 0 <= k < hits.len() implies all.contains((#[trigger] hits[k]).id) by {
            if k < n {
                assert(front[k] == hits[k]);
                let i = choose|i: int| 0 <= i < ids.len() && ids[i] == front[k].id;
                assert(all[i] == hits[k].id);
            } else if !ids.contains(id) {
                assert(all[ids.len() as int] == id);
            }
        }
        at
    }
}

/// The candidates of a search: one for each identity that either list holds, in the order in which
/// they first come up, the lexical list first; each with its rank in both lists, and with the
/// entry of the lexical list where that holds one. The places where the identities first come up
/// are returned.
pub proof fn law_candidates_come_from_both_lists(
    lexical: Seq<HitView>,
    vector: Seq<HitView>,
) -> (at: Seq<int>)
    ensures
        lists_first(at, lexical + vector),
        memory::candidates(lexical, vector).len() == at.len(),
        forall|k: int|
            0 <= k < at.len() ==> {
                let c = #[trigger] memory::candidates(lexical, vector)[k];
                &&& c.hit.id == (lexical + vector)[at[k]].id
                &&& ranks(c.lexical_rank, lexical, c.hit.id)
                &&& ranks(c.vector_rank, vector, c.hit.id)
                &&& c.lexical_rank matches Some(n) ==> c.hit == lexical[n - 1]
                &&& c.lexical_rank is None ==> c.vector_rank is Some && c.hit
                    == vector[c.vector_rank->0 - 1]
            },
{
    let both = lexical + vector;
    let at = lemma_identities(both);
    let ids = memory::identities(both);
    let all = memory::candidates(lexical, vector);
    assert forall|k: int| 0 <= k < at.len() implies {
        let c = #[trigger] all[k];
        &&& c.hit.id == both[at[k]].id
        &&& ranks(c.lexical_rank, lexical, c.hit.id)
        &&& ranks(c.vector_rank, vector, c.hit.id)
        &&& c.lexical_rank matches Some(n) ==> c.hit == lexical[n - 1]
        &&& c.lexical_rank is None ==> c.vector_rank is Some && c.hit
            == vector[c.vector_rank->0 - 1]
    } by {
        let id = ids[k];
        assert(id == both[at[k]].id);
        lemma_ranks(lexical, id);
        lemma_ranks(vector, id);
        let j = at[k];
        if j < lexical.len() {
            assert(both[j] == lexical[j]);
        } else {
            assert(both[j] == vector[j - lexical.len()]);
        }
    }
    at
}

/// What a score is made from is what the candidate has; an entry from the future counts as new.
pub proof fn law_a_score_weighs_what_the_candidate_has(c: Candidate, now: i64)
    ensures
        ({
            let w = memory::weighed(c, now);
            &&& w.lexical_rank == c.lexical_rank
            &&& w.vector_rank == c.vector_rank
            &&& w.mention_count == c.hit.mention_count
            &&& now >= c.hit.ts_epoch && now - c.hit.ts_epoch <= u64::MAX ==> w.age_seconds == now
                - c.hit.ts_epoch
            &&& now < c.hit.ts_epoch ==> w.age_seconds == 0
            &&& c.hit.source_type@ == "memory"@ ==> w.stable && !w.archived && w.half_life_hours
                == 14 * 24
            &&& c.hit.source_type@ == "transcript_archive"@ ==> w.archived && !w.stable
                && w.half_life_hours == 2 * 24
            &&& c.hit.source_type@ == "transcript_hot"@ ==> !w.archived && !w.stable
                && w.half_life_hours == 2 * 24
        }),
{
    reveal_strlit("memory");
    reveal_strlit("transcript_archive");
    reveal_strlit("transcript_hot");
    assert("memory"@.len() == 6 && "transcript_archive"@.len() == 18);
    assert("transcript_hot"@.len() == 14);
}

// ---------------------------------------------------------------------------------------
// The question

/// A search asks for the text as it was given, in the contents and in the roles; without the
/// archive it leaves out old transcripts and the current session.
pub proof fn law_a_search_asks_for_its_text(
    schema: tantivy::schema::Schema,
    fields: Fields,
    s: Seq<char>,
    session: Seq<char>,
)
    ensures
        ({
            let asked = QueryView::Read {
                schema,
                searched: seq![fields.content, fields.role],
                text: s,
            };
            let everywhere = memory::clauses_of(
                memory::question_of(schema, fields, s),
                true,
                Some(session),
            );
            let elsewhere = memory::clauses_of(
                memory::question_of(schema, fields, s),
                false,
                Some(session),
            );
            let recent = memory::clauses_of(
                memory::question_of(schema, fields, s),
                false,
                None,
            );
            let old = (
                Presence::MustNot,
                QueryView::Term { field: fields.source_type, text: "transcript_archive"@ },
            );
            let own = (
                Presence::MustNot,
                QueryView::Term { field: fields.session_id, text: session },
            );
            &&& memory::question_with(everywhere, fields) == QueryView::Each(
                seq![(Presence::Must, asked)],
            )
            &&& memory::question_with(recent, fields) == QueryView::Each(
                seq![(Presence::Must, asked), (Presence::Must, QueryView::All), old],
            )
            &&& memory::question_with(elsewhere, fields) == QueryView::Each(
                seq![(Presence::Must, asked), (Presence::Must, QueryView::All), old, own],
            )
        }),
{
    let asked = QueryView::Read { schema, searched: seq![fields.content, fields.role], text: s };
    let q = memory::question_of(schema, fields, s);
    let gone = (
        Presence::MustNot,
        QueryView::Term { field: fields.source_type, text: "transcript_archive"@ },
    );
    let own = (Presence::MustNot, QueryView::Term { field: fields.session_id, text: session });
    assert(memory::question_with(memory::clauses_of(q, true, Some(session)), fields)->Each_0
        =~= seq![(Presence::Must, asked)]);
    assert(memory::question_with(memory::clauses_of(q, false, None), fields)->Each_0 =~= seq![
        (Presence::Must, asked),
        (Presence::Must, QueryView::All),
        gone,
    ]);
    assert(memory::question_with(memory::clauses_of(q, false, Some(session)), fields)->Each_0
        =~= seq![
        (Presence::Must, asked),
        (Presence::Must, QueryView::All),
        gone,
        own,
    ]);
}

/// The current session is named by the last line that is not blank.
pub proof fn law_the_last_filled_line_is_found(
    before: Seq<Seq<char>>,
    w: Seq<char>,
    after: Seq<Seq<char>>,
)
    requires
        facts::filled(w),
        forall|i: int| 0 <= i < after.len() ==> layout::all_white(#[trigger] after[i]),
    ensures
        memory::last_filled(before.push(w) + after) == Some(w),
        memory::last_filled(after) is None,
    decreases after.len(),
{
    facts::lemma_filled(w);
    if after.len() == 0 {
        assert(before.push(w) + after =~= before.push(w));
    } else {
        let fewer = after.drop_last();
        assert forall|i: int| 0 <= i < fewer.len() implies layout::all_white(
            #[trigger] fewer[i],
        ) by {
            assert(fewer[i] == after[i]);
        }
        law_the_last_filled_line_is_found(before, w, fewer);
        assert(after.last() == after[after.len() - 1]);
        facts::lemma_filled(after.last());
        assert((before.push(w) + after).drop_last() =~= before.push(w) + fewer);
        assert((before.push(w) + after).last() == after.last());
    }
}

/// Ten hits are asked for each row that is wanted, at most two hundred.
pub proof fn law_ten_hits_for_each_row(limit: nat)
    ensures
        1 <= limit <= 20 ==> memory::fetch_count(limit) == 10 * limit,
        limit > 20 ==> memory::fetch_count(limit) == 200,
        limit == 0 ==> memory::fetch_count(limit) == 10,
{
}

/// For every entry its whole content is embedded, in order.
pub proof fn law_every_content_is_embedded(docs: Seq<HitView>, i: int)
    requires
        0 <= i < docs.len(),
    ensures
        memory::embedded(docs).len() == docs.len(),
        memory::embedded(docs)[i] == docs[i].content,
{
}

/// An entry is looked for by its identity as it was given.
pub proof fn law_an_entry_is_asked_for_by_its_identity(fields: Fields, id: Seq<char>)
    ensures
        memory::asks_for_entry(fields, id) == (QueryView::Term { field: fields.id, text: id }),
{
}

/// The database gives three hits for each row that is wanted, and at least one row is.
pub proof fn law_three_hits_from_the_database(limit: nat)
    ensures
        limit > 0 ==> memory::from_database(limit) == 3 * limit,
        limit == 0 ==> memory::from_database(limit) == 3,
        limit > 0 ==> memory::at_least_one(limit) == limit,
        memory::at_least_one(0) == 1,
{
}

// ---------------------------------------------------------------------------------------
// The index

/// The index keeps each field of an entry: the content by its words and where they stand, the
/// other texts as a whole, and the numbers as numbers.
pub proof fn law_the_index_keeps_every_field()
    ensures
        ({
            let all = memory::index_fields();
            let whole = FieldKind::Text { tokenizer: "raw"@, record: Record::Presence };
            &&& all.len() == 10
            &&& all.contains(("id"@, whole))
            &&& all.contains(("ts"@, whole))
            &&& all.contains(("ts_epoch"@, FieldKind::Signed))
            &&& all.contains(("role"@, whole))
            &&& all.contains(("session_id"@, whole))
            &&& all.contains(("source_type"@, whole))
            &&& all.contains(
                ("content"@, FieldKind::Text { tokenizer: "default"@, record: Record::Positions }),
            )
            &&& all.contains(("source_file"@, whole))
            &&& all.contains(("source_line"@, FieldKind::Unsigned))
            &&& all.contains(("mention_count"@, FieldKind::Unsigned))
        }),
{
    let all = memory::index_fields();
    assert(all[0].0 == "id"@ && all[1].0 == "ts"@ && all[2].0 == "ts_epoch"@);
    assert(all[3].0 == "role"@ && all[4].0 == "session_id"@ && all[5].0 == "source_type"@);
    assert(all[6].0 == "content"@ && all[7].0 == "source_file"@ && all[8].0 == "source_line"@);
    assert(all[9].0 == "mention_count"@);
}

/// A schema can be used exactly where it has every field of an entry.
pub proof fn law_a_schema_must_have_every_field(fields: Map<Seq<char>, u32>)
    ensures
        memory::first_missing(fields, 0) == 10 <==> {
            &&& fields.dom().contains("id"@)
            &&& fields.dom().contains("ts"@)
            &&& fields.dom().contains("ts_epoch"@)
            &&& fields.dom().contains("role"@)
            &&& fields.dom().contains("session_id"@)
            &&& fields.dom().contains("source_type"@)
            &&& fields.dom().contains("content"@)
            &&& fields.dom().contains("source_file"@)
            &&& fields.dom().contains("source_line"@)
            &&& fields.dom().contains("mention_count"@)
        },
{
    reveal_with_fuel(memory::first_missing, 11);
}

// ---------------------------------------------------------------------------------------
// Questions that can be read

/// A bracket opens here, or a negation begins.
pub open spec fn opening(s: Seq<char>, at: int) -> bool {
    s[at] == '(' || s.skip(at).len() >= 4 && s.skip(at).take(4) == seq!['N', 'O', 'T', ' ']
}

/// The places of all brackets and negations from a position on, in order.
pub open spec fn lists_openings(at: Seq<int>, s: Seq<char>, from: int) -> bool {
    &&& forall|i: int, j: int| 0 <= i < j < at.len() ==> #[trigger] at[i] < #[trigger] at[j]
    &&& forall|i: int|
        0 <= i < at.len() ==> from <= #[trigger] at[i] < s.len() && opening(s, at[i])
    &&& forall|k: int| from <= k < s.len() && #[trigger] opening(s, k) ==> at.contains(k)
}

proof fn lemma_openings(s: Seq<char>, from: int) -> (at: Seq<int>)
    requires
        0 <= from <= s.len(),
    ensures
        lists_openings(at, s, from),
        at.len() == question::opened(s, from),
    decreases s.len() - from,
{
    if from == s.len() {
        Seq::empty()
    } else {
        let later = lemma_openings(s, from + 1);
        assert(opening(s, from) <==> question::opens_at(s, from)) by {
            let tail = s.skip(from);
            if tail.len() >= 4 {
                let four = tail.take(4);
                assert(four[0] == s[from] && four[1] == s[from + 1]);
                assert(four[2] == s[from + 2] && four[3] == s[from + 3]);
                if question::opens_at(s, from) && s[from] != '(' {
                    assert(four =~= seq!['N', 'O', 'T', ' ']);
                }
            }
        }
        let at = if opening(s, from) {
            seq![from] + later
        } else {
            later
        };
        assert forall|i: int| 0 <= i < at.len() implies from <= #[trigger] at[i] < s.len()
            && opening(s, at[i]) by {
            if opening(s, from) && i > 0 {
                assert(at[i] == later[i - 1]);
            }
        }
        assert forall|i: int, j: int| 0 <= i < j < at.len() implies #[trigger] at[i] < #[trigger] at[j] by {
            if opening(s, from) {
                assert(at[j] == later[j - 1]);
                if i > 0 {
                    assert(at[i] == later[i - 1]);
                }
            }
        }
        assert forall|k: int| from <= k < s.len() && #[trigger] opening(s, k) implies at.contains(
            k,
        ) by {
            if k == from {
                assert(at[0] == from);
            } else {
                let m = choose|m: int| 0 <= m < later.len() && later[m] == k;
                if opening(s, from) {
                    assert(at[m + 1] == k);
                } else {
                    assert(at[m] == k);
                }
            }
        }
        at
    }
}

/// A question without colons and square brackets can be read exactly where it opens at most
/// thirty-two brackets and negations. Their places are returned.
pub proof fn law_plain_questions_can_be_read(s: Seq<char>) -> (at: Seq<int>)
    requires
        !s.contains(':'),
        !s.contains('['),
    ensures
        lists_openings(at, s, 0),
        question::readable(s) <==> at.len() <= 32,
{
    let at = lemma_openings(s, 0);
    assert forall|start: int| 0 <= start < s.len() implies !#[trigger] question::halts(
        s,
        start,
    ) by {
        lemma_no_field(s, start);
        assert(s.contains(s[start]));
    }
    at
}

proof fn lemma_no_field(s: Seq<char>, at: int)
    requires
        !s.contains(':'),
    ensures
        !question::behind_field(s, at),
    decreases at,
{
    if 0 < at <= s.len() {
        assert(s.contains(s[at - 1]));
        lemma_no_field(s, at - 1);
    }
}

/// A question that opens more than thirty-two brackets and negations cannot be read, whatever
/// else it holds.
pub proof fn law_deep_questions_cannot_be_read(s: Seq<char>) -> (at: Seq<int>)
    ensures
        lists_openings(at, s, 0),
        at.len() > 32 ==> !question::readable(s),
        at.len() <= 32 && !s.contains('(') && !s.contains('[') ==> question::readable(s),
{
    let at = lemma_openings(s, 0);
    if !s.contains('(') && !s.contains('[') {
        assert forall|start: int| 0 <= start < s.len() implies !#[trigger] question::halts(
            s,
            start,
        ) by {
            assert(s.contains(s[start]));
        }
    }
    at
}

/// A question whose blanks are all plain ones, and which has no caret, can be read exactly where
/// it opens at most thirty-two brackets and negations, whatever fields and lists it names. Their
/// places are returned.
pub proof fn law_ordinary_questions_can_be_read(s: Seq<char>) -> (at: Seq<int>)
    requires
        !s.contains('^'),
        forall|i: int|
            0 <= i < s.len() && text::white(#[trigger] s[i]) ==> s[i] == ' ' || s[i] == '\t' || s[i]
                == '\r' || s[i] == '\n',
    ensures
        lists_openings(at, s, 0),
        question::readable(s) <==> at.len() <= 32,
{
    let at = lemma_openings(s, 0);
    assert forall|start: int| 0 <= start < s.len() implies !#[trigger] question::halts(
        s,
        start,
    ) by {
        lemma_headway(s, start + 1, Place::Before, false);
        lemma_headway(s, start + 1, question::set_start(s, start + 1), true);
    }
    at
}

proof fn lemma_headway(s: Seq<char>, at: int, place: Place, set: bool)
    requires
        !s.contains('^'),
        forall|i: int|
            0 <= i < s.len() && text::white(#[trigger] s[i]) ==> s[i] == ' ' || s[i] == '\t' || s[i]
                == '\r' || s[i] == '\n',
    ensures
        !question::stalls(s, at, place, set),
    decreases s.len() - at,
{
    if 0 <= at < s.len() {
        assert(s.contains(s[at]));
        lemma_headway(s, at + 1, Place::Before, set);
        lemma_headway(s, at + 1, Place::BeforeBare, set);
        lemma_headway(s, at + 1, Place::Within, set);
        lemma_headway(s, at + 1, Place::Unknown, set);
        lemma_headway(s, at + 1, place, set);
        if question::quote(s[at]) {
            question::lemma_quoted_end(s, at + 1, s[at]);
            let next = question::behind_quoted(
                s,
                question::quoted_end(s, at + 1, s[at]),
                set,
            );
            lemma_headway(s, next.0, next.1, set);
        }
        if question::signed(s, at, set) && question::quote(s[at + 1]) {
            question::lemma_quoted_end(s, at + 2, s[at + 1]);
            let next = question::behind_quoted(
                s,
                question::quoted_end(s, at + 2, s[at + 1]),
                set,
            );
            lemma_headway(s, next.0, next.1, set);
        }
    }
}

/// Each field of the index is found under its own name.
pub proof fn law_fields_are_found_by_their_names(f: Fields, numbers: Map<Seq<char>, u32>)
    requires
        memory::agree(f, numbers),
    ensures
        f.id == numbers["id"@] && f.ts == numbers["ts"@] && f.ts_epoch == numbers["ts_epoch"@],
        f.role == numbers["role"@] && f.session_id == numbers["session_id"@],
        f.source_type == numbers["source_type"@] && f.content == numbers["content"@],
        f.source_file == numbers["source_file"@] && f.source_line == numbers["source_line"@],
        f.mention_count == numbers["mention_count"@],
{
}

/// A blank that the reader of lists of words does not step over.
pub open spec fn odd_blank(c: char) -> bool {
    text::white(c) && c != ' ' && c != '\t' && c != '\r' && c != '\n'
}

/// Plain blanks alone.
pub open spec fn plain_gap(s: Seq<char>) -> bool {
    forall|i: int|
        0 <= i < s.len() ==> (#[trigger] s[i]) == ' ' || s[i] == '\t' || s[i] == '\r' || s[i]
            == '\n'
}

/// Small letters and spaces alone.
pub open spec fn simple(s: Seq<char>) -> bool {
    forall|i: int| 0 <= i < s.len() ==> (#[trigger] s[i]) == ' ' || 'a' <= s[i] <= 'z'
}

proof fn lemma_walk(s: Seq<char>, at: int, end: int, place: Place, set: bool)
    requires
        0 <= at <= end < s.len(),
        forall|i: int| at <= i < end ==> (#[trigger] s[i]) == ' ' || 'a' <= s[i] <= 'z',
        odd_blank(s[end]),
        place != Place::Unknown,
    ensures
        question::stalls(s, at, place, set),
    decreases end - at,
{
    if at < end {
        let c = s[at];
        if c == ' ' {
            lemma_walk(s, at + 1, end, Place::Before, set);
            lemma_walk(s, at + 1, end, place, set);
        } else {
            lemma_walk(s, at + 1, end, Place::Within, set);
        }
    }
}

proof fn lemma_field_before(s: Seq<char>, colon: int, at: int)
    requires
        0 < colon < at <= s.len(),
        s[colon] == ':',
        'a' <= s[colon - 1] <= 'z',
        forall|i: int|
            colon < i < at ==> (#[trigger] s[i]) == ' ' || s[i] == '\t' || s[i] == '\r' || s[i]
                == '\n',
    ensures
        question::behind_field(s, at),
    decreases at,
{
    if at == colon + 1 {
        assert(question::name_ends(s, colon));
    } else {
        assert(question::plain_blank(s[at - 1]));
        lemma_field_before(s, colon, at - 1);
    }
}

/// A list of words in round brackets for a field keeps the reader from its end where an odd blank
/// stands among the words, so the question is not read.
pub proof fn law_an_odd_blank_in_a_list_is_not_read(
    a: Seq<char>,
    gap: Seq<char>,
    inner: Seq<char>,
    c: char,
    rest: Seq<char>,
)
    requires
        a.len() > 0,
        'a' <= a[a.len() - 1] <= 'z',
        plain_gap(gap),
        simple(inner),
        odd_blank(c),
    ensures
        !question::readable(
            a + seq![':'] + gap + seq!['('] + inner + seq![c] + rest,
        ),
{
    let s = a + seq![':'] + gap + seq!['('] + inner + seq![c] + rest;
    let colon = a.len() as int;
    let start = colon + 1 + gap.len();
    let end = start + 1 + inner.len();
    assert(s[colon] == ':' && s[colon - 1] == a[a.len() - 1]);
    assert(s[start] == '(' && s[end] == c);
    assert forall|i: int| colon < i < start implies (#[trigger] s[i]) == ' ' || s[i] == '\t' || s[i]
        == '\r' || s[i] == '\n' by {
        assert(s[i] == gap[i - colon - 1]);
    }
    assert forall|i: int| start + 1 <= i < end implies (#[trigger] s[i]) == ' ' || 'a' <= s[i]
        <= 'z' by {
        assert(s[i] == inner[i - start - 1]);
    }
    lemma_field_before(s, colon, start);
    lemma_walk(s, start + 1, end, Place::Before, false);
    assert(question::halts(s, start));
}

proof fn lemma_in_before(s: Seq<char>, word: int, at: int)
    requires
        2 <= word <= at <= s.len(),
        s[word - 2] == 'I' && s[word - 1] == 'N',
        word == 2 || s[word - 3] == ' ',
        forall|i: int|
            word <= i < at ==> (#[trigger] s[i]) == ' ' || s[i] == '\t' || s[i] == '\r' || s[i]
                == '\n',
    ensures
        question::behind_in(s, at),
    decreases at,
{
    if at > word {
        assert(question::plain_blank(s[at - 1]));
        lemma_in_before(s, word, at - 1);
    }
}

/// So does a list in square brackets behind `IN`.
pub proof fn law_an_odd_blank_in_a_set_is_not_read(
    a: Seq<char>,
    gap: Seq<char>,
    inner: Seq<char>,
    c: char,
    rest: Seq<char>,
)
    requires
        a.len() == 0 || a[a.len() - 1] == ' ',
        plain_gap(gap),
        simple(inner),
        odd_blank(c),
    ensures
        !question::readable(
            a + seq!['I', 'N'] + gap + seq!['['] + inner + seq![c] + rest,
        ),
{
    let s = a + seq!['I', 'N'] + gap + seq!['['] + inner + seq![c] + rest;
    let word = a.len() as int + 2;
    let start = word + gap.len();
    let end = start + 1 + inner.len();
    assert(s[word - 2] == 'I' && s[word - 1] == 'N');
    if a.len() > 0 {
        assert(s[word - 3] == a[a.len() - 1]);
    }
    assert(s[start] == '[' && s[end] == c);
    assert forall|i: int| word <= i < start implies (#[trigger] s[i]) == ' ' || s[i] == '\t' || s[i]
        == '\r' || s[i] == '\n' by {
        assert(s[i] == gap[i - word]);
    }
    assert forall|i: int| start + 1 <= i < end implies (#[trigger] s[i]) == ' ' || 'a' <= s[i]
        <= 'z' by {
        assert(s[i] == inner[i - start - 1]);
    }
    lemma_in_before(s, word, start);
    lemma_walk(s, start + 1, end, question::set_start(s, start + 1), true);
    assert(question::halts(s, start));
}

proof fn lemma_quoted_run(s: Seq<char>, at: int, end: int, mark: char)
    requires
        0 <= at <= end < s.len(),
        forall|i: int| at <= i < end ==> (#[trigger] s[i]) != mark && s[i] != '\\',
        s[end] == mark,
        mark != '\\',
    ensures
        question::quoted_end(s, at, mark) == end + 1,
    decreases end - at,
{
    if at < end {
        lemma_quoted_run(s, at + 1, end, mark);
    }
}

/// Within quotation marks of either sort an odd blank does no harm: the question is read.
pub proof fn law_a_quoted_blank_is_read(a: Seq<char>, q: Seq<char>, mark: char)
    requires
        mark == '"' || mark == '\'',
        forall|i: int| 0 <= i < a.len() ==> 'a' <= #[trigger] a[i] <= 'z',
        !q.contains(mark),
        !q.contains('\\'),
        !q.contains('('),
        !q.contains('['),
        !q.contains('N'),
    ensures
        question::readable(a + seq![':', '(', mark] + q + seq![mark, ')']),
{
    let s = a + seq![':', '(', mark] + q + seq![mark, ')'];
    let start = a.len() as int + 1;
    let open = start + 1;
    let close = open + 1 + q.len();
    assert(s[start] == '(' && s[open] == mark);
    assert(s[close] == mark && s[close + 1] == ')');
    assert forall|i: int| open < i < close implies (#[trigger] s[i]) != mark && s[i] != '\\' by {
        assert(s[i] == q[i - open - 1]);
        assert(q.contains(s[i]));
    }
    assert forall|i: int| 0 <= i < s.len() && i != start implies (#[trigger] s[i]) != '(' && s[i]
        != '[' && s[i] != 'N' by {
        if i < a.len() {
            assert(s[i] == a[i]);
        } else if i == a.len() {
            assert(s[i] == ':');
        } else if open < i < close {
            assert(s[i] == q[i - open - 1]);
            assert(q.contains(s[i]));
        } else if i == open || i == close {
            assert(s[i] == mark);
        } else {
            assert(s[i] == ')');
        }
    }
    lemma_quoted_run(s, open + 1, close, mark);
    assert(question::quoted_end(s, open + 1, mark) == close + 1);
    assert(!question::stalls(s, close + 1, Place::Before, false));
    assert(!question::stalls(s, open, Place::Before, false));
    assert forall|k: int| 0 <= k < s.len() implies !#[trigger] question::halts(s, k) by {
        assert(s[k] != '(' || k == start);
    }
    let at = lemma_openings(s, 0);
    assert forall|i: int| 0 <= i < at.len() implies #[trigger] at[i] == start by {
        let k = at[i];
        if k != start {
            assert(s[k] != '(');
            assert(s.skip(k).take(4)[0] == s[k]);
        }
    }
    if at.len() > 1 {
        assert(at[0] < at[1]);
    }
}

/// An index is made where there is none, used where it has every field, and else made anew; the
/// index on file is asked where the database gave nothing.
pub proof fn law_the_index_is_made_or_used(fields: Map<Seq<char>, u32>, n: nat)
    ensures
        memory::step_for(None) == IndexStep::Create,
        memory::first_missing(fields, 0) == 10 ==> memory::step_for(Some(fields))
            == IndexStep::Use,
        memory::first_missing(fields, 0) != 10 ==> memory::step_for(Some(fields))
            == IndexStep::Recreate,
        memory::file_needed(None),
        memory::file_needed(Some(0)),
        n > 0 ==> !memory::file_needed(Some(n)),
{
}

} // verus!
