//! What the curator is for: it shows every new line to the model, and writes down every proposal
//! that is fit and new.

use vstd::prelude::*;

use crate::curator::{
    CuratorConfig, CuratorLlm, CuratorOutput, CuratorPlanView, CuratorStateView, CuratorWindow,
    DialogueView,
};
use crate::promises::{facts, places, words};
use crate::{curator, guard, indexer, layout, numerals, order, ranking, search, text};

verus! {

// ---------------------------------------------------------------------------------------
// What is shown

/// A row names the transcript, the number of the line, who speaks, and all that is said.
pub open spec fn tells(row: Seq<char>, name: Seq<char>, n: int, l: (Seq<char>, Seq<char>)) -> bool {
    row == seq!['['] + name + seq![':'] + numerals::decimal(n as nat) + seq![']', ' ', '['] + l.0
        + seq![']', ' '] + l.1
}

proof fn lemma_shown(name: Seq<char>, line: nat, l: (Seq<char>, Seq<char>))
    ensures
        tells(curator::shown(name, line, l), name, line as int, l),
{
    reveal_strlit("[");
    reveal_strlit(":");
    reveal_strlit("] [");
    reveal_strlit("] ");
    assert("["@ =~= seq!['[']);
    assert(":"@ =~= seq![':']);
    assert("] ["@ =~= seq![']', ' ', '[']);
    assert("] "@ =~= seq![']', ' ']);
}

proof fn lemma_rows(
    name: Seq<char>,
    lines: Seq<Option<(Seq<char>, Seq<char>)>>,
    done: nat,
)
    ensures
        ({
            let at = places::new_numbers(lines, done);
            let rows = curator::new_rows(name, lines, done);
            &&& rows.len() == at.len()
            &&& forall|i: int|
                #![trigger rows[i]]
                #![trigger at[i]]
                0 <= i < at.len() ==> {
                    &&& 0 < at[i] <= lines.len()
                    &&& tells(rows[i], name, at[i], lines[at[i] - 1]->0)
                }
        }),
    decreases lines.len(),
{
    if lines.len() > 0 {
        let front = lines.drop_last();
        lemma_rows(name, front, done);
        let at = places::new_numbers(lines, done);
        let rows = curator::new_rows(name, lines, done);
        let earlier = curator::new_rows(name, front, done);
        let before = places::new_numbers(front, done);
        assert forall|i: int|
            #![trigger rows[i]]
            #![trigger at[i]]
            0 <= i < at.len() implies {
            &&& 0 < at[i] <= lines.len()
            &&& tells(rows[i], name, at[i], lines[at[i] - 1]->0)
        } by {
            if i < before.len() {
                assert(rows[i] == earlier[i] && at[i] == before[i]);
                assert(front[before[i] - 1] == lines[before[i] - 1]);
            } else {
                assert(lines.last() == lines[at[i] - 1]);
                lemma_shown(name, lines.len(), lines.last()->0);
            }
        }
    }
}

/// The new rows of a transcript are those of its readable lines behind the first `done` ones,
/// whoever speaks: one for each, in their order. The numbers of these lines are returned.
pub proof fn law_every_new_line_is_shown(
    name: Seq<char>,
    lines: Seq<Option<(Seq<char>, Seq<char>)>>,
    done: nat,
) -> (at: Seq<int>)
    ensures
        places::lists_new(at, lines, done),
        curator::new_rows(name, lines, done).len() == at.len(),
        forall|i: int|
            0 <= i < at.len() ==> tells(
                #[trigger] curator::new_rows(name, lines, done)[i],
                name,
                at[i],
                lines[at[i] - 1]->0,
            ),
{
    places::lemma_new_numbers(lines, done);
    lemma_rows(name, lines, done);
    places::new_numbers(lines, done)
}

/// The names of the transcripts.
pub open spec fn names_of(files: Seq<DialogueView>) -> Seq<Seq<char>> {
    Seq::new(files.len(), |k: int| files[k].name)
}

/// All transcripts can be read, and these are their lines.
pub open spec fn read_as(
    files: Seq<DialogueView>,
    texts: Seq<Seq<Option<(Seq<char>, Seq<char>)>>>,
) -> bool {
    &&& files.len() == texts.len()
    &&& forall|k: int| 0 <= k < files.len() ==> (#[trigger] files[k]).lines == Ok::<
        Seq<Option<(Seq<char>, Seq<char>)>>,
        Seq<char>,
    >(texts[k])
}

proof fn lemma_window(
    state: CuratorStateView,
    files: Seq<DialogueView>,
    names: Seq<Seq<char>>,
    texts: Seq<Seq<Option<(Seq<char>, Seq<char>)>>>,
    max_lines: nat,
)
    requires
        read_as(files, texts),
        forall|k: int| 0 <= k < files.len() ==> (#[trigger] files[k]).name == names[k],
    ensures
        ({
            let at = places::places_ahead(state.last_file, state.last_line, names, texts);
            &&& curator::window(state, files, max_lines) matches Ok(rows) && {
                &&& rows.len() == if at.len() < max_lines {
                    at.len()
                } else {
                    max_lines
                }
                &&& forall|i: int|
                    #![trigger rows[i]]
                    #![trigger at[i]]
                    0 <= i < rows.len() ==> {
                        &&& 0 <= at[i].0 < files.len()
                        &&& 0 < at[i].1 <= texts[at[i].0].len()
                        &&& tells(
                            rows[i],
                            names[at[i].0],
                            at[i].1,
                            texts[at[i].0][at[i].1 - 1]->0,
                        )
                    }
            }
        }),
    decreases files.len(),
{
    if files.len() > 0 {
        let front = files.drop_last();
        let fewer = texts.drop_last();
        let k = files.len() - 1;
        assert forall|j: int| 0 <= j < front.len() implies (#[trigger] front[j]).lines == Ok::<
            Seq<Option<(Seq<char>, Seq<char>)>>,
            Seq<char>,
        >(fewer[j]) && front[j].name == names[j] by {
            assert(front[j] == files[j]);
            assert(fewer[j] == texts[j]);
        }
        lemma_window(state, front, names, fewer, max_lines);
        let earlier = curator::window(state, front, max_lines)->Ok_0;
        let before = places::places_ahead(state.last_file, state.last_line, names, fewer);
        let at = places::places_ahead(state.last_file, state.last_line, names, texts);
        let rows = curator::window(state, files, max_lines)->Ok_0;
        assert(files.last() == files[k]);
        assert(texts.last() == texts[k]);
        assert(before.is_prefix_of(at));
        assert forall|i: int| 0 <= i < before.len() implies #[trigger] at[i] == before[i] by {}
        assert forall|i: int|
            #![trigger earlier[i]]
            #![trigger at[i]]
            0 <= i < earlier.len() implies {
            &&& 0 <= at[i].0 < files.len()
            &&& 0 < at[i].1 <= texts[at[i].0].len()
            &&& tells(
                earlier[i],
                names[at[i].0],
                at[i].1,
                texts[at[i].0][at[i].1 - 1]->0,
            )
        } by {
            assert(at[i] == before[i]);
            assert(tells(
                earlier[i],
                names[before[i].0],
                before[i].1,
                fewer[before[i].0][before[i].1 - 1]->0,
            ));
            assert(fewer[before[i].0] == texts[before[i].0]);
        }
        if earlier.len() < max_lines {
            match indexer::behind_cursor(state.last_file, state.last_line, names[k]) {
                None => {},
                Some(done) => {
                    lemma_rows(names[k], texts[k], done);
                    let more = curator::new_rows(names[k], texts[k], done);
                    let numbers = places::new_numbers(texts[k], done);
                    let all = earlier + more;
                    assert(rows == ranking::front(all, max_lines));
                    assert(all.len() == at.len());
                    assert forall|i: int|
                        #![trigger rows[i]]
                        #![trigger at[i]]
                        0 <= i < rows.len() implies {
                        &&& 0 <= at[i].0 < files.len()
                        &&& 0 < at[i].1 <= texts[at[i].0].len()
                        &&& tells(
                            rows[i],
                            names[at[i].0],
                            at[i].1,
                            texts[at[i].0][at[i].1 - 1]->0,
                        )
                    } by {
                        assert(rows[i] == all[i]);
                        if i < earlier.len() {
                            assert(all[i] == earlier[i]);
                        } else {
                            let j = i - earlier.len();
                            assert(all[i] == more[j]);
                            assert(at[i] == (k, numbers[j]));
                        }
                    }
                },
            }
        }
    }
}

/// Where all transcripts can be read, the window holds a row for every readable line ahead of the
/// cursor, whoever speaks, transcript by transcript and line by line, up to its size. The places
/// of these lines are returned.
pub proof fn law_the_window_holds_every_new_line(
    state: CuratorStateView,
    files: Seq<DialogueView>,
    texts: Seq<Seq<Option<(Seq<char>, Seq<char>)>>>,
    max_lines: nat,
) -> (at: Seq<(int, int)>)
    requires
        read_as(files, texts),
    ensures
        places::lists_ahead(at, state.last_file, state.last_line, names_of(files), texts),
        curator::window(state, files, max_lines) matches Ok(rows) && {
            &&& at.len() <= max_lines ==> rows.len() == at.len()
            &&& at.len() > max_lines ==> rows.len() == max_lines
            &&& forall|i: int|
                0 <= i < rows.len() ==> tells(
                    #[trigger] rows[i],
                    files[at[i].0].name,
                    at[i].1,
                    texts[at[i].0][at[i].1 - 1]->0,
                )
        },
{
    let names = names_of(files);
    places::lemma_places_ahead(state.last_file, state.last_line, names, texts);
    lemma_window(state, files, names, texts, max_lines);
    let at = places::places_ahead(state.last_file, state.last_line, names, texts);
    let rows = curator::window(state, files, max_lines)->Ok_0;
    assert forall|i: int| 0 <= i < rows.len() implies tells(
        #[trigger] rows[i],
        files[at[i].0].name,
        at[i].1,
        texts[at[i].0][at[i].1 - 1]->0,
    ) by {
        assert(names[at[i].0] == files[at[i].0].name);
    }
    at
}

/// A transcript ahead of the cursor that cannot be read stops the run with its error, unless the
/// window is full before it.
pub proof fn law_an_unreadable_transcript_stops_the_window(
    state: CuratorStateView,
    files: Seq<DialogueView>,
    name: Seq<char>,
    e: Seq<char>,
    max_lines: nat,
)
    requires
        curator::window(state, files, max_lines) matches Ok(rows) && rows.len() < max_lines,
    ensures
        ({
            let bad = DialogueView { name, lines: Err(e) };
            let r = curator::window(state, files.push(bad), max_lines);
            &&& (exists|n: int| #[trigger] places::ahead(state.last_file, state.last_line, name, n))
                ==> r == Err::<Seq<Seq<char>>, Seq<char>>(e)
            &&& (forall|n: int| !#[trigger] places::ahead(state.last_file, state.last_line, name, n))
                ==> r == curator::window(state, files, max_lines)
        }),
{
    let bad = DialogueView { name, lines: Err(e) };
    assert(files.push(bad).drop_last() =~= files);
    assert(files.push(bad).last() == bad);
    let big = state.last_line as int + 1;
    let at_end = places::ahead(state.last_file, state.last_line, name, big);
}

/// A curator that is not switched off asks the model about the window, or has nothing to do where
/// it is empty.
pub proof fn law_a_run_asks_about_the_window(
    cfg: CuratorConfig,
    state: CuratorStateView,
    files: Seq<DialogueView>,
)
    ensures
        ({
            let plan = curator::plan_of(cfg, state, files);
            let seen = curator::window(state, files, curator::window_size(cfg) as nat);
            &&& cfg.enabled == Some(false) ==> (plan is Ok && plan->Ok_0 is Stop)
            &&& cfg.enabled != Some(false) ==> {
                &&& seen matches Err(e) ==> plan == Err::<CuratorPlanView, Seq<char>>(e)
                &&& seen matches Ok(rows) ==> {
                    &&& rows.len() > 0 ==> plan == Ok::<CuratorPlanView, Seq<char>>(
                        CuratorPlanView::Ask(rows),
                    )
                    &&& rows.len() == 0 ==> (plan is Ok && plan->Ok_0 is Stop)
                }
            }
        }),
{
}

/// The sizes are those that are set, raised to their least value, or else the usual ones.
pub proof fn law_settings_are_followed(cfg: CuratorConfig, n: usize, b: bool)
    ensures
        cfg.window == Some(CuratorWindow { max_lines: Some(n) }) && n >= 50
            ==> curator::window_size(cfg) == n,
        cfg.window == Some(CuratorWindow { max_lines: Some(n) }) && n < 50
            ==> curator::window_size(cfg) == 50,
        cfg.window is None || cfg.window->0.max_lines is None ==> curator::window_size(cfg) == 800,
        cfg.apply matches Some(apply) ==> {
            &&& apply.max_additions_per_run == Some(n) && n >= 1 ==> curator::additions_limit(cfg)
                == n
            &&& apply.max_additions_per_run == Some(0usize) ==> curator::additions_limit(cfg) == 1
            &&& apply.max_additions_per_run is None ==> curator::additions_limit(cfg) == 10
            &&& apply.dry_run == Some(b) ==> curator::only_counts(cfg) == b
            &&& apply.dry_run is None ==> !curator::only_counts(cfg)
        },
        cfg.apply is None ==> curator::additions_limit(cfg) == 10 && !curator::only_counts(cfg),
{
}

/// The address of the model is the base address, whether or not it names the version or ends in
/// slashes, followed by the path of the chat completions.
pub proof fn law_the_endpoint_is_under_the_base(base: Seq<char>, slashes: Seq<char>)
    requires
        base.len() == 0 || base[base.len() - 1] != '/',
        forall|i: int| 0 <= i < slashes.len() ==> #[trigger] slashes[i] == '/',
    ensures
        curator::chat_endpoint(base + "/v1"@ + slashes) == base + "/v1/chat/completions"@,
        !"/v1"@.is_suffix_of(base) ==> curator::chat_endpoint(base + slashes) == base
            + "/v1/chat/completions"@,
{
    reveal_strlit("/v1");
    reveal_strlit("/chat/completions");
    reveal_strlit("/v1/chat/completions");
    assert("/v1"@ =~= seq!['/', 'v', '1']);
    assert("/v1/chat/completions"@ =~= "/v1"@ + "/chat/completions"@);
    lemma_end_stripped(base, slashes);
    lemma_end_stripped(base + "/v1"@, slashes);
    assert("/v1"@ =~= (base + "/v1"@).subrange(
        (base + "/v1"@).len() - 3,
        (base + "/v1"@).len() as int,
    ));
    assert("/v1"@.is_suffix_of(base + "/v1"@));
    assert(base + "/v1"@ + "/chat/completions"@ =~= base + "/v1/chat/completions"@);
}

proof fn lemma_end_stripped(s: Seq<char>, slashes: Seq<char>)
    requires
        s.len() == 0 || s[s.len() - 1] != '/',
        forall|i: int| 0 <= i < slashes.len() ==> #[trigger] slashes[i] == '/',
    ensures
        search::trim_end_of(s + slashes, '/') == s,
    decreases slashes.len(),
{
    if slashes.len() == 0 {
        assert(s + slashes =~= s);
        if s.len() > 0 {
            assert(s.last() == s[s.len() - 1]);
        }
    } else {
        let fewer = slashes.drop_last();
        assert forall|i: int| 0 <= i < fewer.len() implies #[trigger] fewer[i] == '/' by {
            assert(fewer[i] == slashes[i]);
        }
        lemma_end_stripped(s, fewer);
        assert((s + slashes).drop_last() =~= s + fewer);
        assert((s + slashes).last() == slashes[slashes.len() - 1]);
    }
}

/// The part of a reply that is read as JSON reaches from its first opening brace to its last
/// closing one.
pub proof fn law_the_json_of_a_reply_is_found(a: Seq<char>, b: Seq<char>, c: Seq<char>)
    requires
        !a.contains('{'),
        !c.contains('}'),
    ensures
        curator::braced(a + (seq!['{'] + b + seq!['}']) + c) == Some(seq!['{'] + b + seq!['}']),
        curator::braced(a) is None,
        curator::braced(c) is None,
        curator::braces_in_order(a + (seq!['{'] + b + seq!['}']) + c),
{
    let part = seq!['{'] + b + seq!['}'];
    let s = a + part + c;
    search::lemma_first_of(s, '{');
    search::lemma_last_of(s, '}');
    search::lemma_first_of(a, '{');
    search::lemma_last_of(c, '}');
    let start = search::first_of(s, '{');
    let end = search::last_of(s, '}');
    assert(s[a.len() as int] == '{');
    let close = a.len() + part.len() - 1;
    assert(s[close] == '}');
    if start < a.len() {
        assert(a[start] == s[start]);
        assert(a.contains('{'));
    }
    if end > close {
        assert(c[end - close - 1] == s[end]);
        assert(c.contains('}'));
    }
    assert(start == a.len());
    assert(end == close);
    assert(s.subrange(start, end + 1) =~= part);
    if search::first_of(a, '{') < a.len() {
        assert(a.contains(a[search::first_of(a, '{')]));
    }
    if search::last_of(c, '}') >= 0 {
        assert(c.contains(c[search::last_of(c, '}')]));
    }
}

// ---------------------------------------------------------------------------------------
// What is written down

/// Replacing a character by a single other one changes nothing else.
pub proof fn law_one_character_takes_the_place_of_another(s: Seq<char>, c: char, d: char)
    ensures
        search::with_char_replaced(s, c, seq![d]) == s.map_values(
            |x: char| if x == c { d } else { x },
        ),
    decreases s.len(),
{
    let f = |x: char| if x == c { d } else { x };
    if s.len() > 0 {
        law_one_character_takes_the_place_of_another(s.drop_last(), c, d);
        assert(s.map_values(f) =~= s.drop_last().map_values(f).push(f(s.last())));
        assert(search::with_char_replaced(s, c, seq![d]) =~= s.drop_last().map_values(f).push(
            f(s.last()),
        ));
    } else {
        assert(s.map_values(f) =~= Seq::empty());
    }
}

proof fn lemma_dashes(dashes: Seq<char>, rest: Seq<char>)
    requires
        forall|i: int| 0 <= i < dashes.len() ==> #[trigger] dashes[i] == '-',
        rest.len() == 0 || rest[0] != '-',
    ensures
        search::trim_start_of(dashes + rest, '-') == rest,
    decreases dashes.len(),
{
    if dashes.len() == 0 {
        assert(dashes + rest =~= rest);
    } else {
        let fewer = dashes.drop_first();
        assert forall|i: int| 0 <= i < fewer.len() implies #[trigger] fewer[i] == '-' by {
            assert(fewer[i] == dashes[i + 1]);
        }
        lemma_dashes(fewer, rest);
        assert((dashes + rest).drop_first() =~= fewer + rest);
        assert((dashes + rest)[0] == dashes[0]);
    }
}

proof fn lemma_only_dashes(before: Seq<char>, dashes: Seq<char>, after: Seq<char>)
    requires
        layout::all_white(before),
        layout::all_white(after),
        forall|i: int| 0 <= i < dashes.len() ==> #[trigger] dashes[i] == '-',
    ensures
        curator::sanitized(before + dashes + after).len() == 0,
{
    let none = Seq::<char>::empty();
    let s = before + dashes + after;
    if dashes.len() > 0 {
        facts::lemma_padded(before, dashes, after);
        assert(dashes + none =~= dashes);
        lemma_dashes(dashes, none);
    } else {
        assert forall|i: int| 0 <= i < s.len() implies text::white(#[trigger] s[i]) by {
            if i < before.len() {
                assert(s[i] == before[i]);
            } else {
                assert(s[i] == after[i - before.len()]);
            }
        }
        facts::lemma_filled(s);
        assert(text::trimmed(s) =~= none);
        assert(search::trim_start_of(none, '-') =~= none);
    }
    facts::lemma_filled(none);
    assert(text::trimmed(none) =~= none);
}

/// A proposal is written down without the white space and the list mark around it, all of it, its
/// line feeds as spaces.
pub proof fn law_a_proposal_is_kept_whole(
    before: Seq<char>,
    dashes: Seq<char>,
    between: Seq<char>,
    w: Seq<char>,
    after: Seq<char>,
)
    requires
        layout::all_white(before),
        layout::all_white(between),
        layout::all_white(after),
        forall|i: int| 0 <= i < dashes.len() ==> #[trigger] dashes[i] == '-',
        dashes.len() == 0 ==> between.len() == 0,
        facts::tight(w),
        w[0] != '-' || between.len() > 0,
    ensures
        curator::sanitized(before + dashes + after).len() == 0,
        curator::sanitized(before + (dashes + (between + w)) + after) == w.map_values(
            |x: char| if x == '\n' { ' ' } else { x },
        ),
        !w.contains('\n') ==> curator::sanitized(before + (dashes + (between + w)) + after) == w,
{
    reveal_strlit(" ");
    assert(" "@ =~= seq![' ']);
    lemma_only_dashes(before, dashes, after);
    let rest = between + w;
    let inner = dashes + rest;
    assert(!text::white('-'));
    assert(inner.len() > 0);
    assert(inner[inner.len() - 1] == w[w.len() - 1]);
    if dashes.len() > 0 {
        assert(inner[0] == dashes[0]);
    } else {
        assert(inner[0] == w[0]);
    }
    facts::lemma_padded(before, inner, after);
    if between.len() > 0 {
        assert(rest[0] == between[0]);
    } else {
        assert(rest[0] == w[0]);
    }
    lemma_dashes(dashes, rest);
    assert(between + w + Seq::<char>::empty() =~= rest);
    facts::lemma_padded(between, w, Seq::empty());
    law_one_character_takes_the_place_of_another(w, '\n', ' ');
    let f = |x: char| if x == '\n' { ' ' } else { x };
    if !w.contains('\n') {
        assert forall|i: int| 0 <= i < w.len() implies #[trigger] w.map_values(f)[i] == w[i] by {
            assert(w.contains(w[i]));
        }
        assert(w.map_values(f) =~= w);
    }
}

/// A proposal that comes next is taken, as one line without its list mark, exactly where it is at
/// most five hundred bytes long, not sensitive, and stands in no line of the file or of what was
/// taken before; a blank one is not.
pub proof fn law_a_new_line_is_taken(
    existing: Seq<char>,
    proposals: Seq<Seq<char>>,
    before: Seq<char>,
    dashes: Seq<char>,
    between: Seq<char>,
    w: Seq<char>,
    after: Seq<char>,
)
    requires
        layout::all_white(before),
        layout::all_white(between),
        layout::all_white(after),
        forall|i: int| 0 <= i < dashes.len() ==> #[trigger] dashes[i] == '-',
        dashes.len() == 0 ==> between.len() == 0,
        facts::tight(w),
        w[0] != '-' || between.len() > 0,
    ensures
        ({
            let p = before + (dashes + (between + w)) + after;
            let line = w.map_values(|x: char| if x == '\n' { ' ' } else { x });
            let (known, lines) = curator::taken(existing, proposals);
            let (then, more) = curator::taken(existing, proposals.push(p));
            let fit = guard::byte_len(line) <= 500 && !guard::sensitive(line)
                && !search::some_line_holds(known, line);
            &&& fit ==> more == lines.push(line) && then == known + seq!['\n'] + line
            &&& !fit ==> more == lines && then == known
            &&& curator::taken(existing, Seq::empty()) == (existing, Seq::<Seq<char>>::empty())
            &&& curator::taken(existing, proposals.push(before + dashes + after)) == (known, lines)
        }),
{
    reveal_strlit("\n");
    assert("\n"@ =~= seq!['\n']);
    let p = before + (dashes + (between + w)) + after;
    let line = w.map_values(|x: char| if x == '\n' { ' ' } else { x });
    law_a_proposal_is_kept_whole(before, dashes, between, w, after);
    assert(line.len() > 0);
    assert(proposals.push(p).drop_last() =~= proposals);
    assert(proposals.push(before + dashes + after).drop_last() =~= proposals);
    let known = curator::taken(existing, proposals).0;
    assert(known + ("\n"@ + line) =~= known + seq!['\n'] + line);
}

/// Every proposal is looked at up to the limit, and none behind it.
pub proof fn law_the_first_ones_are_looked_at<T>(items: Seq<T>, n: nat)
    ensures
        items.len() <= n ==> ranking::front(items, n) == items,
        items.len() > n ==> ranking::front(items, n).len() == n,
        forall|i: int|
            0 <= i < n && i < items.len() ==> #[trigger] ranking::front(items, n)[i] == items[i],
{
}

/// A run that does not only count takes the lines of the first proposals, up to its limit.
pub proof fn law_a_run_takes_the_lines(
    cfg: CuratorConfig,
    existing: Seq<char>,
    proposals: Seq<Seq<char>>,
)
    ensures
        curator::only_counts(cfg) ==> curator::lines_taken(cfg, existing, proposals).len() == 0,
        !curator::only_counts(cfg) && proposals.len() <= curator::additions_limit(cfg)
            ==> curator::lines_taken(cfg, existing, proposals) == curator::taken(
            existing,
            proposals,
        ).1,
        !curator::only_counts(cfg) && proposals.len() > curator::additions_limit(cfg)
            ==> curator::lines_taken(cfg, existing, proposals) == curator::taken(
            existing,
            proposals.take(curator::additions_limit(cfg) as int),
        ).1,
{
}

/// What is added to a file is one line that ends with what was taken, whole, behind its time.
pub proof fn law_an_addition_holds_its_line(ts: Seq<char>, line: Seq<char>)
    ensures
        curator::addition_text(ts, line) == seq!['-', ' ', '['] + ts + seq![']', ' '] + line + seq![
            '\n',
        ],
{
    reveal_strlit("- [");
    reveal_strlit("] ");
    reveal_strlit("\n");
    assert("- ["@ =~= seq!['-', ' ', '[']);
    assert("] "@ =~= seq![']', ' ']);
    assert("\n"@ =~= seq!['\n']);
}

/// After a run the cursor stands at the end of the last transcript: none of the lines up to there
/// lie ahead of it, in this transcript or one before it.
pub proof fn law_the_cursor_moves_to_the_end(
    state: CuratorStateView,
    file: Seq<char>,
    count: nat,
    stamp: Seq<char>,
    name: Seq<char>,
    n: int,
)
    ensures
        ({
            let after = curator::state_after(state, Some((file, count)), stamp);
            &&& places::ahead(after.last_file, after.last_line, file, n) <==> n > count
            &&& order::precedes(name, file) ==> !places::ahead(
                after.last_file,
                after.last_line,
                name,
                n,
            )
            &&& order::precedes(file, name) ==> places::ahead(
                after.last_file,
                after.last_line,
                name,
                n,
            )
            &&& after.last_run_at == stamp
        }),
        curator::state_after(state, None, stamp) == (CuratorStateView {
            last_run_at: stamp,
            ..state
        }),
{
    if order::precedes(name, file) {
        order::lemma_precedes_asymmetric(name, file);
    }
    if order::precedes(file, name) {
        order::lemma_precedes_asymmetric(file, name);
    }
}

// ---------------------------------------------------------------------------------------
// The question and the answer

/// The model is asked with the instructions first, and then with every row, each on a line of its
/// own, in order.
pub proof fn law_the_model_is_asked_about_every_row(
    max_additions: nat,
    template: Option<Seq<char>>,
    rows: Seq<Seq<char>>,
    row: Seq<char>,
)
    ensures
        ({
            let m = curator::question_messages(max_additions, template, rows);
            &&& m.len() == 2
            &&& m[0].role == "system"@
            &&& m[0].content == curator::prompt_text(template, max_additions)
            &&& m[1].role == "user"@
            &&& m[1].content == curator::question_text(rows)
        }),
        rows.len() > 0 ==> curator::question_text(rows.push(row)) == curator::question_text(rows)
            + seq!['\n'] + row,
        curator::question_text(seq![row]) == curator::question_text(Seq::empty()) + row,
{
    reveal_strlit("\n");
    assert("\n"@ =~= seq!['\n']);
    assert(rows.push(row).drop_last() =~= rows);
    let head =
        "Voici les nouveaux transcripts à curer. Extrait uniquement des faits stables et utiles.\n\n"@;
    if rows.len() > 0 {
        let front = search::joined(rows, "\n"@);
        assert(head + (front + "\n"@ + row) =~= head + front + seq!['\n'] + row);
    }
    assert(curator::question_text(Seq::empty()) =~= head);
}

/// The instructions are those on file, or else the usual ones, with the limit where they have its
/// mark: where the mark stands once, the rest stays as it is.
pub proof fn law_the_limit_takes_the_place_of_its_mark(a: Seq<char>, b: Seq<char>, n: nat)
    requires
        forall|i: int|
            0 <= i < a.len() ==> !#[trigger] search::occurs_at(
                a + "__MAX_ADDITIONS__"@ + b,
                "__MAX_ADDITIONS__"@,
                i,
            ),
        !search::holds(b, "__MAX_ADDITIONS__"@),
    ensures
        curator::prompt_text(Some(a + "__MAX_ADDITIONS__"@ + b), n) == a + numerals::decimal(n) + b,
        curator::prompt_text(Some(b), n) == b,
        curator::prompt_text(None, n) == curator::prompt_text(Some(curator::DEFAULT_PROMPT@), n),
{
    reveal_strlit("__MAX_ADDITIONS__");
    let p = "__MAX_ADDITIONS__"@;
    let t = numerals::decimal(n);
    words::law_the_first_occurrence_gives_way(a, p, b, t);
    words::law_nothing_else_gives_way(b, p, t);
}

/// The curator uses its own key, address and model where it has them, else those of the program.
pub proof fn law_its_own_settings_go_first(
    llm: CuratorLlm,
    own: Seq<char>,
    default: Seq<char>,
)
    ensures
        facts::filled(own) ==> curator::key_of(Some(own), default) == own,
        layout::all_white(own) ==> curator::key_of(Some(own), default) == default,
        curator::key_of(None, default) == default,
        llm.base_url matches Some(base) ==> curator::endpoint_of(Some(llm), default)
            == curator::chat_endpoint(base@),
        llm.base_url is None ==> curator::endpoint_of(Some(llm), default) == default,
        curator::endpoint_of(None, default) == default,
        llm.model matches Some(model) ==> curator::model_of(Some(llm), default) == model@,
        llm.model is None ==> curator::model_of(Some(llm), default) == default,
        curator::model_of(None, default) == default,
{
    facts::lemma_filled(own);
}

/// Each file takes from what was proposed for it, by what it holds itself.
pub proof fn law_each_file_takes_its_own_lines(
    cfg: CuratorConfig,
    output: CuratorOutput,
    memory_text: Seq<char>,
    agent_text: Seq<char>,
    user_text: Seq<char>,
)
    ensures
        ({
            let r = curator::all_taken(cfg, output, memory_text, agent_text, user_text);
            &&& r.0 == curator::lines_taken(
                cfg,
                memory_text,
                text::texts(output.memory_additions@),
            )
            &&& r.1 == curator::lines_taken(cfg, agent_text, text::texts(output.agent_additions@))
            &&& r.2 == curator::lines_taken(cfg, user_text, text::texts(output.user_additions@))
        }),
{
}

/// The cursor is taken from the last transcript.
pub proof fn law_the_last_transcript_is_the_latest(
    files: Seq<(Seq<char>, nat)>,
    last: (Seq<char>, nat),
)
    ensures
        curator::cursor_of(files.push(last)) == Some(last),
        curator::cursor_of(Seq::empty()) is None,
{
}

/// What a run says of itself counts the lines that each file took, and what was proposed for each.
pub proof fn law_a_run_is_counted(m: nat, a: nat, u: nat, pm: nat, pa: nat, pu: nat)
    ensures
        curator::dry_message(m, a, u) == "curator dry-run: "@ + numerals::decimal(m)
            + " propositions MEMORY, "@ + numerals::decimal(a) + " AGENT, "@ + numerals::decimal(u)
            + " USER"@,
        curator::done_message(m, a, u, pm, pa, pu) == "curator ok: +"@ + numerals::decimal(m)
            + " MEMORY, +"@ + numerals::decimal(a) + " AGENT, +"@ + numerals::decimal(u)
            + " USER (propositions: "@ + numerals::decimal(pm) + "/"@ + numerals::decimal(pa)
            + "/"@ + numerals::decimal(pu) + ")"@,
{
}

/// The curator's own key stands in the variable that its settings name.
pub proof fn law_its_key_stands_in_its_variable(llm: CuratorLlm)
    ensures
        llm.api_key_env matches Some(name) ==> curator::key_variable(Some(llm)) == Some(name@),
        llm.api_key_env is None ==> curator::key_variable(Some(llm)) is None,
        curator::key_variable(None) is None,
{
}

} // verus!
