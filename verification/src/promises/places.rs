//! The places of new lines in a list of transcripts: the laws on reading them speak of these.

use vstd::prelude::*;

use crate::{indexer, order};

verus! {

/// The numbers of the readable lines behind the first `done` ones: all of them, in ascending
/// order.
pub open spec fn lists_new<T>(at: Seq<int>, lines: Seq<Option<T>>, done: nat) -> bool {
    &&& forall|i: int, j: int| 0 <= i < j < at.len() ==> #[trigger] at[i] < #[trigger] at[j]
    &&& forall|i: int|
        0 <= i < at.len() ==> done < #[trigger] at[i] <= lines.len() && lines[at[i] - 1] is Some
    &&& forall|n: int|
        done < n <= lines.len() && (#[trigger] lines[n - 1]) is Some ==> at.contains(n)
}

/// The numbers of the readable lines behind the first `done` ones.
pub open spec fn new_numbers<T>(lines: Seq<Option<T>>, done: nat) -> Seq<int>
    decreases lines.len(),
{
    if lines.len() == 0 {
        Seq::empty()
    } else if lines.last() is Some && lines.len() > done {
        new_numbers(lines.drop_last(), done).push(lines.len() as int)
    } else {
        new_numbers(lines.drop_last(), done)
    }
}

/// These are all of them, in ascending order.
pub proof fn lemma_new_numbers<T>(lines: Seq<Option<T>>, done: nat)
    ensures
        lists_new(new_numbers(lines, done), lines, done),
    decreases lines.len(),
{
    let at = new_numbers(lines, done);
    if lines.len() > 0 {
        let front = lines.drop_last();
        let before = new_numbers(front, done);
        lemma_new_numbers(front, done);
        assert forall|i: int| 0 <= i < at.len() implies done < #[trigger] at[i] <= lines.len()
            && lines[at[i] - 1] is Some by {
            if i < before.len() {
                assert(at[i] == before[i]);
                assert(front[before[i] - 1] == lines[before[i] - 1]);
            }
        }
        assert forall|i: int, j: int| 0 <= i < j < at.len() implies #[trigger] at[i] < #[trigger] at[j] by {
            assert(at[i] == before[i]);
            if j < before.len() {
                assert(at[j] == before[j]);
            }
        }
        assert forall|n: int|
            done < n <= lines.len() && (#[trigger] lines[n - 1]) is Some implies at.contains(n) by {
            if n < lines.len() {
                assert(front[n - 1] == lines[n - 1]);
                let k = choose|k: int| 0 <= k < before.len() && before[k] == n;
                assert(at[k] == n);
            } else {
                assert(at[before.len() as int] == n);
            }
        }
    }
}

/// A line lies ahead of a cursor, which is a file and a line in it: it stands in that file behind
/// that line, or in a file that comes later; without a cursor every line does.
pub open spec fn ahead(
    last_file: Option<Seq<char>>,
    last_line: nat,
    name: Seq<char>,
    n: int,
) -> bool {
    match last_file {
        None => true,
        Some(last) => (last == name && n > last_line) || (last != name && order::precedes(
            last,
            name,
        )),
    }
}

/// The places, as the number of a transcript and of a line, of the readable lines ahead of a
/// cursor: all of them, transcript by transcript and line by line.
pub open spec fn lists_ahead<T>(
    at: Seq<(int, int)>,
    last_file: Option<Seq<char>>,
    last_line: nat,
    names: Seq<Seq<char>>,
    texts: Seq<Seq<Option<T>>>,
) -> bool {
    &&& forall|i: int, j: int|
        0 <= i < j < at.len() ==> {
            let a = #[trigger] at[i];
            let b = #[trigger] at[j];
            a.0 < b.0 || (a.0 == b.0 && a.1 < b.1)
        }
    &&& forall|i: int|
        0 <= i < at.len() ==> {
            let (k, n) = #[trigger] at[i];
            &&& 0 <= k < texts.len()
            &&& 0 < n <= texts[k].len()
            &&& texts[k][n - 1] is Some
            &&& ahead(last_file, last_line, names[k], n)
        }
    &&& forall|k: int, n: int|
        0 <= k < texts.len() && 0 < n <= texts[k].len() && (#[trigger] texts[k][n - 1]) is Some
            && ahead(last_file, last_line, names[k], n) ==> at.contains((k, n))
}

/// The places of the readable lines ahead of a cursor.
pub open spec fn places_ahead<T>(
    last_file: Option<Seq<char>>,
    last_line: nat,
    names: Seq<Seq<char>>,
    texts: Seq<Seq<Option<T>>>,
) -> Seq<(int, int)>
    decreases texts.len(),
{
    if texts.len() == 0 {
        Seq::empty()
    } else {
        let before = places_ahead(last_file, last_line, names, texts.drop_last());
        match indexer::behind_cursor(last_file, last_line, names[texts.len() - 1]) {
            None => before,
            Some(done) => {
                let more = new_numbers(texts.last(), done);
                before + Seq::new(more.len(), |i: int| (texts.len() - 1, more[i]))
            },
        }
    }
}

/// These are all of them, in order.
pub proof fn lemma_places_ahead<T>(
    last_file: Option<Seq<char>>,
    last_line: nat,
    names: Seq<Seq<char>>,
    texts: Seq<Seq<Option<T>>>,
)
    ensures
        lists_ahead(
            places_ahead(last_file, last_line, names, texts),
            last_file,
            last_line,
            names,
            texts,
        ),
    decreases texts.len(),
{
    let at = places_ahead(last_file, last_line, names, texts);
    if texts.len() > 0 {
        let front = texts.drop_last();
        let before = places_ahead(last_file, last_line, names, front);
        lemma_places_ahead(last_file, last_line, names, front);
        let last = texts.len() - 1;
        let lines = texts[last];
        let done = indexer::behind_cursor(last_file, last_line, names[last]);
        let more = match done {
            None => Seq::empty(),
            Some(done) => new_numbers(lines, done),
        };
        if done is Some {
            lemma_new_numbers(lines, done->0);
        }
        assert(texts.last() == lines);
        assert(at.len() == before.len() + more.len());
        assert forall|i: int| 0 <= i < before.len() implies #[trigger] at[i] == before[i] by {}
        assert forall|i: int| before.len() <= i < at.len() implies #[trigger] at[i] == (
            last,
            more[i - before.len()],
        ) by {}
        assert forall|k: int| 0 <= k < last implies #[trigger] front[k] == texts[k] by {}
        assert forall|i: int| 0 <= i < at.len() implies {
            let (k, n) = #[trigger] at[i];
            &&& 0 <= k < texts.len()
            &&& 0 < n <= texts[k].len()
            &&& texts[k][n - 1] is Some
            &&& ahead(last_file, last_line, names[k], n)
        } by {
            if i < before.len() {
                let (k, n) = before[i];
                assert(front[k] == texts[k]);
            } else {
                let n = more[i - before.len()];
                assert(lines[n - 1] is Some);
            }
        }
        assert forall|i: int, j: int| 0 <= i < j < at.len() implies {
            let a = #[trigger] at[i];
            let b = #[trigger] at[j];
            a.0 < b.0 || (a.0 == b.0 && a.1 < b.1)
        } by {
            if j < before.len() {
                assert(at[i] == before[i] && at[j] == before[j]);
            } else if i < before.len() {
                assert(at[i] == before[i]);
                assert(0 <= before[i].0 < front.len());
            } else {
                assert(more[i - before.len()] < more[j - before.len()]);
            }
        }
        assert forall|k: int, n: int|
            0 <= k < texts.len() && 0 < n <= texts[k].len() && (#[trigger] texts[k][n - 1]) is Some
                && ahead(last_file, last_line, names[k], n) implies at.contains((k, n)) by {
            if k < last {
                assert(front[k][n - 1] is Some);
                let i = choose|i: int| 0 <= i < before.len() && before[i] == (k, n);
                assert(at[i] == (k, n));
            } else {
                assert(lines[n - 1] is Some);
                let i = choose|i: int| 0 <= i < more.len() && more[i] == n;
                assert(at[before.len() + i] == (k, n));
            }
        }
    }
}

} // verus!
