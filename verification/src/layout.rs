//! Texts as words with white space between them.

use vstd::prelude::*;

use crate::{search, text};

verus! {

/// White space alone.
pub open spec fn all_white(s: Seq<char>) -> bool {
    forall|i: int| 0 <= i < s.len() ==> text::white(#[trigger] s[i])
}

/// A word: it is not empty and holds no white space.
pub open spec fn word(s: Seq<char>) -> bool {
    s.len() > 0 && forall|i: int| 0 <= i < s.len() ==> !text::white(#[trigger] s[i])
}

/// Words alone.
pub open spec fn all_words(parts: Seq<Seq<char>>) -> bool {
    forall|i: int| 0 <= i < parts.len() ==> word(#[trigger] parts[i])
}

/// A word is the first word of a text that goes on with white space or ends.
pub proof fn lemma_word_in_front(word: Seq<char>, rest: Seq<char>)
    requires
        forall|i: int| 0 <= i < word.len() ==> !text::white(#[trigger] word[i]),
        rest.len() == 0 || text::white(rest[0]),
    ensures
        text::word_len(word + rest) == word.len(),
    decreases word.len(),
{
    let s = word + rest;
    if word.len() > 0 {
        let tail = word.drop_first();
        assert(s.drop_first() =~= tail + rest);
        assert forall|i: int| 0 <= i < tail.len() implies !text::white(#[trigger] tail[i]) by {
            assert(tail[i] == word[i + 1]);
        }
        assert(s[0] == word[0]);
        lemma_word_in_front(tail, rest);
    } else if rest.len() > 0 {
        assert(s[0] == rest[0]);
    }
}

/// White space in front of a text is left out with the text's own.
pub proof fn lemma_white_in_front(gap: Seq<char>, s: Seq<char>)
    requires
        all_white(gap),
    ensures
        text::trim_start(gap + s) == text::trim_start(s),
        text::words(gap + s) == text::words(s),
    decreases gap.len(),
{
    if gap.len() > 0 {
        let rest = gap.drop_first();
        assert forall|i: int| 0 <= i < rest.len() implies text::white(#[trigger] rest[i]) by {
            assert(rest[i] == gap[i + 1]);
        }
        lemma_white_in_front(rest, s);
        assert((gap + s).drop_first() =~= rest + s);
        assert((gap + s)[0] == gap[0]);
    } else {
        assert(gap + s =~= s);
    }
}

proof fn lemma_white_behind(s: Seq<char>, gap: Seq<char>)
    requires
        all_white(gap),
    ensures
        text::trim_end(s + gap) == text::trim_end(s),
    decreases gap.len(),
{
    if gap.len() > 0 {
        let rest = gap.drop_last();
        assert forall|i: int| 0 <= i < rest.len() implies text::white(#[trigger] rest[i]) by {
            assert(rest[i] == gap[i]);
        }
        lemma_white_behind(s, rest);
        assert((s + gap).drop_last() =~= s + rest);
        assert((s + gap).last() == gap[gap.len() - 1]);
    } else {
        assert(s + gap =~= s);
    }
}

/// White space around a text that has none at its ends is just what trimming takes away.
pub proof fn law_trimming_takes_the_white_space_around(
    before: Seq<char>,
    s: Seq<char>,
    after: Seq<char>,
)
    requires
        all_white(before),
        all_white(after),
        s.len() > 0,
        !text::white(s[0]),
        !text::white(s.last()),
    ensures
        text::trimmed(before + s + after) == s,
{
    assert(before + s + after =~= before + (s + after));
    lemma_white_in_front(before, s + after);
    assert((s + after)[0] == s[0]);
    lemma_white_behind(s, after);
}

/// Words with white space around and between them: `gaps[i]` stands before `parts[i]`, and the
/// last gap behind the last word.
pub open spec fn laid_out(parts: Seq<Seq<char>>, gaps: Seq<Seq<char>>) -> Seq<char>
    decreases parts.len(),
{
    if parts.len() == 0 {
        gaps[0]
    } else {
        gaps[0] + (parts[0] + laid_out(parts.drop_first(), gaps.drop_first()))
    }
}

/// The parts are words and the gaps white space, and no two words touch.
pub open spec fn fits(parts: Seq<Seq<char>>, gaps: Seq<Seq<char>>) -> bool {
    &&& gaps.len() == parts.len() + 1
    &&& all_words(parts)
    &&& forall|i: int| 0 <= i < gaps.len() ==> all_white(#[trigger] gaps[i])
    &&& forall|i: int| 0 < i < parts.len() ==> (#[trigger] gaps[i]).len() > 0
}

/// The words of a text do not depend on how they are laid out.
pub proof fn law_words_of_a_layout(parts: Seq<Seq<char>>, gaps: Seq<Seq<char>>)
    requires
        fits(parts, gaps),
    ensures
        text::words(laid_out(parts, gaps)) == parts,
    decreases parts.len(),
{
    if parts.len() == 0 {
        lemma_white_in_front(gaps[0], Seq::empty());
        assert(gaps[0] + Seq::<char>::empty() =~= gaps[0]);
        assert(text::words(laid_out(parts, gaps)) =~= parts);
    } else {
        let later = parts.drop_first();
        let spaces = gaps.drop_first();
        assert forall|i: int| 0 <= i < later.len() implies word(#[trigger] later[i]) by {
            assert(later[i] == parts[i + 1]);
        }
        assert forall|i: int| 0 <= i < spaces.len() implies all_white(#[trigger] spaces[i]) by {
            assert(spaces[i] == gaps[i + 1]);
        }
        assert forall|i: int| 0 < i < later.len() implies (#[trigger] spaces[i]).len() > 0 by {
            assert(spaces[i] == gaps[i + 1]);
        }
        law_words_of_a_layout(later, spaces);
        let rest = laid_out(later, spaces);
        assert(spaces[0] == gaps[1]);
        assert(all_white(gaps[1]));
        if later.len() > 0 {
            assert(gaps[1].len() > 0);
        }
        assert(rest.len() == 0 || text::white(rest[0])) by {
            if rest.len() > 0 && gaps[1].len() > 0 {
                assert(rest[0] == gaps[1][0]);
            }
        }
        assert(word(parts[0]));
        let s = parts[0] + rest;
        lemma_white_in_front(gaps[0], s);
        assert(s[0] == parts[0][0]);
        lemma_word_in_front(parts[0], rest);
        assert(s.take(parts[0].len() as int) =~= parts[0]);
        assert(s.skip(parts[0].len() as int) =~= rest);
        assert(seq![parts[0]] + later =~= parts);
    }
}

/// What the words of a text are.
pub proof fn lemma_words_are_words(s: Seq<char>)
    ensures
        all_words(text::words(s)),
        text::ascii(s) ==> forall|i: int|
            0 <= i < text::words(s).len() ==> text::ascii(#[trigger] text::words(s)[i]),
    decreases s.len(),
{
    let t = text::trim_start(s);
    text::lemma_trim_start_len(s);
    lemma_trim_start_tail(s);
    if t.len() > 0 {
        let n = text::word_len(t) as int;
        text::lemma_word_len(t);
        let first = t.take(n);
        let rest = t.skip(n);
        lemma_words_are_words(rest);
        let all = text::words(s);
        assert(all == seq![first] + text::words(rest));
        assert(word(first));
        assert forall|i: int| 0 <= i < all.len() implies word(#[trigger] all[i]) by {
            if i > 0 {
                assert(all[i] == text::words(rest)[i - 1]);
            }
        }
        if text::ascii(s) {
            assert(text::ascii(first));
            assert forall|i: int| 0 <= i < rest.len() implies (#[trigger] rest[i]) as int <= 0x7f by {
                assert(rest[i] == t[n + i]);
            }
            assert forall|i: int| 0 <= i < all.len() implies text::ascii(#[trigger] all[i]) by {
                if i > 0 {
                    assert(all[i] == text::words(rest)[i - 1]);
                }
            }
        }
    }
}

proof fn lemma_trim_start_tail(s: Seq<char>)
    ensures
        text::ascii(s) ==> text::ascii(text::trim_start(s)),
    decreases s.len(),
{
    if s.len() > 0 && text::white(s[0]) {
        lemma_trim_start_tail(s.drop_first());
    }
}

proof fn lemma_joined_front(parts: Seq<Seq<char>>)
    requires
        parts.len() >= 2,
    ensures
        search::joined(parts, " "@) == parts[0] + (" "@ + search::joined(parts.drop_first(), " "@)),
    decreases parts.len(),
{
    let sep = " "@;
    let later = parts.drop_first();
    if parts.len() == 2 {
        assert(parts.drop_last() =~= seq![parts[0]]);
        assert(later =~= seq![parts[1]]);
        assert(search::joined(parts.drop_last(), sep) == parts[0]);
        assert(search::joined(later, sep) == parts[1]);
        assert(parts[0] + sep + parts[1] =~= parts[0] + (sep + parts[1]));
    } else {
        lemma_joined_front(parts.drop_last());
        assert(parts.drop_last().drop_first() =~= later.drop_last());
        assert(parts.drop_last()[0] == parts[0]);
        assert(later.last() == parts.last());
        let middle = search::joined(later.drop_last(), sep);
        assert(search::joined(later, sep) == middle + sep + parts.last());
        assert(parts[0] + (sep + middle) + sep + parts.last() =~= parts[0] + (sep + (middle + sep
            + parts.last())));
    }
}

/// Words that are joined by single spaces are the words of what comes out.
pub proof fn lemma_words_of_joined(parts: Seq<Seq<char>>)
    requires
        all_words(parts),
    ensures
        text::words(search::joined(parts, " "@)) == parts,
    decreases parts.len(),
{
    reveal_strlit(" ");
    let s = search::joined(parts, " "@);
    if parts.len() == 0 {
        assert(text::words(s) =~= parts);
    } else {
        let later = parts.drop_first();
        assert(word(parts[0]));
        assert forall|i: int| 0 <= i < later.len() implies word(#[trigger] later[i]) by {
            assert(later[i] == parts[i + 1]);
        }
        lemma_words_of_joined(later);
        let rest = if parts.len() == 1 {
            Seq::empty()
        } else {
            " "@ + search::joined(later, " "@)
        };
        if parts.len() == 1 {
            assert(parts[0] + rest =~= s);
            assert(later =~= Seq::empty());
        } else {
            lemma_joined_front(parts);
            assert(all_white(" "@));
            lemma_white_in_front(" "@, search::joined(later, " "@));
        }
        assert(s == parts[0] + rest);
        assert(s[0] == parts[0][0]);
        lemma_word_in_front(parts[0], rest);
        assert(s.take(parts[0].len() as int) =~= parts[0]);
        assert(s.skip(parts[0].len() as int) =~= rest);
        assert(text::words(rest) == later);
        assert(seq![parts[0]] + later =~= parts);
    }
}

/// Each text of a list with its ASCII letters in lower case.
pub open spec fn all_lowered(parts: Seq<Seq<char>>) -> Seq<Seq<char>> {
    Seq::new(parts.len(), |i: int| text::lowered(parts[i]))
}

/// Lower case keeps words apart.
pub proof fn lemma_lowered_words(parts: Seq<Seq<char>>)
    requires
        all_words(parts),
    ensures
        all_words(all_lowered(parts)),
{
    assert forall|i: int| 0 <= i < parts.len() implies word(#[trigger] all_lowered(parts)[i]) by {
        let w = parts[i];
        let low = text::lowered(w);
        assert(word(w));
        assert forall|k: int| 0 <= k < low.len() implies !text::white(#[trigger] low[k]) by {
            assert(!text::white(w[k]));
            let n = w[k] as u32;
            if 'A' <= w[k] && w[k] <= 'Z' {
                assert(low[k] as u32 == n + 32);
            }
        }
    }
}

/// Joining goes with lower case.
pub proof fn lemma_lowered_joined(parts: Seq<Seq<char>>)
    ensures
        text::lowered(search::joined(parts, " "@)) == search::joined(all_lowered(parts), " "@),
    decreases parts.len(),
{
    reveal_strlit(" ");
    let low = all_lowered(parts);
    if parts.len() == 0 {
        assert(text::lowered(search::joined(parts, " "@)) =~= Seq::empty());
    } else if parts.len() > 1 {
        lemma_lowered_joined(parts.drop_last());
        assert(low.drop_last() =~= all_lowered(parts.drop_last()));
        let front = search::joined(parts.drop_last(), " "@);
        text::lemma_lowered_pieces(front + " "@, parts.last());
        text::lemma_lowered_pieces(front, " "@);
        assert(text::lowered(" "@) =~= " "@);
    }
}

/// White space only as single spaces between other characters.
pub open spec fn single_spaced(s: Seq<char>) -> bool {
    forall|i: int|
        0 <= i < s.len() && text::white(#[trigger] s[i]) ==> s[i] == ' ' && 0 < i < s.len() - 1
            && !text::white(s[i - 1]) && !text::white(s[i + 1])
}

/// Words that are joined by single spaces are parted by nothing else.
pub proof fn lemma_joined_single_spaced(parts: Seq<Seq<char>>)
    requires
        all_words(parts),
    ensures
        single_spaced(search::joined(parts, " "@)),
        parts.len() > 0 ==> search::joined(parts, " "@).len() > 0,
    decreases parts.len(),
{
    reveal_strlit(" ");
    let s = search::joined(parts, " "@);
    if parts.len() == 1 {
        assert(word(parts[0]));
    } else if parts.len() > 1 {
        let before = parts.drop_last();
        assert forall|i: int| 0 <= i < before.len() implies word(#[trigger] before[i]) by {
            assert(before[i] == parts[i]);
        }
        lemma_joined_single_spaced(before);
        let front = search::joined(before, " "@);
        let last = parts[parts.len() - 1];
        assert(word(last));
        let n = front.len() as int;
        assert(s == front + " "@ + last);
        assert(s[n] == ' ');
        assert(s[n - 1] == front[n - 1]);
        assert(!text::white(front[n - 1]));
        assert(s[n + 1] == last[0]);
        assert forall|i: int| 0 <= i < s.len() && text::white(#[trigger] s[i]) implies s[i] == ' ' && 0
            < i < s.len() - 1 && !text::white(s[i - 1]) && !text::white(s[i + 1]) by {
            if i < n {
                assert(s[i] == front[i]);
                assert(s[i - 1] == front[i - 1] && s[i + 1] == front[i + 1]);
            } else if i > n {
                assert(s[i] == last[i - n - 1]);
            }
        }
    }
}

} // verus!
