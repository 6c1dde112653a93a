//! Finding, cutting and replacing inside a text.

use vstd::prelude::*;

use crate::text;

verus! {

// ---------------------------------------------------------------------------------------
// Prefixes, suffixes and infixes

/// Does `s` begin with `p`?
pub fn starts_with(s: &str, p: &str) -> (r: bool)
    ensures
        r == p@.is_prefix_of(s@),
{
    let cs = text::chars_of(s);
    let ps = text::chars_of(p);
    if ps.len() > cs.len() {
        return false;
    }
    matches_at(&cs, &ps, 0)
}

/// Does `s` end with `p`?
pub fn ends_with(s: &str, p: &str) -> (r: bool)
    ensures
        r == p@.is_suffix_of(s@),
{
    let cs = text::chars_of(s);
    let ps = text::chars_of(p);
    if ps.len() > cs.len() {
        return false;
    }
    let at: usize = cs.len() - ps.len();
    matches_at(&cs, &ps, at)
}

/// Do the characters of `ps` stand in `cs` at position `at`?
fn matches_at(cs: &Vec<char>, ps: &Vec<char>, at: usize) -> (r: bool)
    requires
        at + ps@.len() <= cs@.len(),
    ensures
        r == (cs@.subrange(at as int, at + ps@.len()) == ps@),
{
    let n: usize = cs.len();
    let mut i: usize = 0;
    while i < ps.len()
        invariant
            i <= ps@.len(),
            at + ps@.len() <= cs@.len() == n,
            forall|j: int| 0 <= j < i ==> cs@[at + j] == ps@[j],
        decreases ps@.len() - i,
    {
        if cs[at + i] != ps[i] {
            assert(cs@.subrange(at as int, at + ps@.len())[i as int] != ps@[i as int]);
            return false;
        }
        i += 1;
    }
    assert(cs@.subrange(at as int, at + ps@.len()) =~= ps@);
    true
}

/// `p` stands in `s` at position `i`.
pub open spec fn occurs_at(s: Seq<char>, p: Seq<char>, i: int) -> bool {
    0 <= i && i + p.len() <= s.len() && s.subrange(i, i + p.len()) == p
}

/// `p` stands somewhere in `s`.
pub open spec fn holds(s: Seq<char>, p: Seq<char>) -> bool {
    exists|i: int| occurs_at(s, p, i)
}

/// Does `p` stand somewhere in `s`?
pub fn contains(s: &str, p: &str) -> (r: bool)
    ensures
        r == holds(s@, p@),
{
    let cs = text::chars_of(s);
    let ps = text::chars_of(p);
    if ps.len() > cs.len() {
        return false;
    }
    let last: usize = cs.len() - ps.len();
    let mut i: usize = 0;
    while i <= last
        invariant
            cs@ == s@,
            ps@ == p@,
            last == cs@.len() - ps@.len(),
            i <= last + 1,
            forall|j: int| 0 <= j < i ==> !occurs_at(s@, p@, j),
        decreases last + 1 - i,
    {
        if matches_at(&cs, &ps, i) {
            assert(occurs_at(s@, p@, i as int));
            return true;
        }
        if i == last {
            return false;
        }
        i += 1;
    }
    false
}

/// A text that holds `p` still does so inside a longer text.
pub proof fn lemma_holds_within(a: Seq<char>, s: Seq<char>, b: Seq<char>, p: Seq<char>)
    requires
        holds(s, p),
    ensures
        holds(a + s + b, p),
{
    let i = choose|i: int| occurs_at(s, p, i);
    assert((a + s + b).subrange(a.len() + i, a.len() + i + p.len()) =~= p);
    assert(occurs_at(a + s + b, p, a.len() + i));
}

/// Every text holds itself.
pub proof fn lemma_holds_self(s: Seq<char>)
    ensures
        holds(s, s),
{
    assert(s.subrange(0, s.len() as int) =~= s);
    assert(occurs_at(s, s, 0));
}

// ---------------------------------------------------------------------------------------
// Single characters

/// The position of the first `c` in `s`, or the length of `s` if there is none.
pub open spec fn first_of(s: Seq<char>, c: char) -> int
    decreases s.len(),
{
    if s.len() == 0 || s[0] == c {
        0
    } else {
        1 + first_of(s.drop_first(), c)
    }
}

/// The position of the last `c` in `s`, or -1 if there is none.
pub open spec fn last_of(s: Seq<char>, c: char) -> int
    decreases s.len(),
{
    if s.len() == 0 || s.last() == c {
        s.len() - 1
    } else {
        last_of(s.drop_last(), c)
    }
}

/// What `first_of` finds is the first occurrence.
pub proof fn lemma_first_of(s: Seq<char>, c: char)
    ensures
        0 <= first_of(s, c) <= s.len(),
        first_of(s, c) < s.len() ==> s[first_of(s, c)] == c,
        forall|i: int| 0 <= i < first_of(s, c) ==> #[trigger] s[i] != c,
        first_of(s, c) < s.len() <==> s.contains(c),
    decreases s.len(),
{
    if s.len() > 0 && s[0] != c {
        let t = s.drop_first();
        lemma_first_of(t, c);
        assert forall|i: int| 0 <= i < first_of(s, c) implies #[trigger] s[i] != c by {
            if i > 0 {
                assert(s[i] == t[i - 1]);
            }
        }
        if s.contains(c) {
            let k = choose|k: int| 0 <= k < s.len() && s[k] == c;
            assert(t[k - 1] == c);
            assert(t.contains(c));
        }
    }
}

/// What `last_of` finds is the last occurrence.
pub proof fn lemma_last_of(s: Seq<char>, c: char)
    ensures
        -1 <= last_of(s, c) < s.len(),
        last_of(s, c) >= 0 ==> s[last_of(s, c)] == c,
        forall|i: int| last_of(s, c) < i < s.len() ==> #[trigger] s[i] != c,
        last_of(s, c) >= 0 <==> s.contains(c),
    decreases s.len(),
{
    if s.len() > 0 && s.last() != c {
        let t = s.drop_last();
        lemma_last_of(t, c);
        assert forall|i: int| last_of(s, c) < i < s.len() implies #[trigger] s[i] != c by {
            if i < s.len() - 1 {
                assert(s[i] == t[i]);
            }
        }
        if s.contains(c) {
            let k = choose|k: int| 0 <= k < s.len() && s[k] == c;
            assert(t[k] == c);
            assert(t.contains(c));
        }
    } else if s.len() > 0 {
        assert(s[s.len() - 1] == c);
    }
}

/// The position of the first `c`, or the number of characters if there is none.
pub fn find_first(cs: &Vec<char>, c: char) -> (r: usize)
    ensures
        r == first_of(cs@, c),
{
    assert(cs@.skip(0) =~= cs@);
    find_from(cs, c, 0)
}

/// The position of the first `c` at or after `from`, counted from `from`.
fn find_from(cs: &Vec<char>, c: char, from: usize) -> (r: usize)
    requires
        from <= cs@.len(),
    ensures
        r == first_of(cs@.skip(from as int), c),
        r <= cs@.len() - from,
{
    let n: usize = cs.len();
    let mut i: usize = from;
    while i < n && cs[i] != c
        invariant
            from <= i <= n == cs@.len(),
            first_of(cs@.skip(from as int), c) == (i - from) + first_of(cs@.skip(i as int), c),
        decreases n - i,
    {
        assert(cs@.skip(i as int).drop_first() =~= cs@.skip(i + 1));
        i += 1;
    }
    i - from
}

/// The position of the last `c`, if there is one.
pub fn find_last(cs: &Vec<char>, c: char) -> (r: Option<usize>)
    ensures
        r matches Some(i) ==> i == last_of(cs@, c),
        r is None <==> last_of(cs@, c) < 0,
{
    let mut n: usize = cs.len();
    assert(cs@.take(n as int) =~= cs@);
    while n > 0
        invariant
            n <= cs@.len(),
            last_of(cs@, c) == last_of(cs@.take(n as int), c),
        decreases n,
    {
        if cs[n - 1] == c {
            return Some(n - 1);
        }
        assert(cs@.take(n as int).drop_last() =~= cs@.take(n - 1));
        n -= 1;
    }
    None
}

/// The text up to the first `c`, or the whole of it if there is none.
pub fn before_char(s: &str, c: char) -> (r: String)
    ensures
        r@ == s@.take(first_of(s@, c)),
{
    let cs = text::chars_of(s);
    let n: usize = find_first(&cs, c);
    proof {
        lemma_first_of(s@, c);
    }
    text::string_of(&cs, 0, n)
}

// ---------------------------------------------------------------------------------------
// Lines

/// `s` without a carriage return at its end.
pub open spec fn strip_cr(s: Seq<char>) -> Seq<char> {
    if s.len() > 0 && s.last() == '\r' {
        s.drop_last()
    } else {
        s
    }
}

/// The lines of `s`: each ends at a line feed, before which one carriage return is dropped;
/// what follows the last line feed is a line of its own unless it is empty.
pub open spec fn lines(s: Seq<char>) -> Seq<Seq<char>>
    decreases s.len(),
    via lines_decreases
{
    let n = first_of(s, '\n');
    if s.len() == 0 {
        Seq::empty()
    } else if n < s.len() {
        seq![strip_cr(s.take(n))] + lines(s.skip(n + 1))
    } else {
        seq![s]
    }
}

#[via_fn]
proof fn lines_decreases(s: Seq<char>) {
    lemma_first_of(s, '\n');
}

/// Splits a text into its lines.
pub fn split_lines(s: &str) -> (r: Vec<String>)
    ensures
        text::texts(r@) == lines(s@),
{
    let cs = text::chars_of(s);
    let n: usize = cs.len();
    let mut out: Vec<String> = Vec::new();
    let mut i: usize = 0;
    assert(cs@.skip(0) =~= cs@);
    assert(text::texts(out@) + lines(cs@) =~= lines(cs@));
    while i < n
        invariant
            i <= n == cs@.len(),
            cs@ == s@,
            lines(cs@) == text::texts(out@) + lines(cs@.skip(i as int)),
        decreases n - i,
    {
        let ghost t = cs@.skip(i as int);
        let k: usize = find_from(&cs, '\n', i);
        let ghost old_out = out@;
        let end: usize = i + k;
        if end < n {
            let cut: usize = if k > 0 && cs[end - 1] == '\r' { end - 1 } else { end };
            let line = text::string_of(&cs, i, cut);
            assert(line@ =~= strip_cr(t.take(k as int)));
            assert(t.skip(k + 1) =~= cs@.skip(end + 1));
            out.push(line);
            assert(text::texts(out@) =~= text::texts(old_out) + seq![line@]);
            assert(text::texts(old_out) + (seq![line@] + lines(cs@.skip(end + 1))) =~= text::texts(out@)
                + lines(cs@.skip(end + 1)));
            i = end + 1;
        } else {
            let line = text::string_of(&cs, i, n);
            assert(line@ =~= t);
            out.push(line);
            assert(text::texts(out@) =~= text::texts(old_out) + seq![line@]);
            assert(lines(t) =~= seq![t]);
            assert(cs@.skip(n as int).len() == 0);
            assert(text::texts(old_out) + seq![line@] =~= text::texts(out@) + lines(cs@.skip(n as int)));
            i = n;
        }
    }
    assert(text::texts(out@) + Seq::<Seq<char>>::empty() =~= text::texts(out@));
    out
}

/// Some line of `s` holds `p`.
pub open spec fn some_line_holds(s: Seq<char>, p: Seq<char>) -> bool {
    exists|i: int| 0 <= i < lines(s).len() && holds(#[trigger] lines(s)[i], p)
}

/// Does some line of `s` hold `p`?
pub fn any_line_contains(s: &str, p: &str) -> (r: bool)
    ensures
        r == some_line_holds(s@, p@),
{
    let ls = split_lines(s);
    let mut i: usize = 0;
    while i < ls.len()
        invariant
            i <= ls@.len(),
            text::texts(ls@) == lines(s@),
            forall|j: int| 0 <= j < i ==> !holds(#[trigger] lines(s@)[j], p@),
        decreases ls@.len() - i,
    {
        assert(text::texts(ls@)[i as int] == ls@[i as int]@);
        if contains(ls[i].as_str(), p) {
            return true;
        }
        i += 1;
    }
    assert(text::texts(ls@).len() == ls@.len());
    false
}

/// A piece of text that stands on one line is found there, whatever stands before and behind it:
/// it must hold no line feed, and not end with a carriage return.
pub proof fn lemma_piece_on_some_line(before: Seq<char>, piece: Seq<char>, behind: Seq<char>)
    requires
        piece.len() > 0,
        !piece.contains('\n'),
        piece.last() != '\r',
    ensures
        some_line_holds(before + piece + behind, piece),
    decreases before.len(),
{
    let s = before + piece + behind;
    let n = first_of(s, '\n');
    lemma_first_of(s, '\n');
    lemma_first_of(before, '\n');
    if first_of(before, '\n') < before.len() {
        let k = first_of(before, '\n');
        assert(s[k] == '\n');
        assert(n == k) by {
            if n < k {
                assert(before[n] == s[n]);
            }
        }
        let rest = before.skip(k + 1);
        assert(s.skip(n + 1) =~= rest + piece + behind);
        lemma_piece_on_some_line(rest, piece, behind);
        let i = choose|i: int|
            0 <= i < lines(s.skip(n + 1)).len() && holds(#[trigger] lines(s.skip(n + 1))[i], piece);
        assert(lines(s)[i + 1] == lines(s.skip(n + 1))[i]);
    } else {
        let m = before.len() + piece.len();
        assert(n >= m) by {
            if n < m {
                if n < before.len() {
                    assert(before[n] == s[n]);
                } else {
                    assert(piece[n - before.len()] == s[n]);
                    assert(piece.contains('\n'));
                }
            }
        }
        if n < s.len() {
            let line = strip_cr(s.take(n));
            if n == m {
                assert(s.take(n).last() == piece.last());
            }
            assert(line.subrange(before.len() as int, m as int) =~= piece);
            assert(occurs_at(line, piece, before.len() as int));
            assert(lines(s)[0] == line);
        } else {
            assert(s.subrange(before.len() as int, m as int) =~= piece);
            assert(occurs_at(s, piece, before.len() as int));
            assert(lines(s)[0] == s);
        }
    }
}

// ---------------------------------------------------------------------------------------
// Replacing

/// What a line holds, the text holds.
pub proof fn lemma_line_is_within(s: Seq<char>, i: int, p: Seq<char>)
    requires
        0 <= i < lines(s).len(),
        holds(lines(s)[i], p),
    ensures
        holds(s, p),
    decreases s.len(),
{
    lemma_first_of(s, '\n');
    let n = first_of(s, '\n');
    if s.len() > 0 && n < s.len() {
        let rest = s.skip(n + 1);
        assert(lines(s) == seq![strip_cr(s.take(n))] + lines(rest));
        if i == 0 {
            let line = strip_cr(s.take(n));
            lemma_holds_within(Seq::empty(), line, s.skip(line.len() as int), p);
            assert(Seq::empty() + line + s.skip(line.len() as int) =~= s);
        } else {
            assert(lines(s)[i] == lines(rest)[i - 1]);
            lemma_line_is_within(rest, i - 1, p);
            lemma_holds_within(s.take(n + 1), rest, Seq::empty(), p);
            assert(s.take(n + 1) + rest + Seq::empty() =~= s);
        }
    }
}

/// A piece of text without a line feed, and without a carriage return at its end, stands in a
/// text if and only if it stands in one of its lines.
pub proof fn lemma_lines_hold(s: Seq<char>, p: Seq<char>)
    requires
        p.len() > 0,
        !p.contains('\n'),
        p.last() != '\r',
    ensures
        some_line_holds(s, p) == holds(s, p),
{
    if some_line_holds(s, p) {
        let i = choose|i: int| 0 <= i < lines(s).len() && holds(#[trigger] lines(s)[i], p);
        lemma_line_is_within(s, i, p);
    }
    if holds(s, p) {
        let i = choose|i: int| occurs_at(s, p, i);
        let before = s.take(i);
        let behind = s.skip(i + p.len());
        assert(before + p + behind =~= s);
        lemma_piece_on_some_line(before, p, behind);
    }
}

/// A piece of text without a line feed that stands in two texts parted by a line feed stands in
/// one of them.
pub proof fn lemma_holds_split(a: Seq<char>, b: Seq<char>, p: Seq<char>)
    requires
        p.len() > 0,
        !p.contains('\n'),
        holds(a + seq!['\n'] + b, p),
    ensures
        holds(a, p) || holds(b, p),
{
    let s = a + seq!['\n'] + b;
    let i = choose|i: int| occurs_at(s, p, i);
    if i + p.len() <= a.len() {
        assert(a.subrange(i, i + p.len()) =~= p);
        assert(occurs_at(a, p, i));
    } else if i > a.len() {
        let j = i - a.len() - 1;
        assert(b.subrange(j, j + p.len()) =~= p);
        assert(occurs_at(b, p, j));
    } else {
        assert(p[a.len() - i] == s[a.len() as int]);
        assert(s[a.len() as int] == '\n');
    }
}

/// Replacing a character by another one keeps the length, and every other character.
pub proof fn lemma_char_replaced(s: Seq<char>, c: char, d: char)
    ensures
        with_char_replaced(s, c, seq![d]).len() == s.len(),
        forall|i: int|
            0 <= i < s.len() ==> #[trigger] with_char_replaced(s, c, seq![d])[i] == if s[i] == c {
                d
            } else {
                s[i]
            },
    decreases s.len(),
{
    if s.len() > 0 {
        lemma_char_replaced(s.drop_last(), c, d);
    }
}

/// `s` with every `c` replaced by `t`.
pub open spec fn with_char_replaced(s: Seq<char>, c: char, t: Seq<char>) -> Seq<char>
    decreases s.len(),
{
    if s.len() == 0 {
        Seq::empty()
    } else {
        with_char_replaced(s.drop_last(), c, t) + if s.last() == c {
            t
        } else {
            seq![s.last()]
        }
    }
}

/// Replaces every `c` by `t`.
pub fn replace_char(s: &str, c: char, t: &str) -> (r: String)
    ensures
        r@ == with_char_replaced(s@, c, t@),
{
    let cs = text::chars_of(s);
    let mut out = String::new();
    let mut i: usize = 0;
    while i < cs.len()
        invariant
            i <= cs@.len(),
            out@ == with_char_replaced(cs@.take(i as int), c, t@),
        decreases cs@.len() - i,
    {
        assert(cs@.take(i + 1).drop_last() =~= cs@.take(i as int));
        if cs[i] == c {
            out.append(t);
        } else {
            let ghost before = out@;
            out.push(cs[i]);
            assert(out@ =~= before + seq![cs@[i as int]]);
        }
        i += 1;
    }
    assert(cs@.take(cs@.len() as int) =~= cs@);
    out
}

/// `s` with every occurrence of `p`, taken from the left, replaced by `t`.
pub open spec fn with_replaced(s: Seq<char>, p: Seq<char>, t: Seq<char>) -> Seq<char>
    decreases s.len(),
{
    if p.len() == 0 || s.len() < p.len() {
        s
    } else if s.take(p.len() as int) == p {
        t + with_replaced(s.skip(p.len() as int), p, t)
    } else {
        seq![s[0]] + with_replaced(s.drop_first(), p, t)
    }
}

/// Replaces every occurrence of the non-empty text `p` by `t`.
pub fn replace(s: &str, p: &str, t: &str) -> (r: String)
    requires
        p@.len() > 0,
    ensures
        r@ == with_replaced(s@, p@, t@),
{
    let cs = text::chars_of(s);
    let ps = text::chars_of(p);
    let n: usize = cs.len();
    let m: usize = ps.len();
    let mut out = String::new();
    let mut i: usize = 0;
    assert(cs@.skip(0) =~= cs@);
    assert(out@ + with_replaced(cs@, p@, t@) =~= with_replaced(cs@, p@, t@));
    while i < n && m <= n - i
        invariant
            i <= n == cs@.len(),
            0 < m == ps@.len(),
            ps@ == p@,
            with_replaced(cs@, p@, t@) == out@ + with_replaced(cs@.skip(i as int), p@, t@),
        decreases n - i,
    {
        let ghost rest = cs@.skip(i as int);
        let ghost before = out@;
        assert(rest.take(m as int) =~= cs@.subrange(i as int, i + m));
        if matches_at(&cs, &ps, i) {
            assert(rest.skip(m as int) =~= cs@.skip(i + m));
            out.append(t);
            i += m;
            assert(before + (t@ + with_replaced(cs@.skip(i as int), p@, t@)) =~= out@
                + with_replaced(cs@.skip(i as int), p@, t@));
        } else {
            assert(rest.drop_first() =~= cs@.skip(i + 1));
            out.push(cs[i]);
            i += 1;
            assert(before + (seq![rest[0]] + with_replaced(cs@.skip(i as int), p@, t@)) =~= out@
                + with_replaced(cs@.skip(i as int), p@, t@));
        }
    }
    let tail = text::string_of(&cs, i, n);
    assert(tail@ =~= cs@.skip(i as int));
    out.append(tail.as_str());
    out
}

/// `s` without the characters `c` at its end.
pub open spec fn trim_end_of(s: Seq<char>, c: char) -> Seq<char>
    decreases s.len(),
{
    if s.len() > 0 && s.last() == c {
        trim_end_of(s.drop_last(), c)
    } else {
        s
    }
}

/// `s` without the characters `c` at its start.
pub open spec fn trim_start_of(s: Seq<char>, c: char) -> Seq<char>
    decreases s.len(),
{
    if s.len() > 0 && s[0] == c {
        trim_start_of(s.drop_first(), c)
    } else {
        s
    }
}

/// Removes every `c` at the end.
pub fn trim_end_matches(s: &str, c: char) -> (r: String)
    ensures
        r@ == trim_end_of(s@, c),
{
    let cs = text::chars_of(s);
    let mut n: usize = cs.len();
    assert(cs@.subrange(0, n as int) =~= cs@);
    while n > 0 && cs[n - 1] == c
        invariant
            n <= cs@.len(),
            trim_end_of(cs@, c) == trim_end_of(cs@.subrange(0, n as int), c),
        decreases n,
    {
        assert(cs@.subrange(0, n as int).drop_last() =~= cs@.subrange(0, n - 1));
        n -= 1;
    }
    text::string_of(&cs, 0, n)
}

/// Removes every `c` at the start.
pub fn trim_start_matches(s: &str, c: char) -> (r: String)
    ensures
        r@ == trim_start_of(s@, c),
{
    let cs = text::chars_of(s);
    let n: usize = cs.len();
    let mut i: usize = 0;
    assert(cs@.skip(0) =~= cs@);
    while i < n && cs[i] == c
        invariant
            i <= n == cs@.len(),
            trim_start_of(cs@, c) == trim_start_of(cs@.skip(i as int), c),
        decreases n - i,
    {
        assert(cs@.skip(i as int).drop_first() =~= cs@.skip(i + 1));
        i += 1;
    }
    assert(cs@.subrange(i as int, n as int) =~= cs@.skip(i as int));
    text::string_of(&cs, i, n)
}

// ---------------------------------------------------------------------------------------
// Parts put together, and a text cut short

/// The parts in order, with `sep` between neighbours.
pub open spec fn joined(parts: Seq<Seq<char>>, sep: Seq<char>) -> Seq<char>
    decreases parts.len(),
{
    if parts.len() == 0 {
        Seq::empty()
    } else if parts.len() == 1 {
        parts[0]
    } else {
        joined(parts.drop_last(), sep) + sep + parts.last()
    }
}

/// Joins the parts with `sep` between neighbours.
pub fn join(parts: &Vec<String>, sep: &str) -> (r: String)
    ensures
        r@ == joined(text::texts(parts@), sep@),
{
    let mut out = String::new();
    let ghost all = text::texts(parts@);
    let mut i: usize = 0;
    while i < parts.len()
        invariant
            i <= parts@.len(),
            all == text::texts(parts@),
            out@ == joined(all.take(i as int), sep@),
        decreases parts@.len() - i,
    {
        assert(all.take(i + 1).drop_last() =~= all.take(i as int));
        if i > 0 {
            out.append(sep);
            out.append(parts[i].as_str());
        } else {
            out = parts[i].clone();
        }
        i += 1;
    }
    assert(all.take(all.len() as int) =~= all);
    out
}

/// The first `n` characters of `s`, or all of them if there are fewer.
pub open spec fn cut(s: Seq<char>, n: int) -> Seq<char> {
    if s.len() <= n {
        s
    } else {
        s.take(n)
    }
}

/// Keeps at most `n` characters.
pub fn take_chars(s: &str, n: usize) -> (r: String)
    ensures
        r@ == cut(s@, n as int),
{
    let cs = text::chars_of(s);
    let end: usize = if cs.len() <= n { cs.len() } else { n };
    assert(cs@.subrange(0, cs@.len() as int) =~= cs@);
    text::string_of(&cs, 0, end)
}

} // verus!
