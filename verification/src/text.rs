//! Text, read as a sequence of characters.
//!
//! Every operation on text that the runtime needs is stated here as a spec function on
//! `Seq<char>` and computed by an executable function of the same meaning.

use vstd::prelude::*;

use crate::search;

verus! {

/// What `str::to_lowercase` makes of a text.
pub uninterp spec fn lowercase(s: Seq<char>) -> Seq<char>;

/// What `str::to_uppercase` makes of a text.
pub uninterp spec fn uppercase(s: Seq<char>) -> Seq<char>;

/// `String::push` appends one character at the end.
pub assume_specification[ String::push ](s: &mut String, c: char)
    ensures
        final(s)@ == old(s)@.push(c),
;

/// `str::to_lowercase` depends on the text alone; on ASCII text it replaces `A` to `Z` by
/// `a` to `z` and keeps every other character. In any text, each piece of ASCII characters is
/// lowered where it stands, and the case of the ASCII letters makes no difference to the rest.
pub assume_specification[ str::to_lowercase ](s: &str) -> (r: String)
    ensures
        r@ == lowercase(s@),
        ascii(s@) ==> r@ == lowered(s@),
        lowers_pieces(s@, r@),
        r@ == lowercase(lowered(s@)),
;

/// `str::to_uppercase` depends on the text alone; on ASCII text it replaces `a` to `z` by
/// `A` to `Z` and keeps every other character.
pub assume_specification[ str::to_uppercase ](s: &str) -> (r: String)
    ensures
        r@ == uppercase(s@),
        ascii(s@) ==> r@ == raised(s@),
;

/// Every character is ASCII.
pub open spec fn ascii(s: Seq<char>) -> bool {
    forall|i: int| 0 <= i < s.len() ==> (#[trigger] s[i]) as int <= 0x7f
}

/// The lower-case form of an ASCII character.
pub open spec fn ascii_lower(c: char) -> char {
    if 'A' <= c && c <= 'Z' {
        (c as u32 + 32) as char
    } else {
        c
    }
}

/// The upper-case form of an ASCII character.
pub open spec fn ascii_upper(c: char) -> char {
    if 'a' <= c && c <= 'z' {
        (c as u32 - 32) as char
    } else {
        c
    }
}

/// A text with its ASCII letters in lower case.
pub open spec fn lowered(s: Seq<char>) -> Seq<char> {
    s.map_values(|c: char| ascii_lower(c))
}

/// A text with its ASCII letters in upper case.
pub open spec fn raised(s: Seq<char>) -> Seq<char> {
    s.map_values(|c: char| ascii_upper(c))
}

/// Wherever a piece of ASCII characters stands in `s`, the piece in lower case stands in `r`.
pub open spec fn lowers_pieces(s: Seq<char>, r: Seq<char>) -> bool {
    forall|before: Seq<char>, piece: Seq<char>, after: Seq<char>|
        s == #[trigger] (before + piece + after) && ascii(piece) ==> search::holds(
            r,
            lowered(piece),
        )
}

/// What turns into ASCII characters in lower case is ASCII.
pub proof fn lemma_lowered_ascii(s: Seq<char>)
    ensures
        ascii(lowered(s)) <==> ascii(s),
{
    assert forall|i: int| 0 <= i < s.len() implies ((#[trigger] lowered(s)[i]) as int <= 0x7f <==> s[i] as int
        <= 0x7f) by {
        let n = s[i] as u32;
        if 'A' <= s[i] && s[i] <= 'Z' {
            assert(lowered(s)[i] as u32 == n + 32);
        }
    }
    if ascii(lowered(s)) {
        assert forall|i: int| 0 <= i < s.len() implies (#[trigger] s[i]) as int <= 0x7f by {
            assert(lowered(s)[i] as int <= 0x7f);
        }
    }
}

/// Lower case goes piece by piece.
pub proof fn lemma_lowered_pieces(a: Seq<char>, b: Seq<char>)
    ensures
        lowered(a + b) == lowered(a) + lowered(b),
{
    assert(lowered(a + b) =~= lowered(a) + lowered(b));
}

/// Lower case undoes upper case, and a second time changes nothing.
pub proof fn lemma_lowered_again(s: Seq<char>)
    ensures
        lowered(raised(s)) == lowered(s),
        lowered(lowered(s)) == lowered(s),
{
    assert forall|i: int| 0 <= i < s.len() implies ascii_lower(ascii_upper(#[trigger] s[i]))
        == ascii_lower(s[i]) && ascii_lower(ascii_lower(s[i])) == ascii_lower(s[i]) by {
        let n = s[i] as u32;
        if 'a' <= s[i] && s[i] <= 'z' {
            assert(ascii_upper(s[i]) as u32 == n - 32);
        } else if 'A' <= s[i] && s[i] <= 'Z' {
            assert(ascii_lower(s[i]) as u32 == n + 32);
        }
    }
    assert(lowered(raised(s)) =~= lowered(s));
    assert(lowered(lowered(s)) =~= lowered(s));
}

// ---------------------------------------------------------------------------------------
// Characters and copies

/// The characters of a string, in order.
pub fn chars_of(s: &str) -> (r: Vec<char>)
    ensures
        r@ == s@,
{
    let mut out: Vec<char> = Vec::new();
    for c in it: s.chars()
        invariant
            out@ == it.seq().take(it.index() as int),
            it.seq() == s@,
    {
        out.push(c);
    }
    assert(s@.take(s@.len() as int) =~= s@);
    out
}

/// The string made of `cs[from..to]`.
pub fn string_of(cs: &Vec<char>, from: usize, to: usize) -> (r: String)
    requires
        from <= to <= cs@.len(),
    ensures
        r@ == cs@.subrange(from as int, to as int),
{
    let mut out = String::new();
    let mut i: usize = from;
    while i < to
        invariant
            from <= i <= to <= cs@.len(),
            out@ == cs@.subrange(from as int, i as int),
        decreases to - i,
    {
        out.push(cs[i]);
        i += 1;
        assert(cs@.subrange(from as int, i as int) =~= cs@.subrange(from as int, i - 1).push(
            cs@[i - 1],
        ));
    }
    out
}

/// Do the two texts hold the same characters?
pub fn same(a: &str, b: &str) -> (r: bool)
    ensures
        r == (a@ == b@),
{
    let x = chars_of(a);
    let y = chars_of(b);
    if x.len() != y.len() {
        return false;
    }
    let mut i: usize = 0;
    while i < x.len()
        invariant
            i <= x@.len() == y@.len(),
            forall|j: int| 0 <= j < i ==> x@[j] == y@[j],
            x@ == a@,
            y@ == b@,
        decreases x@.len() - i,
    {
        if x[i] != y[i] {
            return false;
        }
        i += 1;
    }
    assert(x@ =~= y@);
    true
}

// ---------------------------------------------------------------------------------------
// Whitespace

/// The characters with the Unicode property White_Space.
pub open spec fn white(c: char) -> bool {
    let n = c as int;
    ||| 0x09 <= n <= 0x0d
    ||| n == 0x20
    ||| n == 0x85
    ||| n == 0xa0
    ||| n == 0x1680
    ||| 0x2000 <= n <= 0x200a
    ||| n == 0x2028
    ||| n == 0x2029
    ||| n == 0x202f
    ||| n == 0x205f
    ||| n == 0x3000
}

/// Is `c` a white-space character?
pub fn is_white(c: char) -> (r: bool)
    ensures
        r == white(c),
{
    let n: u32 = c as u32;
    (0x09 <= n && n <= 0x0d) || n == 0x20 || n == 0x85 || n == 0xa0 || n == 0x1680 || (0x2000 <= n
        && n <= 0x200a) || n == 0x2028 || n == 0x2029 || n == 0x202f || n == 0x205f || n == 0x3000
}

/// `s` without its leading white space.
pub open spec fn trim_start(s: Seq<char>) -> Seq<char>
    decreases s.len(),
{
    if s.len() > 0 && white(s[0]) {
        trim_start(s.drop_first())
    } else {
        s
    }
}

/// `s` without its trailing white space.
pub open spec fn trim_end(s: Seq<char>) -> Seq<char>
    decreases s.len(),
{
    if s.len() > 0 && white(s.last()) {
        trim_end(s.drop_last())
    } else {
        s
    }
}

/// `s` without white space at either end.
pub open spec fn trimmed(s: Seq<char>) -> Seq<char> {
    trim_end(trim_start(s))
}

/// A trimmed text does not begin with white space.
pub proof fn lemma_trimmed_starts(s: Seq<char>)
    requires
        trimmed(s).len() > 0,
    ensures
        !white(trimmed(s)[0]),
{
    lemma_trim_start_len(s);
    lemma_trim_end_front(trim_start(s));
}

proof fn lemma_trim_end_front(s: Seq<char>)
    ensures
        trim_end(s).len() <= s.len(),
        trim_end(s).len() > 0 ==> trim_end(s)[0] == s[0],
    decreases s.len(),
{
    if s.len() > 0 && white(s.last()) {
        lemma_trim_end_front(s.drop_last());
    }
}

/// A text without white space at its ends stays as it is.
pub proof fn lemma_trimmed_fixed(s: Seq<char>)
    requires
        s.len() > 0 ==> !white(s[0]) && !white(s.last()),
    ensures
        trimmed(s) == s,
{
}

/// A trimmed text does not end with white space.
pub proof fn lemma_trimmed_ends(s: Seq<char>)
    requires
        trimmed(s).len() > 0,
    ensures
        !white(trimmed(s).last()),
{
    lemma_trim_end_last(trim_start(s));
}

proof fn lemma_trim_end_last(s: Seq<char>)
    requires
        trim_end(s).len() > 0,
    ensures
        !white(trim_end(s).last()),
    decreases s.len(),
{
    if s.len() > 0 && white(s.last()) {
        lemma_trim_end_last(s.drop_last());
    }
}

/// Removes white space at both ends.
pub fn trim(s: &str) -> (r: String)
    ensures
        r@ == trimmed(s@),
{
    let cs = chars_of(s);
    let n: usize = cs.len();
    let mut i: usize = 0;
    assert(cs@.skip(0) =~= cs@);
    while i < n && is_white(cs[i])
        invariant
            i <= n == cs@.len(),
            trim_start(cs@) == trim_start(cs@.skip(i as int)),
        decreases n - i,
    {
        assert(cs@.skip(i as int).drop_first() =~= cs@.skip(i + 1));
        i += 1;
    }
    let mut j: usize = n;
    assert(cs@.subrange(i as int, n as int) =~= cs@.skip(i as int));
    while i < j && is_white(cs[j - 1])
        invariant
            i <= j <= n == cs@.len(),
            trimmed(cs@) == trim_end(cs@.subrange(i as int, j as int)),
        decreases j,
    {
        assert(cs@.subrange(i as int, j as int).drop_last() =~= cs@.subrange(i as int, j - 1));
        j -= 1;
    }
    string_of(&cs, i, j)
}

/// Is nothing left of `s` once white space is removed at both ends?
pub fn is_blank(s: &str) -> (r: bool)
    ensures
        r == (trimmed(s@).len() == 0),
{
    trim(s).as_str().is_empty()
}

/// The number of leading characters that are not white space.
pub open spec fn word_len(s: Seq<char>) -> nat
    decreases s.len(),
{
    if s.len() > 0 && !white(s[0]) {
        1 + word_len(s.drop_first())
    } else {
        0
    }
}

/// The maximal runs of characters that are not white space.
pub open spec fn words(s: Seq<char>) -> Seq<Seq<char>>
    decreases s.len(),
    via words_decreases
{
    let t = trim_start(s);
    if t.len() == 0 {
        Seq::empty()
    } else {
        seq![t.take(word_len(t) as int)] + words(t.skip(word_len(t) as int))
    }
}

#[via_fn]
proof fn words_decreases(s: Seq<char>) {
    lemma_trim_start_len(s);
    lemma_word_len(trim_start(s));
}

/// What is left in front of a text without its leading white space is no white space.
pub proof fn lemma_trim_start_len(s: Seq<char>)
    ensures
        trim_start(s).len() <= s.len(),
        trim_start(s).len() > 0 ==> !white(trim_start(s)[0]),
    decreases s.len(),
{
    if s.len() > 0 && white(s[0]) {
        lemma_trim_start_len(s.drop_first());
    }
}

/// The characters of the first word are not white space, and what follows it is.
pub proof fn lemma_word_len(s: Seq<char>)
    ensures
        word_len(s) <= s.len(),
        s.len() > 0 && !white(s[0]) ==> word_len(s) >= 1,
        word_len(s) < s.len() ==> white(s[word_len(s) as int]),
        forall|i: int| 0 <= i < word_len(s) ==> !white(#[trigger] s[i]),
    decreases s.len(),
{
    if s.len() > 0 && !white(s[0]) {
        let t = s.drop_first();
        lemma_word_len(t);
        assert forall|i: int| 0 <= i < word_len(s) implies !white(#[trigger] s[i]) by {
            if i > 0 {
                assert(t[i - 1] == s[i]);
            }
        }
        if word_len(s) < s.len() {
            assert(t[word_len(t) as int] == s[word_len(s) as int]);
        }
    }
}

/// The texts of a vector of strings.
pub open spec fn texts(v: Seq<String>) -> Seq<Seq<char>> {
    Seq::new(v.len(), |i: int| v[i]@)
}

/// The text of an optional string.
pub open spec fn opt(s: Option<String>) -> Option<Seq<char>> {
    match s {
        Some(s) => Some(s@),
        None => None,
    }
}

/// Splits at runs of white space.
pub fn split_whitespace(s: &str) -> (r: Vec<String>)
    ensures
        texts(r@) == words(s@),
{
    let cs = chars_of(s);
    let n: usize = cs.len();
    let mut out: Vec<String> = Vec::new();
    let mut i: usize = 0;
    assert(cs@.skip(0) =~= cs@);
    assert(texts(out@) + words(cs@) =~= words(cs@));
    loop
        invariant
            i <= n == cs@.len(),
            cs@ == s@,
            words(cs@) == texts(out@) + words(cs@.skip(i as int)),
        ensures
            texts(out@) == words(s@),
        decreases n - i,
    {
        let ghost before = i;
        while i < n && is_white(cs[i])
            invariant
                before <= i <= n == cs@.len(),
                trim_start(cs@.skip(before as int)) == trim_start(cs@.skip(i as int)),
            decreases n - i,
        {
            assert(cs@.skip(i as int).drop_first() =~= cs@.skip(i + 1));
            i += 1;
        }
        let ghost t = cs@.skip(i as int);
        assert(trim_start(cs@.skip(before as int)) == t);
        if i == n {
            assert(texts(out@) + Seq::<Seq<char>>::empty() =~= texts(out@));
            break;
        }
        let start: usize = i;
        while i < n && !is_white(cs[i])
            invariant
                start <= i <= n == cs@.len(),
                t == cs@.skip(start as int),
                word_len(t) == (i - start) + word_len(cs@.skip(i as int)),
            decreases n - i,
        {
            assert(cs@.skip(i as int).drop_first() =~= cs@.skip(i + 1));
            i += 1;
        }
        let w = string_of(&cs, start, i);
        assert(word_len(t) == i - start);
        assert(w@ =~= t.take(word_len(t) as int));
        assert(t.skip(word_len(t) as int) =~= cs@.skip(i as int));
        let ghost old_out = out@;
        out.push(w);
        assert(texts(out@) =~= texts(old_out) + seq![w@]);
        assert(texts(old_out) + (seq![w@] + words(cs@.skip(i as int))) =~= texts(out@) + words(
            cs@.skip(i as int),
        ));
        proof {
            lemma_word_len(t);
        }
    }
    out
}

} // verus!
