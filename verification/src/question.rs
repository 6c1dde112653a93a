//! Which texts can be read as questions to the index.
//!
//! The reader of questions calls itself for each bracket that opens and for each `NOT `, and there
//! are lists of words in which it makes no headway.

use vstd::prelude::*;

use crate::text;

verus! {

// ---------------------------------------------------------------------------------------
// Nesting

/// How many brackets and negations a question may open.
pub const MOST_OPENED: usize = 32;

/// A bracket opens, or a negation stands, at a position.
pub open spec fn opens_at(s: Seq<char>, at: int) -> bool {
    ||| s[at] == '('
    ||| at + 3 < s.len() && s[at] == 'N' && s[at + 1] == 'O' && s[at + 2] == 'T' && s[at + 3] == ' '
}

/// How many brackets and negations a text opens from a position on.
pub open spec fn opened(s: Seq<char>, at: int) -> nat
    decreases s.len() - at,
{
    if at < 0 || at >= s.len() {
        0
    } else if opens_at(s, at) {
        1 + opened(s, at + 1)
    } else {
        opened(s, at + 1)
    }
}

/// Does the text open more than the most that a question may?
fn opens_too_much(cs: &Vec<char>) -> (r: bool)
    ensures
        r == (opened(cs@, 0) > MOST_OPENED),
{
    let mut count: usize = 0;
    let mut i: usize = 0;
    let n = cs.len();
    while i < n
        invariant
            i <= n == cs@.len(),
            count <= MOST_OPENED,
            opened(cs@, 0) == count + opened(cs@, i as int),
        decreases n - i,
    {
        if cs[i] == '(' || (n - i > 3 && cs[i] == 'N' && cs[i + 1] == 'O' && cs[i + 2] == 'T' && cs[i
            + 3] == ' ') {
            assert(opens_at(cs@, i as int));
            if count == MOST_OPENED {
                return true;
            }
            count += 1;
        }
        i += 1;
    }
    false
}

// ---------------------------------------------------------------------------------------
// Lists of words

/// A blank of ASCII.
pub open spec fn plain_blank(c: char) -> bool {
    c == ' ' || c == '\t' || c == '\r' || c == '\n'
}

/// A character that no field name holds unless a backslash stands before it.
pub open spec fn special(c: char) -> bool {
    ||| c == '+' || c == '^' || c == '`' || c == ':' || c == '{' || c == '}' || c == '"'
    ||| c == '[' || c == ']' || c == '(' || c == ')' || c == '!' || c == '\\' || c == '*' || c == ' '
}

/// A field name may end right before a position.
pub open spec fn name_ends(s: Seq<char>, at: int) -> bool {
    0 < at <= s.len() && (!special(s[at - 1]) || s[at - 1] == '\\' || at > 1 && s[at - 2] == '\\')
}

/// What stands right before a position, but for plain blanks, is a field name with its colon.
pub open spec fn behind_field(s: Seq<char>, at: int) -> bool
    decreases at,
{
    0 < at <= s.len() && (s[at - 1] == ':' && name_ends(s, at - 1) || plain_blank(s[at - 1])
        && behind_field(s, at - 1))
}

/// An ASCII letter.
pub open spec fn letter(c: char) -> bool {
    'a' <= c && c <= 'z' || 'A' <= c && c <= 'Z'
}

/// What stands right before a position, but for plain blanks, is `IN` as a word of its own.
pub open spec fn behind_in(s: Seq<char>, at: int) -> bool
    decreases at,
{
    0 < at <= s.len() && (at > 1 && s[at - 2] == 'I' && s[at - 1] == 'N' && (at == 2 || !letter(
        s[at - 3],
    )) || plain_blank(s[at - 1]) && behind_in(s, at - 1))
}

/// A quotation mark.
pub open spec fn quote(c: char) -> bool {
    c == '"' || c == '\''
}

/// The position behind a quoted word that goes on at a position: behind its closing mark, or the
/// end of the text. A backslash takes the meaning from the character behind it.
pub open spec fn quoted_end(s: Seq<char>, at: int, mark: char) -> int
    decreases s.len() - at,
{
    if at < 0 || at >= s.len() {
        s.len() as int
    } else if s[at] == '\\' && at + 1 < s.len() {
        quoted_end(s, at + 2, mark)
    } else if s[at] == mark {
        at + 1
    } else {
        quoted_end(s, at + 1, mark)
    }
}

/// A quoted word ends within the text.
pub proof fn lemma_quoted_end(s: Seq<char>, at: int, mark: char)
    requires
        0 <= at <= s.len(),
    ensures
        at <= quoted_end(s, at, mark) <= s.len(),
    decreases s.len() - at,
{
    if at < s.len() {
        if s[at] == '\\' && at + 1 < s.len() {
            lemma_quoted_end(s, at + 2, mark);
        } else if s[at] != mark {
            lemma_quoted_end(s, at + 1, mark);
        }
    }
}

/// Where the reader stands in a list of words.
#[derive(Clone, Copy, PartialEq, Eq, Structural)]
pub enum Place {
    /// Before a word, which may be quoted.
    Before,
    /// Before a word that is taken as it stands, quotation marks and all.
    BeforeBare,
    /// In a word.
    Within,
    /// Not known.
    Unknown,
}

/// Where the reader stands behind a quoted word, and at which position: a star behind it belongs
/// to the word in a list for a field, and what follows a tilde there is not known.
pub open spec fn behind_quoted(s: Seq<char>, end: int, set: bool) -> (int, Place) {
    if set || end >= s.len() {
        (end, Place::Before)
    } else if s[end] == '*' {
        (end + 1, Place::Before)
    } else if s[end] == '~' {
        (end, Place::Unknown)
    } else {
        (end, Place::Before)
    }
}

/// The bracket that closes a list.
pub open spec fn closing(set: bool) -> char {
    if set {
        ']'
    } else {
        ')'
    }
}

/// Before the list that is being read ends, there is a character at which the reader makes no
/// headway: a blank other than the plain ones or, in a list for a field, a caret. Quoted words are
/// read whole.
pub open spec fn stalls(s: Seq<char>, at: int, place: Place, set: bool) -> bool
    decreases s.len() - at,
{
    if at < 0 || at >= s.len() {
        false
    } else if text::white(s[at]) && !plain_blank(s[at]) || !set && s[at] == '^' {
        true
    } else if s[at] == closing(set) && place != Place::Unknown {
        false
    } else if plain_blank(s[at]) {
        stalls(
            s,
            at + 1,
            if place == Place::Within {
                Place::Before
            } else {
                place
            },
            set,
        )
    } else if place == Place::Before && quote(s[at]) {
        proof {
            lemma_quoted_end(s, at + 1, s[at]);
        }
        let next = behind_quoted(s, quoted_end(s, at + 1, s[at]), set);
        stalls(s, next.0, next.1, set)
    } else if place == Place::Before && signed(s, at, set) && quote(s[at + 1]) {
        proof {
            lemma_quoted_end(s, at + 2, s[at + 1]);
        }
        let next = behind_quoted(s, quoted_end(s, at + 2, s[at + 1]), set);
        stalls(s, next.0, next.1, set)
    } else if place == Place::Before && signed(s, at, set) && plain_blank(s[at + 1]) {
        stalls(s, at + 1, Place::BeforeBare, set)
    } else {
        stalls(
            s,
            at + 1,
            if place == Place::Unknown {
                place
            } else {
                Place::Within
            },
            set,
        )
    }
}

/// A word with a sign before it, in a list for a field.
pub open spec fn signed(s: Seq<char>, at: int, set: bool) -> bool {
    !set && at + 1 < s.len() && (s[at] == '+' || s[at] == '-')
}

/// Where the reader stands right behind the square bracket that opens a list.
pub open spec fn set_start(s: Seq<char>, at: int) -> Place {
    if at < s.len() && plain_blank(s[at]) {
        Place::BeforeBare
    } else {
        Place::Before
    }
}

/// A list of words opens at a position and keeps the reader of questions from coming to an end:
/// one in round brackets for a field, or one in square brackets behind `IN`.
pub open spec fn halts(s: Seq<char>, start: int) -> bool {
    ||| s[start] == '(' && behind_field(s, start) && stalls(s, start + 1, Place::Before, false)
    ||| s[start] == '[' && behind_in(s, start) && stalls(s, start + 1, set_start(s, start + 1), true)
}

/// A text that can be read as a question: it opens no more than a question may, and nothing in it
/// keeps the reader from coming to an end.
pub open spec fn readable(s: Seq<char>) -> bool {
    &&& opened(s, 0) <= MOST_OPENED
    &&& forall|start: int| 0 <= start < s.len() ==> !#[trigger] halts(s, start)
}

/// Is this a blank of ASCII?
fn is_plain_blank(c: char) -> (r: bool)
    ensures
        r == plain_blank(c),
{
    c == ' ' || c == '\t' || c == '\r' || c == '\n'
}

/// Is this a quotation mark?
fn is_quote(c: char) -> (r: bool)
    ensures
        r == quote(c),
{
    c == '"' || c == '\''
}

/// May no field name hold this character?
fn is_special(c: char) -> (r: bool)
    ensures
        r == special(c),
{
    c == '+' || c == '^' || c == '`' || c == ':' || c == '{' || c == '}' || c == '"' || c == '['
        || c == ']' || c == '(' || c == ')' || c == '!' || c == '\\' || c == '*' || c == ' '
}

/// Does a field name with its colon stand right before a position, but for plain blanks?
fn is_behind_field(cs: &Vec<char>, at: usize) -> (r: bool)
    requires
        at <= cs@.len(),
    ensures
        r == behind_field(cs@, at as int),
{
    let mut i: usize = at;
    while i > 0
        invariant
            i <= at <= cs@.len(),
            behind_field(cs@, at as int) == behind_field(cs@, i as int),
        decreases i,
    {
        let c = cs[i - 1];
        if c == ':' {
            return i > 1 && (!is_special(cs[i - 2]) || cs[i - 2] == '\\' || (i > 2 && cs[i - 3]
                == '\\'));
        }
        if !is_plain_blank(c) {
            return false;
        }
        i -= 1;
    }
    false
}

/// Does the word `IN` stand right before a position, but for plain blanks?
fn is_behind_in(cs: &Vec<char>, at: usize) -> (r: bool)
    requires
        at <= cs@.len(),
    ensures
        r == behind_in(cs@, at as int),
{
    let mut i: usize = at;
    while i > 0
        invariant
            i <= at <= cs@.len(),
            behind_in(cs@, at as int) == behind_in(cs@, i as int),
        decreases i,
    {
        let c = cs[i - 1];
        if !is_plain_blank(c) {
            if i < 2 || c != 'N' || cs[i - 2] != 'I' {
                return false;
            }
            if i == 2 {
                return true;
            }
            let before = cs[i - 3];
            return !(('a' <= before && before <= 'z') || ('A' <= before && before <= 'Z'));
        }
        i -= 1;
    }
    false
}

/// The position behind a quoted word.
fn find_quoted_end(cs: &Vec<char>, from: usize, mark: char) -> (r: usize)
    requires
        from <= cs@.len(),
    ensures
        r == quoted_end(cs@, from as int, mark),
        from <= r <= cs@.len(),
{
    let mut i: usize = from;
    while i < cs.len()
        invariant
            from <= i <= cs@.len(),
            quoted_end(cs@, from as int, mark) == quoted_end(cs@, i as int, mark),
        decreases cs@.len() - i,
    {
        let c = cs[i];
        if c == '\\' && cs.len() - i > 1 {
            i += 2;
        } else if c == mark {
            return i + 1;
        } else {
            i += 1;
        }
    }
    i
}

/// Where the reader stands behind a quoted word.
fn go_behind_quoted(cs: &Vec<char>, end: usize, set: bool) -> (r: (usize, Place))
    requires
        end <= cs@.len(),
    ensures
        (r.0 as int, r.1) == behind_quoted(cs@, end as int, set),
        end <= r.0 <= cs@.len(),
{
    if set || end >= cs.len() {
        (end, Place::Before)
    } else if cs[end] == '*' {
        (end + 1, Place::Before)
    } else if cs[end] == '~' {
        (end, Place::Unknown)
    } else {
        (end, Place::Before)
    }
}

/// Does the list that goes on at a position keep the reader from making headway?
fn does_stall(cs: &Vec<char>, from: usize, first: Place, set: bool) -> (r: bool)
    requires
        from <= cs@.len(),
    ensures
        r == stalls(cs@, from as int, first, set),
{
    let end = if set {
        ']'
    } else {
        ')'
    };
    let mut place = first;
    let mut i: usize = from;
    while i < cs.len()
        invariant
            from <= i <= cs@.len(),
            end == closing(set),
            stalls(cs@, from as int, first, set) == stalls(cs@, i as int, place, set),
        decreases cs@.len() - i,
    {
        let c = cs[i];
        let sign = !set && cs.len() - i > 1 && (c == '+' || c == '-');
        if (text::is_white(c) && !is_plain_blank(c)) || (!set && c == '^') {
            return true;
        } else if c == end && place != Place::Unknown {
            return false;
        } else if is_plain_blank(c) {
            if place == Place::Within {
                place = Place::Before;
            }
            i += 1;
        } else if place == Place::Before && is_quote(c) {
            let next = go_behind_quoted(cs, find_quoted_end(cs, i + 1, c), set);
            i = next.0;
            place = next.1;
        } else if place == Place::Before && sign && is_quote(cs[i + 1]) {
            let next = go_behind_quoted(cs, find_quoted_end(cs, i + 2, cs[i + 1]), set);
            i = next.0;
            place = next.1;
        } else if place == Place::Before && sign && is_plain_blank(cs[i + 1]) {
            place = Place::BeforeBare;
            i += 1;
        } else {
            if place != Place::Unknown {
                place = Place::Within;
            }
            i += 1;
        }
    }
    false
}

/// Can this text be read as a question?
pub fn can_be_read(query: &str) -> (r: bool)
    ensures
        r == readable(query@),
{
    let cs = text::chars_of(query);
    if opens_too_much(&cs) {
        return false;
    }
    let mut i: usize = 0;
    while i < cs.len()
        invariant
            i <= cs@.len(),
            cs@ == query@,
            opened(query@, 0) <= MOST_OPENED,
            forall|start: int| 0 <= start < i ==> !#[trigger] halts(query@, start),
        decreases cs@.len() - i,
    {
        let c = cs[i];
        let bare = cs.len() - i > 1 && is_plain_blank(cs[i + 1]);
        let first = if bare {
            Place::BeforeBare
        } else {
            Place::Before
        };
        assert(first == set_start(cs@, i + 1));
        if (c == '(' && is_behind_field(&cs, i) && does_stall(&cs, i + 1, Place::Before, false)) || (c
            == '[' && is_behind_in(&cs, i) && does_stall(&cs, i + 1, first, true)) {
            assert(halts(query@, i as int));
            return false;
        }
        i += 1;
    }
    true
}

} // verus!
