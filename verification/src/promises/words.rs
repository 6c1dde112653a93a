//! What the operations on texts are for.

use vstd::prelude::*;

use crate::promises::facts;
use crate::{guard, layout, numerals, order, paths, search, text};

verus! {

/// The white-space characters: the blanks and the line ends of Unicode. No visible ASCII
/// character is one.
pub proof fn law_white_space_is_that_of_unicode(c: char)
    ensures
        text::white(' ') && text::white('\t') && text::white('\n') && text::white('\r'),
        text::white('\u{0b}') && text::white('\u{0c}') && text::white('\u{85}'),
        text::white('\u{a0}') && text::white('\u{1680}') && text::white('\u{2028}'),
        text::white('\u{2029}') && text::white('\u{202f}') && text::white('\u{205f}'),
        text::white('\u{3000}'),
        '\u{2000}' <= c <= '\u{200a}' ==> text::white(c),
        '!' <= c <= '~' ==> !text::white(c),
        '\u{a1}' <= c <= '\u{167f}' ==> !text::white(c),
        c > '\u{3000}' ==> !text::white(c),
{
}

/// A text is its trimmed form with white space around it, and trimmed text has none at its ends.
pub proof fn law_trimming_takes_white_space_alone(s: Seq<char>) -> (r: (Seq<char>, Seq<char>))
    ensures
        layout::all_white(r.0),
        layout::all_white(r.1),
        s == r.0 + text::trimmed(s) + r.1,
        facts::filled(s) ==> facts::tight(text::trimmed(s)),
        !facts::filled(s) ==> text::trimmed(s).len() == 0,
{
    facts::lemma_filled(s);
    facts::lemma_trimmed_parts(s)
}

/// Each letter of ASCII changes its case, and nothing else changes.
pub proof fn law_case_changes_letters_alone(s: Seq<char>, i: int)
    requires
        0 <= i < s.len(),
    ensures
        text::lowered(s).len() == s.len(),
        text::raised(s).len() == s.len(),
        'A' <= s[i] <= 'Z' ==> text::lowered(s)[i] as int == s[i] as int + 32,
        !('A' <= s[i] <= 'Z') ==> text::lowered(s)[i] == s[i],
        'a' <= s[i] <= 'z' ==> text::raised(s)[i] as int == s[i] as int - 32,
        !('a' <= s[i] <= 'z') ==> text::raised(s)[i] == s[i],
{
}

// ---------------------------------------------------------------------------------------
// Lines

/// A text is read line by line: each line ends at a line feed, with or without a carriage return
/// before it, and the last one at the end of the text.
pub proof fn law_a_text_is_read_line_by_line(line: Seq<char>, rest: Seq<char>)
    requires
        !line.contains('\n'),
    ensures
        search::lines(Seq::empty()).len() == 0,
        line.len() > 0 ==> search::lines(line) == seq![line],
        line.len() == 0 || line[line.len() - 1] != '\r' ==> search::lines(
            line + seq!['\n'] + rest,
        ) == seq![line] + search::lines(rest),
        search::lines(line + seq!['\r', '\n'] + rest) == seq![line] + search::lines(rest),
{
    search::lemma_first_of(line, '\n');
    if search::first_of(line, '\n') < line.len() {
        assert(line.contains(line[search::first_of(line, '\n')]));
    }
    let a = line + seq!['\n'] + rest;
    lemma_line_end(a, line, rest);
    if line.len() > 0 {
        assert(line.last() == line[line.len() - 1]);
    }
    let held = line.push('\r');
    assert(!held.contains('\n')) by {
        if held.contains('\n') {
            let k = choose|k: int| 0 <= k < held.len() && held[k] == '\n';
            assert(k < line.len());
            assert(line[k] == '\n');
        }
    }
    let b = line + seq!['\r', '\n'] + rest;
    assert(b =~= held + seq!['\n'] + rest);
    lemma_line_end(b, held, rest);
    assert(held.drop_last() =~= line);
}

proof fn lemma_line_end(s: Seq<char>, line: Seq<char>, rest: Seq<char>)
    requires
        s == line + seq!['\n'] + rest,
        !line.contains('\n'),
    ensures
        search::lines(s) == seq![search::strip_cr(line)] + search::lines(rest),
{
    search::lemma_first_of(s, '\n');
    let n = search::first_of(s, '\n');
    assert(s[line.len() as int] == '\n');
    if n < line.len() {
        assert(line[n] == s[n]);
        assert(line.contains('\n'));
    }
    assert(n == line.len());
    assert(s.take(n) =~= line);
    assert(s.skip(n + 1) =~= rest);
}

/// A piece stands in a text exactly where the text is something before it, the piece, and
/// something behind it.
pub proof fn law_a_piece_is_found_where_it_stands(
    a: Seq<char>,
    p: Seq<char>,
    b: Seq<char>,
    s: Seq<char>,
)
    ensures
        search::holds(a + p + b, p),
        search::holds(s, p) ==> exists|x: Seq<char>, y: Seq<char>| s == #[trigger] (x + p + y),
{
    let whole = a + p + b;
    assert(whole.subrange(a.len() as int, (a.len() + p.len()) as int) =~= p);
    assert(search::occurs_at(whole, p, a.len() as int));
    if search::holds(s, p) {
        let i = choose|i: int| search::occurs_at(s, p, i);
        let x = s.take(i);
        let y = s.skip(i + p.len());
        assert(s =~= x + p + y);
    }
}

/// The first and the last of a character are found where they stand.
pub proof fn law_a_character_is_found_where_it_stands(a: Seq<char>, c: char, b: Seq<char>)
    ensures
        !a.contains(c) ==> search::first_of(a + seq![c] + b, c) == a.len(),
        !b.contains(c) ==> search::last_of(a + seq![c] + b, c) == a.len(),
        !a.contains(c) ==> search::first_of(a, c) == a.len() && search::last_of(a, c) == -1,
{
    let s = a + seq![c] + b;
    search::lemma_first_of(s, c);
    search::lemma_last_of(s, c);
    search::lemma_first_of(a, c);
    search::lemma_last_of(a, c);
    assert(s[a.len() as int] == c);
    let n = search::first_of(s, c);
    let m = search::last_of(s, c);
    if n < a.len() {
        assert(a[n] == s[n]);
        assert(a.contains(a[n]));
    }
    if m > a.len() {
        assert(b[m - a.len() - 1] == s[m]);
        assert(b.contains(b[m - a.len() - 1]));
    }
    if search::first_of(a, c) < a.len() {
        assert(a.contains(a[search::first_of(a, c)]));
    }
    if search::last_of(a, c) >= 0 {
        assert(a.contains(a[search::last_of(a, c)]));
    }
}

/// A text is cut behind so many characters, and kept whole where it has no more.
pub proof fn law_cutting_keeps_the_front(s: Seq<char>, rest: Seq<char>)
    ensures
        search::cut(s + rest, s.len() as int) == s,
        search::cut(s, (s.len() + rest.len()) as int) == s,
{
    assert((s + rest).take(s.len() as int) =~= s);
    if rest.len() == 0 {
        assert(s + rest =~= s);
    }
}

/// Every occurrence of a piece gives way to the other text, from the front on, and what stands
/// before the first is kept.
pub proof fn law_the_first_occurrence_gives_way(
    a: Seq<char>,
    p: Seq<char>,
    rest: Seq<char>,
    t: Seq<char>,
)
    requires
        p.len() > 0,
        forall|i: int| 0 <= i < a.len() ==> !#[trigger] search::occurs_at(a + p + rest, p, i),
    ensures
        search::with_replaced(a + p + rest, p, t) == a + t + search::with_replaced(rest, p, t),
    decreases a.len(),
{
    let s = a + p + rest;
    let more = search::with_replaced(rest, p, t);
    if a.len() == 0 {
        assert(s.take(p.len() as int) =~= p);
        assert(s.skip(p.len() as int) =~= rest);
        assert(t + more =~= a + t + more);
    } else {
        assert(!search::occurs_at(s, p, 0));
        assert(s.take(p.len() as int) =~= s.subrange(0, p.len() as int));
        let fewer = a.drop_first();
        let later = fewer + p + rest;
        assert(s.drop_first() =~= later);
        assert forall|i: int| 0 <= i < fewer.len() implies !#[trigger] search::occurs_at(
            later,
            p,
            i,
        ) by {
            assert(!search::occurs_at(s, p, i + 1));
            if search::occurs_at(later, p, i) {
                assert(s.subrange(i + 1, i + 1 + p.len()) =~= later.subrange(i, i + p.len()));
            }
        }
        law_the_first_occurrence_gives_way(fewer, p, rest, t);
        assert(seq![a[0]] + (fewer + t + more) =~= a + t + more);
    }
}

/// A text in which a piece does not stand is left as it is.
pub proof fn law_nothing_else_gives_way(s: Seq<char>, p: Seq<char>, t: Seq<char>)
    requires
        p.len() > 0,
        !search::holds(s, p),
    ensures
        search::with_replaced(s, p, t) == s,
    decreases s.len(),
{
    if s.len() >= p.len() {
        assert(!search::occurs_at(s, p, 0));
        assert(s.take(p.len() as int) =~= s.subrange(0, p.len() as int));
        let rest = s.drop_first();
        if search::holds(rest, p) {
            let i = choose|i: int| search::occurs_at(rest, p, i);
            assert(s.subrange(i + 1, i + 1 + p.len()) =~= rest.subrange(i, i + p.len()));
            assert(search::occurs_at(s, p, i + 1));
        }
        law_nothing_else_gives_way(rest, p, t);
        assert(seq![s[0]] + rest =~= s);
    }
}

// ---------------------------------------------------------------------------------------
// Order and numbers

/// Of two texts with a common front, that with the lower character behind it comes first, or that
/// which ends there.
pub proof fn law_texts_are_ordered_like_words(
    front: Seq<char>,
    c: char,
    a: Seq<char>,
    d: char,
    b: Seq<char>,
)
    requires
        c < d,
    ensures
        order::precedes(front + seq![c] + a, front + seq![d] + b),
        !order::precedes(front + seq![d] + b, front + seq![c] + a),
        order::precedes(front, front + seq![c] + a),
        !order::precedes(front, front),
    decreases front.len(),
{
    let x = front + seq![c] + a;
    let y = front + seq![d] + b;
    if front.len() > 0 {
        let less = front.drop_first();
        law_texts_are_ordered_like_words(less, c, a, d, b);
        assert(x.drop_first() =~= less + seq![c] + a);
        assert(y.drop_first() =~= less + seq![d] + b);
        assert(x[0] == front[0] && y[0] == front[0]);
    } else {
        assert(x[0] == c && y[0] == d);
    }
    order::lemma_precedes_asymmetric(x, y);
}

/// A number in decimal has the digits that denote it, and no zero in front of others; two numbers
/// are written alike only if they are the same.
pub proof fn law_a_number_is_written_by_its_digits(n: nat, m: nat)
    ensures
        numerals::all_digits(numerals::decimal(n)),
        numerals::digits_value(numerals::decimal(n)) == n,
        n > 0 ==> numerals::decimal(n)[0] != '0',
        numerals::decimal(n) == numerals::decimal(m) <==> n == m,
{
    lemma_digits(n);
    lemma_digits(m);
}

proof fn lemma_digits(n: nat)
    ensures
        numerals::all_digits(numerals::decimal(n)),
        numerals::digits_value(numerals::decimal(n)) == n,
        n > 0 ==> numerals::decimal(n)[0] != '0',
    decreases n,
{
    let s = numerals::decimal(n);
    reveal_with_fuel(numerals::digits_value, 2);
    if n >= 10 {
        lemma_digits(n / 10);
        let front = numerals::decimal(n / 10);
        assert(s.drop_last() =~= front);
        assert(s[0] == front[0]);
        assert forall|i: int| 0 <= i < s.len() implies '0' <= #[trigger] s[i] <= '9' by {
            if i < front.len() {
                assert(s[i] == front[i]);
            }
        }
    } else {
        assert(s.drop_last() =~= Seq::empty());
    }
}

/// The number that a row of digits denotes: each digit more counts ten times what stands before
/// it.
pub proof fn law_digits_count_by_ten(s: Seq<char>, c: char)
    requires
        numerals::all_digits(s),
        '0' <= c <= '9',
    ensures
        numerals::digits_value(s.push(c)) == 10 * numerals::digits_value(s) + (c as int - '0' as int),
        numerals::digits_value(seq![c]) == c as int - '0' as int,
        numerals::digits_value(s) <= u64::MAX ==> numerals::unsigned_of(s) == Some(
            numerals::digits_value(s) as u64,
        ),
        numerals::digits_value(s) <= u64::MAX ==> numerals::unsigned_of(seq!['+'] + s) == Some(
            numerals::digits_value(s) as u64,
        ),
        numerals::digits_value(s) > u64::MAX ==> numerals::unsigned_of(s) is None,
        numerals::digits_value(s) <= i64::MAX ==> numerals::signed_of(s) == Some(
            numerals::digits_value(s) as i64,
        ),
        numerals::digits_value(s) <= i64::MAX ==> numerals::signed_of(seq!['-'] + s) == Some(
            (0 - numerals::digits_value(s)) as i64,
        ),
        numerals::unsigned_of(s.push('.')) is None,
        numerals::unsigned_of(Seq::empty()) is None,
{
    assert(s.push(c).drop_last() =~= s);
    reveal_with_fuel(numerals::digits_value, 2);
    assert(seq![c].drop_last() =~= Seq::empty());
    assert((seq!['+'] + s).drop_first() =~= s);
    assert((seq!['-'] + s).drop_first() =~= s);
    assert(s[0] != '-' && s[0] != '+');
    let odd = s.push('.');
    assert(odd[s.len() as int] == '.');
    assert(odd[0] == s[0]);
}

// ---------------------------------------------------------------------------------------
// What must not be written down

/// A text that names a credential, in any case and wherever it stands, is sensitive; one that
/// names none is not.
pub proof fn law_credentials_are_recognised(a: Seq<char>, w: Seq<char>, b: Seq<char>, s: Seq<char>)
    ensures
        text::lowered(w) == "token"@ || text::lowered(w) == "password"@ || text::lowered(w)
            == "api_key"@ || text::lowered(w) == "secret"@ || text::lowered(w) == "bearer "@
            || text::lowered(w) == "ssh-"@ ==> guard::plainly_sensitive(a + w + b),
        guard::plainly_sensitive(s) ==> search::holds(text::lowered(s), "token"@) || search::holds(
            text::lowered(s),
            "password"@,
        ) || search::holds(text::lowered(s), "api_key"@) || search::holds(
            text::lowered(s),
            "secret"@,
        ) || search::holds(text::lowered(s), "bearer "@) || search::holds(
            text::lowered(s),
            "ssh-"@,
        ),
        guard::sensitive(s) <==> guard::names_credential(text::lowercase(s)),
        guard::names_credential(s) <==> search::holds(s, "token"@) || search::holds(s, "password"@)
            || search::holds(s, "api_key"@) || search::holds(s, "secret"@) || search::holds(
            s,
            "bearer "@,
        ) || search::holds(s, "ssh-"@),
        guard::plainly_sensitive(s) <==> guard::names_credential(text::lowered(s)),
{
    if guard::credential_word(text::lowered(w)) {
        guard::law_every_credential_word_is_found(a, w, b);
    }
}

/// The value of a row of hexadecimal digits.
pub open spec fn hex_value(s: Seq<char>) -> nat
    decreases s.len(),
{
    if s.len() == 0 {
        0
    } else {
        let c = s.last() as int;
        (16 * hex_value(s.drop_last()) + if c >= 97 {
            c - 87
        } else {
            c - 48
        }) as nat
    }
}

/// So many hexadecimal digits can tell this many numbers apart.
pub open spec fn hex_count(width: nat) -> nat
    decreases width,
{
    if width == 0 {
        1
    } else {
        16 * hex_count((width - 1) as nat)
    }
}

/// A number is written in hexadecimal by so many digits that denote it, in lower case.
pub proof fn law_a_number_is_written_in_hexadecimal(n: nat, width: nat)
    ensures
        numerals::hexadecimal(n, width).len() == width,
        forall|i: int|
            0 <= i < width ==> {
                let c = #[trigger] numerals::hexadecimal(n, width)[i];
                '0' <= c <= '9' || 'a' <= c <= 'f'
            },
        n < hex_count(width) ==> hex_value(numerals::hexadecimal(n, width)) == n,
    decreases width,
{
    let s = numerals::hexadecimal(n, width);
    if width > 0 {
        let fewer = (width - 1) as nat;
        law_a_number_is_written_in_hexadecimal(n / 16, fewer);
        let front = numerals::hexadecimal(n / 16, fewer);
        assert(s.drop_last() =~= front);
        let d = (n % 16) as int;
        assert(s.last() == numerals::digit_char(d));
        assert forall|i: int| 0 <= i < width implies {
            let c = #[trigger] s[i];
            '0' <= c <= '9' || 'a' <= c <= 'f'
        } by {
            if i < fewer {
                assert(s[i] == front[i]);
            }
        }
        if n < hex_count(width) {
            assert(n / 16 < hex_count(fewer));
            assert(16 * (n / 16) + n % 16 == n);
        }
    }
}

// ---------------------------------------------------------------------------------------
// Paths

/// A path with no loose end: it is empty, or the root, or ends with a name.
pub open spec fn clean(path: Seq<char>) -> bool {
    ||| path.len() == 0
    ||| path == seq!['/']
    ||| path == seq!['.']
    ||| {
        let n = path.len() as int;
        &&& path[n - 1] != '/'
        &&& path[n - 1] != '.' || (n >= 2 && path[n - 2] != '/')
    }
}

proof fn lemma_clean(path: Seq<char>)
    requires
        clean(path),
    ensures
        paths::tidy_end(path, paths::body_start(path)) == path,
{
    let from = paths::body_start(path);
    let n = path.len() as int;
    paths::lemma_last_step(path, from);
    if path.len() > from {
        let k = paths::last_step(path, from) as int;
        let step = path.skip(k);
        if k == n {
            assert(path[k - 1] == '/');
        }
        assert(step.len() > 0);
        if step == seq!['.'] {
            assert(step.len() == 1);
            assert(k == n - 1);
            assert(path[n - 1] == step[0]);
            if k > from {
                assert(path[k - 1] == '/');
            } else {
                assert(from <= 1);
                if from == 1 {
                    assert(path[0] == '/' || path[0] == '.');
                }
            }
            assert(false);
        }
    }
}

/// A file lies in the directory that it was named under, with or without slashes behind it.
pub proof fn law_a_file_lies_in_its_directory(base: Seq<char>, name: Seq<char>)
    requires
        clean(base),
        name.len() > 0,
        name != seq!['.'],
        !name.contains('/'),
    ensures
        paths::parent_of(paths::joined(base, name)) == Some(base),
        paths::parent_of(paths::joined(base, name).push('/')) == Some(base),
        paths::parent_of(Seq::empty()) is None,
        paths::parent_of(seq!['/']) is None,
{
    lemma_clean(base);
    paths::law_parent_of_joined(base, name);
    let path = paths::joined(base, name);
    reveal_strlit("/");
    if base.len() > 0 && base[base.len() - 1] != '/' {
        assert(base.last() != '/');
        assert(path.len() > 0);
    }
    law_slashes_behind_a_path_do_not_matter(path);
}

/// A slash behind a path changes nothing of where it lies.
pub proof fn law_slashes_behind_a_path_do_not_matter(path: Seq<char>)
    requires
        path.len() > 0,
    ensures
        paths::parent_of(path.push('/')) == paths::parent_of(path),
{
    let longer = path.push('/');
    let from = paths::body_start(path);
    assert(longer[0] == path[0]);
    if path.len() >= 2 {
        assert(longer[1] == path[1]);
    } else {
        assert(longer[1] == '/');
    }
    assert(paths::body_start(longer) == from);
    assert(longer.last() == '/');
    assert(paths::last_step(longer, from) == longer.len());
    assert(longer.skip(longer.len() as int).len() == 0);
    assert(paths::without_step(longer, from) =~= path);
}

/// The length of a text in bytes is that of its form in UTF-8.
pub proof fn law_length_is_counted_in_bytes(s: Seq<char>)
    ensures
        guard::byte_len(s) == vstd::utf8::encode_utf8(s).len(),
        guard::byte_len(s) >= s.len(),
{
    guard::lemma_a_byte_each(s);
}

} // verus!
