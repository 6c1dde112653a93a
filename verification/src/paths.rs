//! Paths as text, with `/` between the steps.

use vstd::prelude::*;

use crate::text;

verus! {

/// The path of `name` under the directory `base`; `name` is a relative path.
pub open spec fn joined(base: Seq<char>, name: Seq<char>) -> Seq<char> {
    if base.len() == 0 {
        name
    } else if base.last() == '/' {
        base + name
    } else {
        base + "/"@ + name
    }
}

/// The path of `name` under the directory `base`.
pub fn join(base: &str, name: &str) -> (r: String)
    ensures
        r@ == joined(base@, name@),
{
    let cs = text::chars_of(base);
    if cs.len() == 0 {
        return name.to_string();
    }
    let mut out = base.to_string();
    if cs[cs.len() - 1] != '/' {
        out.append("/");
    }
    out.append(name);
    out
}

/// Where the steps of a path begin: behind a leading `/`, or behind a leading step `.`.
pub open spec fn body_start(path: Seq<char>) -> nat {
    if path.len() > 0 && path[0] == '/' {
        1
    } else if path.len() > 0 && path[0] == '.' && (path.len() == 1 || path[1] == '/') {
        1
    } else {
        0
    }
}

/// The position behind the last `/` at or behind `from`, or `from` if there is none.
pub open spec fn last_step(path: Seq<char>, from: nat) -> nat
    decreases path.len(),
{
    if path.len() <= from || path.last() == '/' {
        path.len()
    } else {
        last_step(path.drop_last(), from)
    }
}

/// The path without its last step and the `/` before it.
pub open spec fn without_step(path: Seq<char>, from: nat) -> Seq<char> {
    let n = last_step(path, from);
    if n > from {
        path.take(n - 1)
    } else {
        path.take(from as int)
    }
}

/// The path without the empty steps and the steps `.` at its end.
pub open spec fn tidy_end(path: Seq<char>, from: nat) -> Seq<char>
    decreases path.len(),
    via tidy_end_decreases
{
    let step = path.skip(last_step(path, from) as int);
    if path.len() > from && (step.len() == 0 || step == seq!['.']) {
        tidy_end(without_step(path, from), from)
    } else {
        path
    }
}

#[via_fn]
proof fn tidy_end_decreases(path: Seq<char>, from: nat) {
    lemma_last_step(path, from);
}

/// The last step is what stands behind the last `/`, or behind `from`.
pub proof fn lemma_last_step(path: Seq<char>, from: nat)
    ensures
        last_step(path, from) <= path.len(),
        path.len() >= from ==> last_step(path, from) >= from,
        path.len() >= from && last_step(path, from) > from ==> path[last_step(path, from) - 1]
            == '/',
        forall|i: int| last_step(path, from) <= i < path.len() ==> #[trigger] path[i] != '/',
    decreases path.len(),
{
    if path.len() > from && path.last() != '/' {
        let t = path.drop_last();
        lemma_last_step(t, from);
        assert forall|i: int| last_step(path, from) <= i < path.len() implies #[trigger] path[i]
            != '/' by {
            if i < t.len() {
                assert(path[i] == t[i]);
            }
        }
    }
}

/// The directory that holds a path: nothing for the root and for the empty path.
pub open spec fn parent_of(path: Seq<char>) -> Option<Seq<char>> {
    let from = body_start(path);
    let whole = tidy_end(path, from);
    if whole.len() > from {
        Some(tidy_end(without_step(whole, from), from))
    } else if from == 1 && path[0] == '.' {
        Some(Seq::empty())
    } else {
        None
    }
}

/// The position behind the last `/` of `cs[from..n]`, or `from`.
fn find_step(cs: &Vec<char>, from: usize, n: usize) -> (r: usize)
    requires
        from <= n <= cs@.len(),
    ensures
        r == last_step(cs@.take(n as int), from as nat),
        from <= r <= n,
{
    let mut i: usize = n;
    while i > from && cs[i - 1] != '/'
        invariant
            from <= i <= n <= cs@.len(),
            last_step(cs@.take(n as int), from as nat) == last_step(
                cs@.take(i as int),
                from as nat,
            ),
        decreases i,
    {
        assert(cs@.take(i as int).drop_last() =~= cs@.take(i - 1));
        i -= 1;
    }
    i
}

/// The length of `cs[..n]` without its last step.
fn drop_step(cs: &Vec<char>, from: usize, n: usize) -> (r: usize)
    requires
        from < n <= cs@.len(),
    ensures
        cs@.take(r as int) == without_step(cs@.take(n as int), from as nat),
        from <= r < n,
{
    let step: usize = find_step(cs, from, n);
    let ghost path = cs@.take(n as int);
    if step > from {
        assert(path.take(step - 1) =~= cs@.take(step - 1));
        step - 1
    } else {
        assert(path.take(from as int) =~= cs@.take(from as int));
        from
    }
}

/// The length of `cs[..n]` without the empty steps and the steps `.` at its end.
fn tidy_len(cs: &Vec<char>, from: usize, n: usize) -> (r: usize)
    requires
        from <= n <= cs@.len(),
    ensures
        cs@.take(r as int) == tidy_end(cs@.take(n as int), from as nat),
        from <= r <= n,
{
    let mut i: usize = n;
    while i > from
        invariant
            from <= i <= n <= cs@.len(),
            tidy_end(cs@.take(n as int), from as nat) == tidy_end(
                cs@.take(i as int),
                from as nat,
            ),
        decreases i,
    {
        let step: usize = find_step(cs, from, i);
        let ghost path = cs@.take(i as int);
        let ghost last = path.skip(step as int);
        if step == i || (step == i - 1 && cs[step] == '.') {
            assert(step == i ==> last.len() == 0);
            assert(step == i - 1 ==> last =~= seq!['.']);
            i = drop_step(cs, from, i);
        } else {
            assert(step == i - 1 ==> last[0] == cs@[step as int]);
            assert(seq!['.'].len() == 1 && seq!['.'][0] == '.');
            return i;
        }
    }
    i
}

/// The directory that holds a path.
pub fn parent(path: &str) -> (r: Option<String>)
    ensures
        text::opt(r) == parent_of(path@),
{
    let cs = text::chars_of(path);
    let n: usize = cs.len();
    let rooted = n > 0 && cs[0] == '/';
    let here = n > 0 && cs[0] == '.' && (n == 1 || cs[1] == '/');
    let from: usize = if rooted || here { 1 } else { 0 };
    assert(cs@.take(n as int) =~= cs@);
    let whole: usize = tidy_len(&cs, from, n);
    if whole > from {
        let up: usize = drop_step(&cs, from, whole);
        let end: usize = tidy_len(&cs, from, up);
        assert(cs@.take(end as int) =~= cs@.subrange(0, end as int));
        Some(text::string_of(&cs, 0, end))
    } else if here {
        let r = String::new();
        assert(r@ =~= Seq::<char>::empty());
        Some(r)
    } else {
        None
    }
}

proof fn lemma_step_of(dir: Seq<char>, name: Seq<char>, from: nat)
    requires
        from <= dir.len(),
        dir.len() > from ==> dir.last() == '/',
        !name.contains('/'),
    ensures
        last_step(dir + name, from) == dir.len(),
    decreases name.len(),
{
    let path = dir + name;
    if name.len() == 0 {
        assert(path =~= dir);
    } else {
        assert(path.last() == name.last());
        assert(name.contains(name.last()));
        assert(path.drop_last() =~= dir + name.drop_last());
        assert forall|i: int| 0 <= i < name.drop_last().len() implies name.drop_last()[i] != '/' by {
            assert(name.contains(name[i]));
        }
        lemma_step_of(dir, name.drop_last(), from);
    }
}

/// The directory of a path that was joined from a directory without loose steps at its end is that
/// directory.
pub proof fn law_parent_of_joined(base: Seq<char>, name: Seq<char>)
    requires
        tidy_end(base, body_start(base)) == base,
        name.len() > 0,
        name != seq!['.'],
        !name.contains('/'),
    ensures
        parent_of(joined(base, name)) == Some(base),
        tidy_end(joined(base, name), body_start(joined(base, name))) == joined(base, name),
{
    let path = joined(base, name);
    let from = body_start(base);
    reveal_strlit("/");
    assert(name.contains(name[0]));
    if base.len() == 0 {
        if name[0] == '.' {
            if name.len() == 1 {
                assert(name =~= seq!['.']);
            } else {
                assert(name.contains(name[1]));
            }
        }
        assert(body_start(path) == 0);
        lemma_step_of(Seq::empty(), name, 0);
        assert(Seq::<char>::empty() + name =~= name);
        assert(path.skip(0) =~= name);
        assert(path.take(0) =~= base);
    } else {
        let dir = if base.last() == '/' { base } else { base + "/"@ };
        assert(path =~= dir + name);
        assert(path[0] == base[0]);
        if base.len() == 1 && base[0] == '.' {
            assert(path[1] == '/');
        }
        assert(body_start(path) == from);
        if base.last() == '/' {
            // Only the root itself ends with a separator and has no loose step.
            lemma_last_step(base, from);
            if base.len() > from {
                assert(last_step(base, from) == base.len());
                assert(base.skip(base.len() as int).len() == 0);
                lemma_tidy_shrinks(without_step(base, from), from);
                assert(false);
            }
        }
        lemma_step_of(dir, name, from);
        assert(path.skip(dir.len() as int) =~= name);
        if dir.len() > from {
            assert(path.take(dir.len() - 1) =~= base);
        } else {
            assert(path.take(from as int) =~= base);
        }
    }
}

proof fn lemma_tidy_shrinks(path: Seq<char>, from: nat)
    ensures
        tidy_end(path, from).len() <= path.len(),
    decreases path.len(),
{
    let step = path.skip(last_step(path, from) as int);
    if path.len() > from && (step.len() == 0 || step == seq!['.']) {
        lemma_last_step(path, from);
        lemma_tidy_shrinks(without_step(path, from), from);
    }
}

} // verus!
