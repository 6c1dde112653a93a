//! The order of texts and of scored items.

use vstd::prelude::*;

use crate::text;

verus! {

/// `a` comes before `b`: character by character, a proper prefix first.
pub open spec fn precedes(a: Seq<char>, b: Seq<char>) -> bool
    decreases a.len(),
{
    if b.len() == 0 {
        false
    } else if a.len() == 0 {
        true
    } else if a[0] != b[0] {
        a[0] < b[0]
    } else {
        precedes(a.drop_first(), b.drop_first())
    }
}

/// Does `a` come before `b`?
pub fn is_before(a: &str, b: &str) -> (r: bool)
    ensures
        r == precedes(a@, b@),
{
    let x = text::chars_of(a);
    let y = text::chars_of(b);
    let mut i: usize = 0;
    assert(x@.skip(0) =~= x@ && y@.skip(0) =~= y@);
    while i < x.len() && i < y.len() && x[i] == y[i]
        invariant
            i <= x@.len(),
            i <= y@.len(),
            precedes(x@, y@) == precedes(x@.skip(i as int), y@.skip(i as int)),
        decreases x@.len() - i,
    {
        assert(x@.skip(i as int).drop_first() =~= x@.skip(i + 1));
        assert(y@.skip(i as int).drop_first() =~= y@.skip(i + 1));
        i += 1;
    }
    if i >= y.len() {
        false
    } else if i >= x.len() {
        true
    } else {
        x[i] < y[i]
    }
}

/// `precedes` never holds both ways, nor of a text and itself.
pub proof fn lemma_precedes_asymmetric(a: Seq<char>, b: Seq<char>)
    requires
        precedes(a, b),
    ensures
        !precedes(b, a),
        a != b,
    decreases a.len(),
{
    if a.len() > 0 && a[0] == b[0] {
        lemma_precedes_asymmetric(a.drop_first(), b.drop_first());
    }
}

/// Of two different texts one precedes the other.
pub proof fn lemma_precedes_total(a: Seq<char>, b: Seq<char>)
    ensures
        a == b || precedes(a, b) || precedes(b, a),
    decreases a.len(),
{
    if a.len() > 0 && b.len() > 0 && a[0] == b[0] {
        lemma_precedes_total(a.drop_first(), b.drop_first());
        if a.drop_first() == b.drop_first() {
            assert(a =~= seq![a[0]] + a.drop_first());
            assert(b =~= seq![b[0]] + b.drop_first());
        }
    } else if a.len() == 0 && b.len() == 0 {
        assert(a =~= b);
    }
}

/// `precedes` is transitive.
pub proof fn lemma_precedes_transitive(a: Seq<char>, b: Seq<char>, c: Seq<char>)
    requires
        precedes(a, b),
        precedes(b, c),
    ensures
        precedes(a, c),
    decreases a.len(),
{
    if a.len() > 0 && a[0] == b[0] && b[0] == c[0] {
        lemma_precedes_transitive(a.drop_first(), b.drop_first(), c.drop_first());
    }
}

/// No text comes after one that it precedes.
pub open spec fn in_order(v: Seq<Seq<char>>) -> bool {
    forall|i: int, j: int| 0 <= i < j < v.len() ==> !precedes(#[trigger] v[j], #[trigger] v[i])
}

/// Inserts `name` behind every text that it does not precede.
fn insert_name(v: &mut Vec<String>, name: String)
    requires
        in_order(text::texts(old(v)@)),
    ensures
        in_order(text::texts(final(v)@)),
        text::texts(final(v)@).to_multiset() == text::texts(old(v)@).to_multiset().insert(name@),
{
    let mut i: usize = v.len();
    while i > 0 && is_before(name.as_str(), v[i - 1].as_str())
        invariant
            i <= v@.len(),
            forall|j: int| i <= j < v@.len() ==> precedes(name@, #[trigger] v@[j]@),
        decreases i,
    {
        i -= 1;
    }
    let ghost before = text::texts(v@);
    let ghost n = name@;
    v.insert(i, name);
    assert(text::texts(v@) =~= before.insert(i as int, n));
    assert forall|a: int, b: int| 0 <= a < b < text::texts(v@).len() implies !precedes(
        #[trigger] text::texts(v@)[b],
        #[trigger] text::texts(v@)[a],
    ) by {
        let after = text::texts(v@);
        if b == i {
            // `name` stands behind something it does not precede, or at the front.
            if precedes(n, before[a]) {
                assert(!precedes(n, before[i - 1]));
                lemma_precedes_total(before[i - 1], n);
                if a < i - 1 {
                    assert(!precedes(before[i - 1], before[a]));
                    if precedes(before[i - 1], n) {
                        lemma_precedes_transitive(before[i - 1], n, before[a]);
                    }
                }
            }
        } else if a == i {
            assert(after[b] == before[b - 1]);
            lemma_precedes_asymmetric(n, before[b - 1]);
        } else {
            let a0 = if a < i { a } else { a - 1 };
            let b0 = if b < i { b } else { b - 1 };
            assert(after[a] == before[a0] && after[b] == before[b0]);
        }
    }
    proof {
        broadcast use vstd::seq_lib::group_to_multiset_ensures;
        assert(before.insert(i as int, n).to_multiset() =~= before.to_multiset().insert(n));
    }
}

/// Sorts names; equal names keep their number.
pub fn sort_names(names: Vec<String>) -> (r: Vec<String>)
    ensures
        in_order(text::texts(r@)),
        text::texts(r@).to_multiset() == text::texts(names@).to_multiset(),
{
    let mut out: Vec<String> = Vec::new();
    let ghost all = text::texts(names@);
    let mut i: usize = 0;
    assert(all.take(0) =~= text::texts(out@));
    while i < names.len()
        invariant
            i <= names@.len(),
            all == text::texts(names@),
            in_order(text::texts(out@)),
            text::texts(out@).to_multiset() == all.take(i as int).to_multiset(),
        decreases names@.len() - i,
    {
        insert_name(&mut out, names[i].clone());
        proof {
            broadcast use vstd::seq_lib::group_to_multiset_ensures;
            assert(all.take(i + 1) =~= all.take(i as int).push(all[i as int]));
        }
        i += 1;
    }
    assert(all.take(all.len() as int) =~= all);
    out
}

} // verus!
