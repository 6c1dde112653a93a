//! Facts about texts and JSON objects that the laws build on.

use vstd::prelude::*;

use crate::json::JsonView;
use crate::{json, layout, text};

verus! {

/// A character that is no white space stands somewhere in the text.
pub open spec fn filled(s: Seq<char>) -> bool {
    exists|i: int| 0 <= i < s.len() && !text::white(#[trigger] s[i])
}

/// The text is not empty and has no white space at its ends.
pub open spec fn tight(s: Seq<char>) -> bool {
    s.len() > 0 && !text::white(s[0]) && !text::white(s[s.len() - 1])
}

/// A text is its trimmed form with white space around it.
pub proof fn lemma_trimmed_parts(s: Seq<char>) -> (r: (Seq<char>, Seq<char>))
    ensures
        layout::all_white(r.0),
        layout::all_white(r.1),
        s == r.0 + text::trimmed(s) + r.1,
        text::trimmed(s).len() > 0 ==> tight(text::trimmed(s)),
{
    let before = lemma_front_part(s);
    let t = text::trim_start(s);
    let after = lemma_end_part(t);
    assert(before + text::trimmed(s) + after =~= before + (text::trim_end(t) + after));
    if text::trimmed(s).len() > 0 {
        text::lemma_trimmed_starts(s);
        text::lemma_trimmed_ends(s);
    }
    (before, after)
}

proof fn lemma_front_part(s: Seq<char>) -> (r: Seq<char>)
    ensures
        layout::all_white(r),
        s == r + text::trim_start(s),
    decreases s.len(),
{
    if s.len() > 0 && text::white(s[0]) {
        let r = lemma_front_part(s.drop_first());
        let all = seq![s[0]] + r;
        assert forall|i: int| 0 <= i < all.len() implies text::white(#[trigger] all[i]) by {
            if i > 0 {
                assert(all[i] == r[i - 1]);
            }
        }
        assert(s =~= seq![s[0]] + s.drop_first());
        assert(s =~= all + text::trim_start(s));
        all
    } else {
        assert(s =~= Seq::<char>::empty() + s);
        Seq::empty()
    }
}

proof fn lemma_end_part(s: Seq<char>) -> (r: Seq<char>)
    ensures
        layout::all_white(r),
        s == text::trim_end(s) + r,
    decreases s.len(),
{
    if s.len() > 0 && text::white(s.last()) {
        let r = lemma_end_part(s.drop_last());
        let all = r.push(s.last());
        assert forall|i: int| 0 <= i < all.len() implies text::white(#[trigger] all[i]) by {
            if i < r.len() {
                assert(all[i] == r[i]);
            }
        }
        assert(s =~= s.drop_last().push(s.last()));
        assert(s =~= text::trim_end(s) + all);
        all
    } else {
        assert(s =~= s + Seq::<char>::empty());
        Seq::empty()
    }
}

/// Trimming leaves something of a text exactly where a character of it is no white space.
pub proof fn lemma_filled(s: Seq<char>)
    ensures
        filled(s) <==> text::trimmed(s).len() > 0,
{
    let (before, after) = lemma_trimmed_parts(s);
    let t = text::trimmed(s);
    if t.len() > 0 {
        assert(s[before.len() as int] == t[0]);
    } else if filled(s) {
        let i = choose|i: int| 0 <= i < s.len() && !text::white(#[trigger] s[i]);
        if i < before.len() {
            assert(s[i] == before[i]);
        } else {
            assert(s[i] == after[i - before.len()]);
        }
    }
}

/// White space around a text with none at its ends is what trimming takes away.
pub proof fn lemma_padded(before: Seq<char>, w: Seq<char>, after: Seq<char>)
    requires
        layout::all_white(before),
        layout::all_white(after),
        tight(w),
    ensures
        text::trimmed(before + w + after) == w,
{
    assert(w.last() == w[w.len() - 1]);
    layout::law_trimming_takes_the_white_space_around(before, w, after);
}

/// An object whose keys are all different gives a value for a key.
pub open spec fn gives(args: JsonView, key: Seq<char>, v: JsonView) -> bool {
    args matches JsonView::Object(members) && (forall|i: int, j: int|
        0 <= i < j < members.len() ==> (#[trigger] members[i]).0 != (#[trigger] members[j]).0)
        && members.contains((key, v))
}

/// An object has no member of this key.
pub open spec fn lacks(args: JsonView, key: Seq<char>) -> bool {
    args matches JsonView::Object(members) && forall|i: int|
        0 <= i < members.len() ==> (#[trigger] members[i]).0 != key
}

proof fn lemma_first_member(members: Seq<(Seq<char>, JsonView)>, key: Seq<char>)
    ensures
        0 <= json::first_member(members, key) <= members.len(),
        json::first_member(members, key) < members.len() ==> members[json::first_member(
            members,
            key,
        )].0 == key,
        json::first_member(members, key) == members.len() ==> forall|i: int|
            0 <= i < members.len() ==> (#[trigger] members[i]).0 != key,
    decreases members.len(),
{
    if members.len() > 0 && members[0].0 != key {
        let rest = members.drop_first();
        lemma_first_member(rest, key);
        if json::first_member(members, key) == members.len() {
            assert forall|i: int| 0 <= i < members.len() implies (#[trigger] members[i]).0 != key by {
                if i > 0 {
                    assert(rest[i - 1] == members[i]);
                }
            }
        }
    }
}

/// What an object gives is what is found under the key.
pub proof fn lemma_gives(args: JsonView, key: Seq<char>, v: JsonView)
    requires
        gives(args, key, v),
    ensures
        args.get(key) == Some(v),
{
    let members = args->Object_0;
    let k = choose|k: int| 0 <= k < members.len() && members[k] == (key, v);
    lemma_first_member(members, key);
    let i = json::first_member(members, key);
    assert(members[k].0 == key);
    if i < members.len() && i != k {
        if i < k {
            assert(members[i].0 != members[k].0);
        } else {
            assert(members[k].0 != members[i].0);
        }
    }
}

/// What an object lacks is not found.
pub proof fn lemma_lacks(args: JsonView, key: Seq<char>)
    requires
        lacks(args, key),
    ensures
        args.get(key) is None,
{
    lemma_first_member(args->Object_0, key);
}

} // verus!
