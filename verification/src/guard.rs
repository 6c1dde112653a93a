//! What must not be written down.

use vstd::prelude::*;

use crate::{search, text};

verus! {

/// A lower-case text that names a credential.
pub open spec fn names_credential(lower: Seq<char>) -> bool {
    ||| search::holds(lower, "token"@)
    ||| search::holds(lower, "password"@)
    ||| search::holds(lower, "api_key"@)
    ||| search::holds(lower, "secret"@)
    ||| search::holds(lower, "bearer "@)
    ||| search::holds(lower, "ssh-"@)
}

/// A text that names a credential in any mix of upper and lower case.
pub open spec fn sensitive(s: Seq<char>) -> bool {
    names_credential(text::lowercase(s))
}

/// A text that names a credential in any mix of upper- and lower-case ASCII letters: a piece of it
/// does.
pub open spec fn plainly_sensitive(s: Seq<char>) -> bool {
    names_credential(text::lowered(s))
}

/// Does the text name a credential, in any mix of upper and lower case?
pub fn contains_sensitive(s: &str) -> (r: bool)
    ensures
        r == sensitive(s@),
        plainly_sensitive(s@) ==> r,
        text::ascii(s@) ==> r == plainly_sensitive(s@),
        r == sensitive(text::lowered(s@)),
{
    let lower = s.to_lowercase();
    proof {
        if plainly_sensitive(s@) {
            lemma_spelled_out(s@, lower@);
        }
    }
    lower_names_credential(lower.as_str())
}

/// Does the lower-case text name a credential?
pub fn lower_names_credential(lower: &str) -> (r: bool)
    ensures
        r == names_credential(lower@),
{
    search::contains(lower, "token") || search::contains(lower, "password") || search::contains(
        lower,
        "api_key",
    ) || search::contains(lower, "secret") || search::contains(lower, "bearer ")
        || search::contains(lower, "ssh-")
}

proof fn lemma_spelled_out(s: Seq<char>, lower: Seq<char>)
    requires
        plainly_sensitive(s),
        text::lowers_pieces(s, lower),
    ensures
        names_credential(lower),
{
    reveal_strlit("token");
    reveal_strlit("password");
    reveal_strlit("api_key");
    reveal_strlit("secret");
    reveal_strlit("bearer ");
    reveal_strlit("ssh-");
    lemma_words_are_known();
    let low = text::lowered(s);
    let p = choose|p: Seq<char>| credential_word(p) && #[trigger] search::holds(low, p);
    let i = choose|i: int| search::occurs_at(low, p, i);
    let before = s.take(i);
    let piece = s.subrange(i, i + p.len());
    let after = s.skip(i + p.len());
    assert(text::lowered(piece) =~= low.subrange(i, i + p.len()));
    text::lemma_lowered_ascii(piece);
    assert(text::ascii(p));
    assert(s =~= before + piece + after);
}

proof fn lemma_words_are_known()
    ensures
        credential_word("token"@) && credential_word("password"@) && credential_word("api_key"@),
        credential_word("secret"@) && credential_word("bearer "@) && credential_word("ssh-"@),
{
}

/// A word that names a credential.
pub open spec fn credential_word(w: Seq<char>) -> bool {
    ||| w == "token"@
    ||| w == "password"@
    ||| w == "api_key"@
    ||| w == "secret"@
    ||| w == "bearer "@
    ||| w == "ssh-"@
}

/// What names a credential still does so within a longer text.
pub proof fn law_surroundings_hide_nothing(a: Seq<char>, s: Seq<char>, b: Seq<char>)
    requires
        plainly_sensitive(s),
    ensures
        plainly_sensitive(a + s + b),
{
    let low = text::lowered(s);
    let x = text::lowered(a);
    let y = text::lowered(b);
    text::lemma_lowered_pieces(a + s, b);
    text::lemma_lowered_pieces(a, s);
    lemma_words_are_known();
    let p = choose|p: Seq<char>| credential_word(p) && #[trigger] search::holds(low, p);
    search::lemma_holds_within(x, low, y, p);
}

/// Each of the words, in any case, is found wherever it stands.
pub proof fn law_every_credential_word_is_found(a: Seq<char>, w: Seq<char>, b: Seq<char>)
    requires
        credential_word(text::lowered(w)),
    ensures
        plainly_sensitive(a + w + b),
{
    let low = text::lowered(w);
    search::lemma_holds_self(low);
    law_surroundings_hide_nothing(a, w, b);
}

/// A text where none of the words occurs, in whatever case, names no credential; and the case of
/// its letters does not matter.
pub proof fn law_case_hides_nothing(s: Seq<char>)
    ensures
        (forall|w: Seq<char>|
            credential_word(w) ==> !#[trigger] search::holds(text::lowered(s), w))
            ==> !plainly_sensitive(s),
        plainly_sensitive(text::raised(s)) == plainly_sensitive(s),
        plainly_sensitive(text::lowered(s)) == plainly_sensitive(s),
        sensitive(text::lowered(text::raised(s))) == sensitive(text::lowered(s)),
{
    text::lemma_lowered_again(s);
    lemma_words_are_known();
}

/// The number of bytes that a text takes in UTF-8.
pub open spec fn byte_len(s: Seq<char>) -> nat {
    vstd::utf8::encode_utf8(s).len()
}

/// Does the text take more than `limit` bytes?
pub fn longer_than(s: &str, limit: usize) -> (r: bool)
    ensures
        r == (byte_len(s@) > limit),
{
    let bytes = s.as_bytes();
    bytes.len() > limit
}

/// A text takes at least one byte for each of its characters.
pub proof fn lemma_a_byte_each(s: Seq<char>)
    ensures
        byte_len(s) >= s.len(),
    decreases s.len(),
{
    if s.len() > 0 {
        lemma_a_byte_each(s.drop_first());
    }
}

} // verus!
