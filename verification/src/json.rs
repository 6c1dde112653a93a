//! JSON values as plain data, and the bridge to the crate that reads and writes JSON text.

use vstd::prelude::*;

use crate::{numerals, order, text};

verus! {

/// A number as the JSON text gave it.
pub struct JsonNumber {
    /// Its canonical text.
    pub text: String,
    /// Its value, if it is an integer between 0 and `u64::MAX`.
    pub unsigned: Option<u64>,
}

/// A JSON value.
pub enum Json {
    Null,
    Bool(bool),
    Number(JsonNumber),
    Text(String),
    Array(Vec<Json>),
    /// The members, in ascending order of their keys.
    Object(Vec<(String, Json)>),
}

/// What a JSON value holds.
pub enum JsonView {
    Null,
    Bool(bool),
    Number(Seq<char>, Option<u64>),
    Text(Seq<char>),
    Array(Seq<JsonView>),
    Object(Seq<(Seq<char>, JsonView)>),
}

/// What a JSON value holds, level by level.
pub open spec fn json_contents(j: Json) -> JsonView
    decreases j,
{
    match j {
        Json::Null => JsonView::Null,
        Json::Bool(b) => JsonView::Bool(b),
        Json::Number(n) => JsonView::Number(n.text@, n.unsigned),
        Json::Text(s) => JsonView::Text(s@),
        Json::Array(items) => JsonView::Array(
            Seq::new(
                items@.len(),
                |i: int|
                    if 0 <= i < items@.len() {
                        json_contents(items@[i])
                    } else {
                        JsonView::Null
                    },
            ),
        ),
        Json::Object(members) => JsonView::Object(
            Seq::new(
                members@.len(),
                |i: int|
                    if 0 <= i < members@.len() {
                        (members@[i].0@, json_contents(members@[i].1))
                    } else {
                        (Seq::empty(), JsonView::Null)
                    },
            ),
        ),
    }
}

impl View for Json {
    type V = JsonView;

    open spec fn view(&self) -> JsonView {
        json_contents(*self)
    }
}

/// The position of the first member with that key, or the number of members.
pub open spec fn first_member(members: Seq<(Seq<char>, JsonView)>, key: Seq<char>) -> int
    decreases members.len(),
{
    if members.len() == 0 || members[0].0 == key {
        0
    } else {
        1 + first_member(members.drop_first(), key)
    }
}

impl JsonView {
    /// The member `key` of an object; nothing for any other value.
    pub open spec fn get(self, key: Seq<char>) -> Option<JsonView> {
        match self {
            JsonView::Object(members) => {
                let i = first_member(members, key);
                if i < members.len() {
                    Some(members[i].1)
                } else {
                    None
                }
            },
            _ => None,
        }
    }

    /// The text, if the value is one.
    pub open spec fn text(self) -> Option<Seq<char>> {
        match self {
            JsonView::Text(s) => Some(s),
            _ => None,
        }
    }

    /// The number, if the value is an integer between 0 and `u64::MAX`.
    pub open spec fn unsigned(self) -> Option<u64> {
        match self {
            JsonView::Number(_, n) => n,
            _ => None,
        }
    }

    /// The truth value, if the value is one.
    pub open spec fn bool(self) -> Option<bool> {
        match self {
            JsonView::Bool(b) => Some(b),
            _ => None,
        }
    }

    /// The text of the member `key`, if there is such a member and it is a text.
    pub open spec fn text_at(self, key: Seq<char>) -> Option<Seq<char>> {
        match self.get(key) {
            Some(v) => v.text(),
            None => None,
        }
    }

    /// The number of the member `key`, if there is such a member and it is an integer between 0
    /// and `u64::MAX`.
    pub open spec fn unsigned_at(self, key: Seq<char>) -> Option<u64> {
        match self.get(key) {
            Some(v) => v.unsigned(),
            None => None,
        }
    }

    /// The truth value of the member `key`, if there is such a member and it is one.
    pub open spec fn bool_at(self, key: Seq<char>) -> Option<bool> {
        match self.get(key) {
            Some(v) => v.bool(),
            None => None,
        }
    }
}

impl Json {
    /// A copy of the value.
    pub fn copy(&self) -> (r: Json)
        ensures
            r@ == self@,
        decreases self,
    {
        match self {
            Json::Null => Json::Null,
            Json::Bool(b) => Json::Bool(*b),
            Json::Number(n) => Json::Number(
                JsonNumber { text: n.text.clone(), unsigned: n.unsigned },
            ),
            Json::Text(s) => Json::Text(s.clone()),
            Json::Array(items) => {
                let mut out: Vec<Json> = Vec::new();
                let mut i: usize = 0;
                while i < items.len()
                    invariant
                        *self == Json::Array(*items),
                        i <= items@.len(),
                        out@.len() == i,
                        forall|j: int| 0 <= j < i ==> (#[trigger] out@[j])@ == items@[j]@,
                    decreases items@.len() - i,
                {
                    assert(decreases_to!(*self => self->Array_0));
                    assert(decreases_to!(*items => items@));
                    out.push(items[i].copy());
                    i += 1;
                }
                let r = Json::Array(out);
                assert(r@->Array_0 =~= self@->Array_0);
                r
            },
            Json::Object(members) => {
                let mut out: Vec<(String, Json)> = Vec::new();
                let mut i: usize = 0;
                while i < members.len()
                    invariant
                        *self == Json::Object(*members),
                        i <= members@.len(),
                        out@.len() == i,
                        forall|j: int|
                            0 <= j < i ==> (#[trigger] out@[j]).0@ == members@[j].0@ && out@[j].1@
                                == members@[j].1@,
                    decreases members@.len() - i,
                {
                    assert(decreases_to!(*self => self->Object_0));
                    assert(decreases_to!(*members => members@));
                    out.push((members[i].0.clone(), members[i].1.copy()));
                    i += 1;
                }
                let r = Json::Object(out);
                assert(r@->Object_0 =~= self@->Object_0);
                r
            },
        }
    }

    /// The member `key` of an object.
    pub fn get(&self, key: &str) -> (r: Option<&Json>)
        ensures
            match r {
                Some(v) => self@.get(key@) == Some(v@),
                None => self@.get(key@) is None,
            },
    {
        match self {
            Json::Object(members) => {
                let ghost all = self@->Object_0;
                let mut i: usize = 0;
                assert(all.skip(0) =~= all);
                while i < members.len()
                    invariant
                        *self == Json::Object(*members),
                        all == self@->Object_0,
                        i <= members@.len() == all.len(),
                        first_member(all, key@) == i + first_member(all.skip(i as int), key@),
                    decreases members@.len() - i,
                {
                    assert(all[i as int] == (members@[i as int].0@, members@[i as int].1@));
                    if text::same(members[i].0.as_str(), key) {
                        return Some(&members[i].1);
                    }
                    assert(all.skip(i as int).drop_first() =~= all.skip(i + 1));
                    i += 1;
                }
                None
            },
            _ => None,
        }
    }

    /// The text of the member `key`.
    pub fn text_at(&self, key: &str) -> (r: Option<String>)
        ensures
            text::opt(r) == self@.text_at(key@),
    {
        match self.get(key) {
            Some(Json::Text(s)) => Some(s.clone()),
            _ => None,
        }
    }

    /// The number of the member `key`.
    pub fn unsigned_at(&self, key: &str) -> (r: Option<u64>)
        ensures
            r == self@.unsigned_at(key@),
    {
        match self.get(key) {
            Some(Json::Number(n)) => n.unsigned,
            _ => None,
        }
    }

    /// The truth value of the member `key`.
    pub fn bool_at(&self, key: &str) -> (r: Option<bool>)
        ensures
            r == self@.bool_at(key@),
    {
        match self.get(key) {
            Some(Json::Bool(b)) => Some(*b),
            _ => None,
        }
    }
}

/// What a list of members holds.
pub open spec fn members_view(members: Seq<(String, Json)>) -> Seq<(Seq<char>, JsonView)> {
    Seq::new(members.len(), |i: int| (members[i].0@, members[i].1@))
}

/// A text.
pub fn text(s: &str) -> (r: Json)
    ensures
        r@ == JsonView::Text(s@),
{
    Json::Text(s.to_string())
}

/// An integer between 0 and `u64::MAX`.
pub open spec fn number_view(n: u64) -> JsonView {
    JsonView::Number(numerals::decimal(n as nat), Some(n))
}

/// An integer between 0 and `u64::MAX`.
pub fn number(n: u64) -> (r: Json)
    ensures
        r@ == number_view(n),
{
    Json::Number(JsonNumber { text: numerals::write_decimal(n), unsigned: Some(n) })
}

/// An object with the given members.
pub fn object(members: Vec<(String, Json)>) -> (r: Json)
    ensures
        r@ == JsonView::Object(members_view(members@)),
{
    let r = Json::Object(members);
    assert(r@->Object_0 =~= members_view(members@));
    r
}

/// An array of texts.
pub fn text_array(items: Vec<String>) -> (r: Json)
    ensures
        r@ == JsonView::Array(texts_view(items@)),
{
    let mut out: Vec<Json> = Vec::new();
    let mut i: usize = 0;
    while i < items.len()
        invariant
            i <= items@.len(),
            out@.len() == i,
            forall|j: int| 0 <= j < i ==> (#[trigger] out@[j])@ == JsonView::Text(items@[j]@),
        decreases items@.len() - i,
    {
        out.push(Json::Text(items[i].clone()));
        i += 1;
    }
    let r = Json::Array(out);
    assert(r@->Array_0 =~= texts_view(items@));
    r
}

/// The texts of a list of strings, as JSON values.
pub open spec fn texts_view(items: Seq<String>) -> Seq<JsonView> {
    Seq::new(items.len(), |i: int| JsonView::Text(items[i]@))
}

// ---------------------------------------------------------------------------------------
// Strings inside JSON text

/// A character as it is written between the quotes of a JSON string.
pub open spec fn escaped_char(c: char) -> Seq<char> {
    if c == '\\' {
        seq!['\\', '\\']
    } else if c == '"' {
        seq!['\\', '"']
    } else if c == '\n' {
        seq!['\\', 'n']
    } else {
        seq![c]
    }
}

/// A text with its backslashes, quotes and line feeds escaped.
pub open spec fn escaped(s: Seq<char>) -> Seq<char>
    decreases s.len(),
{
    if s.len() == 0 {
        Seq::empty()
    } else {
        escaped(s.drop_last()) + escaped_char(s.last())
    }
}

/// A text whose only control characters below the space are line feeds: what `escaped` makes of
/// it may stand between the quotes of a JSON string.
pub open spec fn quotable(s: Seq<char>) -> bool {
    forall|i: int| 0 <= i < s.len() ==> (#[trigger] s[i]) as int >= 0x20 || s[i] == '\n'
}

/// Escaping goes character by character: what it makes of a text in two pieces is what it makes of
/// the pieces.
pub proof fn law_escaping_goes_piece_by_piece(a: Seq<char>, b: Seq<char>)
    ensures
        escaped(a + b) == escaped(a) + escaped(b),
    decreases b.len(),
{
    if b.len() == 0 {
        assert(a + b =~= a);
        assert(escaped(a) + escaped(b) =~= escaped(a));
    } else {
        law_escaping_goes_piece_by_piece(a, b.drop_last());
        assert((a + b).drop_last() =~= a + b.drop_last());
        assert(escaped(a + b) =~= escaped(a) + escaped(b));
    }
}

/// An escaped text is a single line.
pub proof fn law_escaping_leaves_no_line_feed(s: Seq<char>)
    ensures
        !escaped(s).contains('\n'),
    decreases s.len(),
{
    if s.len() > 0 {
        law_escaping_leaves_no_line_feed(s.drop_last());
        let a = escaped(s.drop_last());
        let b = escaped_char(s.last());
        assert forall|i: int| 0 <= i < escaped(s).len() implies escaped(s)[i] != '\n' by {
            if i < a.len() {
                assert(escaped(s)[i] == a[i]);
                assert(a.contains(a[i]));
            } else {
                assert(escaped(s)[i] == b[i - a.len()]);
            }
        }
    }
}

/// A text between quotes.
pub open spec fn quoted(s: Seq<char>) -> Seq<char> {
    "\""@ + s + "\""@
}

/// The text of an object with two members that are strings.
pub open spec fn pair_text(
    key1: Seq<char>,
    text1: Seq<char>,
    key2: Seq<char>,
    text2: Seq<char>,
) -> Seq<char> {
    "{\""@ + key1 + "\":\""@ + text1 + "\",\""@ + key2 + "\":\""@ + text2 + "\"}"@
}

/// A key other than the two that the JSON crate keeps for itself.
pub open spec fn ordinary(key: Seq<char>) -> bool {
    key != "$serde_json::private::RawValue"@ && key != "$serde_json::private::Number"@
}

/// A key that does not begin with a dollar sign is ordinary.
pub proof fn lemma_ordinary(key: Seq<char>)
    requires
        key.len() == 0 || key[0] != '$',
    ensures
        ordinary(key),
{
    reveal_strlit("$serde_json::private::RawValue");
    reveal_strlit("$serde_json::private::Number");
    assert("$serde_json::private::RawValue"@[0] == '$');
    assert("$serde_json::private::Number"@[0] == '$');
}

/// The decimal text of a negative number from `i64::MIN` on.
pub open spec fn negative(text: Seq<char>) -> bool {
    exists|n: nat|
        1 <= n <= 0x8000_0000_0000_0000 && text == "-"@ + #[trigger] numerals::decimal(n)
}

/// How deep the values may be that the JSON crate is sure to read.
pub const DEPTH: u64 = 120;

/// A value of at most `depth` nested levels, with ordinary keys, whose numbers are integers
/// between `i64::MIN` and `u64::MAX`.
pub open spec fn modest(v: JsonView, depth: nat) -> bool
    decreases depth,
{
    match v {
        JsonView::Null => true,
        JsonView::Bool(_) => true,
        JsonView::Text(_) => true,
        JsonView::Number(text, n) => match n {
            Some(n) => text == numerals::decimal(n as nat),
            None => negative(text),
        },
        JsonView::Array(items) => depth > 0 && forall|i: int|
            0 <= i < items.len() ==> modest(#[trigger] items[i], (depth - 1) as nat),
        JsonView::Object(members) => depth > 0 && forall|i: int|
            0 <= i < members.len() ==> ordinary((#[trigger] members[i]).0) && modest(
                members[i].1,
                (depth - 1) as nat,
            ),
    }
}

/// The keys stand in strictly ascending order.
pub open spec fn ascending(members: Seq<(Seq<char>, JsonView)>) -> bool {
    forall|i: int, j: int|
        0 <= i < j < members.len() ==> order::precedes(
            (#[trigger] members[i]).0,
            (#[trigger] members[j]).0,
        )
}

// ---------------------------------------------------------------------------------------
// The JSON crate

/// A value of the JSON crate.
#[verifier::external_type_specification]
#[verifier::external_body]
pub struct ExJsonValue(serde_json::Value);

/// What a value of the JSON crate holds; the members of an object in ascending order of their
/// keys, as its map yields them.
pub uninterp spec fn value_contents(v: serde_json::Value) -> JsonView;

/// What `serde_json::from_str` reads from a text: a value, or the message of its error.
pub uninterp spec fn json_document(text: Seq<char>) -> Result<JsonView, Seq<char>>;

/// The compact text that `serde_json::Value` displays for a value.
pub uninterp spec fn json_compact(v: JsonView) -> Seq<char>;

/// The indented text that `serde_json::to_string_pretty` writes for a value.
pub uninterp spec fn json_pretty(v: JsonView) -> Result<Seq<char>, Seq<char>>;

/// One level of a value of the JSON crate.
pub enum JsonNode {
    Null,
    Bool(bool),
    Number(JsonNumber),
    Text(String),
    Array(Vec<serde_json::Value>),
    Object(Vec<(String, serde_json::Value)>),
}

/// What one level of a value holds.
pub open spec fn node_contents(n: JsonNode) -> JsonView {
    match n {
        JsonNode::Null => JsonView::Null,
        JsonNode::Bool(b) => JsonView::Bool(b),
        JsonNode::Number(n) => JsonView::Number(n.text@, n.unsigned),
        JsonNode::Text(s) => JsonView::Text(s@),
        JsonNode::Array(items) => JsonView::Array(
            Seq::new(items@.len(), |i: int| value_contents(items@[i])),
        ),
        JsonNode::Object(members) => JsonView::Object(members_contents(members@)),
    }
}

/// What a list of keys and values holds.
pub open spec fn members_contents(members: Seq<(String, serde_json::Value)>) -> Seq<
    (Seq<char>, JsonView),
> {
    Seq::new(members.len(), |i: int| (members[i].0@, value_contents(members[i].1)))
}

/// What reading gave, or the message of the error.
pub open spec fn value_read(r: Result<serde_json::Value, String>) -> Result<JsonView, Seq<char>> {
    match r {
        Ok(v) => Ok(value_contents(v)),
        Err(e) => Err(e@),
    }
}

/// What reading gave, or the message of the error.
pub open spec fn json_read(r: Result<Json, String>) -> Result<JsonView, Seq<char>> {
    match r {
        Ok(v) => Ok(v@),
        Err(e) => Err(e@),
    }
}

/// What writing gave, or the message of the error.
pub open spec fn written(r: Result<String, String>) -> Result<Seq<char>, Seq<char>> {
    match r {
        Ok(s) => Ok(s@),
        Err(e) => Err(e@),
    }
}

/// The outcome of a reading that gives `v`.
pub open spec fn accepted(v: JsonView) -> Result<JsonView, Seq<char>> {
    Ok(v)
}

/// Wherever `text` is an escaped text between quotes, `read` is that text, or an error if the text
/// holds a control character other than a line feed.
pub open spec fn reads_quoted(text: Seq<char>, read: Result<JsonView, Seq<char>>) -> bool {
    forall|s: Seq<char>|
        #![trigger quoted(escaped(s))]
        text == quoted(escaped(s)) ==> if quotable(s) {
            read == accepted(JsonView::Text(s))
        } else {
            read is Err
        }
}

/// The text is one from which `v` is read back, where `v` is not too deep and its keys are
/// ordinary; that of an object stands between braces.
pub open spec fn reads_back(v: JsonView, text: Seq<char>) -> bool {
    &&& modest(v, DEPTH as nat) ==> json_document(text) == accepted(v)
    &&& v is Object ==> text.len() >= 2 && text[0] == '{' && text.last() == '}'
}

/// Wherever `text` is an object of two string members with ordinary keys, written without white
/// space in ascending order of the keys and with everything between quotes escaped, `read` is that
/// object.
pub open spec fn reads_pairs(text: Seq<char>, read: Result<JsonView, Seq<char>>) -> bool {
    forall|k1: Seq<char>, t1: Seq<char>, k2: Seq<char>, t2: Seq<char>|
        #![trigger pair_text(escaped(k1), escaped(t1), escaped(k2), escaped(t2))]
        ordinary(k1) && ordinary(k2) && quotable(k1) && quotable(t1) && quotable(k2) && quotable(t2)
            && order::precedes(k1, k2) && text == pair_text(
            escaped(k1),
            escaped(t1),
            escaped(k2),
            escaped(t2),
        ) ==> read == accepted(
            JsonView::Object(seq![(k1, JsonView::Text(t1)), (k2, JsonView::Text(t2))]),
        )
}

/// `serde_json::from_str` into a `serde_json::Value`: the result depends on the text alone. An
/// object of two string members with ordinary keys, written without white space in ascending
/// order of the keys, with its texts escaped, is read as that object. An escaped text between
/// quotes is read as that text; one with a control character left in it is refused.
#[verifier::external_body]
fn read_value(text: &str) -> (r: Result<serde_json::Value, String>)
    ensures
        value_read(r) == json_document(text@),
        reads_pairs(text@, value_read(r)),
        reads_quoted(text@, value_read(r)),
{
    match serde_json::from_str::<serde_json::Value>(text) {
        Ok(v) => Ok(v),
        Err(e) => Err(e.to_string()),
    }
}

/// Takes a `serde_json::Value` apart by its variants: numbers by `Number::to_string` and
/// `Number::as_u64`, the members of an object as its sorted map yields them.
#[verifier::external_body]
fn open_value(v: serde_json::Value) -> (r: JsonNode)
    ensures
        node_contents(r) == value_contents(v),
{
    match v {
        serde_json::Value::Null => JsonNode::Null,
        serde_json::Value::Bool(b) => JsonNode::Bool(b),
        serde_json::Value::Number(n) => JsonNode::Number(
            JsonNumber { text: n.to_string(), unsigned: n.as_u64() },
        ),
        serde_json::Value::String(s) => JsonNode::Text(s),
        serde_json::Value::Array(items) => JsonNode::Array(items),
        serde_json::Value::Object(members) => JsonNode::Object(members.into_iter().collect()),
    }
}

/// `serde_json::Value::String` holds the text.
#[verifier::external_body]
pub(crate) fn value_of_text(s: &str) -> (r: serde_json::Value)
    ensures
        value_contents(r) == JsonView::Text(s@),
{
    serde_json::Value::String(s.to_string())
}

/// `serde_json::Value::Bool` holds the truth value.
#[verifier::external_body]
pub(crate) fn value_of_bool(b: bool) -> (r: serde_json::Value)
    ensures
        value_contents(r) == JsonView::Bool(b),
{
    serde_json::Value::Bool(b)
}

/// `serde_json::Value::from` holds the number, whose text is its decimal form.
#[verifier::external_body]
pub(crate) fn value_of_number(n: u64) -> (r: serde_json::Value)
    ensures
        value_contents(r) == JsonView::Number(numerals::decimal(n as nat), Some(n)),
{
    serde_json::Value::from(n)
}

/// `serde_json::Value::Object` holds the members, which its map keeps in ascending order of their
/// keys.
#[verifier::external_body]
pub(crate) fn value_of_members(members: Vec<(String, serde_json::Value)>) -> (r: serde_json::Value)
    requires
        ascending(members_contents(members@)),
    ensures
        value_contents(r) == JsonView::Object(members_contents(members@)),
{
    serde_json::Value::Object(members.into_iter().collect())
}

/// `serde_json::Value::to_string`: the compact text depends on the contents alone. A value that is
/// not too deep, with ordinary keys and without fractions, is read back from it unchanged, and
/// that of an object stands between braces.
#[verifier::external_body]
pub(crate) fn compact_text(v: &serde_json::Value) -> (r: String)
    ensures
        r@ == json_compact(value_contents(*v)),
        reads_back(value_contents(*v), r@),
{
    v.to_string()
}

/// `serde_json::to_string_pretty`: the indented text depends on the contents alone.
#[verifier::external_body]
pub(crate) fn pretty_text(v: &serde_json::Value) -> (r: Result<String, String>)
    ensures
        written(r) == json_pretty(value_contents(*v)),
{
    match serde_json::to_string_pretty(v) {
        Ok(s) => Ok(s),
        Err(e) => Err(e.to_string()),
    }
}

/// The plain data that a value of the JSON crate holds.
fn json_of(v: serde_json::Value) -> (r: Json)
    ensures
        r@ == value_contents(v),
    decreases value_contents(v),
{
    match open_value(v) {
        JsonNode::Null => Json::Null,
        JsonNode::Bool(b) => Json::Bool(b),
        JsonNode::Number(n) => Json::Number(n),
        JsonNode::Text(s) => Json::Text(s),
        JsonNode::Array(items) => {
            let ghost all = items@;
            let mut out: Vec<Json> = Vec::new();
            for item in it: items
                invariant
                    it.seq() == all,
                    value_contents(v) == JsonView::Array(
                        Seq::new(all.len(), |i: int| value_contents(all[i])),
                    ),
                    out@.len() == it.index(),
                    forall|j: int|
                        0 <= j < out@.len() ==> (#[trigger] out@[j])@ == value_contents(all[j]),
            {
                let ghost n = it.index();
                proof {
                    let children = value_contents(v)->Array_0;
                    assert(children[n] == value_contents(all[n]));
                    assert(decreases_to!(value_contents(v) => children));
                    assert(decreases_to!(children => children[n]));
                }
                out.push(json_of(item));
            }
            let r = Json::Array(out);
            assert(r@->Array_0 =~= value_contents(v)->Array_0);
            r
        },
        JsonNode::Object(members) => {
            let ghost all = members@;
            let mut out: Vec<(String, Json)> = Vec::new();
            for member in it: members
                invariant
                    it.seq() == all,
                    value_contents(v) == JsonView::Object(members_contents(all)),
                    out@.len() == it.index(),
                    forall|j: int|
                        0 <= j < out@.len() ==> (#[trigger] out@[j]).0@ == all[j].0@ && out@[j].1@
                            == value_contents(all[j].1),
            {
                let ghost n = it.index();
                proof {
                    let children = value_contents(v)->Object_0;
                    assert(children[n] == (all[n].0@, value_contents(all[n].1)));
                    assert(decreases_to!(value_contents(v) => children));
                    assert(decreases_to!(children => children[n]));
                    assert(decreases_to!(children[n] => children[n].1));
                }
                let (key, value) = member;
                out.push((key, json_of(value)));
            }
            let r = Json::Object(out);
            assert(r@->Object_0 =~= value_contents(v)->Object_0);
            r
        },
    }
}

/// Reads a JSON text: its value, or the reader's message.
pub fn parse_json(text: &str) -> (r: Result<Json, String>)
    ensures
        json_read(r) == json_document(text@),
        reads_pairs(text@, json_document(text@)),
        reads_quoted(text@, json_document(text@)),
{
    match read_value(text) {
        Ok(v) => Ok(json_of(v)),
        Err(e) => Err(e),
    }
}

} // verus!
