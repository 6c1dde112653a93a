//! The searchable memory: where it lies, how it is asked, and how lexical and vector hits become
//! one ranked list.

use vstd::prelude::*;

use crate::entries::{HitView, MemorySearchHit};
use crate::ranking;
use crate::{entries, numerals, paths, question, search, text};

verus! {

// ---------------------------------------------------------------------------------------
// Where things lie

/// The path of a file in a directory under `basedir`.
pub open spec fn under(basedir: Seq<char>, dir: Seq<char>, name: Seq<char>) -> Seq<char> {
    paths::joined(paths::joined(basedir, dir), name)
}

/// The path of a file in a directory under `basedir`.
pub fn path_under(basedir: &str, dir: &str, name: &str) -> (r: String)
    ensures
        r@ == under(basedir@, dir@, name@),
{
    let d = paths::join(basedir, dir);
    paths::join(d.as_str(), name)
}

/// The directory of the lexical index.
pub fn index_dir(basedir: &str) -> (r: String)
    ensures
        r@ == under(basedir@, "memory"@, "tantivy"@),
{
    path_under(basedir, "memory", "tantivy")
}

/// The file of the vector index.
pub fn vector_index_path(basedir: &str) -> (r: String)
    ensures
        r@ == under(basedir@, "memory"@, "vector_index.json"@),
{
    path_under(basedir, "memory", "vector_index.json")
}

/// The database of the vector index.
pub fn sqlite_vec_path(basedir: &str) -> (r: String)
    ensures
        r@ == under(basedir@, "memory"@, "sqlite_vec.db"@),
{
    path_under(basedir, "memory", "sqlite_vec.db")
}

/// The file that holds the state of the indexer.
pub fn state_path(basedir: &str) -> (r: String)
    ensures
        r@ == under(basedir@, "state"@, "indexer_state.json"@),
{
    path_under(basedir, "state", "indexer_state.json")
}

/// The file that locks the indexer.
pub fn lock_path(basedir: &str) -> (r: String)
    ensures
        r@ == under(basedir@, "state"@, "indexer.lock"@),
{
    path_under(basedir, "state", "indexer.lock")
}

/// The texts to embed, and the directory that caches the model.
pub struct EmbeddingJob {
    pub cache_dir: String,
    pub inputs: Vec<String>,
}

/// The job that makes the embedding model ready: one short text.
pub fn warmup_embeddings(basedir: &str) -> (r: EmbeddingJob)
    ensures
        r.cache_dir@ == under(basedir@, "models"@, "fastembed"@),
        text::texts(r.inputs@) == seq!["warmup"@],
{
    let cache_dir = path_under(basedir, "models", "fastembed");
    let mut inputs: Vec<String> = Vec::new();
    inputs.push("warmup".to_string());
    assert(text::texts(inputs@) =~= seq!["warmup"@]);
    EmbeddingJob { cache_dir, inputs }
}

/// What is embedded for a list of entries.
pub open spec fn embedded(docs: Seq<HitView>) -> Seq<Seq<char>> {
    docs.map_values(|h: HitView| h.content)
}

/// The job that embeds the contents of a list of entries.
pub fn embedding_job(basedir: &str, docs: &Vec<MemorySearchHit>) -> (r: EmbeddingJob)
    ensures
        r.cache_dir@ == under(basedir@, "models"@, "fastembed"@),
        text::texts(r.inputs@) == Seq::new(docs@.len(), |i: int| docs@[i]@.content),
        text::texts(r.inputs@) == embedded(entries::hits_view(docs@)),
{
    let cache_dir = path_under(basedir, "models", "fastembed");
    let mut inputs: Vec<String> = Vec::new();
    let mut i: usize = 0;
    while i < docs.len()
        invariant
            i <= docs@.len(),
            inputs@.len() == i,
            forall|j: int| 0 <= j < i ==> (#[trigger] inputs@[j])@ == docs@[j]@.content,
        decreases docs@.len() - i,
    {
        inputs.push(docs[i].content.clone());
        i += 1;
    }
    assert(text::texts(inputs@) =~= Seq::new(docs@.len(), |i: int| docs@[i]@.content));
    assert(text::texts(inputs@) =~= embedded(entries::hits_view(docs@)));
    EmbeddingJob { cache_dir, inputs }
}

/// A setting that switches something on.
pub open spec fn switched_on(value: Option<Seq<char>>) -> bool {
    value matches Some(v) && (v == "1"@ || v == "true"@ || v == "TRUE"@ || v == "yes"@ || v
        == "on"@)
}

/// Does the setting switch something on? An absent one does not.
pub fn is_switched_on(value: &Option<String>) -> (r: bool)
    ensures
        r == switched_on(text::opt(*value)),
{
    match value {
        None => false,
        Some(v) => text::same(v.as_str(), "1") || text::same(v.as_str(), "true") || text::same(
            v.as_str(),
            "TRUE",
        ) || text::same(v.as_str(), "yes") || text::same(v.as_str(), "on"),
    }
}

/// Is the vector index on, by the value of its variable?
pub fn vector_enabled(variable: &Option<String>) -> (r: bool)
    ensures
        r == switched_on(text::opt(*variable)),
{
    is_switched_on(variable)
}

// ---------------------------------------------------------------------------------------
// The schema of the lexical index

/// What the index keeps of the words of a text field.
pub enum Record {
    /// The entries that hold each word.
    Presence,
    /// The entries that hold each word, how often and where.
    Positions,
}

/// How a field of the index is searched. Every field is stored, and every number can be read fast.
pub enum FieldKind {
    /// Text, cut into words by the tokenizer of this name.
    Text { tokenizer: Seq<char>, record: Record },
    /// A signed number.
    Signed,
    /// An unsigned number.
    Unsigned,
}

/// Text that is matched as a whole.
pub open spec fn whole_text() -> FieldKind {
    FieldKind::Text { tokenizer: "raw"@, record: Record::Presence }
}

/// Text that is matched by its words.
pub open spec fn worded_text() -> FieldKind {
    FieldKind::Text { tokenizer: "default"@, record: Record::Positions }
}

/// The fields of the index with their kinds.
pub open spec fn index_fields() -> Seq<(Seq<char>, FieldKind)> {
    seq![
        ("id"@, whole_text()),
        ("ts"@, whole_text()),
        ("ts_epoch"@, FieldKind::Signed),
        ("role"@, whole_text()),
        ("session_id"@, whole_text()),
        ("source_type"@, whole_text()),
        ("content"@, worded_text()),
        ("source_file"@, whole_text()),
        ("source_line"@, FieldKind::Unsigned),
        ("mention_count"@, FieldKind::Unsigned),
    ]
}

/// A schema of the search crate.
#[verifier::external_type_specification]
#[verifier::external_body]
pub struct ExSchema(tantivy::schema::Schema);

/// The fields of a schema: the number of each, by its name.
pub uninterp spec fn schema_fields(schema: tantivy::schema::Schema) -> Map<Seq<char>, u32>;

/// The fields that a schema declares, in order.
pub uninterp spec fn schema_layout(schema: tantivy::schema::Schema) -> Seq<(Seq<char>, FieldKind)>;

/// A schema of the search crate that is being made.
#[verifier::external_type_specification]
#[verifier::external_body]
pub struct ExSchemaBuilder(tantivy::schema::SchemaBuilder);

/// The fields that a schema in the making declares so far, in order.
pub uninterp spec fn builder_fields(builder: tantivy::schema::SchemaBuilder) -> Seq<
    (Seq<char>, FieldKind),
>;

/// A schema may take one more field of this name: the name is not empty, does not begin with a
/// hyphen and is not taken, and the fields can still be numbered.
pub open spec fn takes_field(fields: Seq<(Seq<char>, FieldKind)>, name: Seq<char>) -> bool {
    &&& name.len() > 0
    &&& name[0] != '-'
    &&& fields.len() < u32::MAX
    &&& forall|i: int| 0 <= i < fields.len() ==> (#[trigger] fields[i]).0 != name
}

/// A text field with its name.
pub open spec fn text_field(name: Seq<char>, tokenizer: Seq<char>, record: Record) -> (
    Seq<char>,
    FieldKind,
) {
    (name, FieldKind::Text { tokenizer, record })
}

/// The number of each field, by its name, where the fields are numbered from zero.
pub open spec fn numbered(fields: Seq<(Seq<char>, FieldKind)>) -> Map<Seq<char>, u32>
    decreases fields.len(),
{
    if fields.len() == 0 {
        Map::empty()
    } else {
        numbered(fields.drop_last()).insert(fields.last().0, (fields.len() - 1) as u32)
    }
}

/// `tantivy::schema::Schema::builder`: nothing is declared at first.
#[verifier::external_body]
fn new_schema_builder() -> (r: tantivy::schema::SchemaBuilder)
    ensures
        builder_fields(r) == Seq::<(Seq<char>, FieldKind)>::empty(),
{
    tantivy::schema::Schema::builder()
}

/// `tantivy::schema::SchemaBuilder::add_text_field` with a stored field: it is declared behind the
/// others.
#[verifier::external_body]
fn add_text_field(
    builder: &mut tantivy::schema::SchemaBuilder,
    name: &str,
    tokenizer: &str,
    record: Record,
)
    requires
        takes_field(builder_fields(*old(builder)), name@),
    ensures
        builder_fields(*final(builder)) == builder_fields(*old(builder)).push(
            text_field(name@, tokenizer@, record),
        ),
{
    let kept = match record {
        Record::Presence => tantivy::schema::IndexRecordOption::Basic,
        Record::Positions => tantivy::schema::IndexRecordOption::WithFreqsAndPositions,
    };
    let words = tantivy::schema::TextFieldIndexing::default();
    let words = words.set_tokenizer(tokenizer).set_index_option(kept);
    let options = tantivy::schema::TextOptions::default().set_stored().set_indexing_options(words);
    builder.add_text_field(name, options);
}

/// `tantivy::schema::SchemaBuilder::add_i64_field` with a stored and fast field: it is declared
/// behind the others.
#[verifier::external_body]
fn add_signed_field(builder: &mut tantivy::schema::SchemaBuilder, name: &str)
    requires
        takes_field(builder_fields(*old(builder)), name@),
    ensures
        builder_fields(*final(builder)) == builder_fields(*old(builder)).push(
            (name@, FieldKind::Signed),
        ),
{
    builder.add_i64_field(name, tantivy::schema::NumericOptions::default().set_stored().set_fast());
}

/// `tantivy::schema::SchemaBuilder::add_u64_field` with a stored and fast field: it is declared
/// behind the others.
#[verifier::external_body]
fn add_unsigned_field(builder: &mut tantivy::schema::SchemaBuilder, name: &str)
    requires
        takes_field(builder_fields(*old(builder)), name@),
    ensures
        builder_fields(*final(builder)) == builder_fields(*old(builder)).push(
            (name@, FieldKind::Unsigned),
        ),
{
    builder.add_u64_field(name, tantivy::schema::NumericOptions::default().set_stored().set_fast());
}

/// `tantivy::schema::SchemaBuilder::build`: the schema has the fields that were declared, numbered
/// from zero in that order.
#[verifier::external_body]
fn finish_schema(builder: tantivy::schema::SchemaBuilder) -> (r: tantivy::schema::Schema)
    ensures
        schema_layout(r) == builder_fields(builder),
        schema_fields(r) == numbered(builder_fields(builder)),
{
    builder.build()
}

proof fn lemma_names_of_fields()
    ensures
        forall|i: int|
            0 <= i < index_fields().len() ==> takes_field(
                index_fields().take(i),
                (#[trigger] index_fields()[i]).0,
            ),
{
    reveal_strlit("id");
    reveal_strlit("ts");
    reveal_strlit("ts_epoch");
    reveal_strlit("role");
    reveal_strlit("session_id");
    reveal_strlit("source_type");
    reveal_strlit("content");
    reveal_strlit("source_file");
    reveal_strlit("source_line");
    reveal_strlit("mention_count");
    assert("id"@.len() == 2 && "ts"@.len() == 2 && "ts_epoch"@.len() == 8 && "role"@.len() == 4);
    assert("session_id"@.len() == 10 && "content"@.len() == 7 && "mention_count"@.len() == 13);
    assert("source_type"@.len() == 11 && "source_file"@.len() == 11 && "source_line"@.len() == 11);
    assert("id"@[0] == 'i' && "ts"@[0] == 't');
    assert("source_type"@[7] == 't' && "source_file"@[7] == 'f' && "source_line"@[7] == 'l');
    assert("ts_epoch"@[0] == 't' && "role"@[0] == 'r' && "session_id"@[0] == 's');
    assert("content"@[0] == 'c' && "mention_count"@[0] == 'm' && "source_type"@[0] == 's');
    assert("source_file"@[0] == 's' && "source_line"@[0] == 's');
}

/// The schema of the index.
pub fn build_schema() -> (r: tantivy::schema::Schema)
    ensures
        schema_layout(r) == index_fields(),
        schema_fields(r) == numbered(index_fields()),
        first_missing(schema_fields(r), 0) == index_fields().len(),
{
    let ghost all = index_fields();
    proof {
        lemma_names_of_fields();
        assert(all.take(0) =~= Seq::empty());
        assert forall|i: int| 0 <= i < all.len() implies #[trigger] all.take(i).push(all[i])
            == all.take(i + 1) by {
            assert(all.take(i).push(all[i]) =~= all.take(i + 1));
        }
        assert(all.take(10) =~= all);
    }
    let mut builder = new_schema_builder();
    add_text_field(&mut builder, "id", "raw", Record::Presence);
    assert(builder_fields(builder) == all.take(0).push(all[0]));
    add_text_field(&mut builder, "ts", "raw", Record::Presence);
    assert(builder_fields(builder) == all.take(1).push(all[1]));
    add_signed_field(&mut builder, "ts_epoch");
    assert(builder_fields(builder) == all.take(2).push(all[2]));
    add_text_field(&mut builder, "role", "raw", Record::Presence);
    assert(builder_fields(builder) == all.take(3).push(all[3]));
    add_text_field(&mut builder, "session_id", "raw", Record::Presence);
    assert(builder_fields(builder) == all.take(4).push(all[4]));
    add_text_field(&mut builder, "source_type", "raw", Record::Presence);
    assert(builder_fields(builder) == all.take(5).push(all[5]));
    add_text_field(&mut builder, "content", "default", Record::Positions);
    assert(builder_fields(builder) == all.take(6).push(all[6]));
    add_text_field(&mut builder, "source_file", "raw", Record::Presence);
    assert(builder_fields(builder) == all.take(7).push(all[7]));
    add_unsigned_field(&mut builder, "source_line");
    assert(builder_fields(builder) == all.take(8).push(all[8]));
    add_unsigned_field(&mut builder, "mention_count");
    assert(builder_fields(builder) == all.take(9).push(all[9]));
    proof {
        lemma_every_field_is_numbered(all);
        reveal_with_fuel(first_missing, 11);
    }
    finish_schema(builder)
}

proof fn lemma_every_field_is_numbered(fields: Seq<(Seq<char>, FieldKind)>)
    ensures
        forall|i: int|
            0 <= i < fields.len() ==> numbered(fields).dom().contains((#[trigger] fields[i]).0),
    decreases fields.len(),
{
    if fields.len() > 0 {
        let front = fields.drop_last();
        lemma_every_field_is_numbered(front);
        assert forall|i: int| 0 <= i < fields.len() implies numbered(fields).dom().contains(
            (#[trigger] fields[i]).0,
        ) by {
            if i < front.len() {
                assert(front[i] == fields[i]);
            }
        }
    }
}

/// The number that a map holds for a name, if it holds one.
pub open spec fn number_of(fields: Map<Seq<char>, u32>, name: Seq<char>) -> Option<u32> {
    if fields.dom().contains(name) {
        Some(fields[name])
    } else {
        None
    }
}

/// `tantivy::schema::Schema::get_field`: the number of the field with this name, if the schema
/// has one.
#[verifier::external_body]
fn field_number(schema: &tantivy::schema::Schema, name: &str) -> (r: Option<u32>)
    ensures
        r == number_of(schema_fields(*schema), name@),
{
    match schema.get_field(name) {
        Ok(field) => Some(field.field_id()),
        Err(_) => None,
    }
}

/// The numbers of the fields of the index.
pub struct Fields {
    pub id: u32,
    pub ts: u32,
    pub ts_epoch: u32,
    pub role: u32,
    pub session_id: u32,
    pub source_type: u32,
    pub content: u32,
    pub source_file: u32,
    pub source_line: u32,
    pub mention_count: u32,
}

/// How an index that lacks a field is reported.
pub open spec fn field_missing(name: Seq<char>) -> Seq<char> {
    "champ '"@ + name + "' absent du schema Tantivy"@
}

/// The number of a field, or the report that it is missing.
pub open spec fn field_of(fields: Map<Seq<char>, u32>, name: Seq<char>) -> Result<u32, Seq<char>> {
    match number_of(fields, name) {
        Some(n) => Ok(n),
        None => Err(field_missing(name)),
    }
}

/// The first of the index's fields that `fields` lacks, as its position; their number if it lacks
/// none.
pub open spec fn first_missing(fields: Map<Seq<char>, u32>, from: int) -> int
    decreases index_fields().len() - from,
{
    if from < 0 || from >= index_fields().len() {
        index_fields().len() as int
    } else if !fields.dom().contains(index_fields()[from].0) {
        from
    } else {
        first_missing(fields, from + 1)
    }
}

/// The fields are those that a map of numbers gives.
pub open spec fn agree(f: Fields, fields: Map<Seq<char>, u32>) -> bool {
    &&& f.id == fields["id"@]
    &&& f.ts == fields["ts"@]
    &&& f.ts_epoch == fields["ts_epoch"@]
    &&& f.role == fields["role"@]
    &&& f.session_id == fields["session_id"@]
    &&& f.source_type == fields["source_type"@]
    &&& f.content == fields["content"@]
    &&& f.source_file == fields["source_file"@]
    &&& f.source_line == fields["source_line"@]
    &&& f.mention_count == fields["mention_count"@]
}

/// The number of a field, or the report that it is missing.
fn require_field(schema: &tantivy::schema::Schema, name: &str) -> (r: Result<u32, String>)
    ensures
        match field_of(schema_fields(*schema), name@) {
            Ok(n) => r == Ok::<u32, String>(n),
            Err(e) => r is Err && r->Err_0@ == e,
        },
{
    match field_number(schema, name) {
        Some(n) => Ok(n),
        None => {
            let mut e = "champ '".to_string();
            e.append(name);
            e.append("' absent du schema Tantivy");
            Err(e)
        },
    }
}

/// The numbers of the index's fields in a schema, or the report of the first that it lacks.
pub fn fields_from_schema(schema: &tantivy::schema::Schema) -> (r: Result<Fields, String>)
    ensures
        r is Ok <==> first_missing(schema_fields(*schema), 0) == index_fields().len(),
        r is Ok ==> agree(r->Ok_0, schema_fields(*schema)),
        r is Err ==> r->Err_0@ == field_missing(
            index_fields()[first_missing(schema_fields(*schema), 0)].0,
        ),
{
    proof {
        reveal_with_fuel(first_missing, 11);
    }
    let id = require_field(schema, "id")?;
    let ts = require_field(schema, "ts")?;
    let ts_epoch = require_field(schema, "ts_epoch")?;
    let role = require_field(schema, "role")?;
    let session_id = require_field(schema, "session_id")?;
    let source_type = require_field(schema, "source_type")?;
    let content = require_field(schema, "content")?;
    let source_file = require_field(schema, "source_file")?;
    let source_line = require_field(schema, "source_line")?;
    let mention_count = require_field(schema, "mention_count")?;
    Ok(
        Fields {
            id,
            ts,
            ts_epoch,
            role,
            session_id,
            source_type,
            content,
            source_file,
            source_line,
            mention_count,
        },
    )
}

/// What to do about the index on disk.
pub enum IndexStep {
    /// Use it as it is.
    Use,
    /// Remove it and create a new one: its schema is another one.
    Recreate,
    /// Create it.
    Create,
}

/// What to do about the index on disk, by the fields that opening it gave.
pub open spec fn step_for(fields: Option<Map<Seq<char>, u32>>) -> IndexStep {
    match fields {
        None => IndexStep::Create,
        Some(fields) => if first_missing(fields, 0) == index_fields().len() {
            IndexStep::Use
        } else {
            IndexStep::Recreate
        },
    }
}

/// What to do about the index on disk, by the schema that opening it gave.
pub fn open_or_create(opened: &Option<tantivy::schema::Schema>) -> (r: IndexStep)
    ensures
        r == match *opened {
            None => IndexStep::Create,
            Some(schema) => if first_missing(schema_fields(schema), 0) == index_fields().len() {
                IndexStep::Use
            } else {
                IndexStep::Recreate
            },
        },
        *opened is None ==> r == step_for(None),
        *opened matches Some(schema) ==> r == step_for(Some(schema_fields(schema))),
{
    match opened {
        None => IndexStep::Create,
        Some(schema) => match fields_from_schema(schema) {
            Ok(_) => IndexStep::Use,
            Err(_) => IndexStep::Recreate,
        },
    }
}

/// What a document of the index holds for each field, where it holds something of the right type.
pub struct StoredDoc {
    pub id: Option<String>,
    pub ts: Option<String>,
    pub role: Option<String>,
    pub session_id: Option<String>,
    pub source_type: Option<String>,
    pub source_file: Option<String>,
    pub source_line: Option<u64>,
    pub mention_count: Option<u64>,
    pub ts_epoch: Option<i64>,
    pub content: Option<String>,
}

/// A text, or what stands for it where there is none.
pub open spec fn text_or(s: Option<String>, default: Seq<char>) -> Seq<char> {
    match s {
        Some(s) => s@,
        None => default,
    }
}

/// The entry that a document holds.
pub open spec fn hit_of(doc: StoredDoc, now: i64) -> HitView {
    HitView {
        id: text_or(doc.id, "?"@),
        ts: text_or(doc.ts, "?"@),
        role: text_or(doc.role, "?"@),
        session_id: text_or(doc.session_id, "?"@),
        source_type: text_or(doc.source_type, "?"@),
        source_file: text_or(doc.source_file, "?"@),
        source_line: match doc.source_line {
            Some(n) => n as int,
            None => 0,
        },
        mention_count: match doc.mention_count {
            Some(n) => n as int,
            None => 1,
        },
        ts_epoch: match doc.ts_epoch {
            Some(t) => t as int,
            None => now as int,
        },
        content: text_or(doc.content, ""@),
    }
}

/// A text, or what stands for it where there is none.
fn unwrap_text(s: Option<String>, default: &str) -> (r: String)
    ensures
        r@ == text_or(s, default@),
{
    match s {
        Some(s) => s,
        None => default.to_string(),
    }
}

/// The entry that a document holds.
pub fn doc_to_hit(doc: StoredDoc, now: i64) -> (r: MemorySearchHit)
    ensures
        r@ == hit_of(doc, now),
{
    let source_line: u64 = match doc.source_line {
        Some(n) => n,
        None => 0,
    };
    let mention_count: u64 = match doc.mention_count {
        Some(n) => n,
        None => 1,
    };
    let ts_epoch: i64 = match doc.ts_epoch {
        Some(t) => t,
        None => now,
    };
    MemorySearchHit {
        id: unwrap_text(doc.id, "?"),
        ts: unwrap_text(doc.ts, "?"),
        role: unwrap_text(doc.role, "?"),
        session_id: unwrap_text(doc.session_id, "?"),
        source_type: unwrap_text(doc.source_type, "?"),
        source_file: unwrap_text(doc.source_file, "?"),
        source_line,
        mention_count,
        ts_epoch,
        content: unwrap_text(doc.content, ""),
    }
}

// ---------------------------------------------------------------------------------------
// The question

/// How many rows a search gives, and whether it looks at old transcripts.
pub struct MemorySearchOptions {
    pub limit: usize,
    pub archive: bool,
}

/// How a part of a question binds.
pub enum Presence {
    Must,
    MustNot,
}

/// A question to the index, ready to be put to it.
#[verifier::external_body]
pub struct IndexQuery {
    pub inner: Box<dyn tantivy::query::Query>,
}

/// What a question to the index is made of.
pub enum QueryView {
    /// Read from a text for an index of this schema. The text is looked for in the numbered
    /// fields, where it names no other.
    Read { schema: tantivy::schema::Schema, searched: Seq<u32>, text: Seq<char> },
    /// Met by every entry.
    All,
    /// Met by the entries whose field of this number holds this word.
    Term { field: u32, text: Seq<char> },
    /// Met by the entries that meet each part that must be met, and none that must not.
    Each(Seq<(Presence, QueryView)>),
}

/// What a question to the index is made of.
pub uninterp spec fn query_contents(query: IndexQuery) -> QueryView;

/// What a list of parts holds.
pub open spec fn parts_view(v: Seq<(Presence, IndexQuery)>) -> Seq<(Presence, QueryView)> {
    Seq::new(v.len(), |i: int| (v[i].0, query_contents(v[i].1)))
}

/// A schema has a field of this number.
pub open spec fn has_field(schema: tantivy::schema::Schema, number: u32) -> bool {
    exists|name: Seq<char>| number_of(schema_fields(schema), name) == Some(number)
}

/// What a text asks of an index, looked for in two fields unless it names another.
pub open spec fn question_read(
    schema: tantivy::schema::Schema,
    first: u32,
    second: u32,
    text: Seq<char>,
) -> QueryView {
    QueryView::Read { schema, searched: seq![first, second], text }
}

/// `tantivy::query::QueryParser::parse_query_lenient`, with the standard tokenizers: the question
/// is read from the text for the schema and the two fields. Which entries it then finds is left
/// unsaid. The fields must be some of the schema's, and the text one on which the parser comes to
/// an end without nesting too deep.
#[verifier::external_body]
fn read_query(schema: &tantivy::schema::Schema, first: u32, second: u32, text: &str) -> (r:
    IndexQuery)
    requires
        has_field(*schema, first),
        has_field(*schema, second),
        question::readable(text@),
    ensures
        query_contents(r) == question_read(*schema, first, second, text@),
{
    let searched = [first, second].map(tantivy::schema::Field::from_field_id).to_vec();
    let words = tantivy::tokenizer::TokenizerManager::default();
    let parser = tantivy::query::QueryParser::new(schema.clone(), searched, words);
    IndexQuery { inner: parser.parse_query_lenient(text).0 }
}

/// `tantivy::query::AllQuery`: every entry meets it.
#[verifier::external_body]
fn match_all() -> (r: IndexQuery)
    ensures
        query_contents(r) == QueryView::All,
{
    IndexQuery { inner: Box::new(tantivy::query::AllQuery) }
}

/// A word in a field.
pub open spec fn word_in(field: u32, text: Seq<char>) -> QueryView {
    QueryView::Term { field, text }
}

/// `tantivy::query::TermQuery::new`, on `tantivy::Term::from_field_text`: the entries whose field
/// of this number holds this word meet it.
#[verifier::external_body]
fn match_term(field: u32, text: &str) -> (r: IndexQuery)
    ensures
        query_contents(r) == word_in(field, text@),
{
    let term = tantivy::Term::from_field_text(tantivy::schema::Field::from_field_id(field), text);
    let option = tantivy::schema::IndexRecordOption::Basic;
    IndexQuery { inner: Box::new(tantivy::query::TermQuery::new(term, option)) }
}

/// `tantivy::query::BooleanQuery::new`: the entries that meet each part that must be met, and
/// none that must not, meet it.
#[verifier::external_body]
fn match_each(parts: Vec<(Presence, IndexQuery)>) -> (r: IndexQuery)
    ensures
        query_contents(r) == QueryView::Each(parts_view(parts@)),
{
    let occur = |presence| match presence {
        Presence::Must => tantivy::query::Occur::Must,
        Presence::MustNot => tantivy::query::Occur::MustNot,
    };
    let parts = parts.into_iter().map(|(presence, query)| (occur(presence), query.inner)).collect();
    IndexQuery { inner: Box::new(tantivy::query::BooleanQuery::new(parts)) }
}

/// One condition on the entries that a search finds.
pub enum QueryClause {
    /// The text of the question matches.
    MatchesText(IndexQuery),
    /// Always met.
    MatchesAll,
    /// The entry is of another sort than this.
    NotOfSort(String),
    /// The entry is from another session than this.
    NotFromSession(String),
}

/// What a condition holds.
pub enum ClauseView {
    MatchesText(QueryView),
    MatchesAll,
    NotOfSort(Seq<char>),
    NotFromSession(Seq<char>),
}

impl View for QueryClause {
    type V = ClauseView;

    open spec fn view(&self) -> ClauseView {
        match *self {
            QueryClause::MatchesText(query) => ClauseView::MatchesText(query_contents(query)),
            QueryClause::MatchesAll => ClauseView::MatchesAll,
            QueryClause::NotOfSort(s) => ClauseView::NotOfSort(s@),
            QueryClause::NotFromSession(s) => ClauseView::NotFromSession(s@),
        }
    }
}

/// What a list of conditions holds.
pub open spec fn clauses_view(v: Seq<QueryClause>) -> Seq<ClauseView> {
    Seq::new(v.len(), |i: int| v[i]@)
}

/// The conditions of a search: with the archive, the text alone; else neither old transcripts nor
/// the current session.
pub open spec fn clauses_of(
    asked: QueryView,
    archive: bool,
    session: Option<Seq<char>>,
) -> Seq<ClauseView> {
    if archive {
        seq![ClauseView::MatchesText(asked)]
    } else {
        let common = seq![
            ClauseView::MatchesText(asked),
            ClauseView::MatchesAll,
            ClauseView::NotOfSort("transcript_archive"@),
        ];
        match session {
            Some(id) => common.push(ClauseView::NotFromSession(id)),
            None => common,
        }
    }
}

/// The fields are those of a schema that has them all.
pub open spec fn fields_of(fields: Fields, schema: tantivy::schema::Schema) -> bool {
    &&& first_missing(schema_fields(schema), 0) == index_fields().len()
    &&& agree(fields, schema_fields(schema))
}

/// What a text asks of the index: it is looked for in the contents and in the roles.
pub open spec fn question_of(
    schema: tantivy::schema::Schema,
    fields: Fields,
    text: Seq<char>,
) -> QueryView {
    question_read(schema, fields.content, fields.role, text)
}

/// The conditions of a search for a text.
pub fn query_clauses(
    schema: &tantivy::schema::Schema,
    fields: &Fields,
    query: &str,
    archive: bool,
    current_session: Option<String>,
) -> (r: Vec<QueryClause>)
    requires
        fields_of(*fields, *schema),
        question::readable(query@),
    ensures
        clauses_view(r@) == clauses_of(
            question_of(*schema, *fields, query@),
            archive,
            text::opt(current_session),
        ),
{
    proof {
        reveal_with_fuel(first_missing, 11);
        let known = schema_fields(*schema);
        assert(number_of(known, "content"@) == Some(fields.content)) by {
            assert(index_fields()[6].0 == "content"@);
        }
        assert(number_of(known, "role"@) == Some(fields.role)) by {
            assert(index_fields()[3].0 == "role"@);
        }
    }
    let asked = read_query(schema, fields.content, fields.role, query);
    let ghost expected = clauses_of(query_contents(asked), archive, text::opt(current_session));
    let mut v: Vec<QueryClause> = Vec::new();
    v.push(QueryClause::MatchesText(asked));
    if !archive {
        v.push(QueryClause::MatchesAll);
        v.push(QueryClause::NotOfSort("transcript_archive".to_string()));
        match current_session {
            Some(id) => {
                v.push(QueryClause::NotFromSession(id));
            },
            None => {},
        }
    }
    assert(clauses_view(v@) =~= expected);
    v
}

/// The part of a question that stands for a condition.
pub open spec fn part_of(clause: ClauseView, fields: Fields) -> (Presence, QueryView) {
    match clause {
        ClauseView::MatchesText(asked) => (Presence::Must, asked),
        ClauseView::MatchesAll => (Presence::Must, QueryView::All),
        ClauseView::NotOfSort(sort) => (Presence::MustNot, word_in(fields.source_type, sort)),
        ClauseView::NotFromSession(id) => (Presence::MustNot, word_in(fields.session_id, id)),
    }
}

/// The question that a list of conditions makes.
pub open spec fn question_with(clauses: Seq<ClauseView>, fields: Fields) -> QueryView {
    QueryView::Each(Seq::new(clauses.len(), |i: int| part_of(clauses[i], fields)))
}

/// The question that a list of conditions makes.
pub fn join_clauses(clauses: Vec<QueryClause>, fields: &Fields) -> (r: IndexQuery)
    ensures
        query_contents(r) == question_with(clauses_view(clauses@), *fields),
{
    let ghost given = clauses@;
    let mut parts: Vec<(Presence, IndexQuery)> = Vec::new();
    for clause in it: clauses
        invariant
            it.seq() == given,
            parts@.len() == it.index(),
            forall|j: int|
                0 <= j < it.index() ==> ((#[trigger] parts@[j]).0, query_contents(parts@[j].1))
                    == part_of(given[j]@, *fields),
    {
        let part = match clause {
            QueryClause::MatchesText(asked) => (Presence::Must, asked),
            QueryClause::MatchesAll => (Presence::Must, match_all()),
            QueryClause::NotOfSort(sort) => {
                (Presence::MustNot, match_term(fields.source_type, sort.as_str()))
            },
            QueryClause::NotFromSession(id) => {
                (Presence::MustNot, match_term(fields.session_id, id.as_str()))
            },
        };
        parts.push(part);
    }
    assert(parts_view(parts@) =~= Seq::new(
        clauses_view(given).len(),
        |i: int| part_of(clauses_view(given)[i], *fields),
    ));
    match_each(parts)
}

/// The question that a search puts to the index.
pub fn search_query(
    schema: &tantivy::schema::Schema,
    fields: &Fields,
    query: &str,
    archive: bool,
    current_session: Option<String>,
) -> (r: IndexQuery)
    requires
        fields_of(*fields, *schema),
        question::readable(query@),
    ensures
        query_contents(r) == question_with(
            clauses_of(
                question_of(*schema, *fields, query@),
                archive,
                text::opt(current_session),
            ),
            *fields,
        ),
{
    let clauses = query_clauses(schema, fields, query, archive, current_session);
    join_clauses(clauses, fields)
}

/// The question that a search puts to an index of this schema; an error where the schema lacks a
/// field, or the text cannot be read.
pub fn ask_index(
    schema: &tantivy::schema::Schema,
    query: &str,
    archive: bool,
    current_session: Option<String>,
) -> (r: Result<IndexQuery, String>)
    ensures
        r is Ok <==> first_missing(schema_fields(*schema), 0) == index_fields().len()
            && question::readable(query@),
        r is Ok ==> forall|fields: Fields|
            agree(fields, schema_fields(*schema)) ==> query_contents(r->Ok_0)
                == #[trigger] question_with(
                clauses_of(
                    question_of(*schema, fields, query@),
                    archive,
                    text::opt(current_session),
                ),
                fields,
            ),
        r is Err ==> r->Err_0@ == if first_missing(schema_fields(*schema), 0)
            < index_fields().len() {
            field_missing(index_fields()[first_missing(schema_fields(*schema), 0)].0)
        } else {
            "requête illisible"@
        },
{
    proof {
        reveal_with_fuel(first_missing, 11);
    }
    match fields_from_schema(schema) {
        Err(e) => Err(e),
        Ok(fields) => {
            if !question::can_be_read(query) {
                return Err("requête illisible".to_string());
            }
            let asked = search_query(schema, &fields, query, archive, current_session);
            assert forall|other: Fields| agree(other, schema_fields(*schema)) implies other
                == fields by {}
            Ok(asked)
        },
    }
}

/// What finds one entry by its identity.
pub open spec fn asks_for_entry(fields: Fields, id: Seq<char>) -> QueryView {
    word_in(fields.id, id)
}

/// The question that finds one entry by its identity.
pub fn entry_query(fields: &Fields, id: &str) -> (r: IndexQuery)
    ensures
        query_contents(r) == word_in(fields.id, id@),
        query_contents(r) == asks_for_entry(*fields, id@),
{
    match_term(fields.id, id)
}

/// An entry meets a condition other than that on the text.
pub open spec fn meets(hit: HitView, clause: ClauseView) -> bool {
    match clause {
        ClauseView::NotOfSort(s) => hit.source_type != s,
        ClauseView::NotFromSession(id) => hit.session_id != id,
        _ => true,
    }
}

/// An entry meets every condition of a search other than that on the text.
pub open spec fn meets_all(hit: HitView, clauses: Seq<ClauseView>) -> bool {
    forall|i: int| 0 <= i < clauses.len() ==> meets(hit, #[trigger] clauses[i])
}

/// A search without the archive finds neither old transcripts nor entries of the current session;
/// one with the archive leaves nothing out.
pub proof fn law_search_leaves_out_the_current_session(
    hit: HitView,
    asked: QueryView,
    archive: bool,
    session: Option<Seq<char>>,
)
    ensures
        meets_all(hit, clauses_of(asked, archive, session)) <==> archive || (hit.source_type
            != "transcript_archive"@ && session != Some(hit.session_id)),
{
    let clauses = clauses_of(asked, archive, session);
    if !archive {
        assert(clauses[2] == ClauseView::NotOfSort("transcript_archive"@));
        if session is Some {
            assert(clauses[3] == ClauseView::NotFromSession(session->0));
        }
    }
}

/// The last of the lines that is not blank.
pub open spec fn last_filled(lines: Seq<Seq<char>>) -> Option<Seq<char>>
    decreases lines.len(),
{
    if lines.len() == 0 {
        None
    } else if text::trimmed(lines.last()).len() > 0 {
        Some(lines.last())
    } else {
        last_filled(lines.drop_last())
    }
}

/// The last of the lines that is not blank: in the latest transcript, it names the current
/// session.
pub fn last_filled_line(lines: &Vec<String>) -> (r: Option<String>)
    ensures
        text::opt(r) == last_filled(text::texts(lines@)),
{
    let ghost all = text::texts(lines@);
    let mut i: usize = lines.len();
    assert(all.take(all.len() as int) =~= all);
    while i > 0
        invariant
            i <= lines@.len(),
            all == text::texts(lines@),
            last_filled(all) == last_filled(all.take(i as int)),
        decreases i,
    {
        assert(all.take(i as int).last() == lines@[i - 1]@);
        assert(all.take(i as int).drop_last() =~= all.take(i - 1));
        if !text::is_blank(lines[i - 1].as_str()) {
            return Some(lines[i - 1].clone());
        }
        i -= 1;
    }
    None
}

/// At least one.
pub open spec fn at_least_one(n: nat) -> nat {
    if n == 0 {
        1
    } else {
        n
    }
}

/// At least one.
fn positive(n: usize) -> (r: usize)
    ensures
        r == at_least_one(n as nat),
{
    if n == 0 {
        1
    } else {
        n
    }
}

/// How many hits each index is asked for: ten for each row, at most 200.
pub open spec fn fetch_count(limit: nat) -> nat {
    if at_least_one(limit) * 10 < 200 {
        at_least_one(limit) * 10
    } else {
        200
    }
}

/// How many hits each index is asked for: ten for each row, at most 200.
pub fn fetch_limit(limit: usize) -> (r: usize)
    requires
        limit * 10 <= usize::MAX,
    ensures
        r == fetch_count(limit as nat),
        1 <= r <= 200,
{
    let n: usize = positive(limit) * 10;
    if n < 200 {
        n
    } else {
        200
    }
}

// ---------------------------------------------------------------------------------------
// Vector hits

/// An entry may be found: the archive is asked for, or it is no old transcript.
pub open spec fn admitted(hit: HitView, archive: bool) -> bool {
    archive || hit.source_type != "transcript_archive"@
}

/// What a list of scored entries holds.
pub open spec fn scored_view(v: Seq<(i32, MemorySearchHit)>) -> Seq<(i32, HitView)> {
    Seq::new(v.len(), |i: int| (v[i].0, v[i].1@))
}

/// The entries of a list of scored ones.
pub open spec fn unscored(v: Seq<(i32, HitView)>) -> Seq<HitView> {
    Seq::new(v.len(), |i: int| v[i].1)
}

/// The nearest admitted entries, at most `count` of them.
pub open spec fn nearest(scored: Seq<(i32, HitView)>, archive: bool, count: nat) -> Seq<HitView> {
    unscored(
        ranking::front(
            ranking::ranked(scored.filter(|x: (i32, HitView)| admitted(x.1, archive))),
            count,
        ),
    )
}

/// The nearest admitted entries, at most `count` of them, nearest first. The keys order the
/// entries by their similarity to the question.
pub fn nearest_hits(scored: Vec<(i32, MemorySearchHit)>, archive: bool, count: usize) -> (r: Vec<
    MemorySearchHit,
>)
    ensures
        entries::hits_view(r@) == nearest(scored_view(scored@), archive, count as nat),
{
    let ghost all = scored_view(scored@);
    let ghost given = scored@;
    let ghost fits = |x: (i32, HitView)| admitted(x.1, archive);
    let mut kept: Vec<(i32, MemorySearchHit)> = Vec::new();
    proof {
        reveal(Seq::filter);
    }
    assert(scored_view(kept@) =~= Seq::empty());
    assert(all.take(0).filter(fits) =~= Seq::empty());
    for x in it: scored
        invariant
            it.seq() == given,
            all == scored_view(given),
            fits == |x: (i32, HitView)| admitted(x.1, archive),
            scored_view(kept@) == all.take(it.index()).filter(fits),
    {
        let ghost n = it.index();
        let ghost before = kept@;
        proof {
            reveal(Seq::filter);
            assert(all.take(n + 1).drop_last() =~= all.take(n));
            assert(all.take(n + 1).last() == (x.0, x.1@));
        }
        if archive || !text::same(x.1.source_type.as_str(), "transcript_archive") {
            kept.push(x);
            assert(scored_view(kept@) =~= scored_view(before).push((x.0, x.1@)));
        }
    }
    assert(all.take(all.len() as int) =~= all);
    proof {
        let seen = |h: MemorySearchHit| h@;
        ranking::lemma_ranked_views(kept@, seen);
        assert(scored_view(kept@) =~= ranking::views(kept@, seen));
        let order = ranking::ranked(kept@);
        assert(scored_view(order) =~= ranking::views(order, seen));
    }
    let sorted = ranking::rank(kept);
    let ghost order = scored_view(sorted@);
    let mut out: Vec<MemorySearchHit> = Vec::new();
    let mut i: usize = 0;
    while i < sorted.len() && i < count
        invariant
            i <= sorted@.len(),
            i <= count,
            out@.len() == i,
            forall|j: int| 0 <= j < i ==> (#[trigger] out@[j])@ == sorted@[j].1@,
        decreases sorted@.len() - i,
    {
        out.push(sorted[i].1.copy());
        i += 1;
    }
    assert(entries::hits_view(out@) =~= unscored(ranking::front(order, count as nat)));
    out
}

/// How many vector hits the database gives for a limit.
pub open spec fn from_database(limit: nat) -> nat {
    at_least_one(limit) * 3
}

/// How many vector hits the database gives for a limit: three times as many.
pub fn database_count(limit: usize) -> (r: usize)
    requires
        limit * 3 <= usize::MAX,
    ensures
        r == at_least_one(limit as nat) * 3,
        r == from_database(limit as nat),
{
    positive(limit) * 3
}

/// How many vector hits the file gives for a limit.
pub fn file_count(limit: usize) -> (r: usize)
    ensures
        r == at_least_one(limit as nat),
{
    positive(limit)
}

/// Must the vector index on file be asked, by how many hits the database gave, if it gave any?
pub open spec fn file_needed(hits: Option<nat>) -> bool {
    match hits {
        Some(n) => n == 0,
        None => true,
    }
}

/// Must the vector index on file be asked? It is where the database failed or found nothing.
pub fn needs_file_index(from_database: &Result<Vec<MemorySearchHit>, String>) -> (r: bool)
    ensures
        r == !(*from_database matches Ok(hits) && hits@.len() > 0),
        *from_database matches Ok(hits) ==> r == file_needed(Some(hits@.len())),
        *from_database is Err ==> r == file_needed(None),
{
    match from_database {
        Ok(hits) => hits.len() == 0,
        Err(_) => true,
    }
}

// ---------------------------------------------------------------------------------------
// One list out of two

/// An entry that a search found, with its rank in each list that holds it.
pub struct Candidate {
    pub hit: MemorySearchHit,
    pub lexical_rank: Option<usize>,
    pub vector_rank: Option<usize>,
}

/// What a candidate holds.
#[verifier::ext_equal]
pub struct CandidateView {
    pub hit: HitView,
    pub lexical_rank: Option<nat>,
    pub vector_rank: Option<nat>,
}

/// A rank as a number.
pub open spec fn rank_view(r: Option<usize>) -> Option<nat> {
    match r {
        Some(n) => Some(n as nat),
        None => None,
    }
}

impl View for Candidate {
    type V = CandidateView;

    open spec fn view(&self) -> CandidateView {
        CandidateView {
            hit: self.hit@,
            lexical_rank: rank_view(self.lexical_rank),
            vector_rank: rank_view(self.vector_rank),
        }
    }
}

/// What a list of candidates holds.
pub open spec fn candidates_view(v: Seq<Candidate>) -> Seq<CandidateView> {
    Seq::new(v.len(), |i: int| v[i]@)
}

/// The rank of the last entry with an identity, counted from one.
pub open spec fn rank_of(hits: Seq<HitView>, id: Seq<char>) -> Option<nat>
    decreases hits.len(),
{
    if hits.len() == 0 {
        None
    } else if hits.last().id == id {
        Some(hits.len())
    } else {
        rank_of(hits.drop_last(), id)
    }
}

/// The identities of a list of entries, each once, in the order of their first appearance.
pub open spec fn identities(hits: Seq<HitView>) -> Seq<Seq<char>>
    decreases hits.len(),
{
    if hits.len() == 0 {
        Seq::empty()
    } else {
        let before = identities(hits.drop_last());
        if before.contains(hits.last().id) {
            before
        } else {
            before.push(hits.last().id)
        }
    }
}

/// The candidate with an identity: the lexical entry goes before the vector entry.
pub open spec fn candidate(lexical: Seq<HitView>, vector: Seq<HitView>, id: Seq<char>) -> CandidateView {
    let l = rank_of(lexical, id);
    let v = rank_of(vector, id);
    CandidateView {
        hit: match l {
            Some(n) => lexical[n - 1],
            None => vector[v->0 - 1],
        },
        lexical_rank: l,
        vector_rank: v,
    }
}

/// The candidates of a search: one for each identity that either list holds.
pub open spec fn candidates(lexical: Seq<HitView>, vector: Seq<HitView>) -> Seq<CandidateView> {
    let ids = identities(lexical + vector);
    Seq::new(ids.len(), |i: int| candidate(lexical, vector, ids[i]))
}

proof fn lemma_rank_of(hits: Seq<HitView>, id: Seq<char>)
    ensures
        match rank_of(hits, id) {
            Some(n) => 1 <= n <= hits.len() && hits[n - 1].id == id,
            None => forall|i: int| 0 <= i < hits.len() ==> (#[trigger] hits[i]).id != id,
        },
    decreases hits.len(),
{
    if hits.len() > 0 && hits.last().id != id {
        lemma_rank_of(hits.drop_last(), id);
        if rank_of(hits, id) is None {
            assert forall|i: int| 0 <= i < hits.len() implies (#[trigger] hits[i]).id != id by {
                if i < hits.len() - 1 {
                    assert(hits.drop_last()[i] == hits[i]);
                }
            }
        }
    }
}

proof fn lemma_identities(hits: Seq<HitView>)
    ensures
        identities(hits).no_duplicates(),
        forall|i: int|
            0 <= i < hits.len() ==> identities(hits).contains((#[trigger] hits[i]).id),
        forall|k: int|
            0 <= k < identities(hits).len() ==> exists|i: int|
                0 <= i < hits.len() && (#[trigger] hits[i]).id == #[trigger] identities(hits)[k],
    decreases hits.len(),
{
    if hits.len() > 0 {
        let front = hits.drop_last();
        lemma_identities(front);
        let before = identities(front);
        let all = identities(hits);
        assert forall|i: int| 0 <= i < hits.len() implies all.contains((#[trigger] hits[i]).id) by {
            if i < front.len() {
                assert(front[i] == hits[i]);
                let k = choose|k: int| 0 <= k < before.len() && before[k] == hits[i].id;
                assert(all[k] == hits[i].id);
            } else if before.contains(hits.last().id) {
            } else {
                assert(all[before.len() as int] == hits[i].id);
            }
        }
        assert forall|k: int| 0 <= k < all.len() implies exists|i: int|
            0 <= i < hits.len() && (#[trigger] hits[i]).id == #[trigger] all[k] by {
            if k < before.len() {
                assert(before[k] == all[k]);
                let i = choose|i: int| 0 <= i < front.len() && (#[trigger] front[i]).id == before[k];
                assert(hits[i].id == all[k]);
            } else {
                assert(hits[hits.len() - 1].id == all[k]);
            }
        }
    }
}

/// The rank of the last entry with an identity.
fn find_rank(hits: &Vec<MemorySearchHit>, id: &str) -> (r: Option<usize>)
    ensures
        rank_view(r) == rank_of(entries::hits_view(hits@), id@),
        r matches Some(n) ==> 1 <= n <= hits@.len(),
{
    let ghost all = entries::hits_view(hits@);
    let mut i: usize = hits.len();
    assert(all.take(all.len() as int) =~= all);
    while i > 0
        invariant
            i <= hits@.len(),
            all == entries::hits_view(hits@),
            rank_of(all, id@) == rank_of(all.take(i as int), id@),
        decreases i,
    {
        assert(all.take(i as int).last() == hits@[i - 1]@);
        assert(all.take(i as int).drop_last() =~= all.take(i - 1));
        if text::same(hits[i - 1].id.as_str(), id) {
            return Some(i);
        }
        i -= 1;
    }
    None
}

/// Is the identity in the list?
fn knows(ids: &Vec<String>, id: &str) -> (r: bool)
    ensures
        r == text::texts(ids@).contains(id@),
{
    let mut i: usize = 0;
    while i < ids.len()
        invariant
            i <= ids@.len(),
            forall|j: int| 0 <= j < i ==> (#[trigger] ids@[j])@ != id@,
        decreases ids@.len() - i,
    {
        if text::same(ids[i].as_str(), id) {
            assert(text::texts(ids@)[i as int] == id@);
            return true;
        }
        i += 1;
    }
    assert forall|j: int| 0 <= j < text::texts(ids@).len() implies text::texts(ids@)[j] != id@ by {
        assert(text::texts(ids@)[j] == ids@[j]@);
    }
    false
}

/// Adds the identities of a list of entries to those that are known.
fn add_identities(ids: &mut Vec<String>, hits: &Vec<MemorySearchHit>, before: Ghost<Seq<HitView>>)
    requires
        text::texts(old(ids)@) == identities(before@),
    ensures
        text::texts(final(ids)@) == identities(before@ + entries::hits_view(hits@)),
{
    let ghost all = entries::hits_view(hits@);
    let mut i: usize = 0;
    assert(before@ + all.take(0) =~= before@);
    while i < hits.len()
        invariant
            i <= hits@.len(),
            all == entries::hits_view(hits@),
            text::texts(ids@) == identities(before@ + all.take(i as int)),
        decreases hits@.len() - i,
    {
        let ghost known = ids@;
        assert((before@ + all.take(i + 1)).drop_last() =~= before@ + all.take(i as int));
        assert((before@ + all.take(i + 1)).last() == hits@[i as int]@);
        if !knows(ids, hits[i].id.as_str()) {
            ids.push(hits[i].id.clone());
            assert(text::texts(ids@) =~= text::texts(known).push(hits@[i as int].id@));
        }
        i += 1;
    }
    assert(all.take(all.len() as int) =~= all);
}

/// The candidates of a search: one for each identity that the lexical or the vector hits hold,
/// with its rank in each list. Of a lexical and a vector entry with the same identity, the lexical
/// one stays.
pub fn merge_hits(lexical: &Vec<MemorySearchHit>, vector: &Vec<MemorySearchHit>) -> (r: Vec<
    Candidate,
>)
    ensures
        candidates_view(r@) == candidates(
            entries::hits_view(lexical@),
            entries::hits_view(vector@),
        ),
{
    let ghost l = entries::hits_view(lexical@);
    let ghost v = entries::hits_view(vector@);
    let mut ids: Vec<String> = Vec::new();
    assert(text::texts(ids@) =~= identities(Seq::empty()));
    assert(Seq::<HitView>::empty() + l =~= l);
    add_identities(&mut ids, lexical, Ghost(Seq::empty()));
    add_identities(&mut ids, vector, Ghost(l));
    let ghost all = identities(l + v);
    proof {
        lemma_identities(l + v);
    }
    let mut out: Vec<Candidate> = Vec::new();
    let mut i: usize = 0;
    while i < ids.len()
        invariant
            i <= ids@.len(),
            l == entries::hits_view(lexical@),
            v == entries::hits_view(vector@),
            all == text::texts(ids@),
            forall|k: int|
                0 <= k < all.len() ==> exists|j: int|
                    0 <= j < (l + v).len() && (#[trigger] (l + v)[j]).id == #[trigger] all[k],
            out@.len() == i,
            forall|j: int| 0 <= j < i ==> (#[trigger] out@[j])@ == candidate(l, v, all[j]),
        decreases ids@.len() - i,
    {
        let id = ids[i].as_str();
        assert(all[i as int] == id@);
        let lexical_rank = find_rank(lexical, id);
        let vector_rank = find_rank(vector, id);
        proof {
            lemma_rank_of(l, id@);
            lemma_rank_of(v, id@);
            let j = choose|j: int|
                0 <= j < (l + v).len() && (#[trigger] (l + v)[j]).id == all[i as int];
            if j < l.len() {
                assert((l + v)[j] == l[j]);
            } else {
                assert((l + v)[j] == v[j - l.len()]);
            }
        }
        let hit = match lexical_rank {
            Some(n) => {
                assert(l[n - 1] == lexical@[n - 1]@);
                lexical[n - 1].copy()
            },
            None => match vector_rank {
                Some(n) => {
                    assert(v[n - 1] == vector@[n - 1]@);
                    vector[n - 1].copy()
                },
                None => {
                    assert(false);
                    lexical[0].copy()
                },
            },
        };
        let c = Candidate { hit, lexical_rank, vector_rank };
        assert(c@ == candidate(l, v, id@));
        out.push(c);
        i += 1;
    }
    assert(candidates_view(out@) =~= candidates(l, v));
    out
}

/// Every entry that a list holds has exactly one candidate, under its identity.
pub proof fn law_one_candidate_for_each_identity(lexical: Seq<HitView>, vector: Seq<HitView>)
    ensures
        forall|i: int, j: int|
            0 <= i < j < candidates(lexical, vector).len() ==> (#[trigger] candidates(
                lexical,
                vector,
            )[i]).hit.id != (#[trigger] candidates(lexical, vector)[j]).hit.id,
        forall|i: int|
            0 <= i < lexical.len() ==> exists|k: int|
                0 <= k < candidates(lexical, vector).len() && (#[trigger] candidates(
                    lexical,
                    vector,
                )[k]).hit.id == (#[trigger] lexical[i]).id,
        forall|i: int|
            0 <= i < vector.len() ==> exists|k: int|
                0 <= k < candidates(lexical, vector).len() && (#[trigger] candidates(
                    lexical,
                    vector,
                )[k]).hit.id == (#[trigger] vector[i]).id,
{
    let both = lexical + vector;
    let ids = identities(both);
    let all = candidates(lexical, vector);
    lemma_identities(both);
    assert forall|k: int| 0 <= k < all.len() implies (#[trigger] all[k]).hit.id == ids[k] by {
        lemma_rank_of(lexical, ids[k]);
        lemma_rank_of(vector, ids[k]);
        let j = choose|j: int| 0 <= j < both.len() && (#[trigger] both[j]).id == ids[k];
        if j < lexical.len() {
            assert(both[j] == lexical[j]);
        } else {
            assert(both[j] == vector[j - lexical.len()]);
        }
    }
    assert forall|i: int| 0 <= i < lexical.len() implies exists|k: int|
        0 <= k < all.len() && (#[trigger] all[k]).hit.id == (#[trigger] lexical[i]).id by {
        assert(both[i] == lexical[i]);
        let k = choose|k: int| 0 <= k < ids.len() && ids[k] == both[i].id;
        assert(all[k].hit.id == lexical[i].id);
    }
    assert forall|i: int| 0 <= i < vector.len() implies exists|k: int|
        0 <= k < all.len() && (#[trigger] all[k]).hit.id == (#[trigger] vector[i]).id by {
        assert(both[lexical.len() + i] == vector[i]);
        let k = choose|k: int| 0 <= k < ids.len() && ids[k] == both[lexical.len() + i].id;
        assert(all[k].hit.id == vector[i].id);
    }
}

/// What the score of a candidate depends on.
pub struct ScoreInputs {
    pub lexical_rank: Option<usize>,
    pub vector_rank: Option<usize>,
    /// Its age, never negative.
    pub age_seconds: u64,
    /// The age at which its recency is halved.
    pub half_life_hours: u64,
    pub mention_count: u64,
    /// It comes from a memory file.
    pub stable: bool,
    /// It comes from an old transcript.
    pub archived: bool,
}

/// What the score of a candidate depends on.
pub open spec fn weighed(c: Candidate, now: i64) -> ScoreInputs {
    ScoreInputs {
        lexical_rank: c.lexical_rank,
        vector_rank: c.vector_rank,
        age_seconds: if now >= c.hit.ts_epoch {
            (now - c.hit.ts_epoch) as u64
        } else {
            0
        },
        half_life_hours: if c.hit.source_type@ == "memory"@ {
            336
        } else {
            48
        },
        mention_count: c.hit.mention_count,
        stable: c.hit.source_type@ == "memory"@,
        archived: c.hit.source_type@ == "transcript_archive"@,
    }
}

/// What the score of a candidate depends on: a memory file's recency is halved in two weeks, a
/// transcript's in two days.
pub fn score_inputs(c: &Candidate, now: i64) -> (r: ScoreInputs)
    ensures
        r.lexical_rank == c.lexical_rank,
        r.vector_rank == c.vector_rank,
        r.age_seconds == if now >= c.hit.ts_epoch {
            now - c.hit.ts_epoch
        } else {
            0
        },
        r.half_life_hours == if c.hit.source_type@ == "memory"@ {
            336int
        } else {
            48
        },
        r.mention_count == c.hit.mention_count,
        r.stable == (c.hit.source_type@ == "memory"@),
        r.archived == (c.hit.source_type@ == "transcript_archive"@),
        r == weighed(*c, now),
{
    let age: i128 = now as i128 - c.hit.ts_epoch as i128;
    let age_seconds: u64 = if age > 0 {
        age as u64
    } else {
        0
    };
    let stable = text::same(c.hit.source_type.as_str(), "memory");
    let half_life_hours: u64 = if stable {
        336
    } else {
        48
    };
    ScoreInputs {
        lexical_rank: c.lexical_rank,
        vector_rank: c.vector_rank,
        age_seconds,
        half_life_hours,
        mention_count: c.hit.mention_count,
        stable,
        archived: text::same(c.hit.source_type.as_str(), "transcript_archive"),
    }
}

// ---------------------------------------------------------------------------------------
// Rows

/// The row of an entry with a given content.
pub open spec fn row_text(hit: HitView, content: Seq<char>) -> Seq<char> {
    "["@ + hit.id + "] ["@ + hit.ts + "] ("@ + hit.role + ") ["@ + hit.source_file + ":"@
        + numerals::decimal(hit.source_line as nat) + "] [mentions="@ + numerals::decimal(
        hit.mention_count as nat,
    ) + "] "@ + content
}

/// The row of an entry with a given content.
fn write_row(hit: &MemorySearchHit, content: &str) -> (r: String)
    ensures
        r@ == row_text(hit@, content@),
{
    let line = numerals::write_decimal(hit.source_line);
    let mentions = numerals::write_decimal(hit.mention_count);
    let mut row = "[".to_string();
    row.append(hit.id.as_str());
    row.append("] [");
    row.append(hit.ts.as_str());
    row.append("] (");
    row.append(hit.role.as_str());
    row.append(") [");
    row.append(hit.source_file.as_str());
    row.append(":");
    row.append(line.as_str());
    row.append("] [mentions=");
    row.append(mentions.as_str());
    row.append("] ");
    row.append(content);
    row
}

/// The row of an entry in the answer to a search: its content cut after 180 characters.
pub fn search_row(hit: &MemorySearchHit) -> (r: String)
    ensures
        r@ == row_text(hit@, search::cut(hit@.content, 180)),
        r@ == short_row(hit@),
{
    let snippet = search::take_chars(hit.content.as_str(), 180);
    write_row(hit, snippet.as_str())
}

/// The row of an entry that was asked for by its identity.
pub open spec fn full_row(hit: HitView) -> Seq<char> {
    row_text(hit, hit.content)
}

/// The row of an entry that was asked for by its identity: its whole content.
pub fn entry_row(hit: &MemorySearchHit) -> (r: String)
    ensures
        r@ == row_text(hit@, hit@.content),
        r@ == full_row(hit@),
{
    write_row(hit, hit.content.as_str())
}

/// The answer to a look-up by identity.
pub open spec fn looked_up(found: Option<StoredDoc>, now: i64) -> Option<Seq<char>> {
    match found {
        Some(doc) => Some(full_row(hit_of(doc, now))),
        None => None,
    }
}

/// The answer to a look-up by identity: the row of the first document that was found, if any.
pub fn memory_get(found: Option<StoredDoc>, now: i64) -> (r: Option<String>)
    ensures
        text::opt(r) == match found {
            Some(doc) => Some(row_text(hit_of(doc, now), hit_of(doc, now).content)),
            None => None,
        },
        text::opt(r) == looked_up(found, now),
{
    match found {
        Some(doc) => {
            let hit = doc_to_hit(doc, now);
            Some(entry_row(&hit))
        },
        None => None,
    }
}

/// What a list of scored candidates holds.
pub open spec fn scored_candidates(v: Seq<(i32, Candidate)>) -> Seq<(i32, CandidateView)> {
    Seq::new(v.len(), |i: int| (v[i].0, v[i].1@))
}

/// The rows of a list of candidates.
pub open spec fn rows_of(v: Seq<(i32, CandidateView)>) -> Seq<Seq<char>> {
    Seq::new(v.len(), |i: int| short_row(v[i].1.hit))
}

/// The row of an entry in the answer to a search.
pub open spec fn short_row(hit: HitView) -> Seq<char> {
    row_text(hit, search::cut(hit.content, 180))
}

/// The answer to a search: the rows of the best candidates.
pub open spec fn answer(scored: Seq<(i32, CandidateView)>, limit: nat) -> Seq<Seq<char>> {
    rows_of(ranking::front(ranking::ranked(scored), at_least_one(limit)))
}

/// The answer to a search: the rows of the best candidates, best first, at most `limit` of them
/// and at least one if there is any. The keys order the candidates by their scores.
pub fn memory_search(scored: Vec<(i32, Candidate)>, options: &MemorySearchOptions) -> (r: Vec<
    String,
>)
    ensures
        text::texts(r@) == answer(scored_candidates(scored@), options.limit as nat),
{
    proof {
        let seen = |c: Candidate| c@;
        ranking::lemma_ranked_views(scored@, seen);
        assert(scored_candidates(scored@) =~= ranking::views(scored@, seen));
        let order = ranking::ranked(scored@);
        assert(scored_candidates(order) =~= ranking::views(order, seen));
    }
    let sorted = ranking::rank(scored);
    let ghost order = scored_candidates(sorted@);
    let count = positive(options.limit);
    let mut out: Vec<String> = Vec::new();
    let mut i: usize = 0;
    while i < sorted.len() && i < count
        invariant
            i <= sorted@.len(),
            i <= count,
            out@.len() == i,
            forall|j: int|
                0 <= j < i ==> (#[trigger] out@[j])@ == short_row(sorted@[j].1@.hit),
        decreases sorted@.len() - i,
    {
        out.push(search_row(&sorted[i].1.hit));
        i += 1;
    }
    assert(text::texts(out@) =~= rows_of(ranking::front(order, count as nat)));
    out
}

/// A search found just the matching entries that meet its conditions, each once.
pub open spec fn found(
    matching: Set<HitView>,
    clauses: Seq<ClauseView>,
    hits: Seq<HitView>,
) -> bool {
    &&& hits.no_duplicates()
    &&& forall|h: HitView| #[trigger]
        hits.contains(h) <==> matching.contains(h) && meets_all(h, clauses)
}

/// Every candidate of a search that found these entries, and no vectors, has a key.
pub open spec fn keyed(scored: Seq<(i32, CandidateView)>, hits: Seq<HitView>) -> bool {
    &&& scored.len() == candidates(hits, Seq::empty()).len()
    &&& forall|i: int|
        0 <= i < scored.len() ==> (#[trigger] scored[i]).1 == candidates(hits, Seq::empty())[i]
}

proof fn lemma_ranked_items<T>(items: Seq<(i32, T)>, x: (i32, T))
    ensures
        ranking::ranked(items).contains(x) <==> items.contains(x),
        ranking::ranked(items).len() == items.len(),
{
    broadcast use vstd::seq_lib::group_to_multiset_ensures;

    ranking::law_ranking_keeps_the_items(items);
    assert(items.contains(x) <==> items.to_multiset().count(x) > 0);
    let order = ranking::ranked(items);
    assert(order.contains(x) <==> order.to_multiset().count(x) > 0);
}

proof fn lemma_candidate_is_a_hit(hits: Seq<HitView>, k: int)
    requires
        0 <= k < candidates(hits, Seq::empty()).len(),
    ensures
        hits.contains(candidates(hits, Seq::empty())[k].hit),
        candidates(hits, Seq::empty())[k].hit.id == identities(hits)[k],
{
    let none = Seq::<HitView>::empty();
    assert(hits + none =~= hits);
    let id = identities(hits)[k];
    lemma_identities(hits);
    lemma_rank_of(hits, id);
}

proof fn lemma_fewer_identities(hits: Seq<HitView>)
    ensures
        identities(hits).len() <= hits.len(),
    decreases hits.len(),
{
    if hits.len() > 0 {
        lemma_fewer_identities(hits.drop_last());
    }
}

/// A row is that of an entry that was found and is no old transcript.
pub open spec fn row_of_no_old_transcript(hits: Seq<HitView>, row: Seq<char>) -> bool {
    exists|h: HitView| #[trigger]
        hits.contains(h) && h.source_type != "transcript_archive"@ && row == short_row(h)
}

/// No row of a search without the archive comes from an old transcript, whatever the scores and
/// the limit. (Without vectors.)
pub proof fn law_no_row_of_an_old_transcript(
    matching: Set<HitView>,
    asked: QueryView,
    session: Option<Seq<char>>,
    recent: Seq<HitView>,
    scored_recent: Seq<(i32, CandidateView)>,
    limit: nat,
)
    requires
        found(matching, clauses_of(asked, false, session), recent),
        keyed(scored_recent, recent),
    ensures
        forall|i: int|
            0 <= i < answer(scored_recent, limit).len() ==> row_of_no_old_transcript(
                recent,
                #[trigger] answer(scored_recent, limit)[i],
            ),
{
    let rows = answer(scored_recent, limit);
    let order = ranking::ranked(scored_recent);
    assert forall|i: int| 0 <= i < rows.len() implies row_of_no_old_transcript(
        recent,
        #[trigger] rows[i],
    ) by {
        let x = order[i];
        assert(ranking::front(order, at_least_one(limit))[i] == x);
        lemma_ranked_items(scored_recent, x);
        let k = choose|k: int| 0 <= k < scored_recent.len() && scored_recent[k] == x;
        lemma_candidate_is_a_hit(recent, k);
        assert(recent.contains(x.1.hit));
        law_search_leaves_out_the_current_session(x.1.hit, asked, false, session);
        assert(rows[i] == short_row(x.1.hit));
    }
}

/// Where the entries that match have different identities, and are no more than the rows asked
/// for and the 200 that the index is asked for, every row of a search without the archive is one
/// of the same search with it, whatever the scores. (Without vectors.)
pub proof fn law_the_archive_only_adds(
    matching: Set<HitView>,
    asked: QueryView,
    session: Option<Seq<char>>,
    recent: Seq<HitView>,
    every: Seq<HitView>,
    scored_recent: Seq<(i32, CandidateView)>,
    scored_every: Seq<(i32, CandidateView)>,
    limit: nat,
)
    requires
        forall|a: HitView, b: HitView|
            matching.contains(a) && matching.contains(b) && #[trigger] a.id == #[trigger] b.id ==> a
                == b,
        found(matching, clauses_of(asked, false, session), recent),
        found(matching, clauses_of(asked, true, session), every),
        keyed(scored_recent, recent),
        keyed(scored_every, every),
        every.len() <= at_least_one(limit),
        every.len() <= 200,
    ensures
        every.len() <= fetch_count(limit),
        forall|i: int|
            0 <= i < answer(scored_recent, limit).len() ==> answer(scored_every, limit).contains(
                #[trigger] answer(scored_recent, limit)[i],
            ),
{
    let none = Seq::<HitView>::empty();
    let rows = answer(scored_recent, limit);
    let all = answer(scored_every, limit);
    let order = ranking::ranked(scored_recent);
    let full = ranking::ranked(scored_every);
    assert(every + none =~= every);
    lemma_fewer_identities(every);
    lemma_identities(every);
    assert forall|i: int| 0 <= i < rows.len() implies all.contains(#[trigger] rows[i]) by {
        let x = order[i];
        assert(ranking::front(order, at_least_one(limit))[i] == x);
        lemma_ranked_items(scored_recent, x);
        let k = choose|k: int| 0 <= k < scored_recent.len() && scored_recent[k] == x;
        lemma_candidate_is_a_hit(recent, k);
        let h = x.1.hit;
        assert(recent.contains(h));
        law_search_leaves_out_the_current_session(h, asked, false, session);
        law_search_leaves_out_the_current_session(h, asked, true, session);
        assert(every.contains(h));
        let at = choose|at: int| 0 <= at < every.len() && every[at] == h;
        let m = choose|m: int| 0 <= m < identities(every).len() && identities(every)[m] == every[at].id;
        lemma_candidate_is_a_hit(every, m);
        let y = scored_every[m];
        assert(every.contains(y.1.hit));
        assert(y.1.hit == h);
        lemma_ranked_items(scored_every, y);
        let p = choose|p: int| 0 <= p < full.len() && full[p] == y;
        assert(ranking::front(full, at_least_one(limit)) == full);
        assert(all[p] == short_row(h));
        assert(rows[i] == short_row(h));
    }
}

} // verus!
