use oxiclaw::entries::{self, MemorySearchHit, TranscriptLine};
use oxiclaw::indexer::{self, IndexerState, MemoryFile, TranscriptFile};
use oxiclaw::memory::{self, Candidate, IndexStep, MemorySearchOptions, QueryClause, StoredDoc};
use oxiclaw::{question, ranking};
use std::collections::hash_map::DefaultHasher;
use std::hash::{Hash, Hasher};
use tantivy::schema::{
    Field, IndexRecordOption, NumericOptions, Schema, TextFieldIndexing, TextOptions, Value, FAST, STORED, STRING, TEXT,
};

fn line(content: &str) -> TranscriptLine {
    TranscriptLine {
        ts: "2026-01-01T00:00:00Z".to_string(),
        session_id: "s".to_string(),
        role: "user".to_string(),
        content: content.to_string(),
    }
}

fn file(name: &str, lines: Vec<Option<TranscriptLine>>) -> TranscriptFile {
    TranscriptFile { name: name.to_string(), lines }
}

fn hit(id: &str, content: &str) -> MemorySearchHit {
    MemorySearchHit {
        id: id.to_string(),
        ts: "t".to_string(),
        role: "user".to_string(),
        session_id: "s".to_string(),
        source_type: "transcript_hot".to_string(),
        source_file: "f".to_string(),
        source_line: 3,
        mention_count: 1,
        ts_epoch: 100,
        content: content.to_string(),
    }
}

const NEW_YEAR: i64 = 1_767_225_600;

#[test]
fn identities_are_the_hashes_of_std() {
    for (f, n, c) in [("session-2026-01-01.jsonl", 1u64, "Bonjour  le\tMonde"), ("x", 300, ""), ("é", 7, "ÀÉ")] {
        let normal = c.split_whitespace().collect::<Vec<_>>().join(" ").to_lowercase();
        assert_eq!(entries::normalize_for_hash(c), normal);
        let mut h = DefaultHasher::new();
        f.hash(&mut h);
        (n as usize).hash(&mut h);
        normal.hash(&mut h);
        assert_eq!(entries::stable_entry_id(f, n, c), format!("mem-{n}-{:016x}", h.finish()));
        let mut h = DefaultHasher::new();
        f.hash(&mut h);
        (n as usize).hash(&mut h);
        assert_eq!(entries::stable_memory_line_id(f, n), format!("mline-{n}-{:016x}", h.finish()));
    }
}

#[test]
fn layout_does_not_change_an_identity() {
    assert_eq!(entries::stable_entry_id("f", 1, "A  b"), entries::stable_entry_id("f", 1, " a B "));
    assert_ne!(entries::stable_entry_id("f", 1, "a b"), entries::stable_entry_id("f", 2, "a b"));
    assert_ne!(entries::stable_entry_id("f", 1, "x"), entries::stable_memory_line_id("f", 1));
}

#[test]
fn times_are_read_or_taken_from_the_clock() {
    assert_eq!(entries::parse_ts_epoch("2026-01-01T00:00:00Z", 5), NEW_YEAR);
    assert_eq!(entries::parse_ts_epoch("2026-01-01T01:00:00+01:00", 5), NEW_YEAR);
    assert_eq!(entries::parse_ts_epoch("hier", 5), 5);
}

#[test]
fn transcripts_stay_hot_for_two_days() {
    assert_eq!(entries::infer_source_type("MEMORY-2026.md", 0, i64::MAX), "memory");
    assert_eq!(entries::infer_source_type("session-x", 0, 172_800), "transcript_hot");
    assert_eq!(entries::infer_source_type("session-x", 0, 172_801), "transcript_archive");
    assert_eq!(entries::infer_source_type("session-x", i64::MIN, i64::MAX), "transcript_archive");
    assert_eq!(entries::infer_source_type("session-x", i64::MAX, i64::MIN), "transcript_hot");
}

#[test]
fn files_are_listed_by_name() {
    let names: Vec<String> = ["session-b.jsonl", "x", "session-a.jsonl", "session-a.json", "MEMORY-1.md", "MEMORY-0.md", "memory-2.md"]
        .iter()
        .map(|s| s.to_string())
        .collect();
    assert_eq!(indexer::list_transcript_files(names.clone()), ["session-a.jsonl", "session-b.jsonl"]);
    assert_eq!(indexer::list_memory_files(names), ["MEMORY-0.md", "MEMORY-1.md"]);
}

#[test]
fn entries_are_the_readable_lines_behind_the_cursor() {
    let lines = vec![Some(line("un")), None, Some(line("trois"))];
    let found = indexer::index_transcript_file("session-a.jsonl", &lines, 0, NEW_YEAR);
    let numbers: Vec<u64> = found.iter().map(|h| h.source_line).collect();
    assert_eq!(numbers, [1, 3]);
    assert_eq!(found[1].content, "trois");
    assert_eq!(found[1].id, entries::stable_entry_id("session-a.jsonl", 3, "trois"));
    assert_eq!(found[1].ts_epoch, NEW_YEAR);
    assert_eq!(found[1].source_type, "transcript_hot");
    assert_eq!(found[1].mention_count, 1);
    assert_eq!(indexer::index_transcript_file("session-a.jsonl", &lines, 1, NEW_YEAR).len(), 1);
    assert!(indexer::index_transcript_file("session-a.jsonl", &lines, 3, NEW_YEAR).is_empty());
}

#[test]
fn an_entry_is_made_at_a_given_time() {
    let e = indexer::transcript_entry("session-a.jsonl", 2, &line("x"), NEW_YEAR, NEW_YEAR + 172_801);
    assert_eq!((e.source_line, e.ts_epoch, e.source_type.as_str()), (2, NEW_YEAR, "transcript_archive"));
    assert_eq!((e.ts.as_str(), e.role.as_str(), e.session_id.as_str()), ("2026-01-01T00:00:00Z", "user", "s"));
}

#[test]
fn a_second_run_adds_nothing() {
    let files = vec![
        file("session-a.jsonl", vec![Some(line("un")), Some(line("deux"))]),
        file("session-b.jsonl", vec![Some(line("trois"))]),
        file("session-c.jsonl", vec![]),
    ];
    let mut state = IndexerState::fresh();
    assert_eq!(state.index_files(&files, NEW_YEAR, "t1").len(), 3);
    assert_eq!(state.last_file.as_deref(), Some("session-b.jsonl"));
    assert_eq!(state.last_line, 1);
    assert_eq!(state.updated_at, "t1");
    assert!(state.index_files(&files, NEW_YEAR, "t2").is_empty());
    assert_eq!(state.updated_at, "t1");
}

#[test]
fn an_appended_line_is_the_one_new_entry() {
    let mut state = IndexerState::fresh();
    state.index_file(&file("session-a.jsonl", vec![Some(line("un"))]), NEW_YEAR, "t");
    let grown = file("session-a.jsonl", vec![Some(line("un")), Some(line("deux"))]);
    let found = state.index_file(&grown, NEW_YEAR, "t");
    assert_eq!(found.len(), 1);
    assert_eq!((found[0].source_line, found[0].content.as_str()), (2, "deux"));
    assert_eq!(state.last_line, 2);
}

#[test]
fn files_before_the_cursor_are_passed_over() {
    let mut state = IndexerState::fresh();
    state.last_file = Some("session-b.jsonl".to_string());
    state.last_line = 4;
    assert_eq!(state.done("session-a.jsonl"), None);
    assert_eq!(state.done("session-b.jsonl"), Some(4));
    assert_eq!(state.done("session-c.jsonl"), Some(0));
    assert!(state.index_file(&file("session-a.jsonl", vec![Some(line("x"))]), 0, "t").is_empty());
    state.last_line = usize::MAX;
    assert!(state.index_file(&file("session-b.jsonl", vec![Some(line("x"))]), 0, "t").is_empty());
}

#[test]
fn unreadable_lines_hold_the_cursor_back() {
    let mut state = IndexerState::fresh();
    let files = vec![file("session-a.jsonl", vec![None, Some(line("deux")), Some(line("trois"))])];
    assert_eq!(state.index_files(&files, NEW_YEAR, "t").len(), 2);
    assert_eq!(state.last_line, 2);
    assert_eq!(state.index_files(&files, NEW_YEAR, "t").len(), 1);
}

#[test]
fn items_of_memory_files_count_their_mentions() {
    let files = vec![
        MemoryFile { name: "MEMORY-a.md".to_string(), text: "# titre\n- Thé vert\n  - café\n".to_string() },
        MemoryFile { name: "MEMORY-b.md".to_string(), text: "- thé   VERT\r\n-\n".to_string() },
    ];
    let found = indexer::index_memory_markdown_files(&files, 9, "t");
    let rows: Vec<String> = found
        .iter()
        .map(|h| format!("{}:{} {} x{}", h.source_file, h.source_line, h.content, h.mention_count))
        .collect();
    assert_eq!(
        rows,
        ["MEMORY-a.md:2 - Thé vert x2", "MEMORY-a.md:3 - café x1", "MEMORY-b.md:1 - thé   VERT x2", "MEMORY-b.md:2 - x1"]
    );
    assert_eq!(found[0].id, entries::stable_memory_line_id("MEMORY-a.md", 2));
    assert_eq!((found[0].role.as_str(), found[0].session_id.as_str(), found[0].source_type.as_str()), ("memory", "memory", "memory"));
    assert_eq!((found[0].ts.as_str(), found[0].ts_epoch), ("t", 9));
}

#[test]
fn a_run_indexes_transcripts_and_memory_files() {
    let files = vec![file("session-a.jsonl", vec![Some(line("un"))])];
    let notes = vec![MemoryFile { name: "MEMORY-a.md".to_string(), text: "- x".to_string() }];
    let run = indexer::run_indexer_once(IndexerState::fresh(), &files, &notes, NEW_YEAR, "t");
    assert_eq!(run.entries.len(), 2);
    assert_eq!(run.state.last_memory_reindex_at, "t");
    assert_eq!(run.state.last_line, 1);
    let again = indexer::run_indexer_once(run.state, &files, &notes, NEW_YEAR, "u");
    assert_eq!(again.entries.len(), 1);
    assert_eq!(again.state.last_memory_reindex_at, "u");
    assert_eq!(again.state.updated_at, "t");
}

#[test]
fn the_vector_index_takes_everything() {
    let files = vec![file("session-a.jsonl", vec![Some(line("un")), None]), file("session-b.jsonl", vec![Some(line("deux"))])];
    let notes = vec![MemoryFile { name: "MEMORY-a.md".to_string(), text: "- x".to_string() }];
    let docs = indexer::collect_vector_docs(&files, &notes, NEW_YEAR, "t");
    let contents: Vec<&str> = docs.iter().map(|d| d.content.as_str()).collect();
    assert_eq!(contents, ["un", "deux", "- x"]);
    let job = memory::embedding_job("base", &docs);
    assert_eq!(job.inputs, ["un", "deux", "- x"]);
    assert_eq!(job.cache_dir, "base/models/fastembed");
}

#[test]
fn warming_up_embeds_one_word() {
    let job = memory::warmup_embeddings("base");
    assert_eq!(job.inputs, ["warmup"]);
    assert_eq!(job.cache_dir, "base/models/fastembed");
}

#[test]
fn memory_files_lie_under_the_base() {
    assert_eq!(memory::index_dir("b"), "b/memory/tantivy");
    assert_eq!(memory::vector_index_path("b"), "b/memory/vector_index.json");
    assert_eq!(memory::sqlite_vec_path("b"), "b/memory/sqlite_vec.db");
    assert_eq!(memory::state_path("b"), "b/state/indexer_state.json");
    assert_eq!(memory::lock_path("b"), "b/state/indexer.lock");
}

#[test]
fn switches_know_five_words() {
    for v in ["1", "true", "TRUE", "yes", "on"] {
        assert!(memory::vector_enabled(&Some(v.to_string())));
    }
    for v in ["", "0", "True", "YES", " on"] {
        assert!(!memory::vector_enabled(&Some(v.to_string())));
    }
    assert!(!memory::vector_enabled(&None));
}

fn schema(names: &[&str]) -> tantivy::schema::Schema {
    let mut b = tantivy::schema::Schema::builder();
    for n in names {
        b.add_text_field(n, tantivy::schema::STORED);
    }
    b.build()
}

const FIELDS: [&str; 10] = [
    "id", "ts", "ts_epoch", "role", "session_id", "source_type", "content", "source_file", "source_line", "mention_count",
];

#[test]
fn the_index_has_ten_fields() {
    let raw = TextOptions::default().set_stored().set_indexing_options(
        TextFieldIndexing::default().set_tokenizer("raw").set_index_option(IndexRecordOption::Basic),
    );
    let number = NumericOptions::default().set_stored().set_fast();
    let mut b = Schema::builder();
    b.add_text_field("id", STRING | STORED);
    b.add_text_field("ts", STRING | STORED);
    b.add_i64_field("ts_epoch", number.clone());
    b.add_text_field("role", raw.clone());
    b.add_text_field("session_id", STRING | STORED);
    b.add_text_field("source_type", raw);
    b.add_text_field("content", TEXT | STORED);
    b.add_text_field("source_file", STRING | STORED);
    b.add_u64_field("source_line", STORED | FAST);
    b.add_u64_field("mention_count", number);
    let made = memory::build_schema();
    assert_eq!(serde_json::to_value(&made).unwrap(), serde_json::to_value(b.build()).unwrap());
    let f = memory::fields_from_schema(&made).ok().unwrap();
    assert_eq!((f.id, f.content, f.mention_count), (0, 6, 9));
}

fn filled_index() -> (tantivy::Index, memory::Fields) {
    let index = tantivy::Index::create_in_ram(memory::build_schema());
    let f = memory::fields_from_schema(&index.schema()).ok().unwrap();
    let mut writer: tantivy::IndexWriter = index.writer_with_num_threads(1, 20_000_000).unwrap();
    for (id, sort, session, content) in [
        ("m1", "transcript_hot", "s1", "le chat dort"),
        ("m2", "transcript_archive", "s2", "le chat mange"),
        ("m3", "memory_daily", "s3", "le chien dort"),
        ("m4", "transcript_hot", "s4", "le chat court"),
    ] {
        let mut d = tantivy::TantivyDocument::default();
        d.add_text(Field::from_field_id(f.id), id);
        d.add_text(Field::from_field_id(f.role), "user");
        d.add_text(Field::from_field_id(f.source_type), sort);
        d.add_text(Field::from_field_id(f.session_id), session);
        d.add_text(Field::from_field_id(f.content), content);
        writer.add_document(d).unwrap();
    }
    writer.commit().unwrap();
    (index, f)
}

fn ids(index: &tantivy::Index, f: &memory::Fields, q: memory::IndexQuery) -> Vec<String> {
    let searcher = index.reader().unwrap().searcher();
    let top = searcher.search(&q.inner, &tantivy::collector::TopDocs::with_limit(10)).unwrap();
    let mut out: Vec<String> = top
        .into_iter()
        .map(|(_, at)| {
            let d: tantivy::TantivyDocument = searcher.doc(at).unwrap();
            d.get_first(tantivy::schema::Field::from_field_id(f.id)).unwrap().as_str().unwrap().to_string()
        })
        .collect();
    out.sort();
    out
}

#[test]
fn questions_find_what_they_ask_for() {
    let (index, f) = filled_index();
    let ask = |text: &str, archive: bool, session: Option<&str>| {
        ids(&index, &f, memory::search_query(&index.schema(), &f, text, archive, session.map(|s| s.to_string())))
    };
    assert_eq!(ask("chat", true, None), ["m1", "m2", "m4"]);
    assert_eq!(ask("chat", true, Some("s1")), ["m1", "m2", "m4"]);
    assert_eq!(ask("chat", false, None), ["m1", "m4"]);
    assert_eq!(ask("CHAT", false, Some("s1")), ["m4"]);
    assert_eq!(ask("user", false, None), ["m1", "m3", "m4"]);
    assert_eq!(ask("chat dort", true, None), ["m1", "m2", "m3", "m4"]);
    assert_eq!(ask("+chat +dort", true, None), ["m1"]);
    assert_eq!(ask("id:m3", false, None), ["m3"]);
    assert_eq!(ask("", true, None), [""; 0]);
    let asked = memory::ask_index(&index.schema(), "chat", false, Some("s1".to_string())).ok().unwrap();
    assert_eq!(ids(&index, &f, asked), ["m4"]);
    assert_eq!(memory::ask_index(&index.schema(), "a:(b^2)", false, None).err().as_deref(), Some("requête illisible"));
    assert_eq!(
        memory::ask_index(&schema(&FIELDS[..2]), "chat", false, None).err().as_deref(),
        Some("champ 'ts_epoch' absent du schema Tantivy")
    );
    assert_eq!(ids(&index, &f, memory::entry_query(&f, "m2")), ["m2"]);
    assert_eq!(ids(&index, &f, memory::entry_query(&f, "m")), [""; 0]);
}

#[test]
fn the_archive_only_adds_rows() {
    let found = |sorts: &[&str]| -> Vec<MemorySearchHit> {
        sorts
            .iter()
            .enumerate()
            .filter(|(_, s)| !s.is_empty())
            .map(|(i, s)| {
                let mut h = hit(&format!("m{i}"), &format!("texte {i}"));
                h.source_type = s.to_string();
                h
            })
            .collect()
    };
    let rows = |hits: &Vec<MemorySearchHit>| {
        let scored = memory::merge_hits(hits, &vec![]).into_iter().enumerate().map(|(i, c)| (i as i32 % 2, c)).collect();
        memory::memory_search(scored, &MemorySearchOptions { limit: 3, archive: false })
    };
    let every = rows(&found(&["transcript_hot", "transcript_archive", "memory_daily"]));
    let recent = rows(&found(&["transcript_hot", "", "memory_daily"]));
    assert_eq!((every.len(), recent.len()), (3, 2));
    assert!(recent.iter().all(|r| every.contains(r) && !r.contains("transcript_archive")));
}

#[test]
fn questions_may_nest_only_so_deep() {
    let made = memory::build_schema();
    let f = memory::fields_from_schema(&made).ok().unwrap();
    for (open, close) in [("(", ")"), ("(", ""), ("NOT ", ""), ("(NOT ", ")")] {
        let most = question::MOST_OPENED / if open.len() > 4 { 2 } else { 1 };
        let deep = format!("{}a{}", open.repeat(most), close.repeat(most));
        assert!(question::can_be_read(&deep), "{deep}");
        assert_eq!(memory::query_clauses(&made, &f, &deep, true, None).len(), 1);
        let deeper = format!("{open}{deep}");
        assert!(!question::can_be_read(&deeper), "{deeper}");
        assert_eq!(memory::ask_index(&made, &deeper, true, None).err().as_deref(), Some("requête illisible"));
    }
    assert!(question::can_be_read(&"NOT".repeat(40)));
}

#[test]
fn texts_that_would_halt_the_reader_are_told_apart() {
    let made = memory::build_schema();
    let f = memory::fields_from_schema(&made).ok().unwrap();
    for s in [
        "", "bonjour le monde", "(a b)^2", "a:b^2", "a^2 b:(c d)", "\u{a0}", "x\u{a0}(y)", "(a\u{a0}b)", "a: (b) [c]",
        "note : (x^2)", "a:(b c) d^2", "MARTIN [b\u{a0}c]", "x IN [a b] c\u{a0}d", "a:(l'eau)", "[b\u{a0}c]",
        "role:(\"a^b\")", "role:(x -'a\u{a0}b' \"c\\\"^\"* d) e^2", "x IN [\"a\u{a0}b\" c] d", "a:(l'eau \")\") b^2", "x IN [ a ] b\u{a0}c",
    ] {
        assert!(question::can_be_read(s), "{s}");
        assert_eq!(memory::query_clauses(&made, &f, s, true, None).len(), 1);
    }
    for s in [
        "a:(b^2)", "a:( ^", "a: (b c^2)", "a:\t(^)", "a:(b\u{a0}c)", "x IN [b\u{3000}c]", "IN[\u{b}", "a:(\")\" ^)", "a:(x\"y^z\")", "a:(+ \"y^z\")",
        "x IN [ \"a\u{a0}b\"]", "a:(\"x\"~2 y^2)",
    ] {
        assert!(!question::can_be_read(s), "{s}");
    }
}

#[test]
fn fields_are_found_by_name() {
    let f = memory::fields_from_schema(&schema(&FIELDS)).ok().unwrap();
    assert_eq!([f.id, f.ts, f.ts_epoch, f.role, f.session_id, f.source_type, f.content, f.source_file, f.source_line, f.mention_count], [0, 1, 2, 3, 4, 5, 6, 7, 8, 9]);
    let mut turned = FIELDS;
    turned.reverse();
    let f = memory::fields_from_schema(&schema(&turned)).ok().unwrap();
    assert_eq!((f.id, f.mention_count), (9, 0));
}

#[test]
fn the_first_missing_field_is_named() {
    for n in 0..FIELDS.len() {
        let e = memory::fields_from_schema(&schema(&FIELDS[..n])).err().unwrap();
        assert_eq!(e, format!("champ '{}' absent du schema Tantivy", FIELDS[n]));
    }
}

#[test]
fn an_index_with_another_schema_is_made_anew() {
    assert!(matches!(memory::open_or_create(&None), IndexStep::Create));
    assert!(matches!(memory::open_or_create(&Some(schema(&FIELDS))), IndexStep::Use));
    assert!(matches!(memory::open_or_create(&Some(schema(&FIELDS[..3]))), IndexStep::Recreate));
}

#[test]
fn documents_with_gaps_take_defaults() {
    let empty = StoredDoc {
        id: None, ts: None, role: None, session_id: None, source_type: None, source_file: None,
        source_line: None, mention_count: None, ts_epoch: None, content: None,
    };
    let h = memory::doc_to_hit(empty, 77);
    assert_eq!((h.id.as_str(), h.ts.as_str(), h.role.as_str(), h.content.as_str()), ("?", "?", "?", ""));
    assert_eq!((h.source_line, h.mention_count, h.ts_epoch), (0, 1, 77));
}

#[test]
fn searches_leave_out_the_archive_and_the_current_session() {
    let words = |v: Vec<QueryClause>| -> Vec<String> {
        v.into_iter()
            .map(|c| match c {
                QueryClause::MatchesText(_) => "text".to_string(),
                QueryClause::MatchesAll => "all".to_string(),
                QueryClause::NotOfSort(s) => format!("not {s}"),
                QueryClause::NotFromSession(s) => format!("not from {s}"),
            })
            .collect()
    };
    let made = memory::build_schema();
    let f = memory::fields_from_schema(&made).ok().unwrap();
    let clauses = |archive: bool, session: Option<&str>| {
        words(memory::query_clauses(&made, &f, "chat", archive, session.map(|s| s.to_string())))
    };
    assert_eq!(clauses(true, Some("s")), ["text"]);
    assert_eq!(clauses(false, None), ["text", "all", "not transcript_archive"]);
    assert_eq!(clauses(false, Some("s")), ["text", "all", "not transcript_archive", "not from s"]);
}

#[test]
fn the_current_session_is_on_the_last_filled_line() {
    let lines: Vec<String> = ["a", "b", " ", ""].iter().map(|s| s.to_string()).collect();
    assert_eq!(memory::last_filled_line(&lines), Some("b".to_string()));
    assert_eq!(memory::last_filled_line(&vec![" ".to_string()]), None);
}

#[test]
fn fetch_limits_lie_between_ten_and_two_hundred() {
    assert_eq!(memory::fetch_limit(0), 10);
    assert_eq!(memory::fetch_limit(1), 10);
    assert_eq!(memory::fetch_limit(7), 70);
    assert_eq!(memory::fetch_limit(20), 200);
    assert_eq!(memory::fetch_limit(1000), 200);
    assert_eq!(memory::database_count(0), 3);
    assert_eq!(memory::database_count(10), 30);
    assert_eq!(memory::file_count(0), 1);
    assert_eq!(memory::file_count(10), 10);
}

#[test]
fn ranking_descends_and_is_stable() {
    let items = vec![(1, "a"), (3, "b"), (1, "c"), (3, "d"), (-2, "e"), (2, "f")];
    let mut expected = items.clone();
    expected.sort_by(|x, y| y.0.cmp(&x.0));
    assert_eq!(ranking::rank(items), expected);
    assert_eq!(ranking::rank(Vec::<(i32, u8)>::new()), []);
}

#[test]
fn the_nearest_admitted_entries_are_taken() {
    let mut old = hit("old", "");
    old.source_type = "transcript_archive".to_string();
    let scored = || vec![(1, hit("a", "")), (9, old.copy()), (5, hit("b", ""))];
    let ids = |v: Vec<MemorySearchHit>| -> Vec<String> { v.into_iter().map(|h| h.id).collect() };
    assert_eq!(ids(memory::nearest_hits(scored(), false, 10)), ["b", "a"]);
    assert_eq!(ids(memory::nearest_hits(scored(), true, 2)), ["old", "b"]);
}

#[test]
fn the_file_index_stands_in_for_the_database() {
    assert!(memory::needs_file_index(&Err("x".to_string())));
    assert!(memory::needs_file_index(&Ok(vec![])));
    assert!(!memory::needs_file_index(&Ok(vec![hit("a", "")])));
}

#[test]
fn hits_of_both_lists_become_one_candidate() {
    let lexical = vec![hit("a", "lexical a"), hit("b", "lexical b"), hit("a", "again a")];
    let vector = vec![hit("c", "vector c"), hit("b", "vector b")];
    let merged = memory::merge_hits(&lexical, &vector);
    let rows: Vec<String> = merged
        .iter()
        .map(|c| format!("{} {} {:?} {:?}", c.hit.id, c.hit.content, c.lexical_rank, c.vector_rank))
        .collect();
    assert_eq!(
        rows,
        ["a again a Some(3) None", "b lexical b Some(2) Some(2)", "c vector c None Some(1)"]
    );
}

#[test]
fn scores_depend_on_age_and_source() {
    let mut c = Candidate { hit: hit("a", ""), lexical_rank: Some(1), vector_rank: None };
    let s = memory::score_inputs(&c, 160);
    assert_eq!((s.lexical_rank, s.vector_rank, s.age_seconds, s.half_life_hours), (Some(1), None, 60, 48));
    assert!(!s.stable && !s.archived);
    c.hit.source_type = "memory".to_string();
    let s = memory::score_inputs(&c, 40);
    assert_eq!((s.age_seconds, s.half_life_hours, s.stable), (0, 336, true));
    c.hit.source_type = "transcript_archive".to_string();
    assert!(memory::score_inputs(&c, 40).archived);
}

#[test]
fn rows_are_laid_out() {
    let h = hit("mem-3-00", &"é".repeat(200));
    assert_eq!(memory::search_row(&h), format!("[mem-3-00] [t] (user) [f:3] [mentions=1] {}", "é".repeat(180)));
    assert_eq!(memory::entry_row(&h), format!("[mem-3-00] [t] (user) [f:3] [mentions=1] {}", "é".repeat(200)));
}

#[test]
fn a_look_up_gives_the_whole_entry() {
    assert_eq!(memory::memory_get(None, 0), None);
    let doc = StoredDoc {
        id: Some("i".to_string()), ts: Some("t".to_string()), role: Some("user".to_string()), session_id: None,
        source_type: None, source_file: Some("f".to_string()), source_line: Some(2), mention_count: Some(4),
        ts_epoch: None, content: Some("c".to_string()),
    };
    assert_eq!(memory::memory_get(Some(doc), 0), Some("[i] [t] (user) [f:2] [mentions=4] c".to_string()));
}

#[test]
fn the_best_candidates_come_first() {
    let scored = || -> Vec<(i32, Candidate)> {
        vec![("a", 1), ("b", 5), ("c", 5)]
            .into_iter()
            .map(|(id, k)| (k, Candidate { hit: hit(id, ""), lexical_rank: None, vector_rank: Some(1) }))
            .collect()
    };
    let firsts = |limit: usize| -> Vec<String> {
        memory::memory_search(scored(), &MemorySearchOptions { limit, archive: false })
            .into_iter()
            .map(|r| r[1..2].to_string())
            .collect()
    };
    assert_eq!(firsts(10), ["b", "c", "a"]);
    assert_eq!(firsts(2), ["b", "c"]);
    assert_eq!(firsts(0), ["b"]);
}

#[test]
fn a_second_run_repeats_at_most_the_last_entries() {
    let files = vec![
        file("session-a.jsonl", vec![Some(line("un")), Some(line("deux"))]),
        file("session-b.jsonl", vec![None, None, Some(line("trois")), Some(line("quatre"))]),
    ];
    let first = indexer::run_indexer_once(IndexerState::fresh(), &files, &vec![], 1_000, "t1");
    let known: Vec<String> = first.entries.iter().map(|e| e.id.clone()).collect();
    assert_eq!(known.len(), 4);
    assert_eq!((first.state.last_file.as_deref(), first.state.last_line), (Some("session-b.jsonl"), 2));
    let second = indexer::run_indexer_once(first.state, &files, &vec![], 1_000, "t2");
    let again: Vec<String> = second.entries.iter().map(|e| e.id.clone()).collect();
    assert_eq!(again, known[2..]);
    let first = indexer::run_indexer_once(IndexerState::fresh(), &files, &vec![], 1_000, "t1");
    let late = indexer::run_indexer_once(first.state, &files, &vec![], 2_000_000_000, "t3");
    let tail = &first.entries[2..];
    assert_eq!(late.entries.len(), 2);
    for (a, b) in late.entries.iter().zip(tail) {
        assert_eq!((&a.id, &a.ts, &a.content, a.source_line), (&b.id, &b.ts, &b.content, b.source_line));
    }
}

#[test]
fn normal_forms_do_not_depend_on_layout_and_case() {
    let normal = |s: &str| entries::normalize_for_hash(s);
    assert_eq!(normal("  Le\tChat \n DORT "), "le chat dort");
    assert_eq!(normal("le chat dort"), normal("LE\n\nCHAT\r\nDORT"));
    assert_eq!(normal("Été\u{a0}1"), normal(" Été   1"));
    let once = normal(" A  b\tC ");
    assert_eq!(normal(&once), once);
    assert_eq!(once.split(' ').collect::<Vec<_>>(), ["a", "b", "c"]);
    assert_eq!(normal(" \t "), "");
    assert_eq!(normal("éTÉ Chaud ΟΔΟΣ"), normal("éTÉ  cHAUD\tΟΔΟΣ "));
}

#[test]
fn a_later_run_leaves_the_index_as_it_is() {
    let files = vec![file("session-a.jsonl", vec![None, Some(line("un")), Some(line("deux"))])];
    let notes = || vec![MemoryFile { name: "MEMORY-2026-01-01.md".to_string(), text: "- note\n- Note\n".to_string() }];
    let mut index: std::collections::BTreeMap<String, (String, u64)> = std::collections::BTreeMap::new();
    let first = indexer::run_indexer_once(IndexerState::fresh(), &files, &notes(), 1_000, "t1");
    for e in first.entries {
        index.insert(e.id, (e.content, e.mention_count));
    }
    let before = index.clone();
    assert_eq!(before.len(), 4);
    let second = indexer::run_indexer_once(first.state, &files, &notes(), 2_000_000_000, "t2");
    assert_eq!(second.entries.len(), 3);
    for e in second.entries {
        index.insert(e.id, (e.content, e.mention_count));
    }
    assert_eq!(index, before);
}
