use engine::builder::parse_query;
use engine::error::Error;
use engine::handler::{Action, Event, IndexReaderHandler, Lookup, Request, SearchPlan, State};
use engine::payload::{FieldQueries, QueryPayload, QuerySource};
use engine::query::{Clause, Query, QueryMode, SearchField};
use engine::results::{
    choose_ranking, collect_hits, outranks, Elapsed, FieldValue, NamedDocument, QueryResults,
    Ranking, Ratio,
};
use engine::schema::{FieldKind, SchemaField};
use engine::stop_words::StopWords;

use tantivy::chrono::{TimeZone, Utc};
use tantivy::collector::{Count, TopDocs};
use tantivy::query::{
    BooleanQuery, BoostQuery, EmptyQuery, FuzzyTermQuery, MoreLikeThisQuery, Occur, QueryParser,
    TermQuery,
};
use tantivy::schema::{
    Field, FieldType, IndexRecordOption, NamedFieldDocument, Schema, Value, FAST, INDEXED, STORED,
    TEXT,
};
use tantivy::{DateTime, DocAddress, Document, Executor, Index, LeasedItem, Searcher, Term};

struct Book {
    id: u64,
    title: &'static str,
    body: &'static str,
    likes: i64,
    views: u64,
    rating: f64,
    created: i64,
}

const BOOKS: [Book; 4] = [
    Book {
        id: 1,
        title: "rust in action",
        body: "fast and safe systems",
        likes: -5,
        views: 900,
        rating: 4.5,
        created: 1_000,
    },
    Book {
        id: 2,
        title: "rust for beginners",
        body: "slow and gentle start",
        likes: 40,
        views: 10,
        rating: -1.25,
        created: 3_000,
    },
    Book {
        id: 3,
        title: "hello world",
        body: "the first program of every book",
        likes: 7,
        views: 5_000,
        rating: 0.5,
        created: 2_000,
    },
    Book {
        id: 4,
        title: "cooking at home",
        body: "fast recipes",
        likes: 0,
        views: 42,
        rating: 9.75,
        created: 500,
    },
];

struct Library {
    index: Index,
    searcher: LeasedItem<Searcher>,
    parser: QueryParser,
    schema: engine::schema::Schema,
    title: u32,
    body: u32,
}

fn library() -> Library {
    let mut builder = Schema::builder();
    let title = builder.add_text_field("title", TEXT | STORED);
    let body = builder.add_text_field("body", TEXT | STORED);
    let id = builder.add_u64_field("_id", INDEXED | STORED | FAST);
    let likes = builder.add_i64_field("likes", STORED | FAST);
    let views = builder.add_u64_field("views", STORED | FAST);
    let rating = builder.add_f64_field("rating", STORED | FAST);
    let created = builder.add_date_field("created", STORED | FAST);
    let pages = builder.add_u64_field("pages", STORED);
    let schema = builder.build();
    let index = Index::create_in_ram(schema.clone());
    let mut writer = index.writer_with_num_threads(1, 10_000_000).unwrap();
    for book in BOOKS.iter() {
        let mut doc = Document::default();
        doc.add_text(title, book.title);
        doc.add_text(body, book.body);
        doc.add_u64(id, book.id);
        doc.add_i64(likes, book.likes);
        doc.add_u64(views, book.views);
        doc.add_f64(rating, book.rating);
        doc.add_date(created, &Utc.timestamp_opt(book.created, 0).unwrap());
        doc.add_u64(pages, book.views);
        writer.add_document(doc);
    }
    writer.commit().unwrap();
    let searcher = index.reader().unwrap().searcher();
    let parser = QueryParser::for_index(&index, vec![title, body]);
    let fields = schema
        .fields()
        .map(|(_, entry)| SchemaField {
            fast: entry.is_fast(),
            name: entry.name().to_string(),
            kind: match entry.field_type() {
                FieldType::Str(_) => FieldKind::Str,
                FieldType::U64(_) => FieldKind::U64,
                FieldType::I64(_) => FieldKind::I64,
                FieldType::F64(_) => FieldKind::F64,
                FieldType::Date(_) => FieldKind::Date,
                FieldType::HierarchicalFacet(_) => FieldKind::HierarchicalFacet,
                FieldType::Bytes(_) => FieldKind::Bytes,
            },
        })
        .collect();
    Library {
        index,
        searcher,
        parser,
        schema: engine::schema::Schema { fields },
        title: title.field_id(),
        body: body.field_id(),
    }
}

fn clause_into(clause: &Clause, index: &Index) -> Box<dyn tantivy::query::Query> {
    match clause {
        Clause::FieldParsed { field, text } => {
            let mut parser = QueryParser::for_index(index, vec![Field::from_field_id(*field)]);
            parser.set_conjunction_by_default();
            parser.parse_query(text).unwrap()
        }
        Clause::Term { field, text } => Box::new(TermQuery::new(
            Term::from_field_text(Field::from_field_id(*field), text),
            IndexRecordOption::WithFreqs,
        )),
        Clause::Fuzzy { field, text, distance, transpositions, prefix } => {
            let term = Term::from_field_text(Field::from_field_id(*field), text);
            if *prefix {
                Box::new(FuzzyTermQuery::new_prefix(term, *distance, *transpositions))
            } else {
                Box::new(FuzzyTermQuery::new(term, *distance, *transpositions))
            }
        }
        Clause::Boost { clause, weight } => {
            Box::new(BoostQuery::new(clause_into(clause, index), f32::from_bits(*weight)))
        }
    }
}

fn query_into(query: &Query, library: &Library) -> Box<dyn tantivy::query::Query> {
    match query {
        Query::Empty => Box::new(EmptyQuery {}),
        Query::Parsed(text) => library.parser.parse_query(text).unwrap(),
        Query::Boolean(clauses) => {
            let mut parts: Vec<(Occur, Box<dyn tantivy::query::Query>)> = Vec::new();
            for (occur, clause) in clauses {
                let occur = match occur {
                    engine::query::Occur::Should => Occur::Should,
                    engine::query::Occur::Must => Occur::Must,
                };
                parts.push((occur, clause_into(clause, &library.index)));
            }
            Box::new(BooleanQuery::from(parts))
        }
        Query::MoreLikeThis(similarity) => Box::new(
            MoreLikeThisQuery::builder()
                .with_min_doc_frequency(similarity.min_doc_frequency)
                .with_max_doc_frequency(similarity.max_doc_frequency)
                .with_min_term_frequency(similarity.min_term_frequency)
                .with_min_word_length(similarity.min_word_length)
                .with_max_word_length(similarity.max_word_length)
                .with_boost_factor(f32::from_bits(similarity.boost_factor))
                .with_stop_words(similarity.stop_words.clone())
                .with_document(DocAddress {
                    segment_ord: similarity.document.segment_ord,
                    doc_id: similarity.document.doc_id,
                }),
        ),
    }
}

fn clause_accepted(clause: &Clause, index: &Index) -> bool {
    match clause {
        Clause::FieldParsed { field, text } => {
            let mut parser = QueryParser::for_index(index, vec![Field::from_field_id(*field)]);
            parser.set_conjunction_by_default();
            parser.parse_query(text).is_ok()
        }
        Clause::Boost { clause, .. } => clause_accepted(clause, index),
        _ => true,
    }
}

/// Whether the index's parser accepts every text of the query tree that is
/// meant for it.
fn accepted(query: &Query, library: &Library) -> bool {
    match query {
        Query::Parsed(text) => library.parser.parse_query(text).is_ok(),
        Query::Boolean(clauses) => {
            clauses.iter().all(|(_, clause)| clause_accepted(clause, &library.index))
        }
        _ => true,
    }
}

fn named(doc: NamedFieldDocument) -> NamedDocument {
    let mut out = NamedDocument::new();
    for (name, values) in doc.0 {
        let values = values
            .into_iter()
            .map(|value| match value {
                Value::Str(text) => FieldValue::Str(text),
                Value::PreTokStr(tokenized) => FieldValue::PreTokStr(tokenized.text),
                Value::U64(v) => FieldValue::U64(v),
                Value::I64(v) => FieldValue::I64(v),
                Value::F64(v) => FieldValue::F64(v.to_bits()),
                Value::Date(date) => FieldValue::Date(date.timestamp()),
                Value::Facet(facet) => FieldValue::Facet(facet.to_path_string()),
                Value::Bytes(bytes) => FieldValue::Bytes(bytes),
            })
            .collect();
        out.insert(name, values);
    }
    out
}

fn with_docs<T>(
    found: Vec<(T, DocAddress)>,
    library: &Library,
    ratio: impl Fn(T) -> Ratio,
) -> Vec<(Ratio, NamedDocument)> {
    found
        .into_iter()
        .map(|(value, address)| {
            let doc = library.searcher.doc(address).unwrap();
            (ratio(value), named(library.index.schema().to_named_doc(&doc)))
        })
        .collect()
}

fn run(plan: &SearchPlan, library: &Library) -> (Vec<(Ratio, NamedDocument)>, usize) {
    let query = query_into(&plan.query, library);
    let top = TopDocs::with_limit(plan.limit).and_offset(plan.offset);
    let executor = Executor::single_thread();
    let searcher = &library.searcher;
    match plan.ranking {
        Ranking::Score => {
            let (found, count) =
                searcher.search_with_executor(&*query, &(top, Count), &executor).unwrap();
            (with_docs(found, library, |s: f32| Ratio::Score(s.to_bits())), count)
        }
        Ranking::Signed(field) => {
            let collector = top.order_by_fast_field::<i64>(Field::from_field_id(field));
            let (found, count) =
                searcher.search_with_executor(&*query, &(collector, Count), &executor).unwrap();
            (with_docs(found, library, Ratio::Signed), count)
        }
        Ranking::Unsigned(field) => {
            let collector = top.order_by_fast_field::<u64>(Field::from_field_id(field));
            let (found, count) =
                searcher.search_with_executor(&*query, &(collector, Count), &executor).unwrap();
            (with_docs(found, library, Ratio::Unsigned), count)
        }
        Ranking::Float(field) => {
            let collector = top.order_by_fast_field::<f64>(Field::from_field_id(field));
            let (found, count) =
                searcher.search_with_executor(&*query, &(collector, Count), &executor).unwrap();
            (with_docs(found, library, |v: f64| Ratio::Float(v.to_bits())), count)
        }
        Ranking::Timestamp(field) => {
            let collector = top.order_by_fast_field::<DateTime>(Field::from_field_id(field));
            let (found, count) =
                searcher.search_with_executor(&*query, &(collector, Count), &executor).unwrap();
            (with_docs(found, library, |d: DateTime| Ratio::Timestamp(d.timestamp())), count)
        }
    }
}

fn look_up(lookup: Lookup, library: &Library) -> Vec<engine::query::DocAddress> {
    let term = Term::from_field_u64(Field::from_field_id(lookup.field), lookup.id);
    library
        .searcher
        .search_with_executor(
            &TermQuery::new(term, IndexRecordOption::Basic),
            &TopDocs::with_limit(1),
            &Executor::single_thread(),
        )
        .unwrap()
        .into_iter()
        .map(|(_, a)| engine::query::DocAddress { segment_ord: a.segment_ord, doc_id: a.doc_id })
        .collect()
}

fn fix_typos(text: &String, _distance: usize) -> String {
    if text == "helo wrold" {
        "hello world".to_string()
    } else {
        text.clone()
    }
}

fn stop_words() -> StopWords {
    StopWords { words: vec!["the".to_string(), "of".to_string(), "and".to_string()] }
}

fn handler(library: &Library, use_fast_fuzzy: bool) -> IndexReaderHandler {
    IndexReaderHandler::create(
        "books".to_string(),
        2,
        1,
        vec![
            SearchField { field: library.title, boost: 2.0f32.to_bits() },
            SearchField { field: library.body, boost: 0 },
        ],
        engine::schema::Schema {
            fields: library
                .schema
                .fields
                .iter()
                .map(|f| SchemaField { name: f.name.clone(), kind: f.kind, fast: f.fast })
                .collect(),
        },
        use_fast_fuzzy,
        true,
    )
}

fn payload(mode: QueryMode, query: Option<&str>) -> QueryPayload {
    QueryPayload {
        query: query.map(|q| q.to_string()),
        map: FieldQueries::new(),
        document: None,
        mode,
        order_by: None,
        limit: 10,
        offset: 0,
    }
}

/// Plays the outside world for a request until it is answered.
fn serve(library: &Library, handler: &IndexReaderHandler, request: Request) -> Action {
    let stop = stop_words();
    let (mut state, action) = match request {
        Request::Get(id) => handler.get_doc(id),
        Request::Search(payload) => handler.search(payload),
        Request::Shutdown => handler.shutdown(),
    };
    assert!(matches!(action, Action::Acquire { .. }));
    let mut event = Event::Admitted;
    loop {
        let (next, action) = handler.step(state, event, true, Some(&stop), fix_typos);
        state = next;
        event = match action {
            Action::LookUp(lookup) => Event::Located(look_up(lookup, library)),
            Action::Fetch(address) => {
                let doc = library
                    .searcher
                    .doc(DocAddress { segment_ord: address.segment_ord, doc_id: address.doc_id })
                    .unwrap();
                Event::Fetched(named(library.index.schema().to_named_doc(&doc)))
            }
            Action::Compile(query) => {
                if accepted(&query, library) {
                    Event::Compiled(query)
                } else {
                    Event::Malformed
                }
            }
            Action::Run(plan) => {
                let (matches, count) = run(&plan, library);
                Event::Matched { matches, count, elapsed: Elapsed { secs: 0, subsec_nanos: 7 } }
            }
            done => {
                assert_eq!(state, State::Done);
                return done;
            }
        };
    }
}

fn search(library: &Library, use_fast_fuzzy: bool, request: QueryPayload) -> QueryResults {
    match serve(library, &handler(library, use_fast_fuzzy), Request::Search(request)) {
        Action::ReplyResults(results) => results,
        other => panic!("no results: {:?}", other),
    }
}

fn ids(results: &QueryResults) -> Vec<String> {
    let mut ids: Vec<String> = results.hits.iter().map(|h| h.document_id.clone()).collect();
    ids.sort();
    ids
}

#[test]
fn normal_query_matches_what_the_parser_matches() {
    let library = library();
    for text in ["rust", "title:rust AND body:fast", "fast OR hello", "\"hello world\""] {
        let results = search(&library, false, payload(QueryMode::Normal, Some(text)));
        let direct = library.parser.parse_query(text).unwrap();
        let found = library.searcher.search(&*direct, &TopDocs::with_limit(10)).unwrap();
        assert_eq!(results.hits.len(), found.len());
        for (hit, (score, address)) in results.hits.iter().zip(found) {
            assert_eq!(hit.ratio, Ratio::Score(score.to_bits()));
            let doc = library.searcher.doc(address).unwrap();
            let doc = named(library.index.schema().to_named_doc(&doc));
            assert_eq!(
                doc.get(&"_id".to_string()),
                Some(&vec![FieldValue::U64(hit.document_id.parse().unwrap())])
            );
        }
    }
}

#[test]
fn per_field_queries_must_all_match() {
    let library = library();
    let mut request = payload(QueryMode::Normal, None);
    request.map.insert("title".to_string(), "rust".to_string());
    request.map.insert("body".to_string(), "fast".to_string());
    let results = search(&library, false, request);
    assert_eq!(ids(&results), vec!["1".to_string()]);
    assert_eq!(results.count, 1);
}

#[test]
fn per_field_query_joins_its_terms_with_and() {
    let library = library();
    let mut request = payload(QueryMode::Normal, None);
    request.map.insert("title".to_string(), "rust beginners".to_string());
    let results = search(&library, false, request);
    assert_eq!(ids(&results), vec!["2".to_string()]);
}

#[test]
fn per_field_queries_pass_over_unknown_fields() {
    let library = library();
    let mut request = payload(QueryMode::Normal, None);
    request.map.insert("title".to_string(), "rust".to_string());
    request.map.insert("publisher".to_string(), "nobody".to_string());
    let results = search(&library, false, request);
    assert_eq!(ids(&results), vec!["1".to_string(), "2".to_string()]);
}

#[test]
fn fuzzy_query_tolerates_one_substitution_only() {
    let library = library();
    let one = search(&library, false, payload(QueryMode::Fuzzy, Some("rusk")));
    assert_eq!(ids(&one), vec!["1".to_string(), "2".to_string()]);
    let two = search(&library, false, payload(QueryMode::Fuzzy, Some("rxzt")));
    assert!(two.hits.is_empty());
    assert_eq!(two.count, 0);
}

#[test]
fn fuzzy_query_matches_any_term_in_any_field() {
    let library = library();
    let results = search(&library, false, payload(QueryMode::Fuzzy, Some("Cooking FAST")));
    assert_eq!(ids(&results), vec!["1".to_string(), "4".to_string()]);
}

#[test]
fn fast_fuzzy_query_searches_the_corrected_words() {
    let library = library();
    let results = search(&library, true, payload(QueryMode::Fuzzy, Some("helo wrold")));
    assert_eq!(ids(&results), vec!["3".to_string()]);
    let built = parse_query(
        &library.schema,
        &vec![SearchField { field: library.title, boost: 0 }],
        Some(QuerySource::Text("helo wrold".to_string())),
        None,
        QueryMode::Fuzzy,
        true,
        false,
        Some(&stop_words()),
        fix_typos,
    )
    .unwrap();
    assert_eq!(
        built,
        Query::Boolean(vec![
            (
                engine::query::Occur::Should,
                Clause::Term { field: library.title, text: "hello".to_string() }
            ),
            (
                engine::query::Occur::Should,
                Clause::Term { field: library.title, text: "world".to_string() }
            ),
        ])
    );
}

#[test]
fn fast_fuzzy_query_of_empty_text_matches_nothing() {
    let library = library();
    let results = search(&library, true, payload(QueryMode::Fuzzy, Some("")));
    assert!(results.hits.is_empty());
    assert_eq!(results.count, 0);
}

#[test]
fn fast_fuzzy_query_leaves_stop_words_out() {
    let library = library();
    let with_stop_word = search(&library, true, payload(QueryMode::Fuzzy, Some("the rust")));
    assert_eq!(ids(&with_stop_word), vec!["1".to_string(), "2".to_string()]);
    let stop_word_alone = search(&library, true, payload(QueryMode::Fuzzy, Some("the")));
    assert_eq!(ids(&stop_word_alone), vec!["3".to_string()]);
}

#[test]
fn get_document_by_identifier() {
    let library = library();
    match serve(&library, &handler(&library, false), Request::Get(3)) {
        Action::ReplyDocument(doc) => {
            assert_eq!(
                doc.get(&"title".to_string()),
                Some(&vec![FieldValue::Str("hello world".to_string())])
            );
            assert_eq!(doc.get(&"_id".to_string()), Some(&vec![FieldValue::U64(3)]));
        }
        other => panic!("no document: {:?}", other),
    }
}

#[test]
fn get_document_that_does_not_exist() {
    let library = library();
    let action = serve(&library, &handler(&library, false), Request::Get(99));
    assert_eq!(action, Action::Fail(Error::NoSuchDocument));
}

#[test]
fn more_like_this_without_reference_fails_every_time() {
    let library = library();
    for _ in 0..3 {
        let action = serve(
            &library,
            &handler(&library, false),
            Request::Search(payload(QueryMode::MoreLikeThis, None)),
        );
        assert_eq!(action, Action::Fail(Error::MissingReferenceDocument));
    }
}

#[test]
fn more_like_this_with_unknown_reference_fails() {
    let library = library();
    let mut request = payload(QueryMode::MoreLikeThis, None);
    request.document = Some(99);
    let action = serve(&library, &handler(&library, false), Request::Search(request));
    assert_eq!(action, Action::Fail(Error::NoSuchDocument));
}

#[test]
fn more_like_this_runs_against_the_reference_document() {
    let library = library();
    let mut request = payload(QueryMode::MoreLikeThis, None);
    request.document = Some(1);
    let results = search(&library, false, request);
    assert!(ids(&results).contains(&"1".to_string()));
}

fn ordered(library: &Library, field: &str) -> Vec<(String, Ratio)> {
    let mut request = payload(QueryMode::Normal, Some("rust OR hello OR cooking"));
    request.order_by = Some(field.to_string());
    let results = search(library, false, request);
    assert_eq!(results.count, 4);
    for pair in results.hits.windows(2) {
        assert!(outranks(pair[0].ratio, pair[1].ratio));
    }
    results.hits.iter().map(|h| (h.document_id.clone(), h.ratio)).collect()
}

#[test]
fn ordering_by_a_signed_field() {
    let library = library();
    assert_eq!(
        ordered(&library, "likes"),
        vec![
            ("2".to_string(), Ratio::Signed(40)),
            ("3".to_string(), Ratio::Signed(7)),
            ("4".to_string(), Ratio::Signed(0)),
            ("1".to_string(), Ratio::Signed(-5)),
        ]
    );
}

#[test]
fn ordering_by_an_unsigned_field() {
    let library = library();
    assert_eq!(
        ordered(&library, "views"),
        vec![
            ("3".to_string(), Ratio::Unsigned(5_000)),
            ("1".to_string(), Ratio::Unsigned(900)),
            ("4".to_string(), Ratio::Unsigned(42)),
            ("2".to_string(), Ratio::Unsigned(10)),
        ]
    );
}

#[test]
fn ordering_by_a_float_field() {
    let library = library();
    assert_eq!(
        ordered(&library, "rating"),
        vec![
            ("4".to_string(), Ratio::Float(9.75f64.to_bits())),
            ("1".to_string(), Ratio::Float(4.5f64.to_bits())),
            ("3".to_string(), Ratio::Float(0.5f64.to_bits())),
            ("2".to_string(), Ratio::Float((-1.25f64).to_bits())),
        ]
    );
}

#[test]
fn ordering_by_a_timestamp_field() {
    let library = library();
    assert_eq!(
        ordered(&library, "created"),
        vec![
            ("2".to_string(), Ratio::Timestamp(3_000)),
            ("3".to_string(), Ratio::Timestamp(2_000)),
            ("1".to_string(), Ratio::Timestamp(1_000)),
            ("4".to_string(), Ratio::Timestamp(500)),
        ]
    );
}

#[test]
fn ordering_by_a_text_field_is_refused() {
    let library = library();
    let mut request = payload(QueryMode::Normal, Some("rust"));
    request.order_by = Some("title".to_string());
    let action = serve(&library, &handler(&library, false), Request::Search(request));
    assert_eq!(action, Action::Fail(Error::NotFastField));
    assert_eq!(
        choose_ranking(&library.schema, Some(library.title)),
        Err(Error::NotFastField)
    );
}

#[test]
fn ordering_by_a_number_without_fast_access_is_refused() {
    let library = library();
    let mut request = payload(QueryMode::Normal, Some("rust"));
    request.order_by = Some("pages".to_string());
    let action = serve(&library, &handler(&library, false), Request::Search(request));
    assert_eq!(action, Action::Fail(Error::NotFastField));
}

#[test]
fn malformed_text_is_refused() {
    let library = library();
    let action = serve(
        &library,
        &handler(&library, false),
        Request::Search(payload(QueryMode::Normal, Some("title:(rust"))),
    );
    assert_eq!(action, Action::Fail(Error::MalformedQuery));
    let mut request = payload(QueryMode::Normal, None);
    request.map.insert("title".to_string(), "\"rust".to_string());
    let action = serve(&library, &handler(&library, false), Request::Search(request));
    assert_eq!(action, Action::Fail(Error::MalformedQuery));
}

#[test]
fn malformed_text_is_reported_before_a_field_that_cannot_rank() {
    let library = library();
    let mut request = payload(QueryMode::Normal, Some("title:(rust"));
    request.order_by = Some("title".to_string());
    let action = serve(&library, &handler(&library, false), Request::Search(request));
    assert_eq!(action, Action::Fail(Error::MalformedQuery));
}

#[test]
fn fuzzy_query_cuts_at_tabs_and_line_breaks() {
    let library = library();
    let results = search(&library, false, payload(QueryMode::Fuzzy, Some("cooking\tgentle\nxyz")));
    assert_eq!(ids(&results), vec!["2".to_string(), "4".to_string()]);
}

#[test]
fn ordering_by_an_unknown_field_falls_back_to_the_score() {
    let library = library();
    let mut request = payload(QueryMode::Normal, Some("rust"));
    request.order_by = Some("nothing".to_string());
    let results = search(&library, false, request);
    assert_eq!(ids(&results), vec!["1".to_string(), "2".to_string()]);
    assert!(results.hits.iter().all(|h| matches!(h.ratio, Ratio::Score(_))));
}

#[test]
fn limit_and_offset_cut_the_hits_not_the_count() {
    let library = library();
    let mut request = payload(QueryMode::Normal, Some("rust OR hello OR cooking"));
    request.order_by = Some("views".to_string());
    request.limit = 2;
    request.offset = 1;
    let results = search(&library, false, request);
    assert_eq!(results.count, 4);
    let found: Vec<&str> = results.hits.iter().map(|h| h.document_id.as_str()).collect();
    assert_eq!(found, vec!["1", "4"]);
    assert_eq!(results.time_taken, Elapsed { secs: 0, subsec_nanos: 7 });
}

#[test]
fn hits_carry_the_document_without_its_identifier() {
    let library = library();
    let (matches, count) = run(
        &SearchPlan {
            query: Query::Parsed("cooking".to_string()),
            ranking: Ranking::Score,
            limit: 5,
            offset: 0,
        },
        &library,
    );
    let results = collect_hits(matches, count).unwrap();
    assert_eq!(results.hits.len(), 1);
    let hit = &results.hits[0];
    assert_eq!(hit.document_id, "4");
    assert_eq!(hit.doc.get(&"_id".to_string()), None);
    assert_eq!(
        hit.doc.get(&"title".to_string()),
        Some(&vec![FieldValue::Str("cooking at home".to_string())])
    );
    assert_eq!(hit.doc.get(&"likes".to_string()), Some(&vec![FieldValue::I64(0)]));
    assert_eq!(hit.doc.get(&"created".to_string()), Some(&vec![FieldValue::Date(500)]));
}
