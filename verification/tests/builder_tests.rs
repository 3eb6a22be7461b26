use engine::builder::{
    fast_fuzzy_terms, field_map_query, fuzzy_terms, parse_fast_fuzzy_query, parse_fuzzy_query,
    parse_more_like_this, parse_query,
};
use engine::error::Error;
use engine::payload::{FieldQueries, QuerySource};
use engine::query::{boosts, Clause, DocAddress, Occur, Query, QueryMode, SearchField, Similarity};
use engine::schema::{FieldKind, Schema, SchemaField};
use engine::stop_words::StopWords;

fn same(s: &String, _distance: usize) -> String {
    s.clone()
}

fn fix_typos(s: &String, _distance: usize) -> String {
    if s == "helo wrold" {
        "hello world".to_string()
    } else {
        s.clone()
    }
}

fn plain(field: u32) -> SearchField {
    SearchField { field, boost: 0.0f32.to_bits() }
}

fn weighted(field: u32, weight: f32) -> SearchField {
    SearchField { field, boost: weight.to_bits() }
}

fn term(field: u32, text: &str) -> (Occur, Clause) {
    (Occur::Should, Clause::Term { field, text: text.to_string() })
}

fn fuzzy(field: u32, text: &str) -> (Occur, Clause) {
    (
        Occur::Should,
        Clause::Fuzzy {
            field,
            text: text.to_string(),
            distance: 1,
            transpositions: true,
            prefix: true,
        },
    )
}

fn schema() -> Schema {
    Schema {
        fields: vec![
            SchemaField { name: "title".to_string(), kind: FieldKind::Str, fast: false },
            SchemaField { name: "body".to_string(), kind: FieldKind::Str, fast: false },
            SchemaField { name: "_id".to_string(), kind: FieldKind::U64, fast: true },
        ],
    }
}

fn stop_words() -> StopWords {
    StopWords { words: vec!["the".to_string(), "a".to_string(), "of".to_string()] }
}

#[test]
fn weight_is_positive_only_above_zero() {
    assert!(boosts(1.0f32.to_bits()));
    assert!(boosts(0.5f32.to_bits()));
    assert!(boosts(f32::MIN_POSITIVE.to_bits()));
    assert!(boosts(f32::INFINITY.to_bits()));
    assert!(boosts(1));
    assert!(!boosts(0.0f32.to_bits()));
    assert!(!boosts((-0.0f32).to_bits()));
    assert!(!boosts((-1.0f32).to_bits()));
    assert!(!boosts(f32::NEG_INFINITY.to_bits()));
    assert!(!boosts(f32::NAN.to_bits()));
}

#[test]
fn weight_test_agrees_with_float_comparison() {
    for w in [0.0f32, -0.0, 1.0, -1.0, 2.5, 1e-40, -1e-40, f32::MAX, f32::MIN, f32::INFINITY] {
        assert_eq!(boosts(w.to_bits()), w > 0.0f32);
    }
}

#[test]
fn fuzzy_query_has_one_clause_per_term_and_field() {
    let built = parse_fuzzy_query(&"hello world".to_string(), &vec![plain(0), plain(1)]);
    assert_eq!(
        built,
        Query::Boolean(vec![
            fuzzy(0, "hello"),
            fuzzy(1, "hello"),
            fuzzy(0, "world"),
            fuzzy(1, "world"),
        ])
    );
}

#[test]
fn fuzzy_query_tolerates_one_edit_on_a_prefix() {
    let built = parse_fuzzy_query(&"helo".to_string(), &vec![plain(4)]);
    match built {
        Query::Boolean(clauses) => {
            assert_eq!(clauses.len(), 1);
            match &clauses[0].1 {
                Clause::Fuzzy { field, text, distance, transpositions, prefix } => {
                    assert_eq!(*field, 4);
                    assert_eq!(text, "helo");
                    assert_eq!(*distance, 1);
                    assert!(*transpositions);
                    assert!(*prefix);
                }
                other => panic!("not a fuzzy clause: {:?}", other),
            }
        }
        other => panic!("not a boolean query: {:?}", other),
    }
}

#[test]
fn fuzzy_query_lower_cases_the_text() {
    let built = parse_fuzzy_query(&"HeLLo WÖRLD".to_string(), &vec![plain(0)]);
    assert_eq!(built, Query::Boolean(vec![fuzzy(0, "hello"), fuzzy(0, "wörld")]));
}

#[test]
fn fuzzy_query_skips_empty_terms() {
    let built = parse_fuzzy_query(&"  a   b ".to_string(), &vec![plain(0)]);
    assert_eq!(built, Query::Boolean(vec![fuzzy(0, "a"), fuzzy(0, "b")]));
    assert_eq!(parse_fuzzy_query(&"".to_string(), &vec![plain(0)]), Query::Boolean(vec![]));
    assert_eq!(parse_fuzzy_query(&"   ".to_string(), &vec![plain(0)]), Query::Boolean(vec![]));
}

#[test]
fn fuzzy_query_cuts_at_any_white_space() {
    let built = parse_fuzzy_query(&"hello\tworld".to_string(), &vec![plain(3)]);
    assert_eq!(built, Query::Boolean(vec![fuzzy(3, "hello"), fuzzy(3, "world")]));
    let built = parse_fuzzy_query(&"a\n\tb\u{a0}c \r\n".to_string(), &vec![plain(3)]);
    assert_eq!(built, Query::Boolean(vec![fuzzy(3, "a"), fuzzy(3, "b"), fuzzy(3, "c")]));
}

#[test]
fn fuzzy_terms_take_the_text_as_it_is() {
    let built = fuzzy_terms(&"Hello  wOrld".to_string(), &vec![plain(0), plain(1)]);
    assert_eq!(
        built,
        Query::Boolean(vec![
            fuzzy(0, "Hello"),
            fuzzy(1, "Hello"),
            fuzzy(0, "wOrld"),
            fuzzy(1, "wOrld"),
        ])
    );
    assert_eq!(fuzzy_terms(&"".to_string(), &vec![plain(0)]), Query::Boolean(vec![]));
}

#[test]
fn fast_fuzzy_cuts_at_any_white_space_and_keeps_empty_words() {
    let built =
        fast_fuzzy_terms(&"hello\tworld\n".to_string(), &vec![plain(0)], false, &stop_words());
    assert_eq!(built, Query::Boolean(vec![term(0, "hello"), term(0, "world"), term(0, "")]));
}

#[test]
fn fuzzy_query_without_fields_has_no_clause() {
    assert_eq!(parse_fuzzy_query(&"a b".to_string(), &vec![]), Query::Boolean(vec![]));
}

#[test]
fn positive_weight_wraps_the_clause_in_a_boost() {
    let built = parse_fuzzy_query(&"a".to_string(), &vec![weighted(0, 2.0), plain(1)]);
    assert_eq!(
        built,
        Query::Boolean(vec![
            (
                Occur::Should,
                Clause::Boost { clause: Box::new(fuzzy(0, "a").1), weight: 2.0f32.to_bits() }
            ),
            fuzzy(1, "a"),
        ])
    );
}

#[test]
fn negative_weight_does_not_boost() {
    let built = parse_fuzzy_query(&"a".to_string(), &vec![weighted(0, -2.0)]);
    assert_eq!(built, Query::Boolean(vec![fuzzy(0, "a")]));
}

#[test]
fn fast_fuzzy_searches_the_corrected_words() {
    let built = parse_fast_fuzzy_query(
        &"helo wrold".to_string(),
        &vec![plain(0), weighted(1, 1.5)],
        false,
        Some(&stop_words()),
        fix_typos,
    );
    assert_eq!(
        built,
        Ok(Query::Boolean(vec![
            term(0, "hello"),
            (
                Occur::Should,
                Clause::Boost { clause: Box::new(term(1, "hello").1), weight: 1.5f32.to_bits() }
            ),
            term(0, "world"),
            (
                Occur::Should,
                Clause::Boost { clause: Box::new(term(1, "world").1), weight: 1.5f32.to_bits() }
            ),
        ]))
    );
}

#[test]
fn fast_fuzzy_of_empty_text_matches_nothing() {
    let built = parse_fast_fuzzy_query(&"".to_string(), &vec![plain(0)], true, None, same);
    assert_eq!(built, Ok(Query::Empty));
}

#[test]
fn fast_fuzzy_needs_stop_words() {
    let built = parse_fast_fuzzy_query(&"a".to_string(), &vec![plain(0)], false, None, same);
    assert_eq!(built, Err(Error::StopWordsUnavailable));
}

#[test]
fn fast_fuzzy_does_not_lower_case() {
    let built = fast_fuzzy_terms(&"Hello".to_string(), &vec![plain(0)], true, &stop_words());
    assert_eq!(built, Query::Boolean(vec![term(0, "Hello")]));
}

#[test]
fn stop_words_are_taken_out_beside_other_words() {
    let built =
        fast_fuzzy_terms(&"the house of cards".to_string(), &vec![plain(0)], true, &stop_words());
    assert_eq!(built, Query::Boolean(vec![term(0, "house"), term(0, "cards")]));
}

#[test]
fn stop_words_stay_when_stripping_is_off() {
    let built =
        fast_fuzzy_terms(&"the house".to_string(), &vec![plain(0)], false, &stop_words());
    assert_eq!(built, Query::Boolean(vec![term(0, "the"), term(0, "house")]));
}

#[test]
fn a_query_of_stop_words_alone_keeps_them_all() {
    let built = fast_fuzzy_terms(&"the of a".to_string(), &vec![plain(0)], true, &stop_words());
    assert_eq!(built, Query::Boolean(vec![term(0, "the"), term(0, "of"), term(0, "a")]));
}

#[test]
fn a_single_stop_word_is_kept() {
    let built = fast_fuzzy_terms(&"the".to_string(), &vec![plain(0)], true, &stop_words());
    assert_eq!(built, Query::Boolean(vec![term(0, "the")]));
}

#[test]
fn an_empty_word_counts_as_a_word_that_is_no_stop_word() {
    let built = fast_fuzzy_terms(&"the ".to_string(), &vec![plain(0)], true, &stop_words());
    assert_eq!(built, Query::Boolean(vec![term(0, "")]));
}

#[test]
fn similarity_query_has_fixed_bounds() {
    let document = DocAddress { segment_ord: 2, doc_id: 9 };
    let built = parse_more_like_this(document, Some(&stop_words()));
    assert_eq!(
        built,
        Ok(Query::MoreLikeThis(Similarity {
            document,
            min_doc_frequency: 1,
            max_doc_frequency: 10,
            min_term_frequency: 1,
            min_word_length: 2,
            max_word_length: 18,
            boost_factor: 1.0f32.to_bits(),
            stop_words: vec!["the".to_string(), "a".to_string(), "of".to_string()],
        }))
    );
}

#[test]
fn similarity_query_needs_stop_words() {
    let document = DocAddress { segment_ord: 0, doc_id: 0 };
    assert_eq!(parse_more_like_this(document, None), Err(Error::StopWordsUnavailable));
}

#[test]
fn field_map_query_requires_every_known_field() {
    let title = "title".to_string();
    let body = "body".to_string();
    let unknown = "unknown".to_string();
    let q1 = "rust".to_string();
    let q2 = "verified code".to_string();
    let q3 = "x".to_string();
    let pairs = vec![(&title, &q1), (&unknown, &q3), (&body, &q2)];
    let built = field_map_query(&schema(), &pairs);
    assert_eq!(
        built,
        Query::Boolean(vec![
            (Occur::Must, Clause::FieldParsed { field: 0, text: "rust".to_string() }),
            (Occur::Must, Clause::FieldParsed { field: 1, text: "verified code".to_string() }),
        ])
    );
}

fn build(
    source: Option<QuerySource>,
    reference: Option<DocAddress>,
    mode: QueryMode,
    fast: bool,
) -> Result<Query, Error> {
    parse_query(
        &schema(),
        &vec![plain(0)],
        source,
        reference,
        mode,
        fast,
        true,
        Some(&stop_words()),
        fix_typos,
    )
}

#[test]
fn normal_mode_hands_the_text_to_the_parser() {
    let built = build(
        Some(QuerySource::Text("title:rust AND body:\"safe code\"".to_string())),
        None,
        QueryMode::Normal,
        true,
    );
    assert_eq!(built, Ok(Query::Parsed("title:rust AND body:\"safe code\"".to_string())));
}

#[test]
fn normal_mode_without_source_fails() {
    assert_eq!(build(None, None, QueryMode::Normal, false), Err(Error::NormalWithoutQuery));
}

#[test]
fn normal_mode_with_field_map_requires_all_fields() {
    let mut map = FieldQueries::new();
    map.insert("title".to_string(), "rust".to_string());
    map.insert("body".to_string(), "safe".to_string());
    map.insert("nowhere".to_string(), "lost".to_string());
    let built = build(Some(QuerySource::Fields(map)), None, QueryMode::Normal, false);
    match built {
        Ok(Query::Boolean(mut clauses)) => {
            clauses.sort_by_key(|c| match &c.1 {
                Clause::FieldParsed { field, .. } => *field,
                _ => u32::MAX,
            });
            assert_eq!(
                clauses,
                vec![
                    (Occur::Must, Clause::FieldParsed { field: 0, text: "rust".to_string() }),
                    (Occur::Must, Clause::FieldParsed { field: 1, text: "safe".to_string() }),
                ]
            );
        }
        other => panic!("not a boolean query: {:?}", other),
    }
}

#[test]
fn fuzzy_mode_without_text_fails() {
    assert_eq!(build(None, None, QueryMode::Fuzzy, false), Err(Error::FuzzyWithoutQuery));
    assert_eq!(build(None, None, QueryMode::Fuzzy, true), Err(Error::FuzzyWithoutQuery));
}

#[test]
fn fuzzy_mode_with_field_map_fails() {
    let mut map = FieldQueries::new();
    map.insert("title".to_string(), "rust".to_string());
    assert_eq!(
        build(Some(QuerySource::Fields(map)), None, QueryMode::Fuzzy, false),
        Err(Error::FuzzyWithoutQuery)
    );
}

#[test]
fn fuzzy_mode_goes_by_edit_distance_or_by_correction() {
    let slow = build(
        Some(QuerySource::Text("helo wrold".to_string())),
        None,
        QueryMode::Fuzzy,
        false,
    );
    assert_eq!(slow, Ok(Query::Boolean(vec![fuzzy(0, "helo"), fuzzy(0, "wrold")])));
    let fast = build(
        Some(QuerySource::Text("helo wrold".to_string())),
        None,
        QueryMode::Fuzzy,
        true,
    );
    assert_eq!(fast, Ok(Query::Boolean(vec![term(0, "hello"), term(0, "world")])));
}

#[test]
fn more_like_this_without_reference_fails() {
    assert_eq!(
        build(None, None, QueryMode::MoreLikeThis, false),
        Err(Error::MissingReferenceDocument)
    );
    assert_eq!(
        build(Some(QuerySource::Text("x".to_string())), None, QueryMode::MoreLikeThis, true),
        Err(Error::MissingReferenceDocument)
    );
}

#[test]
fn more_like_this_ignores_the_query_source() {
    let document = DocAddress { segment_ord: 1, doc_id: 3 };
    let built = build(
        Some(QuerySource::Text("x".to_string())),
        Some(document),
        QueryMode::MoreLikeThis,
        false,
    );
    match built {
        Ok(Query::MoreLikeThis(similarity)) => assert_eq!(similarity.document, document),
        other => panic!("not a similarity query: {:?}", other),
    }
}

#[test]
fn a_mode_is_never_replaced_by_another() {
    let document = DocAddress { segment_ord: 1, doc_id: 3 };
    assert_eq!(
        build(None, Some(document), QueryMode::Normal, false),
        Err(Error::NormalWithoutQuery)
    );
    assert_eq!(
        build(None, Some(document), QueryMode::Fuzzy, false),
        Err(Error::FuzzyWithoutQuery)
    );
}

#[test]
fn error_messages() {
    assert_eq!(
        Error::NormalWithoutQuery.message(),
        "query mode was `Normal` but query string is `None`"
    );
    assert_eq!(
        Error::FuzzyWithoutQuery.message(),
        "query mode was `Fuzzy` but query string is `None`"
    );
    assert_eq!(
        Error::MissingReferenceDocument.message(),
        "query mode was `MoreLikeThis` but reference document is `None`"
    );
    assert_eq!(Error::NoSuchDocument.message(), "no document exists with this id");
    assert_eq!(Error::NotFastField.message(), "field is not a fast field");
    assert_eq!(
        Error::MissingIdField.message(),
        "missing a required private field, this is a bug."
    );
    assert_eq!(
        Error::MislabeledDocument.message(),
        "document has been missed labeled (missing identifier tag), the dataset is invalid"
    );
    assert_eq!(Error::StopWordsUnavailable.message(), "the stop words could not be loaded");
    assert_eq!(Error::MalformedQuery.message(), "the query text could not be parsed");
    assert_eq!(Error::ShuttingDown.message(), "the reader is shutting down");
    assert_eq!(Error::WorkerLost.message(), "the worker stopped before it answered");
}
