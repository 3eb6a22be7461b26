//! The query builder: from a mode and a query source to a query tree.

use crate::document::corrects;
use crate::error::Error;
use crate::query::{
    boosts, clause_views, is_positive_weight, Clause, ClauseView, DocAddress, Occur, Query,
    QueryView, SearchField, Similarity, SimilarityView, UNIT_WEIGHT,
};
use crate::payload::{lists, pair_views, QuerySource};
use crate::query::QueryMode;
use crate::schema::Schema;
use crate::stop_words::StopWords;
use crate::text::{lowercase_of, split, split_whitespace, to_lowercase, views};
use vstd::prelude::*;

verus! {

/// The clause that looks for `term` in one search field: a fuzzy match of
/// edit distance 1 on the term as a prefix, counting a transposition as one
/// edit, or an exact match; wrapped in a boost where the field's weight is
/// greater than zero.
pub open spec fn term_clause(field: SearchField, term: Seq<char>, fuzzy: bool) -> ClauseView {
    let leaf = if fuzzy {
        ClauseView::Fuzzy {
            field: field.field,
            text: term,
            distance: 1,
            transpositions: true,
            prefix: true,
        }
    } else {
        ClauseView::Term { field: field.field, text: term }
    };
    if is_positive_weight(field.boost) {
        ClauseView::Boost { clause: Box::new(leaf), weight: field.boost }
    } else {
        leaf
    }
}

/// One optional clause per search field for `term`, in field order.
pub open spec fn term_row(fields: Seq<SearchField>, term: Seq<char>, fuzzy: bool) -> Seq<
    (Occur, ClauseView),
> {
    fields.map_values(|f: SearchField| (Occur::Should, term_clause(f, term, fuzzy)))
}

/// The rows of all terms, one after the other in term order.
pub open spec fn term_clauses(terms: Seq<Seq<char>>, fields: Seq<SearchField>, fuzzy: bool) -> Seq<
    (Occur, ClauseView),
>
    decreases terms.len(),
{
    if terms.len() == 0 {
        Seq::<(Occur, ClauseView)>::empty()
    } else {
        term_clauses(terms.drop_last(), fields, fuzzy) + term_row(fields, terms.last(), fuzzy)
    }
}

/// The pieces that are not empty, in order.
pub open spec fn drop_empty(pieces: Seq<Seq<char>>) -> Seq<Seq<char>>
    decreases pieces.len(),
{
    if pieces.len() == 0 {
        Seq::<Seq<char>>::empty()
    } else if pieces.last().len() == 0 {
        drop_empty(pieces.drop_last())
    } else {
        drop_empty(pieces.drop_last()).push(pieces.last())
    }
}

/// The words that are no stop words, in order.
pub open spec fn without_stop_words(words: Seq<Seq<char>>, stop: Set<Seq<char>>) -> Seq<Seq<char>>
    decreases words.len(),
{
    if words.len() == 0 {
        Seq::<Seq<char>>::empty()
    } else if stop.contains(words.last()) {
        without_stop_words(words.drop_last(), stop)
    } else {
        without_stop_words(words.drop_last(), stop).push(words.last())
    }
}

/// Whether stop words are taken out of `words`: only where that is switched
/// on, there is more than one word, and one of them is no stop word.
pub open spec fn strips(words: Seq<Seq<char>>, stop: Set<Seq<char>>, enabled: bool) -> bool {
    enabled && words.len() > 1 && exists|i: int|
        0 <= i < words.len() && !stop.contains(#[trigger] words[i])
}

/// The words that a corrected query is searched with.
pub open spec fn kept_words(words: Seq<Seq<char>>, stop: Set<Seq<char>>, enabled: bool) -> Seq<
    Seq<char>,
> {
    if strips(words, stop, enabled) {
        without_stop_words(words, stop)
    } else {
        words
    }
}

/// The fuzzy query for a text that is in lower case already: the text cut
/// at white space, without empty pieces; every term sought in every search
/// field.
pub open spec fn fuzzy_terms_query(lowered: Seq<char>, fields: Seq<SearchField>) -> QueryView {
    QueryView::Boolean(term_clauses(drop_empty(split_whitespace(lowered)), fields, true))
}

/// The fuzzy query for a free text: that of the text in lower case.
pub open spec fn fuzzy_query(query: Seq<char>, fields: Seq<SearchField>) -> QueryView {
    fuzzy_terms_query(lowercase_of(query), fields)
}

/// The query for a corrected sentence: the sentence cut at white space, stop
/// words taken out where `strips` says so; every word that is left sought
/// exactly in every search field.
pub open spec fn fast_fuzzy_query(
    sentence: Seq<char>,
    fields: Seq<SearchField>,
    stop: Set<Seq<char>>,
    strip_stop_words: bool,
) -> QueryView {
    QueryView::Boolean(
        term_clauses(kept_words(split_whitespace(sentence), stop, strip_stop_words), fields, false),
    )
}

/// The similarity query for a reference document, with its fixed bounds.
pub open spec fn similarity_query(document: DocAddress, stop_words: Seq<Seq<char>>) -> QueryView {
    QueryView::MoreLikeThis(
        SimilarityView {
            document,
            min_doc_frequency: 1,
            max_doc_frequency: 10,
            min_term_frequency: 1,
            min_word_length: 2,
            max_word_length: 18,
            boost_factor: UNIT_WEIGHT,
            stop_words,
        },
    )
}

/// What the fast fuzzy path returns. An empty text gives the query that
/// matches nothing. Any other text fails without stop words; with them it
/// gives the query of a sentence that the corrector may return for the text.
pub open spec fn is_fast_fuzzy_parse<C: Fn(&String, usize) -> String>(
    built: Result<Query, Error>,
    query: Seq<char>,
    fields: Seq<SearchField>,
    strip_stop_words: bool,
    stop_words: Option<&StopWords>,
    correct: C,
) -> bool {
    if query.len() == 0 {
        built matches Ok(q) && q@ == QueryView::Empty
    } else {
        match stop_words {
            None => built == Err::<Query, Error>(Error::StopWordsUnavailable),
            Some(stop) => built matches Ok(q) && exists|sentence: Seq<char>|
                corrects(correct, query, sentence) && q@ == #[trigger] fast_fuzzy_query(
                    sentence,
                    fields,
                    stop@,
                    strip_stop_words,
                ),
        }
    }
}

/// What the similarity path returns: the similarity query with the stop
/// words as a list, or a failure where there are no stop words to be had.
pub open spec fn is_similarity_parse(
    built: Result<Query, Error>,
    document: DocAddress,
    stop_words: Option<&StopWords>,
) -> bool {
    match stop_words {
        Some(stop) => built matches Ok(q) && q@ == similarity_query(document, views(stop.words@)),
        None => built == Err::<Query, Error>(Error::StopWordsUnavailable),
    }
}

/// The clauses for per-field query strings, in the order of `pairs`: one
/// required clause for every pair whose field name the schema knows,
/// nothing for the others.
pub open spec fn field_clauses(schema: Schema, pairs: Seq<(Seq<char>, Seq<char>)>) -> Seq<
    (Occur, ClauseView),
>
    decreases pairs.len(),
{
    if pairs.len() == 0 {
        Seq::<(Occur, ClauseView)>::empty()
    } else {
        let before = field_clauses(schema, pairs.drop_last());
        match schema.field_id(pairs.last().0) {
            Some(field) => before.push(
                (Occur::Must, ClauseView::FieldParsed { field, text: pairs.last().1 }),
            ),
            None => before,
        }
    }
}

/// What the builder returns for a mode, a query source and a reference
/// document.
pub open spec fn is_parse<C: Fn(&String, usize) -> String>(
    built: Result<Query, Error>,
    schema: Schema,
    fields: Seq<SearchField>,
    source: Option<QuerySource>,
    ref_document: Option<DocAddress>,
    mode: QueryMode,
    use_fast_fuzzy: bool,
    strip_stop_words: bool,
    stop_words: Option<&StopWords>,
    correct: C,
) -> bool {
    match mode {
        QueryMode::Normal => match source {
            None => built == Err::<Query, Error>(Error::NormalWithoutQuery),
            Some(QuerySource::Text(text)) => built matches Ok(q) && q@ == QueryView::Parsed(text@),
            Some(QuerySource::Fields(map)) => built matches Ok(q) && exists|
                pairs: Seq<(Seq<char>, Seq<char>)>,
            |
                lists(pairs, map@) && q@ == QueryView::Boolean(
                    #[trigger] field_clauses(schema, pairs),
                ),
        },
        QueryMode::Fuzzy => match source {
            Some(QuerySource::Text(text)) => if use_fast_fuzzy {
                is_fast_fuzzy_parse(built, text@, fields, strip_stop_words, stop_words, correct)
            } else {
                built matches Ok(q) && q@ == fuzzy_query(text@, fields)
            },
            _ => built == Err::<Query, Error>(Error::FuzzyWithoutQuery),
        },
        QueryMode::MoreLikeThis => match ref_document {
            None => built == Err::<Query, Error>(Error::MissingReferenceDocument),
            Some(document) => is_similarity_parse(built, document, stop_words),
        },
    }
}

fn make_clause(field: &SearchField, term: &String, fuzzy: bool) -> (clause: Clause)
    ensures
        clause@ == term_clause(*field, term@, fuzzy),
{
    let leaf = if fuzzy {
        Clause::Fuzzy {
            field: field.field,
            text: term.clone(),
            distance: 1,
            transpositions: true,
            prefix: true,
        }
    } else {
        Clause::Term { field: field.field, text: term.clone() }
    };
    let ghost inner = leaf@;
    if boosts(field.boost) {
        let boosted = Clause::Boost { clause: Box::new(leaf), weight: field.boost };
        assert(boosted@ == ClauseView::Boost { clause: Box::new(inner), weight: field.boost });
        boosted
    } else {
        leaf
    }
}

fn push_row(parts: &mut Vec<(Occur, Clause)>, fields: &Vec<SearchField>, term: &String, fuzzy: bool)
    ensures
        clause_views(final(parts)@) == clause_views(old(parts)@) + term_row(
            fields@,
            term@,
            fuzzy,
        ),
{
    let ghost before = clause_views(parts@);
    let mut i: usize = 0;
    while i < fields.len()
        invariant
            i <= fields.len(),
            clause_views(parts@) == before + term_row(fields@, term@, fuzzy).take(i as int),
        decreases fields.len() - i,
    {
        let ghost here = parts@;
        let clause = make_clause(&fields[i], term, fuzzy);
        parts.push((Occur::Should, clause));
        proof {
            assert(clause_views(parts@) =~= clause_views(here).push((Occur::Should, clause@)));
            assert(term_row(fields@, term@, fuzzy).take(i + 1) =~= term_row(
                fields@,
                term@,
                fuzzy,
            ).take(i as int).push((Occur::Should, clause@)));
            assert(clause_views(parts@) =~= before + term_row(fields@, term@, fuzzy).take(i + 1));
        }
        i = i + 1;
    }
    assert(term_row(fields@, term@, fuzzy).take(fields@.len() as int) =~= term_row(
        fields@,
        term@,
        fuzzy,
    ));
}

/// Builds the fuzzy query for a free text: every term of the lower-cased
/// text is sought in every search field within edit distance 1.
pub fn parse_fuzzy_query(query: &String, search_fields: &Vec<SearchField>) -> (built: Query)
    ensures
        built@ == fuzzy_query(query@, search_fields@),
{
    let lowered = to_lowercase(query.as_str());
    fuzzy_terms(&lowered, search_fields)
}

/// Builds the fuzzy query for a text that is in lower case already: the
/// text is cut at white space, empty pieces are passed over, and every
/// term is sought in every search field within edit distance 1.
pub fn fuzzy_terms(lowered: &String, search_fields: &Vec<SearchField>) -> (built: Query)
    ensures
        built@ == fuzzy_terms_query(lowered@, search_fields@),
{
    let pieces = split(lowered.as_str());
    let ghost all = views(pieces@);
    let mut parts: Vec<(Occur, Clause)> = Vec::new();
    let mut i: usize = 0;
    while i < pieces.len()
        invariant
            i <= pieces.len(),
            all == views(pieces@),
            clause_views(parts@) == term_clauses(
                drop_empty(all.take(i as int)),
                search_fields@,
                true,
            ),
        decreases pieces.len() - i,
    {
        proof {
            assert(all.take(i + 1).drop_last() =~= all.take(i as int));
            assert(all.take(i + 1).last() == pieces@[i as int]@);
        }
        if !pieces[i].as_str().is_empty() {
            proof {
                let kept = drop_empty(all.take(i + 1));
                assert(kept.drop_last() =~= drop_empty(all.take(i as int)));
            }
            push_row(&mut parts, search_fields, &pieces[i], true);
        }
        i = i + 1;
    }
    assert(all.take(pieces@.len() as int) =~= all);
    Query::Boolean(parts)
}

/// Whether one of `words` is no stop word.
fn has_other_word(words: &Vec<String>, stop_words: &StopWords) -> (found: bool)
    ensures
        found == exists|i: int|
            0 <= i < words@.len() && !stop_words@.contains(#[trigger] views(words@)[i]),
{
    let mut i: usize = 0;
    while i < words.len()
        invariant
            i <= words.len(),
            forall|j: int| 0 <= j < i ==> stop_words@.contains(#[trigger] views(words@)[j]),
        decreases words.len() - i,
    {
        if !stop_words.contains(&words[i]) {
            assert(!stop_words@.contains(views(words@)[i as int]));
            return true;
        }
        i = i + 1;
    }
    false
}

/// Builds the query for a sentence that the corrector has returned: every
/// word that is kept is sought exactly in every search field.
pub fn fast_fuzzy_terms(
    sentence: &String,
    search_fields: &Vec<SearchField>,
    strip_stop_words: bool,
    stop_words: &StopWords,
) -> (built: Query)
    ensures
        built@ == fast_fuzzy_query(sentence@, search_fields@, stop_words@, strip_stop_words),
{
    let words = split(sentence.as_str());
    let ghost all = views(words@);
    let mut ignore_stop_words = false;
    if strip_stop_words && words.len() > 1 {
        ignore_stop_words = has_other_word(&words, stop_words);
    }
    assert(ignore_stop_words == strips(all, stop_words@, strip_stop_words));
    let mut parts: Vec<(Occur, Clause)> = Vec::new();
    let mut i: usize = 0;
    while i < words.len()
        invariant
            i <= words.len(),
            all == views(words@),
            clause_views(parts@) == term_clauses(
                if ignore_stop_words {
                    without_stop_words(all.take(i as int), stop_words@)
                } else {
                    all.take(i as int)
                },
                search_fields@,
                false,
            ),
        decreases words.len() - i,
    {
        proof {
            assert(all.take(i + 1).drop_last() =~= all.take(i as int));
            assert(all.take(i + 1).last() == words@[i as int]@);
        }
        if !(ignore_stop_words && stop_words.contains(&words[i])) {
            proof {
                if ignore_stop_words {
                    let kept = without_stop_words(all.take(i + 1), stop_words@);
                    assert(kept.drop_last() =~= without_stop_words(
                        all.take(i as int),
                        stop_words@,
                    ));
                }
            }
            push_row(&mut parts, search_fields, &words[i], false);
        }
        i = i + 1;
    }
    assert(all.take(words@.len() as int) =~= all);
    Query::Boolean(parts)
}

/// Builds the query of the fast fuzzy path. An empty text gives the query
/// that matches nothing, whatever else is passed. Any other text needs the
/// stop words; it is corrected at edit distance 1, and the corrected
/// sentence is searched word by word.
pub fn parse_fast_fuzzy_query<C: Fn(&String, usize) -> String>(
    query: &String,
    search_fields: &Vec<SearchField>,
    strip_stop_words: bool,
    stop_words: Option<&StopWords>,
    correct: C,
) -> (built: Result<Query, Error>)
    requires
        forall|t: &String| call_requires(correct, (t, 1usize)),
    ensures
        is_fast_fuzzy_parse(
            built,
            query@,
            search_fields@,
            strip_stop_words,
            stop_words,
            correct,
        ),
{
    if query.as_str().is_empty() {
        return Ok(Query::Empty);
    }
    let stop = match stop_words {
        Some(stop) => stop,
        None => {
            return Err(Error::StopWordsUnavailable);
        },
    };
    let sentence = correct(query, 1);
    proof {
        assert(call_ensures(correct, (query, 1usize), sentence));
        assert(corrects(correct, query@, sentence@));
    }
    Ok(fast_fuzzy_terms(&sentence, search_fields, strip_stop_words, stop))
}

/// Builds the similarity query for a reference document: terms that occur
/// in at least 1 and at most 10 documents and at least once in the reference
/// document, words of 2 to 18 characters, boost factor 1.0, the stop words
/// left out of consideration.
pub fn parse_more_like_this(ref_document: DocAddress, stop_words: Option<&StopWords>) -> (built:
    Result<Query, Error>)
    ensures
        is_similarity_parse(built, ref_document, stop_words),
{
    match stop_words {
        Some(stop) => Ok(
            Query::MoreLikeThis(
                Similarity {
                    document: ref_document,
                    min_doc_frequency: 1,
                    max_doc_frequency: 10,
                    min_term_frequency: 1,
                    min_word_length: 2,
                    max_word_length: 18,
                    boost_factor: UNIT_WEIGHT,
                    stop_words: stop.to_list(),
                },
            ),
        ),
        None => Err(Error::StopWordsUnavailable),
    }
}

/// Builds the query for per-field query strings: every pair whose field
/// the schema knows becomes a clause that a document has to match; pairs
/// with unknown fields are passed over.
pub fn field_map_query(schema: &Schema, pairs: &Vec<(&String, &String)>) -> (built: Query)
    requires
        schema.wf(),
    ensures
        built@ == QueryView::Boolean(field_clauses(*schema, pair_views(pairs@))),
{
    let ghost all = pair_views(pairs@);
    let mut parts: Vec<(Occur, Clause)> = Vec::new();
    let mut i: usize = 0;
    while i < pairs.len()
        invariant
            i <= pairs.len(),
            schema.wf(),
            all == pair_views(pairs@),
            clause_views(parts@) == field_clauses(*schema, all.take(i as int)),
        decreases pairs.len() - i,
    {
        proof {
            assert(all.take(i + 1).drop_last() =~= all.take(i as int));
            assert(all.take(i + 1).last() == (pairs@[i as int].0@, pairs@[i as int].1@));
        }
        let pair = &pairs[i];
        match schema.get_field(pair.0) {
            Some(field) => {
                let ghost here = parts@;
                let clause = Clause::FieldParsed { field, text: pair.1.clone() };
                parts.push((Occur::Must, clause));
                assert(clause_views(parts@) =~= clause_views(here).push((Occur::Must, clause@)));
            },
            None => {},
        }
        i = i + 1;
    }
    assert(all.take(pairs@.len() as int) =~= all);
    Query::Boolean(parts)
}

/// Builds the query that a request asks for. `Normal` mode hands a free
/// text to the index's parser as it is, or combines per-field query strings
/// so that all of them have to match. `Fuzzy` mode takes a free text only.
/// `MoreLikeThis` mode needs a reference document. Whatever does not fit
/// the mode is an error; no other mode is tried in its place.
pub fn parse_query<C: Fn(&String, usize) -> String>(
    schema: &Schema,
    search_fields: &Vec<SearchField>,
    query: Option<QuerySource>,
    ref_document: Option<DocAddress>,
    mode: QueryMode,
    use_fast_fuzzy: bool,
    strip_stop_words: bool,
    stop_words: Option<&StopWords>,
    correct: C,
) -> (built: Result<Query, Error>)
    requires
        schema.wf(),
        forall|t: &String| call_requires(correct, (t, 1usize)),
    ensures
        is_parse(
            built,
            *schema,
            search_fields@,
            query,
            ref_document,
            mode,
            use_fast_fuzzy,
            strip_stop_words,
            stop_words,
            correct,
        ),
{
    match mode {
        QueryMode::Normal => match query {
            None => Err(Error::NormalWithoutQuery),
            Some(QuerySource::Text(text)) => Ok(Query::Parsed(text)),
            Some(QuerySource::Fields(map)) => {
                let pairs = map.entries();
                let built = field_map_query(schema, &pairs);
                assert(lists(pair_views(pairs@), map@));
                Ok(built)
            },
        },
        QueryMode::Fuzzy => match query {
            Some(QuerySource::Text(text)) => {
                if use_fast_fuzzy {
                    parse_fast_fuzzy_query(
                        &text,
                        search_fields,
                        strip_stop_words,
                        stop_words,
                        correct,
                    )
                } else {
                    Ok(parse_fuzzy_query(&text, search_fields))
                }
            },
            _ => Err(Error::FuzzyWithoutQuery),
        },
        QueryMode::MoreLikeThis => match ref_document {
            None => Err(Error::MissingReferenceDocument),
            Some(document) => parse_more_like_this(document, stop_words),
        },
    }
}

/// A free text that is set is what a `Normal` request is answered with:
/// whatever per-field queries come with it, the query built is that very
/// text, to be parsed by the index's parser over its configured fields.
pub proof fn lemma_normal_text_goes_to_parser<C: Fn(&String, usize) -> String>(
    built: Result<Query, Error>,
    schema: Schema,
    fields: Seq<SearchField>,
    text: String,
    map: crate::payload::FieldQueries,
    ref_document: Option<DocAddress>,
    use_fast_fuzzy: bool,
    strip_stop_words: bool,
    stop_words: Option<&StopWords>,
    correct: C,
)
    requires
        is_parse(
            built,
            schema,
            fields,
            crate::payload::chosen_source(Some(text), map),
            ref_document,
            QueryMode::Normal,
            use_fast_fuzzy,
            strip_stop_words,
            stop_words,
            correct,
        ),
    ensures
        built is Ok,
        built->Ok_0@ == QueryView::Parsed(text@),
{
}

/// Every clause of a per-field query is required, and every pair with a
/// field that the schema knows has its clause.
pub proof fn lemma_field_clauses(schema: Schema, pairs: Seq<(Seq<char>, Seq<char>)>)
    ensures
        forall|k: int|
            0 <= k < field_clauses(schema, pairs).len() ==> (#[trigger] field_clauses(
                schema,
                pairs,
            )[k]).0 == Occur::Must,
        forall|i: int|
            0 <= i < pairs.len() && schema.field_id((#[trigger] pairs[i]).0) is Some ==> exists|
                k: int,
            |
                0 <= k < field_clauses(schema, pairs).len() && #[trigger] field_clauses(
                    schema,
                    pairs,
                )[k] == (
                    Occur::Must,
                    ClauseView::FieldParsed {
                        field: schema.field_id(pairs[i].0)->0,
                        text: pairs[i].1,
                    },
                ),
    decreases pairs.len(),
{
    if pairs.len() > 0 {
        let before = pairs.drop_last();
        lemma_field_clauses(schema, before);
        let all = field_clauses(schema, pairs);
        let sub = field_clauses(schema, before);
        assert forall|i: int|
            0 <= i < pairs.len() && schema.field_id((#[trigger] pairs[i]).0) is Some implies exists|
            k: int,
        |
            0 <= k < all.len() && #[trigger] all[k] == (
                Occur::Must,
                ClauseView::FieldParsed { field: schema.field_id(pairs[i].0)->0, text: pairs[i].1 },
            ) by {
            if i < pairs.len() - 1 {
                assert(before[i] == pairs[i]);
                let k = choose|k: int|
                    0 <= k < sub.len() && #[trigger] sub[k] == (
                        Occur::Must,
                        ClauseView::FieldParsed {
                            field: schema.field_id(before[i].0)->0,
                            text: before[i].1,
                        },
                    );
                assert(all[k] == sub[k]);
            } else {
                assert(all[all.len() - 1] == (
                    Occur::Must,
                    ClauseView::FieldParsed {
                        field: schema.field_id(pairs[i].0)->0,
                        text: pairs[i].1,
                    },
                ));
            }
        }
    }
}

/// A document matches a per-field query only if it satisfies the query
/// string of every field that the schema knows: whatever match the query
/// built for `map` has, it holds the sub-query of each such field.
pub proof fn lemma_per_field_queries_all_required<C: Fn(&String, usize) -> String>(
    built: Result<Query, Error>,
    schema: Schema,
    fields: Seq<SearchField>,
    map: crate::payload::FieldQueries,
    ref_document: Option<DocAddress>,
    use_fast_fuzzy: bool,
    strip_stop_words: bool,
    stop_words: Option<&StopWords>,
    correct: C,
    name: Seq<char>,
    holds: spec_fn(ClauseView) -> bool,
)
    requires
        is_parse(
            built,
            schema,
            fields,
            Some(QuerySource::Fields(map)),
            ref_document,
            QueryMode::Normal,
            use_fast_fuzzy,
            strip_stop_words,
            stop_words,
            correct,
        ),
        map@.contains_key(name),
        schema.field_id(name) is Some,
        built is Ok,
        built->Ok_0@ is Boolean,
        crate::query::boolean_matches(built->Ok_0@->Boolean_0, holds),
    ensures
        holds(ClauseView::FieldParsed { field: schema.field_id(name)->0, text: map@[name] }),
{
    let clauses = built->Ok_0@->Boolean_0;
    let pairs = choose|pairs: Seq<(Seq<char>, Seq<char>)>|
        lists(pairs, map@) && built->Ok_0@ == QueryView::Boolean(
            #[trigger] field_clauses(schema, pairs),
        );
    assert(clauses == field_clauses(schema, pairs));
    let i = choose|i: int| 0 <= i < pairs.len() && (#[trigger] pairs[i]).0 == name;
    lemma_field_clauses(schema, pairs);
    let wanted = (
        Occur::Must,
        ClauseView::FieldParsed { field: schema.field_id(name)->0, text: pairs[i].1 },
    );
    let k = choose|k: int| 0 <= k < clauses.len() && #[trigger] clauses[k] == wanted;
    assert(clauses[k].0 == Occur::Must);
    assert(crate::query::clause_matches(clauses[k].1, holds));
}

/// Taking stop words out leaves every other word in.
pub proof fn lemma_other_words_stay(words: Seq<Seq<char>>, stop: Set<Seq<char>>, i: int)
    requires
        0 <= i < words.len(),
        !stop.contains(words[i]),
    ensures
        without_stop_words(words, stop).contains(words[i]),
    decreases words.len(),
{
    let kept = without_stop_words(words, stop);
    if i == words.len() - 1 {
        assert(kept.last() == words[i]);
    } else {
        lemma_other_words_stay(words.drop_last(), stop, i);
        let sub = without_stop_words(words.drop_last(), stop);
        let k = choose|k: int| 0 <= k < sub.len() && sub[k] == words.drop_last()[i];
        assert(kept[k] == words[i]);
    }
}

/// Stop words are taken out only where that is switched on, the corrected
/// query has more than one word and one of them is no stop word. A query
/// made of stop words alone keeps them all, and no query is left without a
/// word by it.
pub proof fn lemma_stop_words_never_strip_all(
    words: Seq<Seq<char>>,
    stop: Set<Seq<char>>,
    enabled: bool,
)
    ensures
        kept_words(words, stop, enabled) != words ==> enabled && words.len() > 1 && exists|i: int|
            0 <= i < words.len() && !stop.contains(#[trigger] words[i]),
        (forall|i: int| 0 <= i < words.len() ==> stop.contains(#[trigger] words[i]))
            ==> kept_words(words, stop, enabled) == words,
        words.len() > 0 ==> kept_words(words, stop, enabled).len() > 0,
{
    if strips(words, stop, enabled) {
        let i = choose|i: int| 0 <= i < words.len() && !stop.contains(#[trigger] words[i]);
        lemma_other_words_stay(words, stop, i);
    }
}

/// Whether building a query in this mode may read the stop words: a
/// similarity query carries them, and the fast fuzzy path asks them of every
/// word.
pub open spec fn reads_stop_words(mode: QueryMode, use_fast_fuzzy: bool) -> bool {
    mode == QueryMode::MoreLikeThis || (mode == QueryMode::Fuzzy && use_fast_fuzzy)
}

/// Where the stop words are not read, what is built does not depend on
/// them, nor on whether they could be loaded.
pub proof fn lemma_stop_words_unread<C: Fn(&String, usize) -> String>(
    built: Result<Query, Error>,
    schema: Schema,
    fields: Seq<SearchField>,
    source: Option<QuerySource>,
    ref_document: Option<DocAddress>,
    mode: QueryMode,
    use_fast_fuzzy: bool,
    strip_stop_words: bool,
    stop_words: Option<&StopWords>,
    other_stop_words: Option<&StopWords>,
    correct: C,
)
    requires
        !reads_stop_words(mode, use_fast_fuzzy),
        is_parse(
            built,
            schema,
            fields,
            source,
            ref_document,
            mode,
            use_fast_fuzzy,
            strip_stop_words,
            stop_words,
            correct,
        ),
    ensures
        is_parse(
            built,
            schema,
            fields,
            source,
            ref_document,
            mode,
            use_fast_fuzzy,
            strip_stop_words,
            other_stop_words,
            correct,
        ),
{
}

} // verus!
