//! What a caller submits with a search request.

use crate::query::QueryMode;
use vstd::prelude::*;

verus! {

/// Query strings keyed by field name, held in a `hashbrown::HashMap`.
#[verifier::external_body]
#[derive(Debug, PartialEq, Eq)]
pub struct FieldQueries {
    map: hashbrown::HashMap<String, String>,
}

/// The query string that the map holds for each field name.
pub uninterp spec fn queries_of(queries: FieldQueries) -> Map<Seq<char>, Seq<char>>;

impl View for FieldQueries {
    type V = Map<Seq<char>, Seq<char>>;

    open spec fn view(&self) -> Map<Seq<char>, Seq<char>> {
        queries_of(*self)
    }
}

/// `pairs` lists what `queries` holds: every pair is an entry of the map, no
/// field name comes twice, and every entry of the map is among the pairs.
pub open spec fn lists(pairs: Seq<(Seq<char>, Seq<char>)>, queries: Map<Seq<char>, Seq<char>>) -> bool {
    &&& forall|i: int|
        0 <= i < pairs.len() ==> queries.contains_key((#[trigger] pairs[i]).0)
            && queries[pairs[i].0] == pairs[i].1
    &&& forall|i: int, j: int|
        0 <= i < j < pairs.len() ==> (#[trigger] pairs[i]).0 != (#[trigger] pairs[j]).0
    &&& forall|name: Seq<char>| #[trigger]
        queries.contains_key(name) ==> exists|i: int|
            0 <= i < pairs.len() && (#[trigger] pairs[i]).0 == name
}

/// The views of a list of borrowed pairs.
pub open spec fn pair_views(pairs: Seq<(&String, &String)>) -> Seq<(Seq<char>, Seq<char>)> {
    pairs.map_values(|p: (&String, &String)| (p.0@, p.1@))
}

/// `hashbrown::HashMap::new`: a map without entries.
#[verifier::external_body]
fn map_new() -> (queries: FieldQueries)
    ensures
        queries_of(queries) == (Map::<Seq<char>, Seq<char>>::empty()),
{
    FieldQueries { map: hashbrown::HashMap::new() }
}

/// `hashbrown::HashMap::insert`: afterwards the key maps to the new value
/// and every other key to what it mapped to before. The value that the key
/// had before is returned, if it had one.
#[verifier::external_body]
fn map_insert(queries: &mut FieldQueries, field: String, query: String) -> (previous: Option<String>)
    ensures
        queries_of(*final(queries)) == queries_of(*old(queries)).insert(field@, query@),
        previous is Some == queries_of(*old(queries)).contains_key(field@),
        previous matches Some(p) ==> p@ == queries_of(*old(queries))[field@],
{
    queries.map.insert(field, query)
}

/// `hashbrown::HashMap::is_empty`: whether the map has no entry.
#[verifier::external_body]
fn map_is_empty(queries: &FieldQueries) -> (empty: bool)
    ensures
        empty == (queries_of(*queries) == Map::<Seq<char>, Seq<char>>::empty()),
{
    queries.map.is_empty()
}

/// `hashbrown::HashMap::iter`, collected: every entry once, in the order in
/// which the map happens to be walked.
#[verifier::external_body]
fn map_entries(queries: &FieldQueries) -> (pairs: Vec<(&String, &String)>)
    ensures
        lists(pair_views(pairs@), queries_of(*queries)),
{
    queries.map.iter().collect()
}

impl FieldQueries {
    /// No per-field queries.
    pub fn new() -> (queries: Self)
        ensures
            queries@ == (Map::<Seq<char>, Seq<char>>::empty()),
    {
        map_new()
    }

    /// Sets the query string of `field` and returns the one it had.
    pub fn insert(&mut self, field: String, query: String) -> (previous: Option<String>)
        ensures
            final(self)@ == old(self)@.insert(field@, query@),
            previous is Some == old(self)@.contains_key(field@),
            previous matches Some(p) ==> p@ == old(self)@[field@],
    {
        map_insert(self, field, query)
    }

    /// Whether no field has a query string.
    pub fn is_empty(&self) -> (empty: bool)
        ensures
            empty == (self@ == Map::<Seq<char>, Seq<char>>::empty()),
    {
        map_is_empty(self)
    }

    /// The field names with their query strings, each once, in no
    /// particular order.
    pub fn entries(&self) -> (pairs: Vec<(&String, &String)>)
        ensures
            lists(pair_views(pairs@), self@),
    {
        map_entries(self)
    }
}

/// Where a request's query text comes from.
#[derive(Debug, PartialEq, Eq)]
pub enum QuerySource {
    /// One free text.
    Text(String),
    /// A query string per field.
    Fields(FieldQueries),
}

/// A search request.
#[derive(Debug, PartialEq, Eq)]
pub struct QueryPayload {
    /// A free-text query.
    pub query: Option<String>,
    /// Query strings per field; empty if unused.
    pub map: FieldQueries,
    /// The identifier of a reference document for similarity queries.
    pub document: Option<u64>,
    /// How the query is to be understood.
    pub mode: QueryMode,
    /// The name of the field to order the hits by.
    pub order_by: Option<String>,
    /// How many hits to return at most.
    pub limit: usize,
    /// How many of the best hits to pass over.
    pub offset: usize,
}

/// The source that a request's query is taken from: the free text where one
/// is set, else the per-field queries where there are any.
pub open spec fn chosen_source(query: Option<String>, map: FieldQueries) -> Option<QuerySource> {
    match query {
        Some(text) => Some(QuerySource::Text(text)),
        None => if map@ == Map::<Seq<char>, Seq<char>>::empty() {
            None
        } else {
            Some(QuerySource::Fields(map))
        },
    }
}

/// Picks the source of a request's query. A free text that is set wins over
/// per-field queries; per-field queries count only if there are any.
pub fn choose_source(query: Option<String>, map: FieldQueries) -> (source: Option<QuerySource>)
    ensures
        source == chosen_source(query, map),
{
    match query {
        Some(text) => Some(QuerySource::Text(text)),
        None => if map.is_empty() {
            None
        } else {
            Some(QuerySource::Fields(map))
        },
    }
}

} // verus!
