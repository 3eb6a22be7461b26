//! The query tree that the builder produces, and what it means for a
//! document to match a boolean combination of clauses.

use vstd::prelude::*;

verus! {

/// How a request wants its query understood.
#[derive(Debug, Clone, Copy, PartialEq, Eq, Structural)]
pub enum QueryMode {
    Normal,
    Fuzzy,
    MoreLikeThis,
}

/// The place of a document in an index snapshot.
#[derive(Debug, Clone, Copy, PartialEq, Eq, Structural)]
pub struct DocAddress {
    pub segment_ord: u32,
    pub doc_id: u32,
}

/// A field to search, with its boost weight as the bits of a 32-bit
/// floating-point number.
#[derive(Debug, Clone, Copy, PartialEq, Eq, Structural)]
pub struct SearchField {
    pub field: u32,
    pub boost: u32,
}

/// Whether the bits are those of a number greater than zero: the sign bit is
/// clear, the number is not zero and it is not a NaN. Positive infinity
/// counts.
pub open spec fn is_positive_weight(bits: u32) -> bool {
    0 < bits <= 0x7F80_0000
}

/// Whether a boost weight asks for the boosting combinator.
pub fn boosts(bits: u32) -> (b: bool)
    ensures
        b == is_positive_weight(bits),
{
    0 < bits && bits <= 0x7F80_0000
}

/// The bits of the weight 1.0.
pub const UNIT_WEIGHT: u32 = 0x3F80_0000;

/// Whether a clause of a boolean query may match or must match.
#[derive(Debug, Clone, Copy, PartialEq, Eq, Structural)]
pub enum Occur {
    Should,
    Must,
}

/// One sub-query of a boolean query.
#[derive(Debug, PartialEq, Eq)]
pub enum Clause {
    /// Text for a parser scoped to one field that joins its terms with AND.
    FieldParsed { field: u32, text: String },
    /// An exact match of one term in one field, scored with frequencies.
    Term { field: u32, text: String },
    /// A match of one term in one field within an edit distance.
    Fuzzy { field: u32, text: String, distance: u8, transpositions: bool, prefix: bool },
    /// A clause whose score is multiplied by a weight.
    Boost { clause: Box<Clause>, weight: u32 },
}

/// A `Clause` with its texts as sequences of characters.
pub enum ClauseView {
    FieldParsed { field: u32, text: Seq<char> },
    Term { field: u32, text: Seq<char> },
    Fuzzy { field: u32, text: Seq<char>, distance: u8, transpositions: bool, prefix: bool },
    Boost { clause: Box<ClauseView>, weight: u32 },
}

impl View for Clause {
    type V = ClauseView;

    open spec fn view(&self) -> ClauseView
        decreases self,
    {
        match *self {
            Clause::FieldParsed { field, text } => ClauseView::FieldParsed { field, text: text@ },
            Clause::Term { field, text } => ClauseView::Term { field, text: text@ },
            Clause::Fuzzy { field, text, distance, transpositions, prefix } => ClauseView::Fuzzy {
                field,
                text: text@,
                distance,
                transpositions,
                prefix,
            },
            Clause::Boost { clause, weight } => ClauseView::Boost {
                clause: Box::new((*clause)@),
                weight,
            },
        }
    }
}

/// A query for documents that resemble a reference document.
#[derive(Debug, PartialEq, Eq)]
pub struct Similarity {
    pub document: DocAddress,
    pub min_doc_frequency: u64,
    pub max_doc_frequency: u64,
    pub min_term_frequency: usize,
    pub min_word_length: usize,
    pub max_word_length: usize,
    pub boost_factor: u32,
    pub stop_words: Vec<String>,
}

/// A `Similarity` with its stop words as sequences of characters.
pub struct SimilarityView {
    pub document: DocAddress,
    pub min_doc_frequency: u64,
    pub max_doc_frequency: u64,
    pub min_term_frequency: usize,
    pub min_word_length: usize,
    pub max_word_length: usize,
    pub boost_factor: u32,
    pub stop_words: Seq<Seq<char>>,
}

impl View for Similarity {
    type V = SimilarityView;

    open spec fn view(&self) -> SimilarityView {
        SimilarityView {
            document: self.document,
            min_doc_frequency: self.min_doc_frequency,
            max_doc_frequency: self.max_doc_frequency,
            min_term_frequency: self.min_term_frequency,
            min_word_length: self.min_word_length,
            max_word_length: self.max_word_length,
            boost_factor: self.boost_factor,
            stop_words: crate::text::views(self.stop_words@),
        }
    }
}

/// A query, ready to be run against an index snapshot.
#[derive(Debug, PartialEq, Eq)]
pub enum Query {
    /// Matches no document.
    Empty,
    /// Free text for the index's own parser over its configured fields.
    Parsed(String),
    /// A boolean combination of clauses.
    Boolean(Vec<(Occur, Clause)>),
    /// Documents that resemble a reference document.
    MoreLikeThis(Similarity),
}

/// A `Query` over clause views.
pub enum QueryView {
    Empty,
    Parsed(Seq<char>),
    Boolean(Seq<(Occur, ClauseView)>),
    MoreLikeThis(SimilarityView),
}

/// The views of a list of clauses.
pub open spec fn clause_views(clauses: Seq<(Occur, Clause)>) -> Seq<(Occur, ClauseView)> {
    clauses.map_values(|c: (Occur, Clause)| (c.0, c.1@))
}

impl View for Query {
    type V = QueryView;

    open spec fn view(&self) -> QueryView {
        match *self {
            Query::Empty => QueryView::Empty,
            Query::Parsed(text) => QueryView::Parsed(text@),
            Query::Boolean(clauses) => QueryView::Boolean(clause_views(clauses@)),
            Query::MoreLikeThis(similarity) => QueryView::MoreLikeThis(similarity@),
        }
    }
}

/// Whether a document matches a clause, given which unboosted clauses it
/// satisfies. A boost changes the score, not the match.
pub open spec fn clause_matches(clause: ClauseView, holds: spec_fn(ClauseView) -> bool) -> bool
    decreases clause,
{
    match clause {
        ClauseView::Boost { clause, weight } => clause_matches(*clause, holds),
        _ => holds(clause),
    }
}

/// Whether a document matches a boolean query. Without clauses nothing
/// matches. With `Must` clauses, the document has to match each of them;
/// with none, it has to match one of the `Should` clauses.
pub open spec fn boolean_matches(
    clauses: Seq<(Occur, ClauseView)>,
    holds: spec_fn(ClauseView) -> bool,
) -> bool {
    &&& clauses.len() > 0
    &&& forall|i: int|
        0 <= i < clauses.len() && (#[trigger] clauses[i]).0 == Occur::Must ==> clause_matches(
            clauses[i].1,
            holds,
        )
    &&& (exists|i: int| 0 <= i < clauses.len() && (#[trigger] clauses[i]).0 == Occur::Must)
        || (exists|i: int|
        0 <= i < clauses.len() && (#[trigger] clauses[i]).0 == Occur::Should && clause_matches(
            clauses[i].1,
            holds,
        ))
}

} // verus!
