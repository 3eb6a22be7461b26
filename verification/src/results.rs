//! The search step: how the hits are ranked, and how raw matches become
//! labelled hits.

use crate::error::Error;
use crate::field_map::FieldMap;
use crate::schema::{id_field, id_field_name, FieldKind, Schema};
use crate::text::{decimal, to_decimal};
use vstd::prelude::*;
use vstd::std_specs::iter::IteratorSpec;

verus! {

/// One stored value of a field. `F64` holds the bits of the number, `Date`
/// a timestamp, `Facet` the facet's path and `PreTokStr` the text that was
/// tokenized beforehand.
#[derive(Debug, PartialEq, Eq)]
pub enum FieldValue {
    Str(String),
    PreTokStr(String),
    U64(u64),
    I64(i64),
    F64(u64),
    Date(i64),
    Facet(String),
    Bytes(Vec<u8>),
}

/// A `FieldValue` with its texts as sequences of characters.
pub enum FieldValueView {
    Str(Seq<char>),
    PreTokStr(Seq<char>),
    U64(u64),
    I64(i64),
    F64(u64),
    Date(i64),
    Facet(Seq<char>),
    Bytes(Seq<u8>),
}

impl View for FieldValue {
    type V = FieldValueView;

    open spec fn view(&self) -> FieldValueView {
        match *self {
            FieldValue::Str(s) => FieldValueView::Str(s@),
            FieldValue::PreTokStr(s) => FieldValueView::PreTokStr(s@),
            FieldValue::U64(v) => FieldValueView::U64(v),
            FieldValue::I64(v) => FieldValueView::I64(v),
            FieldValue::F64(v) => FieldValueView::F64(v),
            FieldValue::Date(v) => FieldValueView::Date(v),
            FieldValue::Facet(s) => FieldValueView::Facet(s@),
            FieldValue::Bytes(b) => FieldValueView::Bytes(b@),
        }
    }
}

/// The views of a list of stored values.
pub open spec fn field_value_views(values: Vec<FieldValue>) -> Seq<FieldValueView> {
    values@.map_values(|v: FieldValue| v@)
}

/// A stored document by field name.
#[derive(Debug, PartialEq, Eq)]
pub struct NamedDocument(pub FieldMap<Vec<FieldValue>>);

/// What a stored document holds, as plain values.
pub type NamedView = Map<Seq<char>, Seq<FieldValueView>>;

impl View for NamedDocument {
    type V = NamedView;

    open spec fn view(&self) -> NamedView {
        self.0@.map_values(|values: Vec<FieldValue>| field_value_views(values))
    }
}

impl NamedDocument {
    /// The underlying map is well formed.
    pub open spec fn wf(&self) -> bool {
        self.0.wf()
    }

    /// A document without fields.
    pub fn new() -> (doc: Self)
        ensures
            doc.wf(),
            doc@ == (Map::<Seq<char>, Seq<FieldValueView>>::empty()),
    {
        let doc = NamedDocument(FieldMap::new());
        assert(doc@ =~= Map::<Seq<char>, Seq<FieldValueView>>::empty());
        doc
    }

    /// Stores `values` under `name`, replacing what was stored there.
    pub fn insert(&mut self, name: String, values: Vec<FieldValue>)
        requires
            old(self).wf(),
        ensures
            final(self).wf(),
            final(self)@ == old(self)@.insert(name@, field_value_views(values)),
    {
        self.0.insert(name, values);
        assert(self@ =~= old(self)@.insert(name@, field_value_views(values)));
    }

    /// The values stored under `name`, if any.
    pub fn get(&self, name: &String) -> (found: Option<&Vec<FieldValue>>)
        requires
            self.wf(),
        ensures
            match found {
                Some(values) => self@.contains_key(name@) && field_value_views(*values)
                    == self@[name@],
                None => !self@.contains_key(name@),
            },
    {
        self.0.get(name)
    }
}

/// By what the hits of a search are ranked.
#[derive(Debug, Clone, Copy, PartialEq, Eq, Structural)]
pub enum Ranking {
    /// By relevance score.
    Score,
    /// By a field of signed integers.
    Signed(u32),
    /// By a field of unsigned integers.
    Unsigned(u32),
    /// By a field of floating-point numbers.
    Float(u32),
    /// By a field of timestamps.
    Timestamp(u32),
}

/// The ranking for an optional ordering field: by score without one; by the
/// field's values where they are kept for fast access and are integers,
/// floating-point numbers or timestamps; a failure for a field whose values
/// are not kept for fast access, for a field of any other kind, and for an
/// id that the schema does not have.
pub open spec fn ranking_for(schema: Schema, order_by: Option<u32>) -> Result<Ranking, Error> {
    match order_by {
        None => Ok(Ranking::Score),
        Some(field) => if !schema.fast_of(field) {
            Err(Error::NotFastField)
        } else {
            match schema.kind_of(field) {
                Some(FieldKind::I64) => Ok(Ranking::Signed(field)),
                Some(FieldKind::U64) => Ok(Ranking::Unsigned(field)),
                Some(FieldKind::F64) => Ok(Ranking::Float(field)),
                Some(FieldKind::Date) => Ok(Ranking::Timestamp(field)),
                _ => Err(Error::NotFastField),
            }
        },
    }
}

/// Decides by what a search ranks its hits.
pub fn choose_ranking(schema: &Schema, order_by: Option<u32>) -> (ranking: Result<Ranking, Error>)
    ensures
        ranking == ranking_for(*schema, order_by),
{
    match order_by {
        None => Ok(Ranking::Score),
        Some(field) => if !schema.is_fast(field) {
            Err(Error::NotFastField)
        } else {
            match schema.get_kind(field) {
                Some(FieldKind::I64) => Ok(Ranking::Signed(field)),
                Some(FieldKind::U64) => Ok(Ranking::Unsigned(field)),
                Some(FieldKind::F64) => Ok(Ranking::Float(field)),
                Some(FieldKind::Date) => Ok(Ranking::Timestamp(field)),
                _ => Err(Error::NotFastField),
            }
        },
    }
}

/// The value by which a hit was ranked: a relevance score as the bits of a
/// 32-bit floating-point number, or the value of the ordering field (a
/// floating-point one as its 64 bits).
#[derive(Debug, Clone, Copy, PartialEq, Eq, Structural)]
pub enum Ratio {
    Score(u32),
    Signed(i64),
    Unsigned(u64),
    Float(u64),
    Timestamp(i64),
}

/// The place of a 64-bit floating-point number among the numbers, read off
/// its bits: a greater number has a greater place, negative zero stands
/// just below zero, and what is not a number stands beyond the infinities.
pub open spec fn float_place(bits: u64) -> int {
    if bits < 0x8000_0000_0000_0000 {
        bits + 0x8000_0000_0000_0000
    } else {
        0xFFFF_FFFF_FFFF_FFFF - bits
    }
}

/// The place of a 32-bit floating-point number among the numbers, read off
/// its bits in the same way.
pub open spec fn score_place(bits: u32) -> int {
    if bits < 0x8000_0000 {
        bits + 0x8000_0000
    } else {
        0xFFFF_FFFF - bits
    }
}

/// Whether `a` ranks at least as high as `b`: both are ranking values of the
/// same kind, and `a` is not below `b` in the natural order of that kind
/// (signed, unsigned, of floating-point numbers, of time).
pub open spec fn ranks_no_lower(a: Ratio, b: Ratio) -> bool {
    match (a, b) {
        (Ratio::Score(x), Ratio::Score(y)) => score_place(x) >= score_place(y),
        (Ratio::Signed(x), Ratio::Signed(y)) => x >= y,
        (Ratio::Unsigned(x), Ratio::Unsigned(y)) => x >= y,
        (Ratio::Float(x), Ratio::Float(y)) => float_place(x) >= float_place(y),
        (Ratio::Timestamp(x), Ratio::Timestamp(y)) => x >= y,
        _ => false,
    }
}

/// Whether `a` ranks at least as high as `b`.
pub fn outranks(a: Ratio, b: Ratio) -> (no_lower: bool)
    ensures
        no_lower == ranks_no_lower(a, b),
{
    match (a, b) {
        (Ratio::Score(x), Ratio::Score(y)) => {
            let px: u32 = if x < 0x8000_0000 {
                x + 0x8000_0000
            } else {
                0xFFFF_FFFF - x
            };
            let py: u32 = if y < 0x8000_0000 {
                y + 0x8000_0000
            } else {
                0xFFFF_FFFF - y
            };
            px >= py
        },
        (Ratio::Signed(x), Ratio::Signed(y)) => x >= y,
        (Ratio::Unsigned(x), Ratio::Unsigned(y)) => x >= y,
        (Ratio::Float(x), Ratio::Float(y)) => {
            let px: u64 = if x < 0x8000_0000_0000_0000 {
                x + 0x8000_0000_0000_0000
            } else {
                0xFFFF_FFFF_FFFF_FFFF - x
            };
            let py: u64 = if y < 0x8000_0000_0000_0000 {
                y + 0x8000_0000_0000_0000
            } else {
                0xFFFF_FFFF_FFFF_FFFF - y
            };
            px >= py
        },
        (Ratio::Timestamp(x), Ratio::Timestamp(y)) => x >= y,
        _ => false,
    }
}

/// A single query result.
#[derive(Debug, PartialEq, Eq)]
pub struct QueryHit {
    /// The document's identifier as a decimal numeral.
    pub document_id: String,
    /// The document's fields, without the identifier field.
    pub doc: NamedDocument,
    /// The value by which the hit was ranked.
    pub ratio: Ratio,
}

/// A `QueryHit` as plain values.
pub struct HitView {
    pub document_id: Seq<char>,
    pub doc: NamedView,
    pub ratio: Ratio,
}

impl View for QueryHit {
    type V = HitView;

    open spec fn view(&self) -> HitView {
        HitView { document_id: self.document_id@, doc: self.doc@, ratio: self.ratio }
    }
}

/// A span of time as whole seconds and the nanoseconds beyond them.
#[derive(Debug, Clone, Copy, PartialEq, Eq, Structural)]
pub struct Elapsed {
    pub secs: u64,
    pub subsec_nanos: u32,
}

/// The overall results of a query.
#[derive(Debug, PartialEq, Eq)]
pub struct QueryResults {
    /// The retrieved documents, best first.
    pub hits: Vec<QueryHit>,
    /// How many documents match the query, whatever the limit and offset.
    pub count: usize,
    /// How long the search took.
    pub time_taken: Elapsed,
}

/// The views of a list of hits.
pub open spec fn hit_views(hits: Seq<QueryHit>) -> Seq<HitView> {
    hits.map_values(|h: QueryHit| h@)
}

/// The hit that a matched document gives. The document has to store an
/// unsigned integer first under the identifier field; that number, as a
/// decimal numeral, labels the hit, and the field is taken out of the
/// document. Any other document is mislabelled.
pub open spec fn labelled(ratio: Ratio, doc: NamedView) -> Result<HitView, Error> {
    let id = id_field_name();
    if doc.contains_key(id) && doc[id].len() > 0 && doc[id][0] is U64 {
        Ok(HitView { document_id: decimal(doc[id][0]->U64_0 as nat), doc: doc.remove(id), ratio })
    } else {
        Err(Error::MislabeledDocument)
    }
}

/// Labels one matched document.
pub fn label_hit(ratio: Ratio, doc: NamedDocument) -> (hit: Result<QueryHit, Error>)
    requires
        doc.wf(),
    ensures
        match hit {
            Ok(h) => labelled(ratio, doc@) == Ok::<HitView, Error>(h@) && h.doc.wf(),
            Err(e) => labelled(ratio, doc@) == Err::<HitView, Error>(e),
        },
{
    let mut doc = doc;
    let ghost before = doc@;
    let name = id_field();
    let taken = doc.0.remove(&name);
    assert(doc@ =~= before.remove(id_field_name()));
    match taken {
        Some(values) => {
            if values.len() > 0 {
                match &values[0] {
                    FieldValue::U64(v) => Ok(
                        QueryHit { document_id: to_decimal(*v), doc, ratio },
                    ),
                    _ => Err(Error::MislabeledDocument),
                }
            } else {
                Err(Error::MislabeledDocument)
            }
        },
        None => Err(Error::MislabeledDocument),
    }
}

/// The views of a list of raw matches.
pub open spec fn match_views(matches: Seq<(Ratio, NamedDocument)>) -> Seq<(Ratio, NamedView)> {
    matches.map_values(|m: (Ratio, NamedDocument)| (m.0, m.1@))
}

/// The hits for a list of raw matches, in the same order, if every one of
/// the documents is labelled; a failure if one of them is not.
pub open spec fn labelled_all(matches: Seq<(Ratio, NamedView)>) -> Result<Seq<HitView>, Error>
    decreases matches.len(),
{
    if matches.len() == 0 {
        Ok(Seq::<HitView>::empty())
    } else {
        match labelled_all(matches.drop_last()) {
            Err(e) => Err(e),
            Ok(hits) => match labelled(matches.last().0, matches.last().1) {
                Err(e) => Err(e),
                Ok(hit) => Ok(hits.push(hit)),
            },
        }
    }
}

/// Turns the raw matches of a search into its results: the hits in rank
/// order, the total count as it was passed in, and no time taken yet. One
/// mislabelled document fails the whole search.
pub fn collect_hits(matches: Vec<(Ratio, NamedDocument)>, count: usize) -> (results: Result<
    QueryResults,
    Error,
>)
    requires
        forall|i: int| 0 <= i < matches@.len() ==> (#[trigger] matches@[i]).1.wf(),
    ensures
        match results {
            Ok(r) => labelled_all(match_views(matches@)) == Ok::<Seq<HitView>, Error>(
                hit_views(r.hits@),
            ) && r.count == count && r.time_taken == (Elapsed { secs: 0, subsec_nanos: 0 }),
            Err(e) => labelled_all(match_views(matches@)) == Err::<Seq<HitView>, Error>(e),
        },
{
    let ghost all = match_views(matches@);
    let ghost raw = matches@;
    let mut hits: Vec<QueryHit> = Vec::new();
    proof {
        assert(hit_views(hits@) =~= Seq::<HitView>::empty());
        assert(all.take(0).len() == 0);
    }
    for found in it: matches.into_iter()
        invariant
            it.seq() == raw,
            all == match_views(raw),
            forall|i: int| 0 <= i < raw.len() ==> (#[trigger] raw[i]).1.wf(),
            labelled_all(all.take(it.index() as int)) == Ok::<Seq<HitView>, Error>(
                hit_views(hits@),
            ),
    {
        let ghost k = it.index() as int;
        proof {
            assert(all.take(k + 1).drop_last() =~= all.take(k));
            assert(all.take(k + 1).last() == (raw[k].0, raw[k].1@));
            assert(raw[k].1.wf());
        }
        let (ratio, doc) = found;
        match label_hit(ratio, doc) {
            Ok(hit) => {
                let ghost here = hits@;
                hits.push(hit);
                assert(hit_views(hits@) =~= hit_views(here).push(hit@));
            },
            Err(e) => {
                proof {
                    lemma_failure_stays(all, k + 1);
                }
                return Err(e);
            },
        }
    }
    assert(all.take(raw.len() as int) =~= all);
    Ok(QueryResults { hits, count, time_taken: Elapsed { secs: 0, subsec_nanos: 0 } })
}

/// Once a prefix of the matches holds a mislabelled document, the whole
/// list fails, and with the same error.
pub proof fn lemma_failure_stays(matches: Seq<(Ratio, NamedView)>, n: int)
    requires
        0 <= n <= matches.len(),
        labelled_all(matches.take(n)) is Err,
    ensures
        labelled_all(matches) == labelled_all(matches.take(n)),
    decreases matches.len() - n,
{
    if n < matches.len() {
        assert(matches.take(n + 1).drop_last() =~= matches.take(n));
        lemma_failure_stays(matches, n + 1);
    } else {
        assert(matches.take(n) =~= matches);
    }
}

impl QueryResults {
    /// The same results with the time that the search took filled in.
    pub fn with_time_taken(self, time_taken: Elapsed) -> (results: Self)
        ensures
            results.hits == self.hits,
            results.count == self.count,
            results.time_taken == time_taken,
    {
        QueryResults { hits: self.hits, count: self.count, time_taken }
    }
}

/// Where every document is labelled, there is one hit for each match, at
/// the same place and with the same ranking value.
pub proof fn lemma_labelled_all(matches: Seq<(Ratio, NamedView)>)
    requires
        labelled_all(matches) is Ok,
    ensures
        labelled_all(matches)->Ok_0.len() == matches.len(),
        forall|i: int|
            0 <= i < matches.len() ==> labelled(matches[i].0, matches[i].1) == Ok::<
                HitView,
                Error,
            >(#[trigger] labelled_all(matches)->Ok_0[i]),
    decreases matches.len(),
{
    if matches.len() > 0 {
        lemma_labelled_all(matches.drop_last());
    }
}

/// The hits come in the order of the matches: whatever order the engine
/// has put the ranking values of the matches in, by score or by a field of
/// any kind, the ranking values of the hits are in that order too.
pub proof fn lemma_hits_keep_rank_order(
    matches: Seq<(Ratio, NamedView)>,
    before: spec_fn(Ratio, Ratio) -> bool,
)
    requires
        labelled_all(matches) is Ok,
        forall|i: int, j: int|
            0 <= i < j < matches.len() ==> before(
                (#[trigger] matches[i]).0,
                (#[trigger] matches[j]).0,
            ),
    ensures
        labelled_all(matches)->Ok_0.len() == matches.len(),
        forall|i: int|
            0 <= i < matches.len() ==> (#[trigger] labelled_all(matches)->Ok_0[i]).ratio
                == matches[i].0,
        forall|i: int, j: int|
            0 <= i < j < matches.len() ==> before(
                (#[trigger] labelled_all(matches)->Ok_0[i]).ratio,
                (#[trigger] labelled_all(matches)->Ok_0[j]).ratio,
            ),
{
    lemma_labelled_all(matches);
    let hits = labelled_all(matches)->Ok_0;
    assert forall|i: int| 0 <= i < matches.len() implies (#[trigger] hits[i]).ratio
        == matches[i].0 by {
        assert(labelled(matches[i].0, matches[i].1) == Ok::<HitView, Error>(hits[i]));
    }
    assert forall|i: int, j: int| 0 <= i < j < matches.len() implies before(
        (#[trigger] hits[i]).ratio,
        (#[trigger] hits[j]).ratio,
    ) by {
        assert(before(matches[i].0, matches[j].0));
    }
}

/// Labelling fails for one reason only: a document that is mislabelled.
pub proof fn lemma_failure_is_mislabelling(matches: Seq<(Ratio, NamedView)>)
    ensures
        labelled_all(matches) matches Err(e) ==> e == Error::MislabeledDocument,
    decreases matches.len(),
{
    if matches.len() > 0 {
        lemma_failure_is_mislabelling(matches.drop_last());
    }
}

/// Where the engine hands the matches over best first, in the natural
/// order of the field they are ranked by or of the score, the hits stand
/// best first too, each with the ranking value of its match.
pub proof fn lemma_hits_stand_best_first(matches: Seq<(Ratio, NamedView)>)
    requires
        labelled_all(matches) is Ok,
        forall|i: int, j: int|
            0 <= i < j < matches.len() ==> ranks_no_lower(
                (#[trigger] matches[i]).0,
                (#[trigger] matches[j]).0,
            ),
    ensures
        labelled_all(matches)->Ok_0.len() == matches.len(),
        forall|i: int|
            0 <= i < matches.len() ==> (#[trigger] labelled_all(matches)->Ok_0[i]).ratio
                == matches[i].0,
        forall|i: int, j: int|
            0 <= i < j < matches.len() ==> ranks_no_lower(
                (#[trigger] labelled_all(matches)->Ok_0[i]).ratio,
                (#[trigger] labelled_all(matches)->Ok_0[j]).ratio,
            ),
{
    lemma_hits_keep_rank_order(matches, |a: Ratio, b: Ratio| ranks_no_lower(a, b));
}

} // verus!
