//! Documents as they are indexed, and the field corrector that adds a shadow
//! field of corrected text beside each configured text field.

use crate::field_map::FieldMap;
use crate::text::{decimal, push_decimal};
use std::hash::{Hash, Hasher};
use vstd::prelude::*;
use vstd::std_specs::iter::IteratorSpec;

verus! {

/// One value of a document field. `F64` holds the bits of the number.
#[derive(Debug, PartialEq, Eq)]
pub enum DocumentValue {
    Text(String),
    I64(i64),
    U64(u64),
    F64(u64),
    Datetime(i64),
}

/// A `DocumentValue` with its text as a sequence of characters.
pub enum ValueView {
    Text(Seq<char>),
    I64(i64),
    U64(u64),
    F64(u64),
    Datetime(i64),
}

impl View for DocumentValue {
    type V = ValueView;

    open spec fn view(&self) -> ValueView {
        match *self {
            DocumentValue::Text(s) => ValueView::Text(s@),
            DocumentValue::I64(v) => ValueView::I64(v),
            DocumentValue::U64(v) => ValueView::U64(v),
            DocumentValue::F64(v) => ValueView::F64(v),
            DocumentValue::Datetime(v) => ValueView::Datetime(v),
        }
    }
}

/// What a document stores under one field name: one value or a list.
#[derive(Debug, PartialEq, Eq)]
pub enum DocumentItem {
    Single(DocumentValue),
    Multi(Vec<DocumentValue>),
}

/// A `DocumentItem` over value views.
pub enum ItemView {
    Single(ValueView),
    Multi(Seq<ValueView>),
}

/// The views of a list of values.
pub open spec fn value_views(values: Seq<DocumentValue>) -> Seq<ValueView> {
    values.map_values(|v: DocumentValue| v@)
}

impl View for DocumentItem {
    type V = ItemView;

    open spec fn view(&self) -> ItemView {
        match *self {
            DocumentItem::Single(v) => ItemView::Single(v@),
            DocumentItem::Multi(vs) => ItemView::Multi(value_views(vs@)),
        }
    }
}

/// A document: field names with what is stored under each.
#[derive(Debug, PartialEq, Eq)]
pub struct Document(pub FieldMap<DocumentItem>);

impl View for Document {
    type V = Map<Seq<char>, ItemView>;

    open spec fn view(&self) -> Map<Seq<char>, ItemView> {
        self.0@.map_values(|item: DocumentItem| item@)
    }
}

impl Document {
    /// The underlying map is well formed.
    pub open spec fn wf(&self) -> bool {
        self.0.wf()
    }

    /// A document without fields.
    pub fn new() -> (doc: Self)
        ensures
            doc.wf(),
            doc@ == (Map::<Seq<char>, ItemView>::empty()),
    {
        let doc = Document(FieldMap::new());
        assert(doc@ =~= Map::<Seq<char>, ItemView>::empty());
        doc
    }

    /// What is stored under `name`, if anything.
    pub fn get(&self, name: &String) -> (found: Option<&DocumentItem>)
        requires
            self.wf(),
        ensures
            match found {
                Some(item) => self@.contains_key(name@) && item@ == self@[name@],
                None => !self@.contains_key(name@),
            },
    {
        self.0.get(name)
    }

    /// Stores `item` under `name`, replacing what was stored there.
    pub fn insert(&mut self, name: String, item: DocumentItem)
        requires
            old(self).wf(),
        ensures
            final(self).wf(),
            final(self)@ == old(self)@.insert(name@, item@),
    {
        self.0.insert(name, item);
        assert(self@ =~= old(self)@.insert(name@, item@));
    }
}

/// The name of the shadow field that belongs to a field whose name hashes to
/// `hash`: an underscore, then the hash as a decimal numeral.
pub open spec fn shadow_key(hash: u64) -> Seq<char> {
    seq!['_'] + decimal(hash as nat)
}

/// The shadow field's name for a field-name hash.
pub fn shadow_name(hash: u64) -> (name: String)
    ensures
        name@ == shadow_key(hash),
{
    let mut name = String::new();
    name.push('_');
    push_decimal(&mut name, hash);
    assert(name@ =~= shadow_key(hash));
    name
}

/// Hashes a field name with `ahash::AHasher::default()`, fed through
/// `Hash::hash` and read with `Hasher::finish`. The hasher's keys are drawn
/// once per process, so nothing is claimed of the number that comes back.
#[verifier::external_body]
pub(crate) fn hash(name: &String) -> u64 {
    let mut hasher = ahash::AHasher::default();
    name.hash(&mut hasher);
    hasher.finish()
}

/// The text values among `values`, in order.
pub open spec fn texts(values: Seq<ValueView>) -> Seq<Seq<char>>
    decreases values.len(),
{
    if values.len() == 0 {
        Seq::<Seq<char>>::empty()
    } else {
        let before = texts(values.drop_last());
        match values.last() {
            ValueView::Text(t) => before.push(t),
            _ => before,
        }
    }
}

/// Whether an item gets a shadow: it is a single text, or a list that holds
/// at least one text.
pub open spec fn has_text(item: ItemView) -> bool {
    match item {
        ItemView::Single(v) => v is Text,
        ItemView::Multi(vs) => texts(vs).len() > 0,
    }
}

/// `out` is a text that `correct` may return for `text` at edit distance 1.
pub open spec fn corrects<C: Fn(&String, usize) -> String>(
    correct: C,
    text: Seq<char>,
    out: Seq<char>,
) -> bool {
    exists|t: String, r: String|
        t@ == text && r@ == out && #[trigger] call_ensures(correct, (&t, 1usize), r)
}

/// `shadow` is what the corrector makes of `item`: a single text becomes the
/// single corrected text; a list becomes the list of its corrected texts, in
/// order, without its other values. An item without text has no shadow.
pub open spec fn is_shadow<C: Fn(&String, usize) -> String>(
    correct: C,
    item: ItemView,
    shadow: ItemView,
) -> bool {
    match item {
        ItemView::Single(ValueView::Text(t)) => shadow matches ItemView::Single(ValueView::Text(r))
            && corrects(correct, t, r),
        ItemView::Single(_) => false,
        ItemView::Multi(vs) => shadow matches ItemView::Multi(rs) && rs.len() == texts(vs).len()
            && rs.len() > 0 && forall|i: int|
            0 <= i < rs.len() ==> ((#[trigger] rs[i]) matches ValueView::Text(r) && corrects(
                correct,
                texts(vs)[i],
                r,
            )),
    }
}

/// The place in `fields`, among the first `n`, of the last field that is
/// present in `doc` with text and whose shadow name is `key`; `-1` if there
/// is none. That field's correction is what ends up stored under `key`.
pub open spec fn source_of(
    doc: Map<Seq<char>, ItemView>,
    fields: Seq<Seq<char>>,
    hashes: Seq<u64>,
    key: Seq<char>,
    n: int,
) -> int
    decreases n,
{
    if n <= 0 {
        -1
    } else if doc.contains_key(fields[n - 1]) && has_text(doc[fields[n - 1]]) && shadow_key(
        hashes[n - 1],
    ) == key {
        n - 1
    } else {
        source_of(doc, fields, hashes, key, n - 1)
    }
}

/// How the corrector changes a document, given the hash of each configured
/// field name. Under every name that is no shadow name of a configured field
/// present with text, the document is as before. Under each such shadow name
/// stands the shadow of the last configured field that it belongs to, made
/// from the document as it was before.
pub open spec fn shadowed<C: Fn(&String, usize) -> String>(
    before: Map<Seq<char>, ItemView>,
    after: Map<Seq<char>, ItemView>,
    fields: Seq<Seq<char>>,
    hashes: Seq<u64>,
    correct: C,
) -> bool {
    forall|key: Seq<char>|
        {
            let i = #[trigger] source_of(before, fields, hashes, key, fields.len() as int);
            if i < 0 {
                &&& after.contains_key(key) == before.contains_key(key)
                &&& before.contains_key(key) ==> after[key] == before[key]
            } else {
                &&& after.contains_key(key)
                &&& is_shadow(correct, before[fields[i]], after[key])
            }
        }
}

/// The corrected texts of a list of values, in order.
fn correct_texts<C: Fn(&String, usize) -> String>(values: &Vec<DocumentValue>, correct: &C) -> (out:
    Vec<DocumentValue>)
    requires
        forall|t: &String| call_requires(*correct, (t, 1usize)),
    ensures
        out@.len() == texts(value_views(values@)).len(),
        forall|i: int|
            0 <= i < out@.len() ==> ((#[trigger] value_views(out@)[i]) matches ValueView::Text(r)
                && corrects(*correct, texts(value_views(values@))[i], r)),
{
    let mut out: Vec<DocumentValue> = Vec::new();
    let ghost all = value_views(values@);
    let mut j: usize = 0;
    while j < values.len()
        invariant
            j <= values.len(),
            all == value_views(values@),
            forall|t: &String| call_requires(*correct, (t, 1usize)),
            out@.len() == texts(all.take(j as int)).len(),
            forall|i: int|
                0 <= i < out@.len() ==> ((#[trigger] value_views(out@)[i]) matches ValueView::Text(
                    r,
                ) && corrects(*correct, texts(all.take(j as int))[i], r)),
        decreases values.len() - j,
    {
        proof {
            assert(all.take(j + 1).drop_last() =~= all.take(j as int));
            assert(all.take(j + 1).last() == values@[j as int]@);
        }
        if let DocumentValue::Text(data) = &values[j] {
            let fixed = correct(data, 1);
            proof {
                assert(call_ensures(*correct, (data, 1usize), fixed));
                assert(corrects(*correct, data@, fixed@));
            }
            let ghost before = out@;
            out.push(DocumentValue::Text(fixed));
            assert(value_views(out@) =~= value_views(before).push(ValueView::Text(fixed@)));
        }
        j = j + 1;
    }
    assert(all.take(values.len() as int) =~= all);
    out
}

/// The shadow of one item, if it has one.
fn shadow_of<C: Fn(&String, usize) -> String>(item: &DocumentItem, correct: &C) -> (shadow: Option<
    DocumentItem,
>)
    requires
        forall|t: &String| call_requires(*correct, (t, 1usize)),
    ensures
        shadow is Some <==> has_text(item@),
        shadow matches Some(s) ==> is_shadow(*correct, item@, s@),
{
    match item {
        DocumentItem::Single(value) => {
            if let DocumentValue::Text(data) = value {
                let fixed = correct(data, 1);
                proof {
                    assert(call_ensures(*correct, (data, 1usize), fixed));
                    assert(corrects(*correct, data@, fixed@));
                }
                Some(DocumentItem::Single(DocumentValue::Text(fixed)))
            } else {
                None
            }
        },
        DocumentItem::Multi(values) => {
            let fixed = correct_texts(values, correct);
            if fixed.len() > 0 {
                Some(DocumentItem::Multi(fixed))
            } else {
                None
            }
        },
    }
}

/// The view of a pending change.
pub open spec fn change_view(change: Option<DocumentItem>) -> Option<ItemView> {
    match change {
        Some(item) => Some(item@),
        None => None,
    }
}

/// Adds the shadow fields to `doc`, given for each configured field name the
/// hash that names its shadow. Every shadow is made from the document as it
/// was on entry; the shadows are then stored in the order of
/// `indexed_text_fields`, so that of two with one name the later one stays.
pub fn add_shadow_fields<C: Fn(&String, usize) -> String>(
    doc: &mut Document,
    indexed_text_fields: &Vec<String>,
    hashes: &Vec<u64>,
    correct: C,
)
    requires
        old(doc).wf(),
        hashes@.len() == indexed_text_fields@.len(),
        forall|t: &String| call_requires(correct, (t, 1usize)),
    ensures
        final(doc).wf(),
        shadowed(
            old(doc)@,
            final(doc)@,
            crate::text::views(indexed_text_fields@),
            hashes@,
            correct,
        ),
{
    let ghost before = doc@;
    let ghost fields = crate::text::views(indexed_text_fields@);
    let mut changes: Vec<Option<DocumentItem>> = Vec::new();
    let mut i: usize = 0;
    while i < indexed_text_fields.len()
        invariant
            i <= indexed_text_fields.len(),
            doc.wf(),
            doc@ == before,
            fields == crate::text::views(indexed_text_fields@),
            forall|t: &String| call_requires(correct, (t, 1usize)),
            changes@.len() == i,
            forall|j: int|
                0 <= j < i ==> ((#[trigger] changes@[j]) is Some <==> before.contains_key(fields[j])
                    && has_text(before[fields[j]])),
            forall|j: int|
                0 <= j < i ==> ((#[trigger] changes@[j]) matches Some(s) ==> is_shadow(
                    correct,
                    before[fields[j]],
                    s@,
                )),
        decreases indexed_text_fields.len() - i,
    {
        let change = match doc.get(&indexed_text_fields[i]) {
            Some(item) => shadow_of(item, &correct),
            None => None,
        };
        changes.push(change);
        i = i + 1;
    }
    let ghost planned = changes@;
    let n = indexed_text_fields.len();
    let mut k: usize = 0;
    for change in it: changes.into_iter()
        invariant
            it.seq() == planned,
            k == it.index(),
            planned.len() == n,
            n == indexed_text_fields@.len(),
            hashes@.len() == n,
            doc.wf(),
            forall|key: Seq<char>|
                {
                    let j = #[trigger] source_of(before, fields, hashes@, key, k as int);
                    if j < 0 {
                        &&& doc@.contains_key(key) == before.contains_key(key)
                        &&& before.contains_key(key) ==> doc@[key] == before[key]
                    } else {
                        &&& j < k
                        &&& doc@.contains_key(key)
                        &&& change_view(planned[j]) == Some(doc@[key])
                    }
                },
            forall|j: int|
                0 <= j < n ==> ((#[trigger] planned[j]) is Some <==> before.contains_key(fields[j])
                    && has_text(before[fields[j]])),
    {
        if let Some(shadow) = change {
            let name = shadow_name(hashes[k]);
            doc.insert(name, shadow);
        }
        proof {
            assert forall|key: Seq<char>|
                {
                    let j = #[trigger] source_of(before, fields, hashes@, key, k + 1);
                    if j < 0 {
                        &&& doc@.contains_key(key) == before.contains_key(key)
                        &&& before.contains_key(key) ==> doc@[key] == before[key]
                    } else {
                        &&& j < k + 1
                        &&& doc@.contains_key(key)
                        &&& change_view(planned[j]) == Some(doc@[key])
                    }
                } by {
                let j0 = source_of(before, fields, hashes@, key, k as int);
                assert(planned[k as int] is Some <==> before.contains_key(fields[k as int])
                    && has_text(before[fields[k as int]]));
            }
        }
        k = k + 1;
    }
    proof {
        assert forall|key: Seq<char>|
            {
                let j = #[trigger] source_of(before, fields, hashes@, key, fields.len() as int);
                if j < 0 {
                    &&& doc@.contains_key(key) == before.contains_key(key)
                    &&& before.contains_key(key) ==> doc@[key] == before[key]
                } else {
                    &&& doc@.contains_key(key)
                    &&& is_shadow(correct, before[fields[j]], doc@[key])
                }
            } by {
            let j = source_of(before, fields, hashes@, key, n as int);
            if j >= 0 {
                lemma_source_is_active(before, fields, hashes@, key, n as int);
                assert(planned[j] is Some);
            }
        }
    }
}

/// What `source_of` finds is a place among the first `n` whose field is
/// present with text and whose shadow name is `key`.
pub proof fn lemma_source_is_active(
    doc: Map<Seq<char>, ItemView>,
    fields: Seq<Seq<char>>,
    hashes: Seq<u64>,
    key: Seq<char>,
    n: int,
)
    ensures
        ({
            let j = source_of(doc, fields, hashes, key, n);
            j >= 0 ==> j < n && doc.contains_key(fields[j]) && has_text(doc[fields[j]])
                && shadow_key(hashes[j]) == key
        }),
    decreases n,
{
    if n > 0 {
        lemma_source_is_active(doc, fields, hashes, key, n - 1);
    }
}

/// Adds to `doc`, for every name in `indexed_text_fields` that the document
/// holds with text, a shadow field with the corrected text. The shadow's
/// name is made from a hash of the field's name; the fields that were there
/// stay as they were, unless one of them bears a shadow's name.
pub fn correct_doc_fields<C: Fn(&String, usize) -> String>(
    doc: &mut Document,
    indexed_text_fields: &Vec<String>,
    correct: C,
)
    requires
        old(doc).wf(),
        forall|t: &String| call_requires(correct, (t, 1usize)),
    ensures
        final(doc).wf(),
        exists|hashes: Seq<u64>|
            hashes.len() == indexed_text_fields@.len() && #[trigger] shadowed(
                old(doc)@,
                final(doc)@,
                crate::text::views(indexed_text_fields@),
                hashes,
                correct,
            ),
{
    let mut hashes: Vec<u64> = Vec::new();
    let mut i: usize = 0;
    while i < indexed_text_fields.len()
        invariant
            i <= indexed_text_fields.len(),
            hashes@.len() == i,
        decreases indexed_text_fields.len() - i,
    {
        hashes.push(hash(&indexed_text_fields[i]));
        i = i + 1;
    }
    add_shadow_fields(doc, indexed_text_fields, &hashes, correct);
}

/// A name that is no shadow name of a configured field has no source.
pub proof fn lemma_no_source(
    doc: Map<Seq<char>, ItemView>,
    fields: Seq<Seq<char>>,
    hashes: Seq<u64>,
    key: Seq<char>,
    n: int,
)
    requires
        n <= fields.len(),
        forall|i: int| 0 <= i < n ==> shadow_key(#[trigger] hashes[i]) != key,
    ensures
        source_of(doc, fields, hashes, key, n) < 0,
    decreases n,
{
    if n > 0 {
        lemma_no_source(doc, fields, hashes, key, n - 1);
    }
}

/// The corrector only adds: every field of the document is still there
/// afterwards, and a field whose name is no shadow name of a configured
/// field holds what it held. What is stored under a shadow name is never an
/// empty list.
pub proof fn lemma_corrector_only_adds<C: Fn(&String, usize) -> String>(
    before: Map<Seq<char>, ItemView>,
    after: Map<Seq<char>, ItemView>,
    fields: Seq<Seq<char>>,
    hashes: Seq<u64>,
    correct: C,
)
    requires
        hashes.len() == fields.len(),
        shadowed(before, after, fields, hashes, correct),
    ensures
        forall|name: Seq<char>| before.contains_key(name) ==> after.contains_key(name),
        forall|name: Seq<char>|
            before.contains_key(name) && (forall|i: int|
                0 <= i < fields.len() ==> shadow_key(#[trigger] hashes[i]) != name)
                ==> after[name] == before[name],
        forall|name: Seq<char>|
            after.contains_key(name) && !before.contains_key(name) ==> has_text(
                #[trigger] after[name],
            ),
{
    let n = fields.len() as int;
    assert forall|name: Seq<char>| before.contains_key(name) implies after.contains_key(name) by {
        let i = source_of(before, fields, hashes, name, n);
    }
    assert forall|name: Seq<char>|
        before.contains_key(name) && (forall|i: int|
            0 <= i < fields.len() ==> shadow_key(#[trigger] hashes[i]) != name) implies after[name]
        == before[name] by {
        lemma_no_source(before, fields, hashes, name, n);
        let i = source_of(before, fields, hashes, name, n);
    }
    assert forall|name: Seq<char>|
        after.contains_key(name) && !before.contains_key(name) implies has_text(
        #[trigger] after[name],
    ) by {
        let i = source_of(before, fields, hashes, name, n);
        lemma_source_is_active(before, fields, hashes, name, n);
        if i >= 0 {
            let item = before[fields[i]];
            let shadow = after[name];
            assert(is_shadow(correct, item, shadow));
            match shadow {
                ItemView::Single(v) => {},
                ItemView::Multi(rs) => {
                    lemma_texts_of_texts(rs);
                },
            }
        }
    }
}

/// A list that holds texts only has as many texts as it has values.
pub proof fn lemma_texts_of_texts(values: Seq<ValueView>)
    requires
        forall|i: int| 0 <= i < values.len() ==> (#[trigger] values[i]) is Text,
    ensures
        texts(values).len() == values.len(),
    decreases values.len(),
{
    if values.len() > 0 {
        let before = values.drop_last();
        assert forall|i: int| 0 <= i < before.len() implies (#[trigger] before[i]) is Text by {
            assert(before[i] == values[i]);
        }
        lemma_texts_of_texts(before);
        assert(values.last() == values[values.len() - 1]);
    }
}

} // verus!
