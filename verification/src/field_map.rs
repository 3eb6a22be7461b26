//! A small ordered map from field names to values. Its entries are kept in
//! the order of their names, as strings are ordered: by the bytes of their
//! UTF-8 encoding.

use vstd::prelude::*;
use vstd::string::StringSliceAdditionalSpecFns;
use vstd::utf8::{encode_utf8, encode_utf8_decode_utf8};

verus! {

/// The lexicographic order of byte sequences: at the first place where two
/// sequences differ the smaller byte decides, and a proper prefix comes
/// before what it is a prefix of.
pub open spec fn bytes_before(a: Seq<u8>, b: Seq<u8>) -> bool
    decreases a.len(),
{
    if b.len() == 0 {
        false
    } else if a.len() == 0 {
        true
    } else if a[0] != b[0] {
        a[0] < b[0]
    } else {
        bytes_before(a.drop_first(), b.drop_first())
    }
}

/// The order of field names: that of their UTF-8 encodings.
pub open spec fn name_before(a: Seq<char>, b: Seq<char>) -> bool {
    bytes_before(encode_utf8(a), encode_utf8(b))
}

/// No byte sequence comes before itself, and of two only one comes before
/// the other.
pub proof fn lemma_bytes_before_asymmetric(a: Seq<u8>, b: Seq<u8>)
    ensures
        !(bytes_before(a, b) && bytes_before(b, a)),
        !bytes_before(a, a),
    decreases a.len(),
{
    if a.len() > 0 {
        lemma_bytes_before_asymmetric(a.drop_first(), a.drop_first());
        if b.len() > 0 && a[0] == b[0] {
            lemma_bytes_before_asymmetric(a.drop_first(), b.drop_first());
        }
    }
}

/// What comes before something that comes before a third comes before the
/// third.
pub proof fn lemma_bytes_before_transitive(a: Seq<u8>, b: Seq<u8>, c: Seq<u8>)
    requires
        bytes_before(a, b),
        bytes_before(b, c),
    ensures
        bytes_before(a, c),
    decreases a.len(),
{
    if a.len() > 0 && a[0] == b[0] && b[0] == c[0] {
        lemma_bytes_before_transitive(a.drop_first(), b.drop_first(), c.drop_first());
    }
}

/// Of two different byte sequences one comes before the other.
pub proof fn lemma_bytes_before_total(a: Seq<u8>, b: Seq<u8>)
    requires
        a != b,
    ensures
        bytes_before(a, b) || bytes_before(b, a),
    decreases a.len(),
{
    if a.len() > 0 && b.len() > 0 && a[0] == b[0] {
        let x = a.drop_first();
        let y = b.drop_first();
        if x == y {
            assert(a =~= seq![a[0]] + x);
            assert(b =~= seq![b[0]] + y);
        }
        lemma_bytes_before_total(x, y);
    } else if a.len() == 0 && b.len() == 0 {
        assert(a =~= b);
    }
}

/// Of two different names one comes before the other, and never both.
pub proof fn lemma_names_ordered(a: Seq<char>, b: Seq<char>)
    ensures
        a != b ==> name_before(a, b) || name_before(b, a),
        !(name_before(a, b) && name_before(b, a)),
        !name_before(a, a),
{
    lemma_bytes_before_asymmetric(encode_utf8(a), encode_utf8(b));
    lemma_bytes_before_asymmetric(encode_utf8(a), encode_utf8(a));
    if a != b {
        encode_utf8_decode_utf8(a);
        encode_utf8_decode_utf8(b);
        lemma_bytes_before_total(encode_utf8(a), encode_utf8(b));
    }
}

/// Whether `a` comes before `b` in the order of names.
pub fn precedes(a: &String, b: &String) -> (before: bool)
    ensures
        before == name_before(a@, b@),
{
    let x = a.as_str().as_bytes();
    let y = b.as_str().as_bytes();
    let mut i: usize = 0;
    proof {
        assert(x@.skip(0) =~= x@ && y@.skip(0) =~= y@);
        assert(x@ == encode_utf8(a@));
        assert(y@ == encode_utf8(b@));
    }
    while i < x.len() && i < y.len()
        invariant
            i <= x@.len(),
            i <= y@.len(),
            x@ == encode_utf8(a@),
            y@ == encode_utf8(b@),
            bytes_before(x@, y@) == bytes_before(x@.skip(i as int), y@.skip(i as int)),
        decreases x@.len() - i,
    {
        proof {
            assert(x@.skip(i as int).drop_first() =~= x@.skip(i + 1));
            assert(y@.skip(i as int).drop_first() =~= y@.skip(i + 1));
            assert(x@.skip(i as int)[0] == x@[i as int]);
            assert(y@.skip(i as int)[0] == y@[i as int]);
        }
        if x[i] != y[i] {
            assert(bytes_before(x@.skip(i as int), y@.skip(i as int)) == (x@[i as int] < y@[i as int]));
            return x[i] < y[i];
        }
        i = i + 1;
    }
    assert(bytes_before(x@.skip(i as int), y@.skip(i as int)) == (x@.len() < y@.len()));
    x.len() < y.len()
}

/// A map keyed by field name. No name occurs twice, and the entries stand
/// in the order of their names.
#[derive(Debug, PartialEq, Eq)]
pub struct FieldMap<V> {
    entries: Vec<(String, V)>,
}

impl<V> View for FieldMap<V> {
    type V = Map<Seq<char>, V>;

    closed spec fn view(&self) -> Map<Seq<char>, V> {
        Map::new(
            |k: Seq<char>| self.names().contains(k),
            |k: Seq<char>| self.values()[self.names().index_of(k)],
        )
    }
}

/// Every name comes before the names after it.
pub open spec fn ascending(names: Seq<Seq<char>>) -> bool {
    forall|i: int, j: int| 0 <= i < j < names.len() ==> name_before(names[i], names[j])
}

impl<V> FieldMap<V> {
    /// The field names, in entry order.
    pub closed spec fn names(&self) -> Seq<Seq<char>> {
        self.entries@.map_values(|e: (String, V)| e.0@)
    }

    /// The values, in entry order.
    pub closed spec fn values(&self) -> Seq<V> {
        self.entries@.map_values(|e: (String, V)| e.1)
    }

    /// The names ascend. Every function of this type that returns a map
    /// establishes this, and every one that changes a map keeps it.
    pub closed spec fn wf(&self) -> bool {
        ascending(self.names())
    }

    /// How `names` and `values` list what the view holds: in ascending
    /// order of the names, each name once, with its value at the same place.
    pub open spec fn lists_view(&self) -> bool {
        &&& self.names().len() == self.values().len()
        &&& ascending(self.names())
        &&& self.names().no_duplicates()
        &&& forall|k: Seq<char>| self@.contains_key(k) <==> self.names().contains(k)
        &&& forall|i: int|
            0 <= i < self.names().len() ==> self@[#[trigger] self.names()[i]] == self.values()[i]
    }

    proof fn lemma_lists_view(&self)
        requires
            self.wf(),
        ensures
            self.lists_view(),
    {
        assert forall|i: int, j: int|
            0 <= i < self.names().len() && 0 <= j < self.names().len() && i
                != j implies self.names()[i] != self.names()[j] by {
            lemma_names_ordered(self.names()[i], self.names()[j]);
            if i < j {
                assert(name_before(self.names()[i], self.names()[j]));
            } else {
                assert(name_before(self.names()[j], self.names()[i]));
            }
        }
        assert forall|i: int| 0 <= i < self.names().len() implies self@[#[trigger] self.names()[i]]
            == self.values()[i] by {
            let k = self.names()[i];
            assert(self.names().contains(k));
            self.names().index_of_first_ensures(k);
            assert(self.names().index_of(k) == i);
        }
    }

    /// An empty map.
    pub fn new() -> (m: Self)
        ensures
            m.wf(),
            m@ == (Map::<Seq<char>, V>::empty()),
            m.names().len() == 0,
    {
        let m = FieldMap { entries: Vec::new() };
        assert(m@ =~= Map::<Seq<char>, V>::empty());
        m
    }

    fn position(&self, name: &String) -> (at: Option<usize>)
        ensures
            match at {
                Some(i) => i < self.names().len() && self.names()[i as int] == name@,
                None => !self.names().contains(name@),
            },
    {
        let mut i: usize = 0;
        while i < self.entries.len()
            invariant
                i <= self.entries.len(),
                forall|j: int| 0 <= j < i ==> self.names()[j] != name@,
            decreases self.entries.len() - i,
        {
            if self.entries[i].0 == *name {
                return Some(i);
            }
            i = i + 1;
        }
        None
    }

    /// The number of entries.
    pub fn len(&self) -> (n: usize)
        requires
            self.wf(),
        ensures
            n == self.names().len(),
            self.lists_view(),
    {
        proof {
            self.lemma_lists_view();
        }
        self.entries.len()
    }

    /// The name of the entry at place `i`.
    pub fn name(&self, i: usize) -> (name: &String)
        requires
            i < self.names().len(),
        ensures
            name@ == self.names()[i as int],
    {
        &self.entries[i].0
    }

    /// The value of the entry at place `i`.
    pub fn value(&self, i: usize) -> (value: &V)
        requires
            i < self.names().len(),
        ensures
            *value == self.values()[i as int],
            self.names().len() == self.values().len(),
    {
        &self.entries[i].1
    }

    /// Whether `name` has an entry.
    pub fn contains_key(&self, name: &String) -> (found: bool)
        requires
            self.wf(),
        ensures
            found == self@.contains_key(name@),
    {
        self.position(name).is_some()
    }

    /// The value stored under `name`, if there is one.
    pub fn get(&self, name: &String) -> (found: Option<&V>)
        requires
            self.wf(),
        ensures
            match found {
                Some(v) => self@.contains_key(name@) && *v == self@[name@],
                None => !self@.contains_key(name@),
            },
    {
        proof {
            self.lemma_lists_view();
        }
        match self.position(name) {
            Some(i) => Some(&self.entries[i].1),
            None => None,
        }
    }

    /// The place at which `name` stands or would have to stand.
    fn place(&self, name: &String) -> (at: usize)
        requires
            self.wf(),
        ensures
            at <= self.names().len(),
            forall|j: int| 0 <= j < at ==> name_before(self.names()[j], name@),
            forall|j: int|
                at <= j < self.names().len() ==> !name_before(#[trigger] self.names()[j], name@),
    {
        let mut i: usize = 0;
        while i < self.entries.len()
            invariant
                i <= self.entries.len(),
                self.wf(),
                forall|j: int| 0 <= j < i ==> name_before(self.names()[j], name@),
            decreases self.entries.len() - i,
        {
            if !precedes(&self.entries[i].0, name) {
                proof {
                    assert forall|j: int| i <= j < self.names().len() implies !name_before(
                        #[trigger] self.names()[j],
                        name@,
                    ) by {
                        if i < j && name_before(self.names()[j], name@) {
                            assert(name_before(self.names()[i as int], self.names()[j]));
                            lemma_bytes_before_transitive(
                                encode_utf8(self.names()[i as int]),
                                encode_utf8(self.names()[j]),
                                encode_utf8(name@),
                            );
                        }
                    }
                }
                return i;
            }
            i = i + 1;
        }
        i
    }

    /// Stores `value` under `name`, replacing what was stored there.
    pub fn insert(&mut self, name: String, value: V)
        requires
            old(self).wf(),
        ensures
            final(self).wf(),
            final(self)@ == old(self)@.insert(name@, value),
    {
        proof {
            self.lemma_lists_view();
        }
        let ghost before = *self;
        let ghost old_names = self.names();
        let ghost old_values = self.values();
        let at = self.place(&name);
        let found = at < self.entries.len() && self.entries[at].0 == name;
        if found {
            assert(old_names[at as int] == name@);
            self.entries.set(at, (name, value));
            proof {
                assert(self.names() =~= old_names);
                assert(self.values() =~= old_values.update(at as int, value));
                assert(old_names.contains(name@));
            }
        } else {
            self.entries.insert(at, (name, value));
            proof {
                let p = at as int;
                assert(self.names() =~= old_names.insert(p, name@));
                assert(self.values() =~= old_values.insert(p, value));
                assert(self.names()[p] == name@);
                assert forall|j: int| p <= j < old_names.len() implies name_before(
                    name@,
                    #[trigger] old_names[j],
                ) by {
                    lemma_names_ordered(name@, old_names[j]);
                    if j > p {
                        assert(!name_before(old_names[j], name@));
                    }
                    if old_names[j] == name@ {
                        assert(old_names[p] != name@);
                        assert(name_before(name@, old_names[p])) by {
                            lemma_names_ordered(name@, old_names[p]);
                        }
                        assert(name_before(old_names[p], old_names[j]));
                        lemma_names_ordered(old_names[p], name@);
                    }
                }
                assert forall|i: int, j: int| 0 <= i < j < self.names().len() implies name_before(
                    self.names()[i],
                    self.names()[j],
                ) by {
                    let i0 = if i < p { i } else { i - 1 };
                    let j0 = if j < p { j } else { j - 1 };
                    if i != p && j != p {
                        assert(name_before(old_names[i0], old_names[j0]));
                    } else if i == p {
                        assert(self.names()[j] == old_names[j0]);
                    } else {
                        assert(self.names()[i] == old_names[i0]);
                    }
                }
                assert forall|k: Seq<char>| old_names.contains(k) implies self.names().contains(
                    k,
                ) by {
                    let j = old_names.index_of(k);
                    let j1 = if j < p { j } else { j + 1 };
                    assert(self.names()[j1] == k);
                }
            }
        }
        proof {
            self.lemma_lists_view();
            assert forall|k: Seq<char>| self@.contains_key(k) implies self@[k] == before@.insert(
                name@,
                value,
            )[k] by {
                let j = self.names().index_of(k);
                assert(self.names()[j] == k);
                if k != name@ {
                    if found {
                        assert(old_names[j] == k);
                        assert(old_values[j] == self.values()[j]);
                    } else {
                        let j0 = if j < at { j } else { j - 1 };
                        assert(old_names[j0] == k);
                        assert(old_values[j0] == self.values()[j]);
                    }
                } else {
                    assert(self.names()[at as int] == name@);
                    assert(j == at);
                    assert(self.values()[at as int] == value);
                }
            }
            assert forall|k: Seq<char>| self@.contains_key(k) implies before@.insert(
                name@,
                value,
            ).contains_key(k) by {
                let j = self.names().index_of(k);
                assert(self.names()[j] == k);
                if k != name@ {
                    if found {
                        assert(old_names[j] == k);
                    } else {
                        let j0 = if j < at { j } else { j - 1 };
                        assert(old_names[j0] == k);
                    }
                }
            }
            assert(self@ =~= before@.insert(name@, value));
        }
    }

    /// Takes the entry of `name` out and returns its value.
    pub fn remove(&mut self, name: &String) -> (taken: Option<V>)
        requires
            old(self).wf(),
        ensures
            final(self).wf(),
            final(self)@ == old(self)@.remove(name@),
            taken == if old(self)@.contains_key(name@) {
                Some(old(self)@[name@])
            } else {
                None
            },
    {
        proof {
            self.lemma_lists_view();
        }
        let ghost before = *self;
        match self.position(name) {
            Some(i) => {
                let entry = self.entries.remove(i);
                proof {
                    assert(self.names() =~= before.names().remove(i as int));
                    assert(self.values() =~= before.values().remove(i as int));
                    assert forall|a: int, b: int|
                        0 <= a < b < self.names().len() implies name_before(
                        self.names()[a],
                        self.names()[b],
                    ) by {
                        let a0 = if a < i { a } else { a + 1 };
                        let b0 = if b < i { b } else { b + 1 };
                        assert(before.names()[a0] == self.names()[a]);
                        assert(before.names()[b0] == self.names()[b]);
                    }
                    self.lemma_lists_view();
                    assert forall|k: Seq<char>| self@.contains_key(k) <==> before@.remove(
                        name@,
                    ).contains_key(k) by {
                        if self.names().contains(k) {
                            let a = self.names().index_of(k);
                            let a0 = if a < i { a } else { a + 1 };
                            assert(before.names()[a0] == k);
                        }
                        if before.names().contains(k) && k != name@ {
                            let b0 = before.names().index_of(k);
                            let b = if b0 < i { b0 } else { b0 - 1 };
                            assert(self.names()[b] == k);
                        }
                    }
                    assert forall|k: Seq<char>| self@.contains_key(k) implies self@[k]
                        == before@.remove(name@)[k] by {
                        let a = self.names().index_of(k);
                        let a0 = if a < i { a } else { a + 1 };
                        assert(before.names()[a0] == k);
                        assert(self.names()[a] == k);
                    }
                    assert(self@ =~= before@.remove(name@));
                }
                Some(entry.1)
            },
            None => {
                assert(self@ =~= before@.remove(name@));
                None
            },
        }
    }
}

} // verus!
