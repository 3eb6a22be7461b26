//! What the query builder and the search step read of an index schema: the
//! fields in the order of their ids, each with its name, its kind and
//! whether its values are kept for fast access.

use vstd::prelude::*;

verus! {

/// The kind of values a field holds.
#[derive(Debug, Clone, Copy, PartialEq, Eq, Structural)]
pub enum FieldKind {
    Str,
    U64,
    I64,
    F64,
    Date,
    HierarchicalFacet,
    Bytes,
}

/// One field of a schema.
#[derive(Debug, PartialEq, Eq)]
pub struct SchemaField {
    /// The field's name.
    pub name: String,
    /// The kind of values it holds.
    pub kind: FieldKind,
    /// Whether its values are kept in the layout that gives direct access
    /// to the value of a document, as ordering by the field needs it.
    pub fast: bool,
}

/// A schema. A field's id is its place in `fields`.
#[derive(Debug, PartialEq, Eq)]
pub struct Schema {
    pub fields: Vec<SchemaField>,
}

/// The name under which every document stores its identifier.
pub open spec fn id_field_name() -> Seq<char> {
    seq!['_', 'i', 'd']
}

/// The name under which every document stores its identifier.
pub fn id_field() -> (name: String)
    ensures
        name@ == id_field_name(),
{
    let mut name = String::new();
    name.push('_');
    name.push('i');
    name.push('d');
    assert(name@ =~= id_field_name());
    name
}

/// The place of the last of `names` that equals `name`, if any: where a name
/// was given to two fields, it stands for the later one.
pub open spec fn last_named(names: Seq<Seq<char>>, name: Seq<char>) -> Option<int>
    decreases names.len(),
{
    if names.len() == 0 {
        None
    } else if names.last() == name {
        Some(names.len() - 1)
    } else {
        last_named(names.drop_last(), name)
    }
}

impl Schema {
    /// The field names in id order.
    pub open spec fn names(&self) -> Seq<Seq<char>> {
        self.fields@.map_values(|f: SchemaField| f.name@)
    }

    /// The field kinds in id order.
    pub open spec fn kinds(&self) -> Seq<FieldKind> {
        self.fields@.map_values(|f: SchemaField| f.kind)
    }

    /// Every field id fits in 32 bits.
    pub open spec fn wf(&self) -> bool {
        self.fields@.len() <= u32::MAX
    }

    /// The id that `name` stands for in this schema.
    pub open spec fn field_id(&self, name: Seq<char>) -> Option<u32> {
        match last_named(self.names(), name) {
            Some(i) => Some(i as u32),
            None => None,
        }
    }

    /// Whether the schema has a field with id `field` whose values are kept
    /// for fast access.
    pub open spec fn fast_of(&self, field: u32) -> bool {
        field < self.fields@.len() && self.fields@[field as int].fast
    }

    /// The kind of the field with id `field`.
    pub open spec fn kind_of(&self, field: u32) -> Option<FieldKind> {
        if field < self.fields@.len() {
            Some(self.kinds()[field as int])
        } else {
            None
        }
    }

    /// Looks a field up by name.
    pub fn get_field(&self, name: &String) -> (field: Option<u32>)
        requires
            self.wf(),
        ensures
            field == self.field_id(name@),
            field matches Some(id) ==> id < self.fields@.len() && self.names()[id as int] == name@,
    {
        let mut i: usize = self.fields.len();
        assert(self.names().take(i as int) =~= self.names());
        while i > 0
            invariant
                i <= self.fields@.len(),
                self.fields@.len() <= u32::MAX,
                last_named(self.names(), name@) == last_named(self.names().take(i as int), name@),
            decreases i,
        {
            proof {
                assert(self.names().take(i as int).drop_last() =~= self.names().take(i - 1));
            }
            if self.fields[i - 1].name == *name {
                return Some((i - 1) as u32);
            }
            i = i - 1;
        }
        None
    }

    /// Whether a field's values are kept for fast access; not so for an id
    /// that the schema does not have.
    pub fn is_fast(&self, field: u32) -> (fast: bool)
        ensures
            fast == self.fast_of(field),
    {
        (field as usize) < self.fields.len() && self.fields[field as usize].fast
    }

    /// The kind of a field, if the schema has a field with that id.
    pub fn get_kind(&self, field: u32) -> (kind: Option<FieldKind>)
        ensures
            kind == self.kind_of(field),
    {
        if (field as usize) < self.fields.len() {
            Some(self.fields[field as usize].kind)
        } else {
            None
        }
    }
}

} // verus!
