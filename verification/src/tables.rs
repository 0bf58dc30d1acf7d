//! Tables of types and record fields keyed by name, and sets of names, held
//! in hash maps and hash sets with the FNV hasher.
use crate::types::{view_fields, RecordField, SpecRecordField, SpecType, Type};
use vstd::prelude::*;

verus! {

/// Types keyed by their names.
#[verifier::external_body]
pub struct TypeMap {
    map: fnv::FnvHashMap<String, Type>,
}

/// What a type table holds: the model of the type stored under each name.
pub uninterp spec fn type_map_contents(map: TypeMap) -> Map<Seq<char>, SpecType>;

impl TypeMap {
    /// An empty table, made by `FnvHashMap::default`.
    #[verifier::external_body]
    pub fn new() -> (table: TypeMap)
        ensures
            type_map_contents(table).dom().is_empty(),
    {
        TypeMap { map: fnv::FnvHashMap::default() }
    }

    /// `HashMap::insert`: the table then maps `name` to `type_`, and every
    /// other name as before.
    #[verifier::external_body]
    pub fn insert(&mut self, name: String, type_: Type)
        ensures
            type_map_contents(*final(self)) == type_map_contents(*old(self)).insert(name@, type_@),
    {
        self.map.insert(name, type_);
    }

    /// `HashMap::clone`: a table that holds the same types.
    #[verifier::external_body]
    pub(crate) fn duplicate(&self) -> (copy: TypeMap)
        ensures
            type_map_contents(copy) == type_map_contents(*self),
    {
        TypeMap { map: self.map.clone() }
    }

    /// `HashMap::remove`: the table then maps every name but `name` as
    /// before, and `name` to nothing.
    #[verifier::external_body]
    pub(crate) fn remove(&mut self, name: &str)
        ensures
            type_map_contents(*final(self)) == type_map_contents(*old(self)).remove(name@),
    {
        self.map.remove(name);
    }

    /// `HashMap::get`: the type stored under `name`, if any.
    #[verifier::external_body]
    pub fn get(&self, name: &str) -> (type_: Option<&Type>)
        ensures
            type_ is Some == type_map_contents(*self).contains_key(name@),
            type_ matches Some(t) ==> t@ == type_map_contents(*self)[name@],
    {
        self.map.get(name)
    }

    /// The names in the table, each once, in the order in which
    /// `HashMap::keys` walks them.
    #[verifier::external_body]
    pub fn names(&self) -> (names: Vec<String>)
        ensures
            forall|i: int|
                0 <= i < names@.len() ==> type_map_contents(*self).contains_key(
                    #[trigger] names@[i]@,
                ),
            forall|name: Seq<char>|
                type_map_contents(*self).contains_key(name) ==> exists|i: int|
                    0 <= i < names@.len() && #[trigger] names@[i]@ == name,
    {
        self.map.keys().cloned().collect()
    }
}

/// Record fields keyed by the names of their record types.
#[verifier::external_body]
pub struct RecordMap {
    map: fnv::FnvHashMap<String, Vec<RecordField>>,
}

/// What a record table holds: the models of the fields of each record type.
pub uninterp spec fn record_map_contents(map: RecordMap) -> Map<
    Seq<char>,
    Seq<SpecRecordField>,
>;

impl RecordMap {
    /// An empty table, made by `FnvHashMap::default`.
    #[verifier::external_body]
    pub fn new() -> (table: RecordMap)
        ensures
            record_map_contents(table).dom().is_empty(),
    {
        RecordMap { map: fnv::FnvHashMap::default() }
    }

    /// `HashMap::insert`: the table then maps `name` to `fields`, and every
    /// other name as before.
    #[verifier::external_body]
    pub fn insert(&mut self, name: String, fields: Vec<RecordField>)
        ensures
            record_map_contents(*final(self)) == record_map_contents(*old(self)).insert(
                name@,
                view_fields(fields@),
            ),
    {
        self.map.insert(name, fields);
    }

    /// `HashMap::get`: the fields stored under `name`, if any.
    #[verifier::external_body]
    pub(crate) fn get(&self, name: &str) -> (fields: Option<&Vec<RecordField>>)
        ensures
            fields is Some == record_map_contents(*self).contains_key(name@),
            fields matches Some(f) ==> view_fields(f@) == record_map_contents(*self)[name@],
    {
        self.map.get(name)
    }

    /// The names in the table, each once, in the order in which
    /// `HashMap::keys` walks them.
    #[verifier::external_body]
    pub(crate) fn names(&self) -> (names: Vec<String>)
        ensures
            forall|i: int|
                0 <= i < names@.len() ==> record_map_contents(*self).contains_key(
                    #[trigger] names@[i]@,
                ),
            forall|name: Seq<char>|
                record_map_contents(*self).contains_key(name) ==> exists|i: int|
                    0 <= i < names@.len() && #[trigger] names@[i]@ == name,
    {
        self.map.keys().cloned().collect()
    }
}

/// A set of names.
#[verifier::external_body]
pub struct NameSet {
    set: fnv::FnvHashSet<String>,
}

/// What a name set holds.
pub uninterp spec fn name_set_contents(set: NameSet) -> Set<Seq<char>>;

impl NameSet {
    /// An empty set, made by `FnvHashSet::default`.
    #[verifier::external_body]
    pub fn new() -> (set: NameSet)
        ensures
            name_set_contents(set) == Set::<Seq<char>>::empty(),
    {
        NameSet { set: fnv::FnvHashSet::default() }
    }

    /// `HashSet::insert`: the set then holds `name` too.
    #[verifier::external_body]
    pub fn insert(&mut self, name: String)
        ensures
            name_set_contents(*final(self)) == name_set_contents(*old(self)).insert(name@),
    {
        self.set.insert(name);
    }

    /// `HashSet::contains`.
    #[verifier::external_body]
    pub(crate) fn contains(&self, name: &str) -> (found: bool)
        ensures
            found == name_set_contents(*self).contains(name@),
    {
        self.set.contains(name)
    }

    /// The names in the set, each once, in the order in which
    /// `HashSet::iter` walks them.
    #[verifier::external_body]
    pub(crate) fn names(&self) -> (names: Vec<String>)
        ensures
            forall|i: int, j: int|
                0 <= i < j < names@.len() ==> (#[trigger] names@[i])@ != (#[trigger] names@[j])@,
            forall|i: int|
                0 <= i < names@.len() ==> name_set_contents(*self).contains(#[trigger] names@[i]@),
            forall|name: Seq<char>|
                name_set_contents(*self).contains(name) ==> exists|i: int|
                    0 <= i < names@.len() && #[trigger] names@[i]@ == name,
    {
        self.set.iter().cloned().collect()
    }

    /// `HashSet::clone`: a set that holds the same names.
    #[verifier::external_body]
    pub(crate) fn duplicate(&self) -> (copy: NameSet)
        ensures
            name_set_contents(copy) == name_set_contents(*self),
    {
        NameSet { set: self.set.clone() }
    }
}

/// New names keyed by old names.
#[verifier::external_body]
pub struct NameMap {
    map: fnv::FnvHashMap<String, String>,
}

/// What a name table holds: the new name of each old name.
pub uninterp spec fn name_map_contents(map: NameMap) -> Map<Seq<char>, Seq<char>>;

impl NameMap {
    /// An empty table, made by `FnvHashMap::default`.
    #[verifier::external_body]
    pub fn new() -> (table: NameMap)
        ensures
            name_map_contents(table).dom().is_empty(),
    {
        NameMap { map: fnv::FnvHashMap::default() }
    }

    /// `HashMap::insert`: the table then maps `name` to `new_name`, and
    /// every other name as before.
    #[verifier::external_body]
    pub fn insert(&mut self, name: String, new_name: String)
        ensures
            name_map_contents(*final(self)) == name_map_contents(*old(self)).insert(
                name@,
                new_name@,
            ),
    {
        self.map.insert(name, new_name);
    }

    /// `HashMap::get`: the new name of `name`, if any.
    #[verifier::external_body]
    pub(crate) fn get(&self, name: &str) -> (new_name: Option<&String>)
        ensures
            new_name is Some == name_map_contents(*self).contains_key(name@),
            new_name matches Some(n) ==> n@ == name_map_contents(*self)[name@],
    {
        self.map.get(name)
    }
}

/// Indices keyed by names.
#[verifier::external_body]
pub struct NameIndexMap {
    map: fnv::FnvHashMap<String, usize>,
}

/// What an index table holds: the index stored under each name.
pub uninterp spec fn name_index_map_contents(map: NameIndexMap) -> Map<Seq<char>, usize>;

impl NameIndexMap {
    /// An empty table, made by `FnvHashMap::default`.
    #[verifier::external_body]
    pub(crate) fn new() -> (table: NameIndexMap)
        ensures
            name_index_map_contents(table).dom().is_empty(),
    {
        NameIndexMap { map: fnv::FnvHashMap::default() }
    }

    /// `HashMap::insert`: the table then maps `name` to `index`, and every
    /// other name as before.
    #[verifier::external_body]
    pub(crate) fn insert(&mut self, name: String, index: usize)
        ensures
            name_index_map_contents(*final(self)) == name_index_map_contents(*old(self)).insert(
                name@,
                index,
            ),
    {
        self.map.insert(name, index);
    }

    /// `HashMap::get`: the index stored under `name`, if any.
    #[verifier::external_body]
    pub(crate) fn get(&self, name: &str) -> (index: Option<usize>)
        ensures
            index is Some == name_index_map_contents(*self).contains_key(name@),
            index matches Some(i) ==> i == name_index_map_contents(*self)[name@],
    {
        self.map.get(name).copied()
    }
}

} // verus!
