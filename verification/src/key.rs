//! Keys of a root item, and the staged builder of the key of a point lookup.

use crate::codec::{encode_key, is_key_value, key_wire};
use crate::definition::{AttributeModel, DefinitionModel, ItemAttribute, ItemDefinition};
use crate::shape::{ScalarKind, TypeShape};
use crate::value::Value;
use crate::wire::{lemma_no_index, put, EntryModel, WireMap, WireValue};
use vstd::prelude::*;

verus! {

/// A key attribute: its wire name and its scalar kind.
#[derive(Debug, PartialEq, Eq)]
pub struct KeyAttribute {
    pub name: String,
    pub kind: ScalarKind,
}

/// The mathematical content of a key attribute.
pub ghost struct KeyModel {
    pub name: Seq<char>,
    pub kind: ScalarKind,
}

impl View for KeyAttribute {
    type V = KeyModel;

    open spec fn view(&self) -> KeyModel {
        KeyModel { name: self.name@, kind: self.kind }
    }
}

/// The content of a key attribute that may be missing.
pub open spec fn key_option(key: Option<KeyAttribute>) -> Option<KeyModel> {
    match key {
        Some(k) => Some(k@),
        None => None,
    }
}

/// The key that a scalar attribute makes.
pub open spec fn key_of(attribute: AttributeModel) -> KeyModel {
    KeyModel { name: attribute.attr_name, kind: attribute.shape()->Scalar_0 }
}

/// The sort key of a definition, if it has one.
pub open spec fn sort_key_of(definition: DefinitionModel) -> Option<KeyModel> {
    match definition.sort_key {
        Some(attribute) => Some(key_of(attribute)),
        None => None,
    }
}

impl KeyAttribute {
    /// The key that a scalar attribute makes.
    pub fn of(attribute: &ItemAttribute) -> (key: KeyAttribute)
        requires
            attribute@.is_scalar(),
        ensures
            key@ == key_of(attribute@),
    {
        match attribute.shape() {
            TypeShape::Scalar(kind) => KeyAttribute { name: attribute.attr_name.clone(), kind },
            _ => KeyAttribute { name: attribute.attr_name.clone(), kind: ScalarKind::Text },
        }
    }

    /// The sort key of a definition, if it has one.
    pub fn sort_key(item: &ItemDefinition) -> (key: Option<KeyAttribute>)
        requires
            item@.valid(),
        ensures
            key_option(key) == sort_key_of(item@),
    {
        match &item.sort_key {
            Some(attribute) => Some(KeyAttribute::of(attribute)),
            None => None,
        }
    }
}

/// The first stage of the builder of a key: no key is set.
#[derive(Debug, PartialEq, Eq)]
pub struct GetItemHashKey {
    pub hash_key: KeyAttribute,
    pub sort_key: Option<KeyAttribute>,
}

/// The second stage of the builder of a key: the hash key is set.
#[derive(Debug, PartialEq, Eq)]
pub struct GetItemSortKey {
    pub q: GetItem,
    pub sort_key: Option<KeyAttribute>,
}

/// The key of a point lookup: the hash key, and the sort key if it was set,
/// each under its wire name.
#[derive(Debug, PartialEq, Eq)]
pub struct GetItem {
    pub hash_name: String,
    pub hk: WireValue,
    pub sort_name: Option<String>,
    pub sk: Option<WireValue>,
}

/// The mathematical content of the key of a point lookup.
pub ghost struct GetItemModel {
    pub hash: EntryModel,
    pub sort: Option<EntryModel>,
}

impl GetItem {
    /// What the key holds: the entry of the hash key, and that of the sort key
    /// once it is set.
    pub open spec fn model(self) -> GetItemModel {
        GetItemModel {
            hash: EntryModel { name: self.hash_name@, value: self.hk@ },
            sort: match (self.sort_name, self.sk) {
                (Some(name), Some(value)) => Some(EntryModel { name: name@, value: value@ }),
                _ => None,
            },
        }
    }

    /// The key map: the hash key under its wire name, then the sort key under
    /// its own if it was set.
    pub open spec fn key_map(self) -> Seq<EntryModel> {
        match self.model().sort {
            Some(sort) => put(seq![self.model().hash], sort.name, sort.value),
            None => seq![self.model().hash],
        }
    }

    /// Turns the key into the map that a lookup takes.
    pub fn into_key(self) -> (key: WireMap)
        ensures
            key@ == self.key_map(),
            key.well_formed(),
    {
        let mut key = WireMap::new();
        let ghost hash = self.model().hash;
        key.insert(self.hash_name, self.hk);
        proof {
            lemma_no_index(Seq::<EntryModel>::empty(), hash.name);
            assert(key@ =~= seq![hash]);
        }
        match (self.sort_name, self.sk) {
            (Some(name), Some(value)) => {
                key.insert(name, value);
            },
            _ => {},
        }
        key
    }
}

/// Starts the key of a point lookup of the item.
pub fn create_get_builder(item: &ItemDefinition) -> (builder: GetItemHashKey)
    requires
        item@.valid(),
    ensures
        builder.hash_key@ == key_of(item@.hash_key),
        key_option(builder.sort_key) == sort_key_of(item@),
{
    GetItemHashKey {
        hash_key: KeyAttribute::of(&item.hash_key),
        sort_key: KeyAttribute::sort_key(item),
    }
}

impl GetItemHashKey {
    /// Sets the hash key. The result is `None` exactly where the value is
    /// none of the hash key's kind.
    pub fn hash_key(self, v: &Value) -> (next: Option<GetItemSortKey>)
        ensures
            next is Some <==> is_key_value(v@, self.hash_key.kind),
            match next {
                Some(stage) => {
                    &&& stage.sort_key == self.sort_key
                    &&& stage.q.model() == GetItemModel {
                        hash: EntryModel {
                            name: self.hash_key.name@,
                            value: key_wire(v@, self.hash_key.kind),
                        },
                        sort: None,
                    }
                },
                None => true,
            },
    {
        match encode_key(v, self.hash_key.kind) {
            Some(hk) => Some(
                GetItemSortKey {
                    q: GetItem { hash_name: self.hash_key.name, hk, sort_name: None, sk: None },
                    sort_key: self.sort_key,
                },
            ),
            None => None,
        }
    }
}

impl GetItemSortKey {
    /// Sets the sort key. The result is `None` exactly where the item has no
    /// sort key or the value is none of the sort key's kind.
    pub fn sort_key(self, v: &Value) -> (key: Option<GetItem>)
        ensures
            key is Some <==> self.sort_key is Some && is_key_value(
                v@,
                self.sort_key.unwrap().kind,
            ),
            match key {
                Some(q) => q.model() == GetItemModel {
                    hash: self.q.model().hash,
                    sort: Some(
                        EntryModel {
                            name: self.sort_key.unwrap().name@,
                            value: key_wire(v@, self.sort_key.unwrap().kind),
                        },
                    ),
                },
                None => true,
            },
    {
        match self.sort_key {
            Some(sort_key) => match encode_key(v, sort_key.kind) {
                Some(sk) => Some(
                    GetItem {
                        hash_name: self.q.hash_name,
                        hk: self.q.hk,
                        sort_name: Some(sort_key.name),
                        sk: Some(sk),
                    },
                ),
                None => None,
            },
            None => None,
        }
    }

    /// Ends the key with the hash key alone.
    pub fn finish(self) -> (key: GetItem)
        ensures
            key == self.q,
    {
        self.q
    }
}

/// The key map of an item with the given keys: the hash key under its wire
/// name, then the sort key under its own.
pub open spec fn key_map_of(hash: EntryModel, sort: Option<EntryModel>) -> Seq<EntryModel> {
    match sort {
        Some(sort) => put(seq![hash], sort.name, sort.value),
        None => seq![hash],
    }
}

impl ItemDefinition {
    /// The key map of the item with these keys. A sort key is given exactly
    /// where the item has one. The result is `None` exactly where a sort
    /// key is missing or is one too many, or a value is none of its key's
    /// kind.
    pub fn key(&self, hash: &Value, sort: Option<&Value>) -> (key: Option<WireMap>)
        requires
            self@.valid(),
        ensures
            key is Some <==> {
                &&& is_key_value(hash@, key_of(self@.hash_key).kind)
                &&& sort is Some <==> self@.sort_key is Some
                &&& sort is Some ==> is_key_value(sort.unwrap()@, sort_key_of(self@).unwrap().kind)
            },
            match key {
                Some(map) => map.well_formed() && map@ == key_map_of(
                    EntryModel {
                        name: self@.hash_key.attr_name,
                        value: key_wire(hash@, key_of(self@.hash_key).kind),
                    },
                    match sort {
                        Some(v) => Some(
                            EntryModel {
                                name: sort_key_of(self@).unwrap().name,
                                value: key_wire(v@, sort_key_of(self@).unwrap().kind),
                            },
                        ),
                        None => None,
                    },
                ),
                None => true,
            },
    {
        let stage = match create_get_builder(self).hash_key(hash) {
            Some(stage) => stage,
            None => {
                return None;
            },
        };
        match sort {
            Some(v) => match stage.sort_key(v) {
                Some(q) => Some(q.into_key()),
                None => None,
            },
            None => match &stage.sort_key {
                Some(_) => None,
                None => Some(stage.finish().into_key()),
            },
        }
    }
}

} // verus!
