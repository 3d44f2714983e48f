//! Values of record fields, and the registry of nested record definitions.

use crate::definition::{AttributeModel, NestedItemDefinition};
use vstd::prelude::*;

verus! {

/// The value of a field.
#[derive(Debug, PartialEq, Eq)]
pub enum Value {
    /// A value of a signed integer type.
    Int(i128),
    /// A value of an unsigned integer type.
    UInt(u128),
    /// A string.
    Text(String),
    /// A list.
    List(Vec<Value>),
    /// A value that may be absent.
    Optional(Option<Box<Value>>),
    /// A nested record: the values of its attributes, in their order.
    Record(Vec<Value>),
}

/// The mathematical content of a value.
pub ghost enum ValueModel {
    Int(int),
    UInt(int),
    Text(Seq<char>),
    List(Seq<ValueModel>),
    Optional(Option<Box<ValueModel>>),
    Record(Seq<ValueModel>),
}

/// The content of a value, read recursively.
pub open spec fn value_model(v: Value) -> ValueModel
    decreases v,
{
    match v {
        Value::Int(n) => ValueModel::Int(n as int),
        Value::UInt(n) => ValueModel::UInt(n as int),
        Value::Text(text) => ValueModel::Text(text@),
        Value::List(items) => ValueModel::List(
            Seq::new(
                items@.len(),
                |i: int|
                    if 0 <= i < items@.len() {
                        value_model(items@[i])
                    } else {
                        arbitrary()
                    },
            ),
        ),
        Value::Optional(None) => ValueModel::Optional(None),
        Value::Optional(Some(inner)) => ValueModel::Optional(Some(Box::new(value_model(*inner)))),
        Value::Record(fields) => ValueModel::Record(
            Seq::new(
                fields@.len(),
                |i: int|
                    if 0 <= i < fields@.len() {
                        value_model(fields@[i])
                    } else {
                        arbitrary()
                    },
            ),
        ),
    }
}

impl View for Value {
    type V = ValueModel;

    open spec fn view(&self) -> ValueModel {
        value_model(*self)
    }
}

/// The contents of a list of values.
pub open spec fn value_models(items: Seq<Value>) -> Seq<ValueModel> {
    Seq::new(items.len(), |i: int| items[i]@)
}

/// The view of a list value is the list of its items' views.
pub proof fn lemma_list_value(items: Vec<Value>)
    ensures
        Value::List(items)@ == ValueModel::List(value_models(items@)),
{
    assert(Value::List(items)@->List_0 =~= value_models(items@));
}

/// The view of a record value is the list of its fields' views.
pub proof fn lemma_record_value(fields: Vec<Value>)
    ensures
        Value::Record(fields)@ == ValueModel::Record(value_models(fields@)),
{
    assert(Value::Record(fields)@->Record_0 =~= value_models(fields@));
}

/// A nested record definition under the name of its type.
#[derive(Debug, PartialEq, Eq)]
pub struct NamedRecord {
    pub name: String,
    pub definition: NestedItemDefinition,
}

/// The nested record definitions that fields can refer to. Of two
/// definitions under one name the first counts.
#[derive(Debug, PartialEq, Eq)]
pub struct Registry {
    pub records: Vec<NamedRecord>,
}

/// The mathematical content of a registered definition.
pub ghost struct RecordModel {
    pub name: Seq<char>,
    pub attributes: Seq<AttributeModel>,
}

impl View for NamedRecord {
    type V = RecordModel;

    open spec fn view(&self) -> RecordModel {
        RecordModel { name: self.name@, attributes: self.definition@ }
    }
}

impl View for Registry {
    type V = Seq<RecordModel>;

    open spec fn view(&self) -> Seq<RecordModel> {
        Seq::new(self.records@.len(), |i: int| self.records@[i]@)
    }
}

/// The attributes of the record type `name`, if the registry knows it.
pub open spec fn resolve(registry: Seq<RecordModel>, name: Seq<char>) -> Option<
    Seq<AttributeModel>,
>
    decreases registry.len(),
{
    if registry.len() == 0 {
        None
    } else if registry[0].name == name {
        Some(registry[0].attributes)
    } else {
        resolve(registry.skip(1), name)
    }
}

impl Registry {
    /// A registry without definitions.
    pub fn new() -> (registry: Registry)
        ensures
            registry@ == Seq::<RecordModel>::empty(),
    {
        let registry = Registry { records: Vec::new() };
        assert(registry@ =~= Seq::<RecordModel>::empty());
        registry
    }

    /// Adds a definition under the name of its type, after those already
    /// there.
    pub fn register(&mut self, name: String, definition: NestedItemDefinition)
        ensures
            final(self)@ == old(self)@.push(RecordModel { name: name@, attributes: definition@ }),
    {
        self.records.push(NamedRecord { name, definition });
        assert(self@ =~= old(self)@.push(RecordModel { name: name@, attributes: definition@ }));
    }

    /// The definition of the record type `name`, if the registry knows it.
    pub fn lookup(&self, name: &String) -> (found: Option<&NestedItemDefinition>)
        ensures
            match found {
                Some(definition) => resolve(self@, name@) == Some(definition@),
                None => resolve(self@, name@).is_none(),
            },
    {
        proof {
            assert(self@.skip(0) =~= self@);
        }
        let mut i: usize = 0;
        while i < self.records.len()
            invariant
                i <= self.records@.len(),
                resolve(self@, name@) == resolve(self@.skip(i as int), name@),
            decreases self.records@.len() - i,
        {
            proof {
                assert(self@.skip(i as int)[0] == self.records@[i as int]@);
                assert(self@.skip(i as int).skip(1) =~= self@.skip(i + 1));
            }
            if self.records[i].name == *name {
                return Some(&self.records[i].definition);
            }
            i += 1;
        }
        None
    }
}

impl Clone for Value {
    fn clone(&self) -> (copy: Value)
        ensures
            copy@ == self@,
        decreases self,
    {
        match self {
            Value::Int(n) => Value::Int(*n),
            Value::UInt(n) => Value::UInt(*n),
            Value::Text(text) => Value::Text(text.clone()),
            Value::List(items) => {
                let copies = Value::clone_all(items, Ghost(*self));
                proof {
                    lemma_list_value(copies);
                    lemma_list_value(*items);
                }
                Value::List(copies)
            },
            Value::Optional(None) => Value::Optional(None),
            Value::Optional(Some(present)) => Value::Optional(Some(Box::new((**present).clone()))),
            Value::Record(fields) => {
                let copies = Value::clone_all(fields, Ghost(*self));
                proof {
                    lemma_record_value(copies);
                    lemma_record_value(*fields);
                }
                Value::Record(copies)
            },
        }
    }
}

impl Value {
    /// Copies of the values of a list that stands inside `parent`.
    fn clone_all(items: &Vec<Value>, Ghost(parent): Ghost<Value>) -> (copies: Vec<Value>)
        requires
            decreases_to!(parent => items),
        ensures
            value_models(copies@) == value_models(items@),
        decreases parent, 0nat,
    {
        let mut copies: Vec<Value> = Vec::new();
        let mut i: usize = 0;
        while i < items.len()
            invariant
                i <= items@.len(),
                copies@.len() == i,
                forall|k: int| 0 <= k < i ==> (#[trigger] copies@[k])@ == items@[k]@,
                decreases_to!(parent => items),
            decreases items@.len() - i,
        {
            proof {
                assert(decreases_to!(items => items[i as int]));
            }
            copies.push(items[i].clone());
            i += 1;
        }
        proof {
            assert(value_models(copies@) =~= value_models(items@));
        }
        copies
    }
}

} // verus!
