//! Marshalling of whole records: an item's attributes in their fixed order,
//! and the maps that its values are written to and read from.

use crate::codec::{
    decode, decode_fields, decode_record, decode_value, decoded, decoded_all, distinct_attributes,
    encode_field, encode_fields, encode_key, encode_present, encode_record, field_conforms,
    fields_conform, is_key_value, key_wire, lemma_encoded_names, DecodeError,
};
use crate::definition::{attribute_models, AttributeModel, ItemAttribute, ItemDefinition};
use crate::shape::{ShapeModel, TypeShape};
use crate::value::{value_models, RecordModel, Registry, Value, ValueModel};
use crate::wire::{put, EntryModel, WireMap, WireModel, WireValue};
use vstd::prelude::*;

verus! {

impl Clone for ItemAttribute {
    fn clone(&self) -> (copy: ItemAttribute)
        ensures
            copy@ == self@,
    {
        ItemAttribute {
            ident: self.ident.clone(),
            attr_name: self.attr_name.clone(),
            ty: self.ty.clone(),
        }
    }
}

/// The value that a wire value found for a field stands for. A field that
/// may be absent is present with the value inside; an optional value inside
/// an optional value is not supported.
pub open spec fn decode_inner(
    w: WireModel,
    shape: ShapeModel,
    as_option: bool,
    registry: Seq<RecordModel>,
) -> Result<ValueModel, DecodeError>
    decreases shape,
{
    match shape {
        ShapeModel::Optional(inner) => if as_option {
            Err(DecodeError::NestedOptional)
        } else {
            decode_inner(w, *inner, true, registry)
        },
        _ => match decode_value(w, shape, registry) {
            Ok(v) => if as_option {
                Ok(ValueModel::Optional(Some(Box::new(v))))
            } else {
                Ok(v)
            },
            Err(e) => Err(e),
        },
    }
}

/// The map after a field was written to it: with the field's wire value
/// under the attribute's wire name, or unchanged where the field is absent.
pub open spec fn inserted(
    map: Seq<EntryModel>,
    attribute: AttributeModel,
    v: ValueModel,
    registry: Seq<RecordModel>,
) -> Seq<EntryModel> {
    match encode_field(v, attribute.shape(), registry) {
        Some(wire) => put(map, attribute.attr_name, wire),
        None => map,
    }
}

impl ItemAttribute {
    /// The wire value of the attribute's field, that of the value inside
    /// where the field may be absent and is present. The result is `None`
    /// exactly where the value is none of the attribute's shape or is absent.
    pub fn into_attribute_value(&self, value: &Value, registry: &Registry) -> (wire: Option<
        WireValue,
    >)
        ensures
            match wire {
                Some(w) => field_conforms(value@, self@.shape(), registry@) && encode_field(
                    value@,
                    self@.shape(),
                    registry@,
                ) == Some(w@),
                None => !field_conforms(value@, self@.shape(), registry@) || encode_field(
                    value@,
                    self@.shape(),
                    registry@,
                ).is_none(),
            },
    {
        let shape = self.shape();
        match encode_present(value, &shape, registry) {
            Some(Some(w)) => Some(w),
            _ => None,
        }
    }

    /// Writes the attribute's field to the map, under the attribute's wire
    /// name; an absent field is not written. The result tells whether the
    /// value is one of the attribute's shape; where it is not, the map stays
    /// as it was.
    pub fn insert_into_map(&self, value: &Value, map: &mut WireMap, registry: &Registry) -> (fits:
        bool)
        ensures
            fits == field_conforms(value@, self@.shape(), registry@),
            final(map)@ == if fits {
                inserted(old(map)@, self@, value@, registry@)
            } else {
                old(map)@
            },
    {
        let shape = self.shape();
        match encode_present(value, &shape, registry) {
            Some(Some(w)) => {
                map.insert(self.attr_name.clone(), w);
                true
            },
            Some(None) => true,
            None => false,
        }
    }

    /// The wire value of a key of this attribute. The result is `None`
    /// exactly where the attribute is no scalar or the value is none of its
    /// kind.
    pub fn key_boxer_for(&self, value: &Value) -> (wire: Option<WireValue>)
        ensures
            match wire {
                Some(w) => self@.is_scalar() && is_key_value(value@, self@.shape()->Scalar_0)
                    && w@ == key_wire(value@, self@.shape()->Scalar_0),
                None => !self@.is_scalar() || !is_key_value(value@, self@.shape()->Scalar_0),
            },
    {
        match self.shape() {
            TypeShape::Scalar(kind) => encode_key(value, kind),
            _ => None,
        }
    }

    /// The value of the attribute's field that a wire value stands for, or
    /// the first reason why it stands for none.
    pub fn from_attribute_value(&self, wire: &WireValue, registry: &Registry) -> (outcome: Result<
        Value,
        DecodeError,
    >)
        ensures
            decoded(outcome) == decode_inner(wire@, self@.shape(), false, registry@),
    {
        let shape = self.shape();
        Self::from_attribute_value_inner(wire, &shape, false, registry)
    }

    /// The value of the shape that a wire value stands for, made a present
    /// optional value where `as_option` is set or the shape is optional.
    pub fn from_attribute_value_inner(
        wire: &WireValue,
        shape: &TypeShape,
        as_option: bool,
        registry: &Registry,
    ) -> (outcome: Result<Value, DecodeError>)
        ensures
            decoded(outcome) == decode_inner(wire@, shape@, as_option, registry@),
        decreases shape,
    {
        match shape {
            TypeShape::Optional(inner) => if as_option {
                Err(DecodeError::NestedOptional)
            } else {
                Self::from_attribute_value_inner(wire, inner, true, registry)
            },
            _ => match decode(wire, shape, registry) {
                Ok(v) => if as_option {
                    Ok(Value::Optional(Some(Box::new(v))))
                } else {
                    Ok(v)
                },
                Err(e) => Err(e),
            },
        }
    }
}

/// The attributes of a root item in their fixed order: the hash key, then
/// the sort key if there is one, then the others in the order of their
/// declaration.
#[derive(Debug, PartialEq, Eq)]
pub struct ItemStructure {
    pub attributes: Vec<ItemAttribute>,
}

impl View for ItemStructure {
    type V = Seq<AttributeModel>;

    open spec fn view(&self) -> Seq<AttributeModel> {
        attribute_models(self.attributes@)
    }
}

/// The structure by which an item's values are written to a map and read
/// from one.
pub fn from_into_item_structure(item: &ItemDefinition) -> (structure: ItemStructure)
    ensures
        structure@ == item@.all_attributes(),
{
    let mut attributes: Vec<ItemAttribute> = Vec::new();
    attributes.push(item.hash_key.clone());
    match &item.sort_key {
        Some(key) => {
            attributes.push(key.clone());
        },
        None => {},
    }
    proof {
        assert(attribute_models(attributes@) =~= item@.key_attributes());
    }
    let mut i: usize = 0;
    while i < item.other_attributes.len()
        invariant
            i <= item.other_attributes@.len(),
            attribute_models(attributes@) == item@.key_attributes() + item@.other_attributes.take(
                i as int,
            ),
        decreases item.other_attributes@.len() - i,
    {
        let ghost before = attribute_models(attributes@);
        let copy = item.other_attributes[i].clone();
        attributes.push(copy);
        proof {
            assert(attribute_models(attributes@) =~= before.push(copy@));
            assert(item@.other_attributes.take(i + 1) =~= item@.other_attributes.take(
                i as int,
            ).push(item.other_attributes@[i as int]@));
            assert(attribute_models(attributes@) =~= item@.key_attributes()
                + item@.other_attributes.take(i + 1));
        }
        i += 1;
    }
    proof {
        assert(item@.other_attributes.take(item.other_attributes@.len() as int)
            =~= item@.other_attributes);
    }
    ItemStructure { attributes }
}

impl ItemStructure {
    /// Whether no two attributes have the same wire name. Only then is every
    /// value of the item read back from its map as it was written.
    pub fn has_distinct_names(&self) -> (distinct: bool)
        ensures
            distinct == distinct_attributes(self@),
    {
        let ghost models = self@;
        let mut j: usize = 0;
        while j < self.attributes.len()
            invariant
                j <= self.attributes@.len(),
                models == self@,
                models.len() == self.attributes@.len(),
                forall|a: int, b: int|
                    0 <= a < b < j ==> (#[trigger] models[a]).attr_name != (
                    #[trigger] models[b]).attr_name,
            decreases self.attributes@.len() - j,
        {
            let mut i: usize = 0;
            while i < j
                invariant
                    i <= j < self.attributes@.len(),
                    models == self@,
                    models.len() == self.attributes@.len(),
                    forall|a: int|
                        0 <= a < i ==> (#[trigger] models[a]).attr_name
                            != models[j as int].attr_name,
                decreases j - i,
            {
                proof {
                    assert(models[i as int] == self.attributes@[i as int]@);
                    assert(models[j as int] == self.attributes@[j as int]@);
                }
                if self.attributes[i].attr_name == self.attributes[j].attr_name {
                    return false;
                }
                i += 1;
            }
            j += 1;
        }
        true
    }

    /// Writes the values of an item to the map of its attributes: each value
    /// under its attribute's wire name, an absent optional value not at all.
    /// The result is `None` exactly where the values are not those of such
    /// an item, one for each attribute in their order.
    pub fn into_map(&self, fields: &Vec<Value>, registry: &Registry) -> (map: Option<WireMap>)
        ensures
            map is Some <==> fields_conform(value_models(fields@), self@, registry@),
            match map {
                Some(m) => m.well_formed() && m@ == encode_fields(
                    value_models(fields@),
                    self@,
                    registry@,
                    fields@.len(),
                ),
                None => true,
            },
    {
        let map = encode_record(fields, &self.attributes, registry);
        proof {
            if map is Some {
                lemma_encoded_names(value_models(fields@), self@, registry@, fields@.len() as nat);
            }
        }
        map
    }

    /// Reads the values of an item from the map of its attributes, in the
    /// order of the attributes, or reports the first reason why an attribute
    /// has no value.
    pub fn from_map(&self, map: &WireMap, registry: &Registry) -> (outcome: Result<
        Vec<Value>,
        DecodeError,
    >)
        ensures
            decoded_all(outcome) == decode_fields(map@, self@, registry@, self@.len()),
    {
        decode_record(map, &self.attributes, registry)
    }
}

} // verus!
