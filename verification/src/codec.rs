//! The codec: field values to wire values and back, led by the field's shape.

use crate::decimal::{
    decimal, format_signed, format_unsigned, lemma_parse_decimal, parse_magnitude,
    parse_sign_magnitude,
};
use crate::definition::{attribute_models, AttributeModel, ItemAttribute};
use crate::shape::{IntKind, ScalarKind, ShapeModel, TypeShape};
use crate::value::{
    lemma_list_value, lemma_record_value, resolve, value_models, RecordModel, Registry, Value,
    ValueModel,
};
use crate::wire::{
    distinct_names, index_of, lemma_index_of, lemma_list_view, lemma_lookup_put, lemma_map_view,
    lemma_no_index, lemma_put_distinct, lookup, put, wire_models, EntryModel, WireMap, WireModel,
    WireValue,
};
use vstd::prelude::*;

verus! {

/// Why a wire value gives no field value.
#[derive(Clone, Copy, Debug, PartialEq, Eq, Structural)]
pub enum DecodeError {
    /// The map has no entry for an attribute that must be present.
    MissingAttribute,
    /// The wire value is of another variant than the shape asks for.
    WrongVariant,
    /// A number's text is no decimal integer of the field's type.
    MalformedNumber,
    /// The registry has no record type of the name that the shape gives.
    UnknownRecord,
    /// The shape has an optional value inside a list or inside another
    /// optional value.
    NestedOptional,
}

/// Whether `v` is a value of the integer type `kind`.
pub open spec fn is_integer(v: ValueModel, kind: IntKind) -> bool {
    if kind.signed() {
        v is Int && kind.holds(v->Int_0)
    } else {
        v is UInt && kind.holds(v->UInt_0)
    }
}

/// The integer that a number value holds.
pub open spec fn integer_of(v: ValueModel) -> int {
    match v {
        ValueModel::Int(n) => n,
        ValueModel::UInt(n) => n,
        _ => 0,
    }
}

/// Whether `v` is a value of the shape, which holds no optional value. A
/// record has one value for each attribute of its definition, in their order.
pub open spec fn conforms(v: ValueModel, shape: ShapeModel, registry: Seq<RecordModel>) -> bool
    decreases v, 0nat,
{
    match shape {
        ShapeModel::Scalar(ScalarKind::Int(kind)) => is_integer(v, kind),
        ShapeModel::Scalar(ScalarKind::Text) => v is Text,
        ShapeModel::List(inner) => match v {
            ValueModel::List(items) => forall|i: int|
                0 <= i < items.len() ==> conforms(#[trigger] items[i], *inner, registry),
            _ => false,
        },
        ShapeModel::Optional(_) => false,
        ShapeModel::Record(name) => match v {
            ValueModel::Record(fields) => match resolve(registry, name) {
                Some(attributes) => fields_conform(fields, attributes, registry),
                None => false,
            },
            _ => false,
        },
    }
}

/// Whether `v` is a value of a field of the shape: as `conforms`, but that
/// the field itself may be optional.
pub open spec fn field_conforms(
    v: ValueModel,
    shape: ShapeModel,
    registry: Seq<RecordModel>,
) -> bool
    decreases v, 1nat,
{
    match shape {
        ShapeModel::Optional(inner) => match v {
            ValueModel::Optional(None) => true,
            ValueModel::Optional(Some(present)) => conforms(*present, *inner, registry),
            _ => false,
        },
        _ => conforms(v, shape, registry),
    }
}

/// Whether `fields` are the values of a record with these attributes.
pub open spec fn fields_conform(
    fields: Seq<ValueModel>,
    attributes: Seq<AttributeModel>,
    registry: Seq<RecordModel>,
) -> bool
    decreases fields, 0nat,
{
    &&& fields.len() == attributes.len()
    &&& forall|i: int|
        0 <= i < fields.len() ==> field_conforms(
            #[trigger] fields[i],
            attributes[i].shape(),
            registry,
        )
}

/// The wire value of a value of the shape: an integer as the number of its
/// decimal text, a string as a string, a list item by item, a record as the
/// map of its attributes.
pub open spec fn encode_value(
    v: ValueModel,
    shape: ShapeModel,
    registry: Seq<RecordModel>,
) -> WireModel
    decreases v, 0nat,
{
    match shape {
        ShapeModel::Scalar(ScalarKind::Int(_)) => WireModel::N(decimal(integer_of(v))),
        ShapeModel::Scalar(ScalarKind::Text) => match v {
            ValueModel::Text(text) => WireModel::S(text),
            _ => arbitrary(),
        },
        ShapeModel::List(inner) => match v {
            ValueModel::List(items) => WireModel::L(encode_items(items, *inner, registry)),
            _ => arbitrary(),
        },
        ShapeModel::Optional(_) => arbitrary(),
        ShapeModel::Record(name) => match v {
            ValueModel::Record(fields) => match resolve(registry, name) {
                Some(attributes) => WireModel::M(
                    encode_fields(fields, attributes, registry, fields.len()),
                ),
                None => arbitrary(),
            },
            _ => arbitrary(),
        },
    }
}

/// The wire values of the items of a list.
pub open spec fn encode_items(
    items: Seq<ValueModel>,
    shape: ShapeModel,
    registry: Seq<RecordModel>,
) -> Seq<WireModel>
    decreases items, 0nat,
{
    Seq::new(
        items.len(),
        |i: int|
            if 0 <= i < items.len() {
                encode_value(items[i], shape, registry)
            } else {
                arbitrary()
            },
    )
}

/// The wire value of a field, if it has one: an absent optional field has
/// none, a present one that of the value inside.
pub open spec fn encode_field(
    v: ValueModel,
    shape: ShapeModel,
    registry: Seq<RecordModel>,
) -> Option<WireModel>
    decreases v, 1nat,
{
    match shape {
        ShapeModel::Optional(inner) => match v {
            ValueModel::Optional(Some(present)) => Some(encode_value(*present, *inner, registry)),
            _ => None,
        },
        _ => Some(encode_value(v, shape, registry)),
    }
}

/// The map of the first `n` attributes of a record: each field that has a
/// wire value is put under its attribute's wire name, in order.
pub open spec fn encode_fields(
    fields: Seq<ValueModel>,
    attributes: Seq<AttributeModel>,
    registry: Seq<RecordModel>,
    n: nat,
) -> Seq<EntryModel>
    decreases fields, n,
{
    if n == 0 || n > fields.len() {
        Seq::empty()
    } else {
        let before = encode_fields(fields, attributes, registry, (n - 1) as nat);
        match encode_field(fields[n - 1], attributes[n - 1].shape(), registry) {
            Some(wire) => put(before, attributes[n - 1].attr_name, wire),
            None => before,
        }
    }
}

/// The integer of type `kind` that a number's text denotes. An unsigned type
/// takes no minus sign, not even before zero.
pub open spec fn parse_integer(text: Seq<char>, kind: IntKind) -> Option<ValueModel> {
    match parse_sign_magnitude(text) {
        None => None,
        Some((negative, magnitude)) => if kind.signed() {
            let n = if negative {
                -(magnitude as int)
            } else {
                magnitude as int
            };
            if kind.holds(n) {
                Some(ValueModel::Int(n))
            } else {
                None
            }
        } else if !negative && kind.holds(magnitude as int) {
            Some(ValueModel::UInt(magnitude as int))
        } else {
            None
        },
    }
}

/// The value of the shape that a wire value stands for, or the first reason
/// why it stands for none.
pub open spec fn decode_value(
    w: WireModel,
    shape: ShapeModel,
    registry: Seq<RecordModel>,
) -> Result<ValueModel, DecodeError>
    decreases w, 0nat,
{
    match shape {
        ShapeModel::Scalar(ScalarKind::Int(kind)) => match w {
            WireModel::N(text) => match parse_integer(text, kind) {
                Some(v) => Ok(v),
                None => Err(DecodeError::MalformedNumber),
            },
            _ => Err(DecodeError::WrongVariant),
        },
        ShapeModel::Scalar(ScalarKind::Text) => match w {
            WireModel::S(text) => Ok(ValueModel::Text(text)),
            _ => Err(DecodeError::WrongVariant),
        },
        ShapeModel::List(inner) => match w {
            WireModel::L(items) => match decode_items(items, *inner, registry, items.len()) {
                Ok(values) => Ok(ValueModel::List(values)),
                Err(e) => Err(e),
            },
            _ => Err(DecodeError::WrongVariant),
        },
        ShapeModel::Optional(_) => Err(DecodeError::NestedOptional),
        ShapeModel::Record(name) => match w {
            WireModel::M(entries) => match resolve(registry, name) {
                Some(attributes) => match decode_fields(
                    entries,
                    attributes,
                    registry,
                    attributes.len(),
                ) {
                    Ok(fields) => Ok(ValueModel::Record(fields)),
                    Err(e) => Err(e),
                },
                None => Err(DecodeError::UnknownRecord),
            },
            _ => Err(DecodeError::WrongVariant),
        },
    }
}

/// The values that the first `n` items of a wire list stand for, or the first
/// reason why one of them stands for none.
pub open spec fn decode_items(
    items: Seq<WireModel>,
    shape: ShapeModel,
    registry: Seq<RecordModel>,
    n: nat,
) -> Result<Seq<ValueModel>, DecodeError>
    decreases items, n,
{
    if n == 0 || n > items.len() {
        Ok(Seq::empty())
    } else {
        match decode_items(items, shape, registry, (n - 1) as nat) {
            Err(e) => Err(e),
            Ok(before) => match decode_value(items[n - 1], shape, registry) {
                Err(e) => Err(e),
                Ok(v) => Ok(before.push(v)),
            },
        }
    }
}

/// The value of the field of a record that a wire map holds. An optional
/// field without an entry is absent; any other field without one is an error.
pub open spec fn decode_field(
    entries: Seq<EntryModel>,
    attribute: AttributeModel,
    registry: Seq<RecordModel>,
) -> Result<ValueModel, DecodeError>
    decreases entries, 0nat,
{
    match index_of(entries, attribute.attr_name) {
        Some(i) => if 0 <= i < entries.len() {
            match attribute.shape() {
                ShapeModel::Optional(inner) => match decode_value(
                    entries[i].value,
                    *inner,
                    registry,
                ) {
                    Ok(v) => Ok(ValueModel::Optional(Some(Box::new(v)))),
                    Err(e) => Err(e),
                },
                shape => decode_value(entries[i].value, shape, registry),
            }
        } else {
            Err(DecodeError::MissingAttribute)
        },
        None => if attribute.is_optional() {
            Ok(ValueModel::Optional(None))
        } else {
            Err(DecodeError::MissingAttribute)
        },
    }
}

/// The values of the first `n` attributes of a record that a wire map holds,
/// or the first reason why one of them has none.
pub open spec fn decode_fields(
    entries: Seq<EntryModel>,
    attributes: Seq<AttributeModel>,
    registry: Seq<RecordModel>,
    n: nat,
) -> Result<Seq<ValueModel>, DecodeError>
    decreases entries, n,
{
    if n == 0 || n > attributes.len() {
        Ok(Seq::empty())
    } else {
        match decode_fields(entries, attributes, registry, (n - 1) as nat) {
            Err(e) => Err(e),
            Ok(before) => match decode_field(entries, attributes[n - 1], registry) {
                Err(e) => Err(e),
                Ok(v) => Ok(before.push(v)),
            },
        }
    }
}

/// No two attributes have the same wire name.
pub open spec fn distinct_attributes(attributes: Seq<AttributeModel>) -> bool {
    forall|i: int, j: int|
        0 <= i < j < attributes.len() ==> (#[trigger] attributes[i]).attr_name != (
        #[trigger] attributes[j]).attr_name
}

/// In every record type of the registry, no two attributes have the same
/// wire name.
pub open spec fn distinct_registry(registry: Seq<RecordModel>) -> bool {
    forall|i: int|
        0 <= i < registry.len() ==> distinct_attributes((#[trigger] registry[i]).attributes)
}

/// What the registry resolves a name to is one of its definitions.
pub proof fn lemma_resolve(registry: Seq<RecordModel>, name: Seq<char>)
    ensures
        match resolve(registry, name) {
            Some(attributes) => exists|i: int|
                0 <= i < registry.len() && (#[trigger] registry[i]).attributes == attributes,
            None => true,
        },
    decreases registry.len(),
{
    if registry.len() > 0 {
        if registry[0].name == name {
            assert(registry[0].attributes == resolve(registry, name).unwrap());
        } else {
            lemma_resolve(registry.skip(1), name);
            match resolve(registry.skip(1), name) {
                Some(attributes) => {
                    let i = choose|i: int|
                        0 <= i < registry.skip(1).len() && (#[trigger] registry.skip(
                            1,
                        )[i]).attributes == attributes;
                    assert(registry[i + 1] == registry.skip(1)[i]);
                },
                None => {},
            }
        }
    }
}

/// Reading the decimal text of an integer of a type gives the integer back.
pub proof fn lemma_parse_integer(v: ValueModel, kind: IntKind)
    requires
        is_integer(v, kind),
    ensures
        parse_integer(decimal(integer_of(v)), kind) == Some(v),
{
    lemma_parse_decimal(integer_of(v));
}

/// A name that none of the first `n` attributes has is not in their map.
pub proof fn lemma_encoded_absent(
    fields: Seq<ValueModel>,
    attributes: Seq<AttributeModel>,
    registry: Seq<RecordModel>,
    n: nat,
    name: Seq<char>,
)
    requires
        n <= fields.len() == attributes.len(),
        forall|k: int| 0 <= k < n ==> (#[trigger] attributes[k]).attr_name != name,
    ensures
        lookup(encode_fields(fields, attributes, registry, n), name).is_none(),
    decreases n,
{
    if n == 0 {
        lemma_no_index(encode_fields(fields, attributes, registry, n), name);
    } else {
        let before = encode_fields(fields, attributes, registry, (n - 1) as nat);
        lemma_encoded_absent(fields, attributes, registry, (n - 1) as nat, name);
        match encode_field(fields[n - 1], attributes[n - 1].shape(), registry) {
            Some(wire) => {
                assert(attributes[n - 1].attr_name != name);
                lemma_lookup_put(before, attributes[n - 1].attr_name, wire, name);
            },
            None => {},
        }
    }
}

/// In the map of the first `n` attributes, whose wire names differ, each of
/// them holds the wire value of its field, and none where the field has none.
pub proof fn lemma_encoded_lookup(
    fields: Seq<ValueModel>,
    attributes: Seq<AttributeModel>,
    registry: Seq<RecordModel>,
    n: nat,
    k: int,
)
    requires
        n <= fields.len() == attributes.len(),
        distinct_attributes(attributes),
        0 <= k < n,
    ensures
        lookup(encode_fields(fields, attributes, registry, n), attributes[k].attr_name)
            == encode_field(fields[k], attributes[k].shape(), registry),
    decreases n,
{
    let before = encode_fields(fields, attributes, registry, (n - 1) as nat);
    let last = attributes[n - 1];
    let name = attributes[k].attr_name;
    if k == n - 1 {
        match encode_field(fields[n - 1], last.shape(), registry) {
            Some(wire) => {
                lemma_lookup_put(before, last.attr_name, wire, name);
            },
            None => {
                assert forall|j: int| 0 <= j < n - 1 implies (#[trigger] attributes[j]).attr_name
                    != name by {
                    assert(attributes[j].attr_name != attributes[k].attr_name);
                }
                lemma_encoded_absent(fields, attributes, registry, (n - 1) as nat, name);
            },
        }
    } else {
        lemma_encoded_lookup(fields, attributes, registry, (n - 1) as nat, k);
        match encode_field(fields[n - 1], last.shape(), registry) {
            Some(wire) => {
                assert(attributes[k].attr_name != attributes[n - 1].attr_name);
                lemma_lookup_put(before, last.attr_name, wire, name);
            },
            None => {},
        }
    }
}

/// Round trip of a value: decoding what a value of the shape was encoded to
/// gives the value back.
pub proof fn lemma_round_trip_value(v: ValueModel, shape: ShapeModel, registry: Seq<RecordModel>)
    requires
        conforms(v, shape, registry),
        distinct_registry(registry),
    ensures
        decode_value(encode_value(v, shape, registry), shape, registry) == Ok::<
            ValueModel,
            DecodeError,
        >(v),
    decreases v, 0nat,
{
    match shape {
        ShapeModel::Scalar(ScalarKind::Int(kind)) => {
            lemma_parse_integer(v, kind);
        },
        ShapeModel::Scalar(ScalarKind::Text) => {},
        ShapeModel::List(inner) => {
            let items = v->List_0;
            lemma_round_trip_items(items, *inner, registry, items.len());
            assert(items.take(items.len() as int) =~= items);
        },
        ShapeModel::Optional(_) => {},
        ShapeModel::Record(name) => {
            let fields = v->Record_0;
            let attributes = resolve(registry, name).unwrap();
            lemma_resolve(registry, name);
            lemma_round_trip_fields(fields, attributes, registry);
        },
    }
}

/// Round trip of the first `n` items of a list.
pub proof fn lemma_round_trip_items(
    items: Seq<ValueModel>,
    shape: ShapeModel,
    registry: Seq<RecordModel>,
    n: nat,
)
    requires
        n <= items.len(),
        forall|i: int| 0 <= i < items.len() ==> conforms(#[trigger] items[i], shape, registry),
        distinct_registry(registry),
    ensures
        decode_items(encode_items(items, shape, registry), shape, registry, n) == Ok::<
            Seq<ValueModel>,
            DecodeError,
        >(items.take(n as int)),
    decreases items, n,
{
    if n == 0 {
        assert(items.take(0) =~= Seq::<ValueModel>::empty());
    } else {
        lemma_round_trip_items(items, shape, registry, (n - 1) as nat);
        lemma_round_trip_value(items[n - 1], shape, registry);
        assert(items.take(n as int) =~= items.take(n - 1).push(items[n - 1]));
    }
}

/// Round trip of one field of a record: decoding it from a map that holds
/// under its wire name what it was encoded to, and nothing where it is
/// absent, gives the field back.
pub proof fn lemma_round_trip_field(
    v: ValueModel,
    attribute: AttributeModel,
    registry: Seq<RecordModel>,
    entries: Seq<EntryModel>,
)
    requires
        field_conforms(v, attribute.shape(), registry),
        distinct_registry(registry),
        lookup(entries, attribute.attr_name) == encode_field(v, attribute.shape(), registry),
    ensures
        decode_field(entries, attribute, registry) == Ok::<ValueModel, DecodeError>(v),
    decreases v, 1nat,
{
    lemma_index_of(entries, attribute.attr_name);
    match attribute.shape() {
        ShapeModel::Optional(inner) => match v {
            ValueModel::Optional(Some(present)) => {
                lemma_round_trip_value(*present, *inner, registry);
            },
            _ => {},
        },
        shape => {
            lemma_round_trip_value(v, shape, registry);
        },
    }
}

/// Round trip of the first `n` fields of a record, read from the map of all
/// of them.
pub proof fn lemma_round_trip_prefix(
    fields: Seq<ValueModel>,
    attributes: Seq<AttributeModel>,
    registry: Seq<RecordModel>,
    n: nat,
)
    requires
        n <= fields.len(),
        fields_conform(fields, attributes, registry),
        distinct_attributes(attributes),
        distinct_registry(registry),
    ensures
        decode_fields(
            encode_fields(fields, attributes, registry, fields.len()),
            attributes,
            registry,
            n,
        ) == Ok::<Seq<ValueModel>, DecodeError>(fields.take(n as int)),
    decreases fields, n,
{
    if n == 0 {
        assert(fields.take(0) =~= Seq::<ValueModel>::empty());
    } else {
        let entries = encode_fields(fields, attributes, registry, fields.len());
        lemma_round_trip_prefix(fields, attributes, registry, (n - 1) as nat);
        lemma_encoded_lookup(fields, attributes, registry, fields.len(), n - 1);
        lemma_round_trip_field(fields[n - 1], attributes[n - 1], registry, entries);
        assert(fields.take(n as int) =~= fields.take(n - 1).push(fields[n - 1]));
    }
}

/// Round trip of a record: decoding the map that the fields of a record were
/// encoded to gives the fields back, where no two attributes share a wire
/// name.
pub proof fn lemma_round_trip_fields(
    fields: Seq<ValueModel>,
    attributes: Seq<AttributeModel>,
    registry: Seq<RecordModel>,
)
    requires
        fields_conform(fields, attributes, registry),
        distinct_attributes(attributes),
        distinct_registry(registry),
    ensures
        decode_fields(
            encode_fields(fields, attributes, registry, fields.len()),
            attributes,
            registry,
            attributes.len(),
        ) == Ok::<Seq<ValueModel>, DecodeError>(fields),
    decreases fields, fields.len() + 1,
{
    lemma_round_trip_prefix(fields, attributes, registry, fields.len());
    assert(fields.take(fields.len() as int) =~= fields);
}

/// Encodes a value of the shape. The result is `None` exactly where the
/// value is none of the shape.
pub fn encode(value: &Value, shape: &TypeShape, registry: &Registry) -> (wire: Option<WireValue>)
    ensures
        match wire {
            Some(w) => conforms(value@, shape@, registry@) && w@ == encode_value(
                value@,
                shape@,
                registry@,
            ),
            None => !conforms(value@, shape@, registry@),
        },
    decreases value, 0nat,
{
    match shape {
        TypeShape::Scalar(ScalarKind::Int(kind)) => match value {
            Value::Int(n) => if kind.holds_signed(*n) {
                Some(WireValue::N(format_signed(*n)))
            } else {
                None
            },
            Value::UInt(n) => if kind.holds_unsigned(*n) {
                Some(WireValue::N(format_unsigned(*n)))
            } else {
                None
            },
            _ => None,
        },
        TypeShape::Scalar(ScalarKind::Text) => match value {
            Value::Text(text) => Some(WireValue::S(text.clone())),
            _ => None,
        },
        TypeShape::List(inner) => match value {
            Value::List(items) => {
                proof {
                    lemma_list_value(*items);
                }
                let mut wires: Vec<WireValue> = Vec::new();
                let mut i: usize = 0;
                while i < items.len()
                    invariant
                        i <= items@.len(),
                        wires@.len() == i,
                        value@ == ValueModel::List(value_models(items@)),
                        shape@ == ShapeModel::List(Box::new(inner@)),
                        forall|k: int|
                            0 <= k < i ==> conforms(
                                #[trigger] value_models(items@)[k],
                                inner@,
                                registry@,
                            ),
                        forall|k: int|
                            0 <= k < i ==> (#[trigger] wires@[k])@ == encode_value(
                                items@[k]@,
                                inner@,
                                registry@,
                            ),
                        decreases_to!(value => items),
                    decreases items@.len() - i,
                {
                    proof {
                        assert(decreases_to!(items => items[i as int]));
                    }
                    match encode(&items[i], inner, registry) {
                        Some(w) => {
                            wires.push(w);
                        },
                        None => {
                            proof {
                                assert(value_models(items@)[i as int] == items@[i as int]@);
                            }
                            return None;
                        },
                    }
                    proof {
                        assert(value_models(items@)[i as int] == items@[i as int]@);
                    }
                    i += 1;
                }
                proof {
                    lemma_list_view(wires);
                    assert(wire_models(wires@) =~= encode_items(
                        value_models(items@),
                        inner@,
                        registry@,
                    ));
                }
                Some(WireValue::L(wires))
            },
            _ => None,
        },
        TypeShape::Optional(_) => None,
        TypeShape::Record(name) => match value {
            Value::Record(fields) => match registry.lookup(name) {
                Some(definition) => {
                    proof {
                        lemma_record_value(*fields);
                    }
                    match encode_record(fields, &definition.attributes, registry) {
                        Some(map) => {
                            proof {
                                lemma_map_view(map);
                            }
                            Some(WireValue::M(map))
                        },
                        None => None,
                    }
                },
                None => None,
            },
            _ => None,
        },
    }
}

/// Encodes the value of a field of the shape, an absent optional field to no
/// wire value. The outer result is `None` exactly where the value is none of
/// a field of the shape.
pub fn encode_present(value: &Value, shape: &TypeShape, registry: &Registry) -> (wire: Option<
    Option<WireValue>,
>)
    ensures
        match wire {
            Some(Some(w)) => field_conforms(value@, shape@, registry@) && encode_field(
                value@,
                shape@,
                registry@,
            ) == Some(w@),
            Some(None) => field_conforms(value@, shape@, registry@) && encode_field(
                value@,
                shape@,
                registry@,
            ).is_none(),
            None => !field_conforms(value@, shape@, registry@),
        },
    decreases value, 1nat,
{
    match shape {
        TypeShape::Optional(inner) => match value {
            Value::Optional(None) => Some(None),
            Value::Optional(Some(present)) => match encode(present, inner, registry) {
                Some(w) => Some(Some(w)),
                None => None,
            },
            _ => None,
        },
        _ => match encode(value, shape, registry) {
            Some(w) => Some(Some(w)),
            None => None,
        },
    }
}

/// Encodes the fields of a record to the map of its attributes: each field
/// under its attribute's wire name, an absent optional field not at all. The
/// result is `None` exactly where the fields are not those of such a record.
pub fn encode_record(
    fields: &Vec<Value>,
    attributes: &Vec<ItemAttribute>,
    registry: &Registry,
) -> (map: Option<WireMap>)
    ensures
        match map {
            Some(m) => fields_conform(
                value_models(fields@),
                attribute_models(attributes@),
                registry@,
            ) && m@ == encode_fields(
                value_models(fields@),
                attribute_models(attributes@),
                registry@,
                fields@.len(),
            ),
            None => !fields_conform(
                value_models(fields@),
                attribute_models(attributes@),
                registry@,
            ),
        },
    decreases fields, 0nat,
{
    if fields.len() != attributes.len() {
        return None;
    }
    let ghost values = value_models(fields@);
    let ghost models = attribute_models(attributes@);
    let mut map = WireMap::new();
    let mut i: usize = 0;
    while i < fields.len()
        invariant
            i <= fields@.len(),
            fields@.len() == attributes@.len(),
            values == value_models(fields@),
            models == attribute_models(attributes@),
            forall|k: int|
                0 <= k < i ==> field_conforms(#[trigger] values[k], models[k].shape(), registry@),
            map@ == encode_fields(values, models, registry@, i as nat),
        decreases fields@.len() - i,
    {
        proof {
            assert(decreases_to!(fields => fields[i as int]));
            assert(values[i as int] == fields@[i as int]@);
            assert(models[i as int] == attributes@[i as int]@);
        }
        let shape = attributes[i].shape();
        match encode_present(&fields[i], &shape, registry) {
            Some(Some(w)) => {
                map.insert(attributes[i].attr_name.clone(), w);
            },
            Some(None) => {},
            None => {
                return None;
            },
        }
        i += 1;
    }
    Some(map)
}

/// Reads a number's text as an integer of type `kind`.
pub fn parse_int(text: &str, kind: IntKind) -> (parsed: Option<Value>)
    ensures
        match parsed {
            Some(v) => parse_integer(text@, kind) == Some(v@),
            None => parse_integer(text@, kind).is_none(),
        },
{
    match parse_magnitude(text) {
        None => None,
        Some((negative, magnitude)) => {
            if kind.is_signed() {
                if negative {
                    if magnitude > 0x8000_0000_0000_0000_0000_0000_0000_0000 {
                        None
                    } else {
                        let n: i128 = if magnitude == 0x8000_0000_0000_0000_0000_0000_0000_0000 {
                            i128::MIN
                        } else {
                            -(magnitude as i128)
                        };
                        if kind.holds_signed(n) {
                            Some(Value::Int(n))
                        } else {
                            None
                        }
                    }
                } else if magnitude > 0x7fff_ffff_ffff_ffff_ffff_ffff_ffff_ffff {
                    None
                } else {
                    let n: i128 = magnitude as i128;
                    if kind.holds_signed(n) {
                        Some(Value::Int(n))
                    } else {
                        None
                    }
                }
            } else if !negative && kind.holds_unsigned(magnitude) {
                Some(Value::UInt(magnitude))
            } else {
                None
            }
        },
    }
}

/// The content of the outcome of decoding a value.
pub open spec fn decoded(outcome: Result<Value, DecodeError>) -> Result<ValueModel, DecodeError> {
    match outcome {
        Ok(v) => Ok(v@),
        Err(e) => Err(e),
    }
}

/// The content of the outcome of decoding a list of values.
pub open spec fn decoded_all(outcome: Result<Vec<Value>, DecodeError>) -> Result<
    Seq<ValueModel>,
    DecodeError,
> {
    match outcome {
        Ok(values) => Ok(value_models(values@)),
        Err(e) => Err(e),
    }
}

/// An error among the first items is the error of the whole list.
pub proof fn lemma_items_error(
    items: Seq<WireModel>,
    shape: ShapeModel,
    registry: Seq<RecordModel>,
    n: nat,
    m: nat,
)
    requires
        n <= m <= items.len(),
        decode_items(items, shape, registry, n) is Err,
    ensures
        decode_items(items, shape, registry, m) == decode_items(items, shape, registry, n),
    decreases m,
{
    if n < m {
        lemma_items_error(items, shape, registry, n, (m - 1) as nat);
    }
}

/// An error among the first attributes is the error of the whole record.
pub proof fn lemma_fields_error(
    entries: Seq<EntryModel>,
    attributes: Seq<AttributeModel>,
    registry: Seq<RecordModel>,
    n: nat,
    m: nat,
)
    requires
        n <= m <= attributes.len(),
        decode_fields(entries, attributes, registry, n) is Err,
    ensures
        decode_fields(entries, attributes, registry, m) == decode_fields(
            entries,
            attributes,
            registry,
            n,
        ),
    decreases m,
{
    if n < m {
        lemma_fields_error(entries, attributes, registry, n, (m - 1) as nat);
    }
}

/// Decodes a wire value to a value of the shape, or reports the first reason
/// why it stands for none.
pub fn decode(wire: &WireValue, shape: &TypeShape, registry: &Registry) -> (outcome: Result<
    Value,
    DecodeError,
>)
    ensures
        decoded(outcome) == decode_value(wire@, shape@, registry@),
    decreases wire, 0nat,
{
    match shape {
        TypeShape::Scalar(ScalarKind::Int(kind)) => match wire {
            WireValue::N(text) => match parse_int(text.as_str(), *kind) {
                Some(v) => Ok(v),
                None => Err(DecodeError::MalformedNumber),
            },
            _ => Err(DecodeError::WrongVariant),
        },
        TypeShape::Scalar(ScalarKind::Text) => match wire {
            WireValue::S(text) => Ok(Value::Text(text.clone())),
            _ => Err(DecodeError::WrongVariant),
        },
        TypeShape::List(inner) => match wire {
            WireValue::L(items) => {
                proof {
                    lemma_list_view(*items);
                }
                let ghost wires = wire_models(items@);
                let mut values: Vec<Value> = Vec::new();
                let mut i: usize = 0;
                proof {
                    assert(value_models(values@) =~= Seq::<ValueModel>::empty());
                }
                while i < items.len()
                    invariant
                        i <= items@.len(),
                        wires == wire_models(items@),
                        wire@ == WireModel::L(wires),
                        shape@ == ShapeModel::List(Box::new(inner@)),
                        decode_items(wires, inner@, registry@, i as nat) == Ok::<
                            Seq<ValueModel>,
                            DecodeError,
                        >(value_models(values@)),
                        decreases_to!(wire => items),
                    decreases items@.len() - i,
                {
                    proof {
                        assert(decreases_to!(items => items[i as int]));
                        assert(wires[i as int] == items@[i as int]@);
                    }
                    match decode(&items[i], inner, registry) {
                        Ok(v) => {
                            let ghost before = value_models(values@);
                            values.push(v);
                            proof {
                                assert(value_models(values@) =~= before.push(v@));
                            }
                        },
                        Err(e) => {
                            proof {
                                lemma_items_error(
                                    wires,
                                    inner@,
                                    registry@,
                                    (i + 1) as nat,
                                    wires.len(),
                                );
                            }
                            return Err(e);
                        },
                    }
                    i += 1;
                }
                proof {
                    lemma_list_value(values);
                }
                Ok(Value::List(values))
            },
            _ => Err(DecodeError::WrongVariant),
        },
        TypeShape::Optional(_) => Err(DecodeError::NestedOptional),
        TypeShape::Record(name) => match wire {
            WireValue::M(map) => match registry.lookup(name) {
                Some(definition) => {
                    proof {
                        lemma_map_view(*map);
                    }
                    match decode_record(map, &definition.attributes, registry) {
                        Ok(fields) => {
                            proof {
                                lemma_record_value(fields);
                            }
                            Ok(Value::Record(fields))
                        },
                        Err(e) => Err(e),
                    }
                },
                None => Err(DecodeError::UnknownRecord),
            },
            _ => Err(DecodeError::WrongVariant),
        },
    }
}

/// Decodes the field of a record that a wire map holds under the attribute's
/// wire name. An optional field without an entry is absent; any other field
/// without one is an error.
pub fn decode_present(map: &WireMap, attribute: &ItemAttribute, registry: &Registry) -> (outcome:
    Result<Value, DecodeError>)
    ensures
        decoded(outcome) == decode_field(map@, attribute@, registry@),
    decreases map, 1nat,
{
    let shape = attribute.shape();
    match map.position(attribute.attr_name.as_str()) {
        Some(i) => {
            let wire = &map.entries[i].value;
            proof {
                assert(decreases_to!(map => map.entries));
                assert(decreases_to!(map.entries => map.entries[i as int]));
                assert(map@[i as int].value == wire@);
            }
            match &shape {
                TypeShape::Optional(inner) => match decode(wire, inner, registry) {
                    Ok(v) => Ok(Value::Optional(Some(Box::new(v)))),
                    Err(e) => Err(e),
                },
                _ => decode(wire, &shape, registry),
            }
        },
        None => match shape {
            TypeShape::Optional(_) => Ok(Value::Optional(None)),
            _ => Err(DecodeError::MissingAttribute),
        },
    }
}

/// Decodes the fields of a record from the map of its attributes, in the
/// order of the attributes, or reports the first reason why a field has no
/// value.
pub fn decode_record(
    map: &WireMap,
    attributes: &Vec<ItemAttribute>,
    registry: &Registry,
) -> (outcome: Result<Vec<Value>, DecodeError>)
    ensures
        decoded_all(outcome) == decode_fields(
            map@,
            attribute_models(attributes@),
            registry@,
            attributes@.len(),
        ),
    decreases map, 2nat,
{
    let ghost models = attribute_models(attributes@);
    let mut fields: Vec<Value> = Vec::new();
    proof {
        assert(value_models(fields@) =~= Seq::<ValueModel>::empty());
    }
    let mut i: usize = 0;
    while i < attributes.len()
        invariant
            i <= attributes@.len(),
            models == attribute_models(attributes@),
            decode_fields(map@, models, registry@, i as nat) == Ok::<Seq<ValueModel>, DecodeError>(
                value_models(fields@),
            ),
        decreases attributes@.len() - i,
    {
        proof {
            assert(models[i as int] == attributes@[i as int]@);
        }
        match decode_present(map, &attributes[i], registry) {
            Ok(v) => {
                let ghost before = value_models(fields@);
                fields.push(v);
                proof {
                    assert(value_models(fields@) =~= before.push(v@));
                }
            },
            Err(e) => {
                proof {
                    lemma_fields_error(map@, models, registry@, (i + 1) as nat, models.len());
                }
                return Err(e);
            },
        }
        i += 1;
    }
    Ok(fields)
}

/// Whether `v` is a value of a key of the scalar kind.
pub open spec fn is_key_value(v: ValueModel, kind: ScalarKind) -> bool {
    match kind {
        ScalarKind::Int(int_kind) => is_integer(v, int_kind),
        ScalarKind::Text => v is Text,
    }
}

/// The wire value of a key: a number of the integer's decimal text, or a
/// string.
pub open spec fn key_wire(v: ValueModel, kind: ScalarKind) -> WireModel {
    match kind {
        ScalarKind::Int(_) => WireModel::N(decimal(integer_of(v))),
        ScalarKind::Text => match v {
            ValueModel::Text(text) => WireModel::S(text),
            _ => arbitrary(),
        },
    }
}

/// A key is encoded as any scalar value of its kind is.
pub proof fn lemma_key_wire(v: ValueModel, kind: ScalarKind, registry: Seq<RecordModel>)
    ensures
        conforms(v, ShapeModel::Scalar(kind), registry) == is_key_value(v, kind),
        is_key_value(v, kind) ==> encode_value(v, ShapeModel::Scalar(kind), registry) == key_wire(
            v,
            kind,
        ),
{
}

/// Encodes the value of a key of the scalar kind. The result is `None`
/// exactly where the value is none of the kind.
pub fn encode_key(value: &Value, kind: ScalarKind) -> (wire: Option<WireValue>)
    ensures
        match wire {
            Some(w) => is_key_value(value@, kind) && w@ == key_wire(value@, kind),
            None => !is_key_value(value@, kind),
        },
{
    match kind {
        ScalarKind::Int(int_kind) => match value {
            Value::Int(n) => if int_kind.holds_signed(*n) {
                Some(WireValue::N(format_signed(*n)))
            } else {
                None
            },
            Value::UInt(n) => if int_kind.holds_unsigned(*n) {
                Some(WireValue::N(format_unsigned(*n)))
            } else {
                None
            },
            _ => None,
        },
        ScalarKind::Text => match value {
            Value::Text(text) => Some(WireValue::S(text.clone())),
            _ => None,
        },
    }
}

/// Omission of absent fields: in the map of a record whose attributes have
/// different wire names, an optional field that is absent has no entry, and
/// one that is present has the wire value of the value inside.
pub proof fn lemma_optional_omission(
    fields: Seq<ValueModel>,
    attributes: Seq<AttributeModel>,
    registry: Seq<RecordModel>,
    k: int,
)
    requires
        fields.len() == attributes.len(),
        distinct_attributes(attributes),
        0 <= k < fields.len(),
        attributes[k].shape() is Optional,
    ensures
        match fields[k] {
            ValueModel::Optional(Some(present)) => lookup(
                encode_fields(fields, attributes, registry, fields.len()),
                attributes[k].attr_name,
            ) == Some(encode_value(*present, *attributes[k].shape()->Optional_0, registry)),
            _ => lookup(
                encode_fields(fields, attributes, registry, fields.len()),
                attributes[k].attr_name,
            ) is None,
        },
{
    lemma_encoded_lookup(fields, attributes, registry, fields.len(), k);
}

/// A field that is not optional has, in the map of a record whose attributes
/// have different wire names, the wire value of its value.
pub proof fn lemma_required_entry(
    fields: Seq<ValueModel>,
    attributes: Seq<AttributeModel>,
    registry: Seq<RecordModel>,
    k: int,
)
    requires
        fields.len() == attributes.len(),
        distinct_attributes(attributes),
        0 <= k < fields.len(),
        !(attributes[k].shape() is Optional),
    ensures
        lookup(encode_fields(fields, attributes, registry, fields.len()), attributes[k].attr_name)
            == Some(encode_value(fields[k], attributes[k].shape(), registry)),
{
    lemma_encoded_lookup(fields, attributes, registry, fields.len(), k);
}

/// The map of a record has entries under wire names of its attributes only,
/// and no two under one name.
pub proof fn lemma_encoded_names(
    fields: Seq<ValueModel>,
    attributes: Seq<AttributeModel>,
    registry: Seq<RecordModel>,
    n: nat,
)
    requires
        n <= fields.len() == attributes.len(),
    ensures
        distinct_names(encode_fields(fields, attributes, registry, n)),
        forall|i: int|
            0 <= i < encode_fields(fields, attributes, registry, n).len() ==> exists|k: int|
                0 <= k < n && attributes[k].attr_name == (#[trigger] encode_fields(
                    fields,
                    attributes,
                    registry,
                    n,
                )[i]).name,
    decreases n,
{
    if n > 0 {
        let before = encode_fields(fields, attributes, registry, (n - 1) as nat);
        let after = encode_fields(fields, attributes, registry, n);
        lemma_encoded_names(fields, attributes, registry, (n - 1) as nat);
        match encode_field(fields[n - 1], attributes[n - 1].shape(), registry) {
            Some(wire) => {
                lemma_put_distinct(before, attributes[n - 1].attr_name, wire);
                lemma_index_of(before, attributes[n - 1].attr_name);
                assert forall|i: int| 0 <= i < after.len() implies exists|k: int|
                    0 <= k < n && attributes[k].attr_name == (#[trigger] after[i]).name by {
                    if i < before.len() && after[i] == before[i] {
                        let k = choose|k: int|
                            0 <= k < n - 1 && attributes[k].attr_name == before[i].name;
                        assert(0 <= k < n && attributes[k].attr_name == after[i].name);
                    } else {
                        assert(after[i].name == attributes[n - 1].attr_name);
                    }
                }
            },
            None => {
                assert forall|i: int| 0 <= i < after.len() implies exists|k: int|
                    0 <= k < n && attributes[k].attr_name == (#[trigger] after[i]).name by {
                    let k = choose|k: int|
                        0 <= k < n - 1 && attributes[k].attr_name == before[i].name;
                    assert(0 <= k < n && attributes[k].attr_name == after[i].name);
                }
            },
        }
    }
}

/// What is decoded is of the shape that it was decoded by.
pub proof fn lemma_decoded_conforms(w: WireModel, shape: ShapeModel, registry: Seq<RecordModel>)
    requires
        decode_value(w, shape, registry) is Ok,
    ensures
        conforms(decode_value(w, shape, registry).unwrap(), shape, registry),
    decreases w, 0nat,
{
    let v = decode_value(w, shape, registry).unwrap();
    match shape {
        ShapeModel::Scalar(_) => {},
        ShapeModel::List(inner) => {
            let items = w->L_0;
            lemma_decoded_items_conform(items, *inner, registry, items.len());
        },
        ShapeModel::Record(name) => {
            let entries = w->M_0;
            let attributes = resolve(registry, name).unwrap();
            lemma_decoded_fields_conform(entries, attributes, registry, attributes.len());
            let fields = decode_fields(entries, attributes, registry, attributes.len()).unwrap();
            assert(v == ValueModel::Record(fields));
            assert(fields_conform(fields, attributes, registry));
        },
        ShapeModel::Optional(_) => {},
    }
}

/// The values decoded from the first `n` items of a list are of the shape of
/// the items, one for each item.
pub proof fn lemma_decoded_items_conform(
    items: Seq<WireModel>,
    shape: ShapeModel,
    registry: Seq<RecordModel>,
    n: nat,
)
    requires
        n <= items.len(),
        decode_items(items, shape, registry, n) is Ok,
    ensures
        decode_items(items, shape, registry, n).unwrap().len() == n,
        forall|i: int|
            0 <= i < n ==> conforms(
                #[trigger] decode_items(items, shape, registry, n).unwrap()[i],
                shape,
                registry,
            ),
    decreases items, n,
{
    if n > 0 {
        lemma_decoded_items_conform(items, shape, registry, (n - 1) as nat);
        lemma_decoded_conforms(items[n - 1], shape, registry);
    }
}

/// The value decoded for a field is of the shape of the field.
pub proof fn lemma_decoded_field_conforms(
    entries: Seq<EntryModel>,
    attribute: AttributeModel,
    registry: Seq<RecordModel>,
)
    requires
        decode_field(entries, attribute, registry) is Ok,
    ensures
        field_conforms(
            decode_field(entries, attribute, registry).unwrap(),
            attribute.shape(),
            registry,
        ),
    decreases entries, 0nat,
{
    match index_of(entries, attribute.attr_name) {
        Some(i) => {
            if 0 <= i < entries.len() {
                match attribute.shape() {
                    ShapeModel::Optional(inner) => {
                        lemma_decoded_conforms(entries[i].value, *inner, registry);
                    },
                    shape => {
                        lemma_decoded_conforms(entries[i].value, shape, registry);
                    },
                }
            }
        },
        None => {},
    }
}

/// The values decoded for the first `n` attributes of a record are of the
/// shapes of their fields, one for each attribute.
pub proof fn lemma_decoded_fields_conform(
    entries: Seq<EntryModel>,
    attributes: Seq<AttributeModel>,
    registry: Seq<RecordModel>,
    n: nat,
)
    requires
        n <= attributes.len(),
        decode_fields(entries, attributes, registry, n) is Ok,
    ensures
        decode_fields(entries, attributes, registry, n).unwrap().len() == n,
        forall|i: int|
            0 <= i < n ==> field_conforms(
                #[trigger] decode_fields(entries, attributes, registry, n).unwrap()[i],
                attributes[i].shape(),
                registry,
            ),
    decreases entries, n,
{
    if n > 0 {
        lemma_decoded_fields_conform(entries, attributes, registry, (n - 1) as nat);
        lemma_decoded_field_conforms(entries, attributes[n - 1], registry);
    }
}

} // verus!
