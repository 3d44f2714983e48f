//! The builder of a conditional write: the item to put, and the condition
//! expression under which it is put.

use crate::codec::{conforms, encode, encode_fields, encode_value, fields_conform};
use crate::decimal::{digits_number, digits_of, format_unsigned, lemma_digits_of};
use crate::definition::{attribute_models, AttributeModel, ItemAttribute, ItemDefinition};
use crate::expression::{
    join, joined, name_models, Expression, ExpressionModel, NameEntry, NameModel,
};
use crate::marshal::{from_into_item_structure, ItemStructure};
use crate::shape::{name_is, texts, ShapeModel, TypeShape};
use crate::value::{value_models, Registry, Value};
use crate::wire::{
    distinct_names, lemma_first_index, lookup, EntryModel, WireEntry, WireMap, WireModel,
};
use vstd::prelude::*;

verus! {

/// The letters that the first comparisons of a condition are called by.
pub open spec fn letters() -> Seq<char> {
    "abcdefghijklmnopqrstuvwxyz"@
}

/// The identifier of the `n`-th comparison of a condition, counted from 0:
/// the single letters `a` to `z` for the first 26, then `a26`, `a27` and so
/// on without limit.
pub open spec fn placeholder(n: nat) -> Seq<char> {
    if n < 26 {
        letters().subrange(n as int, n as int + 1)
    } else {
        seq!['a'] + digits_of(n)
    }
}

/// The placeholder of the attribute name of the `n`-th comparison.
pub open spec fn name_placeholder(n: nat) -> Seq<char> {
    seq!['#'] + placeholder(n)
}

/// The placeholder of the value of the `n`-th comparison.
pub open spec fn value_placeholder(n: nat) -> Seq<char> {
    seq![':'] + placeholder(n)
}

/// The fragment of the `n`-th comparison: `#a = :a` for the first.
pub open spec fn eq_fragment(n: nat) -> Seq<char> {
    name_placeholder(n) + seq![' ', '=', ' '] + value_placeholder(n)
}

/// The place of the first of the first `n` attributes whose field is `field`.
pub open spec fn field_position(
    attributes: Seq<AttributeModel>,
    field: Seq<char>,
    n: nat,
) -> Option<int>
    decreases n,
{
    if n == 0 || n > attributes.len() {
        None
    } else {
        match field_position(attributes, field, (n - 1) as nat) {
            Some(i) => Some(i),
            None => if attributes[n - 1].ident == field {
                Some(n - 1)
            } else {
                None
            },
        }
    }
}

/// A field found among the first attributes is found at the same place among
/// more of them, and the place is that of an attribute.
pub proof fn lemma_field_position(attributes: Seq<AttributeModel>, field: Seq<char>, n: nat, m: nat)
    requires
        n <= m <= attributes.len(),
        field_position(attributes, field, n) is Some,
    ensures
        field_position(attributes, field, m) == field_position(attributes, field, n),
        0 <= field_position(attributes, field, n).unwrap() < n,
        attributes[field_position(attributes, field, n).unwrap()].ident == field,
    decreases m,
{
    if n < m {
        lemma_field_position(attributes, field, n, (m - 1) as nat);
    } else if n > 0 {
        if field_position(attributes, field, (n - 1) as nat) is Some {
            lemma_field_position(attributes, field, (n - 1) as nat, (n - 1) as nat);
        }
    }
}

/// The shape of the value that a comparison with an attribute takes: the
/// shape inside, where the attribute may be absent.
pub open spec fn compared_shape(shape: ShapeModel) -> ShapeModel {
    match shape {
        ShapeModel::Optional(inner) => *inner,
        _ => shape,
    }
}

/// The identifier of the `n`-th comparison of a condition, counted from 0.
pub fn placeholder_text(n: usize) -> (text: String)
    ensures
        text@ == placeholder(n as nat),
{
    if n < 26 {
        let letters = "abcdefghijklmnopqrstuvwxyz";
        proof {
            reveal_strlit("abcdefghijklmnopqrstuvwxyz");
        }
        String::from_str(letters.substring_ascii(n, n + 1))
    } else {
        let number = format_unsigned(n as u128);
        let mut text = String::from_str("a");
        text.append(number.as_str());
        proof {
            reveal_strlit("a");
            assert(text@ =~= placeholder(n as nat));
        }
        text
    }
}

/// The accumulator of a condition expression: the fragments in the order in
/// which they were added, and the names and values of the placeholders of
/// its comparisons.
#[derive(Debug, PartialEq, Eq)]
pub struct PutItemCondition {
    pub attributes: Vec<ItemAttribute>,
    pub fragments: Vec<String>,
    pub expr_name: Vec<NameEntry>,
    pub expr_value: WireMap,
}

/// The mathematical content of a condition.
pub ghost struct ConditionModel {
    pub attributes: Seq<AttributeModel>,
    pub fragments: Seq<Seq<char>>,
    pub names: Seq<NameModel>,
    pub values: Seq<EntryModel>,
}

impl View for PutItemCondition {
    type V = ConditionModel;

    open spec fn view(&self) -> ConditionModel {
        ConditionModel {
            attributes: attribute_models(self.attributes@),
            fragments: texts(self.fragments@),
            names: name_models(self.expr_name@),
            values: self.expr_value@,
        }
    }
}

impl ConditionModel {
    /// The condition with one more fragment.
    pub open spec fn with_fragment(self, fragment: Seq<char>) -> ConditionModel {
        ConditionModel { fragments: self.fragments.push(fragment), ..self }
    }

    /// The condition with one more comparison: of the attribute at `place`
    /// with a value whose wire value is `wire`.
    pub open spec fn with_comparison(
        self,
        place: int,
        wire: WireModel,
    ) -> ConditionModel {
        let n = self.names.len();
        ConditionModel {
            attributes: self.attributes,
            fragments: self.fragments.push(eq_fragment(n)),
            names: self.names.push(
                NameModel {
                    placeholder: name_placeholder(n),
                    name: self.attributes[place].attr_name,
                },
            ),
            values: self.values.push(EntryModel { name: value_placeholder(n), value: wire }),
        }
    }

    /// The expression: the fragments joined by single spaces, with the names
    /// and values of the placeholders.
    pub open spec fn parts(self) -> ExpressionModel {
        ExpressionModel {
            expression: joined(self.fragments),
            names: self.names,
            values: self.values,
        }
    }

    /// The placeholders are those of the comparisons in their order: the
    /// `k`-th name and the `k`-th value belong to the `k`-th comparison.
    pub open spec fn numbered(self) -> bool {
        &&& self.names.len() == self.values.len()
        &&& forall|k: int|
            0 <= k < self.names.len() ==> (#[trigger] self.names[k]).placeholder
                == name_placeholder(k as nat)
        &&& forall|k: int|
            0 <= k < self.values.len() ==> (#[trigger] self.values[k]).name == value_placeholder(
                k as nat,
            )
    }
}

impl PutItemCondition {
    /// An empty condition on the attributes of an item.
    pub fn new(structure: ItemStructure) -> (condition: PutItemCondition)
        ensures
            condition@ == (ConditionModel {
                attributes: structure@,
                fragments: Seq::empty(),
                names: Seq::empty(),
                values: Seq::empty(),
            }),
            condition@.numbered(),
    {
        let condition = PutItemCondition {
            attributes: structure.attributes,
            fragments: Vec::new(),
            expr_name: Vec::new(),
            expr_value: WireMap::new(),
        };
        proof {
            assert(condition@.fragments =~= Seq::<Seq<char>>::empty());
            assert(condition@.names =~= Seq::<NameModel>::empty());
        }
        condition
    }

    /// Adds a fragment as it is.
    fn fragment(self, text: &str) -> (next: PutItemCondition)
        ensures
            next@ == self@.with_fragment(text@),
    {
        let mut next = self;
        next.fragments.push(String::from_str(text));
        proof {
            assert(next@.fragments =~= self@.fragments.push(text@));
        }
        next
    }

    /// Adds `AND`.
    pub fn and(self) -> (next: PutItemCondition)
        ensures
            next@ == self@.with_fragment("AND"@),
    {
        self.fragment("AND")
    }

    /// Adds `OR`.
    pub fn or(self) -> (next: PutItemCondition)
        ensures
            next@ == self@.with_fragment("OR"@),
    {
        self.fragment("OR")
    }

    /// Adds `NOT`.
    pub fn not(self) -> (next: PutItemCondition)
        ensures
            next@ == self@.with_fragment("NOT"@),
    {
        self.fragment("NOT")
    }

    /// Adds an opening parenthesis.
    pub fn paren_open(self) -> (next: PutItemCondition)
        ensures
            next@ == self@.with_fragment("("@),
    {
        self.fragment("(")
    }

    /// Adds a closing parenthesis.
    pub fn paren_close(self) -> (next: PutItemCondition)
        ensures
            next@ == self@.with_fragment(")"@),
    {
        self.fragment(")")
    }

    /// The place of the first attribute whose field is `field`.
    pub fn position(&self, field: &str) -> (place: Option<usize>)
        ensures
            match place {
                Some(i) => field_position(self@.attributes, field@, self@.attributes.len()) == Some(
                    i as int,
                ) && i < self.attributes@.len(),
                None => field_position(self@.attributes, field@, self@.attributes.len()) is None,
            },
    {
        let ghost attributes = self@.attributes;
        let mut i: usize = 0;
        while i < self.attributes.len()
            invariant
                i <= self.attributes@.len(),
                attributes == self@.attributes,
                attributes.len() == self.attributes@.len(),
                field_position(attributes, field@, i as nat) is None,
            decreases self.attributes@.len() - i,
        {
            proof {
                assert(attributes[i as int] == self.attributes@[i as int]@);
            }
            if name_is(&self.attributes[i].ident, field) {
                proof {
                    lemma_field_position(attributes, field@, (i + 1) as nat, attributes.len());
                }
                return Some(i);
            }
            i += 1;
        }
        None
    }

    /// Adds the comparison of a field with a value: a fragment `#id = :id`
    /// with a fresh identifier, the attribute's wire name under `#id` and the
    /// value's wire value under `:id`. A field that may be absent is compared
    /// with a value of the shape inside. The result is `None` exactly where
    /// the item has no such field or the value is none of its shape.
    pub fn eq(self, field: &str, v: &Value, registry: &Registry) -> (next: Option<PutItemCondition>)
        ensures
            match field_position(self@.attributes, field@, self@.attributes.len()) {
                Some(place) => {
                    let shape = compared_shape(self@.attributes[place].shape());
                    if conforms(v@, shape, registry@) {
                        next is Some && next.unwrap()@ == self@.with_comparison(
                            place,
                            encode_value(v@, shape, registry@),
                        )
                    } else {
                        next is None
                    }
                },
                None => next is None,
            },
            self@.numbered() && next is Some ==> next.unwrap()@.numbered(),
    {
        let place = match self.position(field) {
            Some(place) => place,
            None => {
                return None;
            },
        };
        proof {
            assert(self@.attributes[place as int] == self.attributes@[place as int]@);
        }
        let shape = self.attributes[place].shape();
        let encoded = match &shape {
            TypeShape::Optional(inner) => encode(v, inner, registry),
            _ => encode(v, &shape, registry),
        };
        let wire = match encoded {
            Some(wire) => wire,
            None => {
                return None;
            },
        };
        let n = self.expr_name.len();
        let id = placeholder_text(n);
        let mut name_key = String::from_str("#");
        name_key.append(id.as_str());
        let mut value_key = String::from_str(":");
        value_key.append(id.as_str());
        let mut fragment = name_key.clone();
        fragment.append(" = ");
        fragment.append(value_key.as_str());
        proof {
            reveal_strlit("#");
            reveal_strlit(":");
            reveal_strlit(" = ");
            assert(name_key@ =~= name_placeholder(n as nat));
            assert(value_key@ =~= value_placeholder(n as nat));
            assert(" = "@ =~= seq![' ', '=', ' ']);
            assert(fragment@ =~= eq_fragment(n as nat));
        }
        let attr_name = self.attributes[place].attr_name.clone();
        let mut next = self;
        next.fragments.push(fragment);
        next.expr_name.push(NameEntry { placeholder: name_key, name: attr_name });
        next.expr_value.entries.push(WireEntry { name: value_key, value: wire });
        proof {
            let after = self@.with_comparison(place as int, wire@);
            assert(next@.fragments =~= after.fragments);
            assert(next@.names =~= after.names);
            assert(next@.values =~= after.values);
            assert(next@.attributes =~= after.attributes);
        }
        Some(next)
    }

    /// Turns the condition into its expression: the fragments joined by
    /// single spaces, with the names and values of the placeholders.
    pub fn into_parts(self) -> (parts: Expression)
        ensures
            parts@ == self@.parts(),
            self@.numbered() ==> parts.values.well_formed(),
    {
        proof {
            if self@.numbered() {
                lemma_placeholders_distinct(self@);
            }
        }
        let expression = join(&self.fragments);
        Expression { expression, names: self.expr_name, values: self.expr_value }
    }
}

/// Starts a condition on the attributes of the item.
pub fn create_condition_builder(item: &ItemDefinition) -> (condition: PutItemCondition)
    ensures
        condition@ == (ConditionModel {
            attributes: item@.all_attributes(),
            fragments: Seq::empty(),
            names: Seq::empty(),
            values: Seq::empty(),
        }),
        condition@.numbered(),
{
    PutItemCondition::new(from_into_item_structure(item))
}

/// The builder of a write: the item to put, once it is set, and the
/// condition under which it is put, if one is set.
#[derive(Debug, PartialEq, Eq)]
pub struct PutItem {
    pub structure: ItemStructure,
    pub i: Option<WireMap>,
    pub condition: Option<Expression>,
}

/// The content of a map that may be missing.
pub open spec fn map_option(map: Option<WireMap>) -> Option<Seq<EntryModel>> {
    match map {
        Some(m) => Some(m@),
        None => None,
    }
}

/// The content of an expression that may be missing.
pub open spec fn expression_option(expression: Option<Expression>) -> Option<ExpressionModel> {
    match expression {
        Some(e) => Some(e@),
        None => None,
    }
}

/// Starts a write of the item: nothing to put yet, and no condition.
pub fn create_put_item_builder(item: &ItemDefinition) -> (builder: PutItem)
    ensures
        builder.structure@ == item@.all_attributes(),
        builder.i is None,
        builder.condition is None,
{
    PutItem { structure: from_into_item_structure(item), i: None, condition: None }
}

impl PutItem {
    /// Sets the item to put, by the values of its attributes in their order.
    /// The result is `None` exactly where the values are not those of such
    /// an item.
    pub fn item(self, fields: &Vec<Value>, registry: &Registry) -> (next: Option<PutItem>)
        ensures
            next is Some <==> fields_conform(value_models(fields@), self.structure@, registry@),
            match next {
                Some(builder) => {
                    &&& builder.structure@ == self.structure@
                    &&& expression_option(builder.condition) == expression_option(self.condition)
                    &&& map_option(builder.i) == Some(
                        encode_fields(
                            value_models(fields@),
                            self.structure@,
                            registry@,
                            fields@.len(),
                        ),
                    )
                    &&& builder.i.unwrap().well_formed()
                },
                None => true,
            },
    {
        match self.structure.into_map(fields, registry) {
            Some(map) => Some(
                PutItem { structure: self.structure, i: Some(map), condition: self.condition },
            ),
            None => None,
        }
    }

    /// Sets the condition under which the item is put.
    pub fn condition(self, condition: PutItemCondition) -> (next: PutItem)
        ensures
            next.structure@ == self.structure@,
            map_option(next.i) == map_option(self.i),
            expression_option(next.condition) == Some(condition@.parts()),
    {
        PutItem { structure: self.structure, i: self.i, condition: Some(condition.into_parts()) }
    }
}

/// Each of the 26 letters stands at its own place: no letter stands twice.
pub proof fn lemma_letters_differ(i: int, j: int)
    requires
        0 <= i < 26,
        0 <= j < 26,
        i != j,
    ensures
        letters().len() == 26,
        letters()[i] != letters()[j],
{
    reveal_strlit("abcdefghijklmnopqrstuvwxyz");
    assert(i == 0 || i == 1 || i == 2 || i == 3 || i == 4 || i == 5 || i == 6 || i == 7 || i == 8
        || i == 9 || i == 10 || i == 11 || i == 12 || i == 13 || i == 14 || i == 15 || i == 16
        || i == 17 || i == 18 || i == 19 || i == 20 || i == 21 || i == 22 || i == 23 || i == 24
        || i == 25);
    assert(j == 0 || j == 1 || j == 2 || j == 3 || j == 4 || j == 5 || j == 6 || j == 7 || j == 8
        || j == 9 || j == 10 || j == 11 || j == 12 || j == 13 || j == 14 || j == 15 || j == 16
        || j == 17 || j == 18 || j == 19 || j == 20 || j == 21 || j == 22 || j == 23 || j == 24
        || j == 25);
}

/// The first comparisons are called `a`, `b`, `c`; the 26th `z`; the 27th
/// `a26`.
pub proof fn lemma_first_placeholders()
    ensures
        placeholder(0) == seq!['a'],
        placeholder(1) == seq!['b'],
        placeholder(2) == seq!['c'],
        placeholder(25) == seq!['z'],
        placeholder(26) == seq!['a', '2', '6'],
        eq_fragment(0) == seq!['#', 'a', ' ', '=', ' ', ':', 'a'],
        eq_fragment(1) == seq!['#', 'b', ' ', '=', ' ', ':', 'b'],
{
    reveal_strlit("abcdefghijklmnopqrstuvwxyz");
    assert(placeholder(0) =~= seq!['a']);
    assert(placeholder(1) =~= seq!['b']);
    assert(placeholder(2) =~= seq!['c']);
    assert(placeholder(25) =~= seq!['z']);
    assert(digits_of(2) =~= seq!['2']);
    assert(digits_of(26) =~= seq!['2', '6']);
    assert(placeholder(26) =~= seq!['a', '2', '6']);
    assert(eq_fragment(0) =~= seq!['#', 'a', ' ', '=', ' ', ':', 'a']);
    assert(eq_fragment(1) =~= seq!['#', 'b', ' ', '=', ' ', ':', 'b']);
}

/// Different comparisons have different placeholders.
pub proof fn lemma_placeholders_differ(i: nat, j: nat)
    requires
        i != j,
    ensures
        placeholder(i) != placeholder(j),
        name_placeholder(i) != name_placeholder(j),
        value_placeholder(i) != value_placeholder(j),
{
    lemma_digits_of(i);
    lemma_digits_of(j);
    if placeholder(i) == placeholder(j) {
        if i < 26 && j < 26 {
            lemma_letters_differ(i as int, j as int);
            assert(placeholder(i)[0] == letters()[i as int]);
            assert(placeholder(j)[0] == letters()[j as int]);
        } else if i >= 26 && j >= 26 {
            assert(placeholder(i).skip(1) =~= digits_of(i));
            assert(placeholder(j).skip(1) =~= digits_of(j));
            assert(digits_number(digits_of(i)) == digits_number(digits_of(j)));
        } else {
            lemma_letters_differ(0, 1);
            assert(placeholder(i).len() == placeholder(j).len());
        }
    }
    if name_placeholder(i) == name_placeholder(j) {
        assert(name_placeholder(i).skip(1) =~= placeholder(i));
        assert(name_placeholder(j).skip(1) =~= placeholder(j));
    }
    if value_placeholder(i) == value_placeholder(j) {
        assert(value_placeholder(i).skip(1) =~= placeholder(i));
        assert(value_placeholder(j).skip(1) =~= placeholder(j));
    }
}

/// The placeholders of the values of a condition differ from each other,
/// and so do those of the names.
pub proof fn lemma_placeholders_distinct(condition: ConditionModel)
    requires
        condition.numbered(),
    ensures
        distinct_names(condition.values),
        forall|i: int, j: int|
            0 <= i < j < condition.names.len() ==> (#[trigger] condition.names[i]).placeholder != (
            #[trigger] condition.names[j]).placeholder,
{
    assert forall|i: int, j: int| 0 <= i < j < condition.values.len() implies (
    #[trigger] condition.values[i]).name != (#[trigger] condition.values[j]).name by {
        lemma_placeholders_differ(i as nat, j as nat);
    }
    assert forall|i: int, j: int| 0 <= i < j < condition.names.len() implies (
    #[trigger] condition.names[i]).placeholder != (#[trigger] condition.names[j]).placeholder by {
        lemma_placeholders_differ(i as nat, j as nat);
    }
}

/// Every comparison of a condition has its own entries: under the value
/// placeholder of the `k`-th comparison stands its value, and its name stands
/// under the name placeholder of the same number.
pub proof fn lemma_condition_entries(condition: ConditionModel, k: int)
    requires
        condition.numbered(),
        0 <= k < condition.values.len(),
    ensures
        lookup(condition.values, value_placeholder(k as nat)) == Some(condition.values[k].value),
        condition.names[k].placeholder == name_placeholder(k as nat),
{
    assert forall|j: int| 0 <= j < k implies (#[trigger] condition.values[j]).name
        != value_placeholder(k as nat) by {
        lemma_placeholders_differ(j as nat, k as nat);
    }
    lemma_first_index(condition.values, value_placeholder(k as nat), k);
}

/// Joining fragments puts nothing between them but single spaces: with one
/// more fragment, the expression is the one before, a space, and the
/// fragment.
pub proof fn lemma_joined_push(fragments: Seq<Seq<char>>, fragment: Seq<char>)
    ensures
        joined(fragments.push(fragment)) == if fragments.len() == 0 {
            fragment
        } else {
            joined(fragments) + seq![' '] + fragment
        },
{
    assert(fragments.push(fragment).drop_last() =~= fragments);
}

} // verus!
