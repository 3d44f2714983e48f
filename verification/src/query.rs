//! The staged builder of the key condition of a range query.

use crate::codec::{encode_key, is_key_value, key_wire};
use crate::definition::ItemDefinition;
use crate::expression::{name_models, Expression, ExpressionModel, NameEntry, NameModel};
use crate::key::{key_of, key_option, sort_key_of, KeyAttribute};
use crate::shape::ScalarKind;
use crate::value::Value;
use crate::wire::{
    distinct_names, is_first_index, lemma_first_index, lookup, EntryModel, WireEntry, WireMap,
    WireModel, WireValue,
};
use vstd::prelude::*;

verus! {

/// The comparisons that a query can make on the sort key.
#[derive(Clone, Copy, Debug, PartialEq, Eq, Structural)]
pub enum Comparator {
    /// Greater than a value.
    Gt,
    /// Greater than or equal to a value.
    Ge,
    /// Less than a value.
    Lt,
    /// Less than or equal to a value.
    Le,
    /// Between a low and a high value, both included.
    Between,
    /// Starting with a string.
    BeginsWith,
}

/// The key condition of a query on the hash key alone.
pub open spec fn hash_expression() -> Seq<char> {
    "#hk = :hk"@
}

/// The key condition of a query with a comparison on the sort key.
pub open spec fn key_expression(comparator: Comparator) -> Seq<char> {
    match comparator {
        Comparator::Gt => "#hk = :hk AND #sk > :b"@,
        Comparator::Ge => "#hk = :hk AND #sk >= :b"@,
        Comparator::Lt => "#hk = :hk AND #sk < :b"@,
        Comparator::Le => "#hk = :hk AND #sk <= :b"@,
        Comparator::Between => "#hk = :hk AND #sk BETWEEN :b AND :c"@,
        Comparator::BeginsWith => "#hk = :hk AND begins_with(#sk, :b)"@,
    }
}

/// What is added to the name of the sort key's field to name the method of a
/// comparison.
pub open spec fn method_suffix(comparator: Comparator) -> Seq<char> {
    match comparator {
        Comparator::Gt => "_gt"@,
        Comparator::Ge => "_ge"@,
        Comparator::Lt => "_lt"@,
        Comparator::Le => "_le"@,
        Comparator::Between => "_between"@,
        Comparator::BeginsWith => "_begins_with"@,
    }
}

/// The comparisons that a sort key of the kind offers: `BeginsWith` on a
/// string only.
pub open spec fn offered(kind: ScalarKind) -> Seq<Comparator> {
    let common = seq![
        Comparator::Gt,
        Comparator::Ge,
        Comparator::Lt,
        Comparator::Le,
        Comparator::Between,
    ];
    if kind == ScalarKind::Text {
        common.push(Comparator::BeginsWith)
    } else {
        common
    }
}

impl Comparator {
    /// Whether a sort key of the kind offers the comparison.
    pub open spec fn offered_on(self, kind: ScalarKind) -> bool {
        self != Comparator::BeginsWith || kind == ScalarKind::Text
    }

    /// The number of values that the comparison takes.
    pub open spec fn operands(self) -> nat {
        if self == Comparator::Between {
            2
        } else {
            1
        }
    }

    /// The key condition of a query with this comparison.
    pub fn template(self) -> (text: String)
        ensures
            text@ == key_expression(self),
    {
        match self {
            Comparator::Gt => String::from_str("#hk = :hk AND #sk > :b"),
            Comparator::Ge => String::from_str("#hk = :hk AND #sk >= :b"),
            Comparator::Lt => String::from_str("#hk = :hk AND #sk < :b"),
            Comparator::Le => String::from_str("#hk = :hk AND #sk <= :b"),
            Comparator::Between => String::from_str("#hk = :hk AND #sk BETWEEN :b AND :c"),
            Comparator::BeginsWith => String::from_str("#hk = :hk AND begins_with(#sk, :b)"),
        }
    }

    /// The name of the method of this comparison for a sort key whose field
    /// is `field`: `model_gt` for the field `model`.
    pub fn method_name(self, field: &str) -> (name: String)
        ensures
            name@ == field@ + method_suffix(self),
    {
        let mut name = String::from_str(field);
        match self {
            Comparator::Gt => name.append("_gt"),
            Comparator::Ge => name.append("_ge"),
            Comparator::Lt => name.append("_lt"),
            Comparator::Le => name.append("_le"),
            Comparator::Between => name.append("_between"),
            Comparator::BeginsWith => name.append("_begins_with"),
        }
        name
    }
}

/// The comparisons that a sort key of the kind offers.
pub fn comparators(kind: ScalarKind) -> (list: Vec<Comparator>)
    ensures
        list@ == offered(kind),
        forall|comparator: Comparator|
            list@.contains(comparator) <==> comparator.offered_on(kind),
{
    let mut list: Vec<Comparator> = Vec::new();
    list.push(Comparator::Gt);
    list.push(Comparator::Ge);
    list.push(Comparator::Lt);
    list.push(Comparator::Le);
    list.push(Comparator::Between);
    match kind {
        ScalarKind::Text => {
            list.push(Comparator::BeginsWith);
        },
        _ => {},
    }
    proof {
        assert(list@ =~= offered(kind));
        assert forall|comparator: Comparator|
            list@.contains(comparator) <==> comparator.offered_on(kind) by {
            if comparator.offered_on(kind) {
                match comparator {
                    Comparator::Gt => {
                        assert(list@[0] == comparator);
                    },
                    Comparator::Ge => {
                        assert(list@[1] == comparator);
                    },
                    Comparator::Lt => {
                        assert(list@[2] == comparator);
                    },
                    Comparator::Le => {
                        assert(list@[3] == comparator);
                    },
                    Comparator::Between => {
                        assert(list@[4] == comparator);
                    },
                    Comparator::BeginsWith => {
                        assert(list@[5] == comparator);
                    },
                }
            }
        }
    }
    list
}

/// The first stage of the builder of a query: no key is set.
#[derive(Debug, PartialEq, Eq)]
pub struct QueryHashKey {
    pub hash_key: KeyAttribute,
    pub sort_key: Option<KeyAttribute>,
}

/// The second stage of the builder of a query: the hash key is set.
#[derive(Debug, PartialEq, Eq)]
pub struct QuerySortKey {
    pub hash_name: String,
    pub hk: WireValue,
    pub sort_key: Option<KeyAttribute>,
}

/// A query: the wire names of the keys, the key condition and the values that
/// it compares with.
#[derive(Debug, PartialEq, Eq)]
pub struct Query {
    pub hash_name: String,
    pub sort_name: Option<String>,
    pub hk: WireValue,
    pub qs: String,
    pub b: Option<WireValue>,
    pub c: Option<WireValue>,
}

/// The mathematical content of a query.
pub ghost struct QueryModel {
    pub hash_name: Seq<char>,
    pub sort_name: Option<Seq<char>>,
    pub hk: WireModel,
    pub qs: Seq<char>,
    pub b: Option<WireModel>,
    pub c: Option<WireModel>,
}

/// The content of a wire value that may be missing.
pub open spec fn wire_option(wire: Option<WireValue>) -> Option<WireModel> {
    match wire {
        Some(w) => Some(w@),
        None => None,
    }
}

impl View for Query {
    type V = QueryModel;

    open spec fn view(&self) -> QueryModel {
        QueryModel {
            hash_name: self.hash_name@,
            sort_name: match self.sort_name {
                Some(name) => Some(name@),
                None => None,
            },
            hk: self.hk@,
            qs: self.qs@,
            b: wire_option(self.b),
            c: wire_option(self.c),
        }
    }
}

impl QueryModel {
    /// The names of the placeholders of the key condition: `#hk` for the hash
    /// key, and `#sk` for the sort key where the item has one.
    pub open spec fn names(self) -> Seq<NameModel> {
        let hash = seq![NameModel { placeholder: "#hk"@, name: self.hash_name }];
        match self.sort_name {
            Some(name) => hash.push(NameModel { placeholder: "#sk"@, name }),
            None => hash,
        }
    }

    /// The values of the placeholders of the key condition: `:hk` for the hash
    /// key, then `:b` and `:c` for the values that were given.
    pub open spec fn values(self) -> Seq<EntryModel> {
        let hash = seq![EntryModel { name: ":hk"@, value: self.hk }];
        let low = match self.b {
            Some(b) => hash.push(EntryModel { name: ":b"@, value: b }),
            None => hash,
        };
        match self.c {
            Some(c) => low.push(EntryModel { name: ":c"@, value: c }),
            None => low,
        }
    }

    /// The key condition with the names and values of its placeholders.
    pub open spec fn parts(self) -> ExpressionModel {
        ExpressionModel { expression: self.qs, names: self.names(), values: self.values() }
    }
}

/// Starts a query of the item.
pub fn create_query_builder(item: &ItemDefinition) -> (builder: QueryHashKey)
    requires
        item@.valid(),
    ensures
        builder.hash_key@ == key_of(item@.hash_key),
        key_option(builder.sort_key) == sort_key_of(item@),
{
    QueryHashKey {
        hash_key: KeyAttribute::of(&item.hash_key),
        sort_key: KeyAttribute::sort_key(item),
    }
}

impl QueryHashKey {
    /// Sets the hash key. The result is `None` exactly where the value is
    /// none of the hash key's kind.
    pub fn hash_key(self, v: &Value) -> (next: Option<QuerySortKey>)
        ensures
            next is Some <==> is_key_value(v@, self.hash_key.kind),
            match next {
                Some(stage) => {
                    &&& stage.hash_name@ == self.hash_key.name@
                    &&& stage.hk@ == key_wire(v@, self.hash_key.kind)
                    &&& stage.sort_key == self.sort_key
                },
                None => true,
            },
    {
        match encode_key(v, self.hash_key.kind) {
            Some(hk) => Some(
                QuerySortKey { hash_name: self.hash_key.name, hk, sort_key: self.sort_key },
            ),
            None => None,
        }
    }
}

impl QuerySortKey {
    /// Ends the query of an item without sort key: every item under the hash
    /// key. The result is `None` exactly where the item has a sort key, whose
    /// query takes one of the comparisons.
    pub fn finish(self) -> (query: Option<Query>)
        ensures
            query is Some <==> self.sort_key is None,
            match query {
                Some(q) => q@ == QueryModel {
                    hash_name: self.hash_name@,
                    sort_name: None,
                    hk: self.hk@,
                    qs: hash_expression(),
                    b: None,
                    c: None,
                },
                None => true,
            },
    {
        match self.sort_key {
            Some(_) => None,
            None => Some(
                Query {
                    hash_name: self.hash_name,
                    sort_name: None,
                    hk: self.hk,
                    qs: String::from_str("#hk = :hk"),
                    b: None,
                    c: None,
                },
            ),
        }
    }

    /// Ends the query with a comparison of the sort key with one value. The
    /// result is `None` exactly where the item has no sort key, the sort key
    /// does not offer the comparison, the comparison takes two values, or
    /// the value is none of the sort key's kind.
    pub fn compare(self, comparator: Comparator, b: &Value) -> (query: Option<Query>)
        ensures
            query is Some <==> {
                &&& self.sort_key is Some
                &&& comparator.operands() == 1
                &&& comparator.offered_on(self.sort_key.unwrap().kind)
                &&& is_key_value(b@, self.sort_key.unwrap().kind)
            },
            match query {
                Some(q) => q@ == QueryModel {
                    hash_name: self.hash_name@,
                    sort_name: Some(self.sort_key.unwrap().name@),
                    hk: self.hk@,
                    qs: key_expression(comparator),
                    b: Some(key_wire(b@, self.sort_key.unwrap().kind)),
                    c: None,
                },
                None => true,
            },
    {
        match self.sort_key {
            Some(sort_key) => {
                let offered = match comparator {
                    Comparator::Between => false,
                    Comparator::BeginsWith => match sort_key.kind {
                        ScalarKind::Text => true,
                        _ => false,
                    },
                    _ => true,
                };
                if !offered {
                    return None;
                }
                match encode_key(b, sort_key.kind) {
                    Some(low) => Some(
                        Query {
                            hash_name: self.hash_name,
                            sort_name: Some(sort_key.name),
                            hk: self.hk,
                            qs: comparator.template(),
                            b: Some(low),
                            c: None,
                        },
                    ),
                    None => None,
                }
            },
            None => None,
        }
    }

    /// The items whose sort key is greater than `b`.
    pub fn gt(self, b: &Value) -> (query: Option<Query>)
        ensures
            query is Some <==> self.sort_key is Some && is_key_value(
                b@,
                self.sort_key.unwrap().kind,
            ),
            match query {
                Some(q) => q@ == QueryModel {
                    hash_name: self.hash_name@,
                    sort_name: Some(self.sort_key.unwrap().name@),
                    hk: self.hk@,
                    qs: "#hk = :hk AND #sk > :b"@,
                    b: Some(key_wire(b@, self.sort_key.unwrap().kind)),
                    c: None,
                },
                None => true,
            },
    {
        self.compare(Comparator::Gt, b)
    }

    /// The items whose sort key is greater than or equal to `b`.
    pub fn ge(self, b: &Value) -> (query: Option<Query>)
        ensures
            query is Some <==> self.sort_key is Some && is_key_value(
                b@,
                self.sort_key.unwrap().kind,
            ),
            match query {
                Some(q) => q@ == QueryModel {
                    hash_name: self.hash_name@,
                    sort_name: Some(self.sort_key.unwrap().name@),
                    hk: self.hk@,
                    qs: "#hk = :hk AND #sk >= :b"@,
                    b: Some(key_wire(b@, self.sort_key.unwrap().kind)),
                    c: None,
                },
                None => true,
            },
    {
        self.compare(Comparator::Ge, b)
    }

    /// The items whose sort key is less than `b`.
    pub fn lt(self, b: &Value) -> (query: Option<Query>)
        ensures
            query is Some <==> self.sort_key is Some && is_key_value(
                b@,
                self.sort_key.unwrap().kind,
            ),
            match query {
                Some(q) => q@ == QueryModel {
                    hash_name: self.hash_name@,
                    sort_name: Some(self.sort_key.unwrap().name@),
                    hk: self.hk@,
                    qs: "#hk = :hk AND #sk < :b"@,
                    b: Some(key_wire(b@, self.sort_key.unwrap().kind)),
                    c: None,
                },
                None => true,
            },
    {
        self.compare(Comparator::Lt, b)
    }

    /// The items whose sort key is less than or equal to `b`.
    pub fn le(self, b: &Value) -> (query: Option<Query>)
        ensures
            query is Some <==> self.sort_key is Some && is_key_value(
                b@,
                self.sort_key.unwrap().kind,
            ),
            match query {
                Some(q) => q@ == QueryModel {
                    hash_name: self.hash_name@,
                    sort_name: Some(self.sort_key.unwrap().name@),
                    hk: self.hk@,
                    qs: "#hk = :hk AND #sk <= :b"@,
                    b: Some(key_wire(b@, self.sort_key.unwrap().kind)),
                    c: None,
                },
                None => true,
            },
    {
        self.compare(Comparator::Le, b)
    }

    /// The items whose sort key starts with `b`. The result is `None` exactly
    /// where the item has no sort key, the sort key is no string, or the
    /// value is none.
    pub fn begins_with(self, b: &Value) -> (query: Option<Query>)
        ensures
            query is Some <==> self.sort_key is Some && self.sort_key.unwrap().kind
                == ScalarKind::Text && b@ is Text,
            match query {
                Some(q) => q@ == QueryModel {
                    hash_name: self.hash_name@,
                    sort_name: Some(self.sort_key.unwrap().name@),
                    hk: self.hk@,
                    qs: "#hk = :hk AND begins_with(#sk, :b)"@,
                    b: Some(WireModel::S(b@->Text_0)),
                    c: None,
                },
                None => true,
            },
    {
        self.compare(Comparator::BeginsWith, b)
    }

    /// The items whose sort key lies between `low` and `high`, both included.
    /// The result is `None` exactly where the item has no sort key or one of
    /// the values is none of the sort key's kind.
    pub fn between(self, low: &Value, high: &Value) -> (query: Option<Query>)
        ensures
            query is Some <==> {
                &&& self.sort_key is Some
                &&& is_key_value(low@, self.sort_key.unwrap().kind)
                &&& is_key_value(high@, self.sort_key.unwrap().kind)
            },
            match query {
                Some(q) => q@ == QueryModel {
                    hash_name: self.hash_name@,
                    sort_name: Some(self.sort_key.unwrap().name@),
                    hk: self.hk@,
                    qs: "#hk = :hk AND #sk BETWEEN :b AND :c"@,
                    b: Some(key_wire(low@, self.sort_key.unwrap().kind)),
                    c: Some(key_wire(high@, self.sort_key.unwrap().kind)),
                },
                None => true,
            },
    {
        match self.sort_key {
            Some(sort_key) => match encode_key(low, sort_key.kind) {
                Some(b) => match encode_key(high, sort_key.kind) {
                    Some(c) => Some(
                        Query {
                            hash_name: self.hash_name,
                            sort_name: Some(sort_key.name),
                            hk: self.hk,
                            qs: Comparator::Between.template(),
                            b: Some(b),
                            c: Some(c),
                        },
                    ),
                    None => None,
                },
                None => None,
            },
            None => None,
        }
    }
}

impl Query {
    /// Turns the query into the key condition with the names and values of
    /// its placeholders.
    pub fn into_parts(self) -> (parts: Expression)
        ensures
            parts@ == self@.parts(),
            parts.values.well_formed(),
    {
        let mut names: Vec<NameEntry> = Vec::new();
        names.push(NameEntry { placeholder: String::from_str("#hk"), name: self.hash_name });
        match self.sort_name {
            Some(name) => {
                names.push(NameEntry { placeholder: String::from_str("#sk"), name });
            },
            None => {},
        }
        let mut entries: Vec<WireEntry> = Vec::new();
        entries.push(WireEntry { name: String::from_str(":hk"), value: self.hk });
        match self.b {
            Some(b) => {
                entries.push(WireEntry { name: String::from_str(":b"), value: b });
            },
            None => {},
        }
        match self.c {
            Some(c) => {
                entries.push(WireEntry { name: String::from_str(":c"), value: c });
            },
            None => {},
        }
        let values = WireMap { entries };
        proof {
            assert(name_models(names@) =~= self@.names());
            assert(values@ =~= self@.values());
            lemma_values_distinct(self@);
        }
        Expression { expression: self.qs, names, values }
    }
}

/// Whether `word` stands somewhere in `text`.
pub open spec fn occurs_in(text: Seq<char>, word: Seq<char>) -> bool {
    exists|i: int|
        0 <= i && i + word.len() <= text.len() && #[trigger] text.subrange(i, i + word.len())
            == word
}

/// The key condition of a query between two values holds the word `BETWEEN`,
/// and both value placeholders.
pub proof fn lemma_between_expression()
    ensures
        occurs_in(key_expression(Comparator::Between), "BETWEEN"@),
        occurs_in(key_expression(Comparator::Between), ":b"@),
        occurs_in(key_expression(Comparator::Between), ":c"@),
{
    reveal_strlit("#hk = :hk AND #sk BETWEEN :b AND :c");
    reveal_strlit("BETWEEN");
    reveal_strlit(":b");
    reveal_strlit(":c");
    let text = key_expression(Comparator::Between);
    assert(text.subrange(18int, 18int + "BETWEEN"@.len()) =~= "BETWEEN"@);
    assert(text.subrange(26int, 26int + ":b"@.len()) =~= ":b"@);
    assert(text.subrange(33int, 33int + ":c"@.len()) =~= ":c"@);
}

/// A query between two values binds exactly two placeholders besides that
/// of the hash key: `:b` to the low value and `:c` to the high one.
pub proof fn lemma_between_values(q: QueryModel)
    requires
        q.b is Some,
        q.c is Some,
    ensures
        q.values() == seq![
            EntryModel { name: ":hk"@, value: q.hk },
            EntryModel { name: ":b"@, value: q.b.unwrap() },
            EntryModel { name: ":c"@, value: q.c.unwrap() },
        ],
        lookup(q.values(), ":hk"@) == Some(q.hk),
        lookup(q.values(), ":b"@) == q.b,
        lookup(q.values(), ":c"@) == q.c,
{
    reveal_strlit(":hk");
    reveal_strlit(":b");
    reveal_strlit(":c");
    let values = q.values();
    assert(values =~= seq![
        EntryModel { name: ":hk"@, value: q.hk },
        EntryModel { name: ":b"@, value: q.b.unwrap() },
        EntryModel { name: ":c"@, value: q.c.unwrap() },
    ]);
    assert(":hk"@.len() == 3);
    assert(":b"@.len() == 2);
    assert(":b"@[1] == 'b');
    assert(":c"@[1] == 'c');
    assert(is_first_index(values, ":hk"@, 0));
    assert(is_first_index(values, ":b"@, 1));
    assert(is_first_index(values, ":c"@, 2));
    lemma_first_index(values, ":hk"@, 0);
    lemma_first_index(values, ":b"@, 1);
    lemma_first_index(values, ":c"@, 2);
}

/// The values of a query stand under different placeholders.
pub proof fn lemma_values_distinct(q: QueryModel)
    ensures
        distinct_names(q.values()),
{
    reveal_strlit(":hk");
    reveal_strlit(":b");
    reveal_strlit(":c");
    assert(":hk"@.len() == 3);
    assert(":b"@.len() == 2);
    assert(":b"@[1] == 'b');
    assert(":c"@[1] == 'c');
}

} // verus!
