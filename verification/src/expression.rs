//! Expressions with placeholders: the text, the attribute names that its `#`
//! placeholders stand for, and the values that its `:` placeholders stand for.

use crate::wire::{EntryModel, WireMap};
use vstd::prelude::*;

verus! {

/// The attribute name that a `#` placeholder stands for.
#[derive(Debug, PartialEq, Eq)]
pub struct NameEntry {
    pub placeholder: String,
    pub name: String,
}

/// An expression with the names and values of its placeholders.
#[derive(Debug, PartialEq, Eq)]
pub struct Expression {
    pub expression: String,
    pub names: Vec<NameEntry>,
    pub values: WireMap,
}

/// The mathematical content of a name entry.
pub ghost struct NameModel {
    pub placeholder: Seq<char>,
    pub name: Seq<char>,
}

/// The mathematical content of an expression.
pub ghost struct ExpressionModel {
    pub expression: Seq<char>,
    pub names: Seq<NameModel>,
    pub values: Seq<EntryModel>,
}

impl View for NameEntry {
    type V = NameModel;

    open spec fn view(&self) -> NameModel {
        NameModel { placeholder: self.placeholder@, name: self.name@ }
    }
}

/// The contents of a list of name entries.
pub open spec fn name_models(names: Seq<NameEntry>) -> Seq<NameModel> {
    Seq::new(names.len(), |i: int| names[i]@)
}

impl View for Expression {
    type V = ExpressionModel;

    open spec fn view(&self) -> ExpressionModel {
        ExpressionModel {
            expression: self.expression@,
            names: name_models(self.names@),
            values: self.values@,
        }
    }
}

/// The fragments of an expression joined by single spaces.
pub open spec fn joined(fragments: Seq<Seq<char>>) -> Seq<char>
    decreases fragments.len(),
{
    if fragments.len() == 0 {
        Seq::empty()
    } else if fragments.len() == 1 {
        fragments[0]
    } else {
        joined(fragments.drop_last()) + seq![' '] + fragments.last()
    }
}

/// Joins the fragments of an expression by single spaces.
pub fn join(fragments: &Vec<String>) -> (text: String)
    ensures
        text@ == joined(Seq::new(fragments@.len(), |i: int| fragments@[i]@)),
{
    let ghost all = Seq::new(fragments@.len(), |i: int| fragments@[i]@);
    let mut text = String::new();
    let mut i: usize = 0;
    proof {
        assert(all.take(0) =~= Seq::<Seq<char>>::empty());
    }
    while i < fragments.len()
        invariant
            i <= fragments@.len(),
            all == Seq::new(fragments@.len(), |i: int| fragments@[i]@),
            text@ == joined(all.take(i as int)),
        decreases fragments@.len() - i,
    {
        proof {
            assert(all.take(i + 1).drop_last() =~= all.take(i as int));
            assert(all.take(i + 1).last() == fragments@[i as int]@);
            reveal_strlit(" ");
            assert(" "@ =~= seq![' ']);
        }
        if i > 0 {
            text.append(" ");
        }
        text.append(fragments[i].as_str());
        proof {
            if i == 0 {
                assert(all.take(1)[0] == fragments@[0]@);
                assert(text@ =~= fragments@[0]@);
            }
        }
        i += 1;
    }
    proof {
        assert(all.take(fragments@.len() as int) =~= all);
    }
    text
}

} // verus!
