//! The accumulator of a transactional write of several items.

use crate::table::{PutItemModel, PutItemRequest};
use vstd::prelude::*;

verus! {

/// One item of a transactional write.
#[derive(Debug, PartialEq, Eq)]
pub struct TransactWriteItem {
    pub put: Option<PutItemRequest>,
}

/// The writes that a transaction will make, in the order in which they were
/// added. They are submitted together and succeed or fail together.
#[derive(Debug, PartialEq, Eq)]
pub struct Tx {
    pub put: Vec<PutItemRequest>,
}

/// The contents of a list of put requests.
pub open spec fn put_models(puts: Seq<PutItemRequest>) -> Seq<PutItemModel> {
    Seq::new(puts.len(), |i: int| puts[i]@)
}

impl View for Tx {
    type V = Seq<PutItemModel>;

    open spec fn view(&self) -> Seq<PutItemModel> {
        put_models(self.put@)
    }
}

impl Tx {
    /// A transaction without writes.
    pub fn new() -> (tx: Tx)
        ensures
            tx@ == Seq::<PutItemModel>::empty(),
    {
        let tx = Tx { put: Vec::new() };
        assert(tx@ =~= Seq::<PutItemModel>::empty());
        tx
    }

    /// Adds a write after those already there.
    pub fn put(self, put: PutItemRequest) -> (tx: Tx)
        ensures
            tx@ == self@.push(put@),
    {
        let mut tx = self;
        tx.put.push(put);
        assert(tx@ =~= self@.push(put@));
        tx
    }

    /// The items of the transactional write: one for each write, in their
    /// order.
    pub fn into_items(self) -> (items: Option<Vec<TransactWriteItem>>)
        ensures
            items is Some,
            items.unwrap()@.len() == self@.len(),
            forall|i: int|
                0 <= i < self@.len() ==> (#[trigger] items.unwrap()@[i]).put is Some
                    && items.unwrap()@[i].put.unwrap()@ == self@[i],
    {
        let ghost puts = self.put@;
        let mut items: Vec<TransactWriteItem> = Vec::new();
        for p in it: self.put
            invariant
                it.seq() == puts,
                items@.len() == it.index(),
                forall|i: int|
                    0 <= i < it.index() ==> (#[trigger] items@[i]).put == Some(puts[i]),
        {
            items.push(TransactWriteItem { put: Some(p) });
        }
        Some(items)
    }
}

} // verus!
