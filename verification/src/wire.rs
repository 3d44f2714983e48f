//! Wire values: the tagged values that the store exchanges, and maps of them.

use vstd::prelude::*;

verus! {

/// A value as the store holds it.
#[derive(Debug, PartialEq, Eq)]
pub enum WireValue {
    /// A string.
    S(String),
    /// A number, as its decimal text.
    N(String),
    /// A list of values.
    L(Vec<WireValue>),
    /// A map from attribute names to values, as a nested record has it.
    M(WireMap),
    /// A value of a variant that no field is written as: a binary, a boolean,
    /// a null or a set.
    Other,
}

/// One entry of a wire map.
#[derive(Debug, PartialEq, Eq)]
pub struct WireEntry {
    pub name: String,
    pub value: WireValue,
}

/// A map from attribute names to wire values. It keeps its entries in the
/// order in which their names were first inserted.
#[derive(Debug, PartialEq, Eq)]
pub struct WireMap {
    pub entries: Vec<WireEntry>,
}

/// The mathematical content of a wire value.
pub ghost enum WireModel {
    S(Seq<char>),
    N(Seq<char>),
    L(Seq<WireModel>),
    M(Seq<EntryModel>),
    Other,
}

/// The mathematical content of a wire map entry.
pub ghost struct EntryModel {
    pub name: Seq<char>,
    pub value: WireModel,
}

/// The content of a wire value, read recursively.
pub open spec fn wire_model(w: WireValue) -> WireModel
    decreases w,
{
    match w {
        WireValue::S(s) => WireModel::S(s@),
        WireValue::N(s) => WireModel::N(s@),
        WireValue::L(items) => WireModel::L(
            Seq::new(
                items@.len(),
                |i: int|
                    if 0 <= i < items@.len() {
                        wire_model(items@[i])
                    } else {
                        arbitrary()
                    },
            ),
        ),
        WireValue::M(map) => WireModel::M(
            Seq::new(
                map.entries@.len(),
                |i: int|
                    if 0 <= i < map.entries@.len() {
                        EntryModel {
                            name: map.entries@[i].name@,
                            value: wire_model(map.entries@[i].value),
                        }
                    } else {
                        arbitrary()
                    },
            ),
        ),
        WireValue::Other => WireModel::Other,
    }
}

impl View for WireValue {
    type V = WireModel;

    open spec fn view(&self) -> WireModel {
        wire_model(*self)
    }
}

impl View for WireEntry {
    type V = EntryModel;

    open spec fn view(&self) -> EntryModel {
        EntryModel { name: self.name@, value: self.value@ }
    }
}

impl View for WireMap {
    type V = Seq<EntryModel>;

    open spec fn view(&self) -> Seq<EntryModel> {
        Seq::new(self.entries@.len(), |i: int| self.entries@[i]@)
    }
}

/// The contents of a list of wire values.
pub open spec fn wire_models(items: Seq<WireValue>) -> Seq<WireModel> {
    Seq::new(items.len(), |i: int| items[i]@)
}

/// The view of a list value is the list of its items' views.
pub proof fn lemma_list_view(items: Vec<WireValue>)
    ensures
        WireValue::L(items)@ == WireModel::L(wire_models(items@)),
{
    assert(WireValue::L(items)@->L_0 =~= wire_models(items@));
}

/// The view of a map value is the view of its map.
pub proof fn lemma_map_view(map: WireMap)
    ensures
        WireValue::M(map)@ == WireModel::M(map@),
{
    assert(WireValue::M(map)@->M_0 =~= map@);
}

/// `i` is the place of the first entry of `entries` that is named `key`.
pub open spec fn is_first_index(entries: Seq<EntryModel>, key: Seq<char>, i: int) -> bool {
    &&& 0 <= i < entries.len()
    &&& entries[i].name == key
    &&& forall|j: int| 0 <= j < i ==> (#[trigger] entries[j]).name != key
}

/// The place of the first entry named `key`, if there is one.
pub open spec fn index_of(entries: Seq<EntryModel>, key: Seq<char>) -> Option<int> {
    if exists|i: int| is_first_index(entries, key, i) {
        Some(choose|i: int| is_first_index(entries, key, i))
    } else {
        None
    }
}

/// The value that a map holds under `key`, if any.
pub open spec fn lookup(entries: Seq<EntryModel>, key: Seq<char>) -> Option<WireModel> {
    match index_of(entries, key) {
        Some(i) => Some(entries[i].value),
        None => None,
    }
}

/// The map after `value` was put under `key`: in the place of the entry that
/// had the name, or else at the end.
pub open spec fn put(entries: Seq<EntryModel>, key: Seq<char>, value: WireModel) -> Seq<
    EntryModel,
> {
    match index_of(entries, key) {
        Some(i) => entries.update(i, EntryModel { name: key, value }),
        None => entries.push(EntryModel { name: key, value }),
    }
}

/// No two entries of the map have the same name.
pub open spec fn distinct_names(entries: Seq<EntryModel>) -> bool {
    forall|i: int, j: int|
        0 <= i < j < entries.len() ==> (#[trigger] entries[i]).name != (#[trigger] entries[j]).name
}

/// A first index is the only first index.
pub proof fn lemma_first_index(entries: Seq<EntryModel>, key: Seq<char>, i: int)
    requires
        is_first_index(entries, key, i),
    ensures
        index_of(entries, key) == Some(i),
        lookup(entries, key) == Some(entries[i].value),
{
    let c = choose|c: int| is_first_index(entries, key, c);
    if c < i {
        assert(entries[c].name != key);
    }
    if i < c {
        assert(entries[i].name != key);
    }
}

/// A name that no entry has is not found.
pub proof fn lemma_no_index(entries: Seq<EntryModel>, key: Seq<char>)
    requires
        forall|j: int| 0 <= j < entries.len() ==> (#[trigger] entries[j]).name != key,
    ensures
        index_of(entries, key).is_none(),
        lookup(entries, key).is_none(),
{
}

/// Where a name is found, an entry of that name stands, and none before it.
pub proof fn lemma_index_of(entries: Seq<EntryModel>, key: Seq<char>)
    ensures
        match index_of(entries, key) {
            Some(i) => is_first_index(entries, key, i),
            None => forall|j: int| 0 <= j < entries.len() ==> (#[trigger] entries[j]).name != key,
        },
{
    if index_of(entries, key).is_none() {
        assert forall|j: int| 0 <= j < entries.len() implies (#[trigger] entries[j]).name
            != key by {
            if entries[j].name == key {
                lemma_has_first(entries, key, j);
            }
        }
    }
}

/// Where some entry has the name, some entry is the first to have it.
pub proof fn lemma_has_first(entries: Seq<EntryModel>, key: Seq<char>, j: int)
    requires
        0 <= j < entries.len(),
        entries[j].name == key,
    ensures
        exists|i: int| is_first_index(entries, key, i),
    decreases j,
{
    if exists|k: int| 0 <= k < j && (#[trigger] entries[k]).name == key {
        let k = choose|k: int| 0 <= k < j && (#[trigger] entries[k]).name == key;
        lemma_has_first(entries, key, k);
    } else {
        assert(is_first_index(entries, key, j));
    }
}

/// After `put`, the key holds the new value and every other key what it held.
pub proof fn lemma_lookup_put(
    entries: Seq<EntryModel>,
    key: Seq<char>,
    value: WireModel,
    other: Seq<char>,
)
    ensures
        lookup(put(entries, key, value), other) == if other == key {
            Some(value)
        } else {
            lookup(entries, other)
        },
{
    let after = put(entries, key, value);
    lemma_index_of(entries, key);
    lemma_index_of(entries, other);
    match index_of(entries, key) {
        Some(i) => {
            if other == key {
                assert(is_first_index(after, key, i)) by {
                    assert forall|j: int| 0 <= j < i implies (#[trigger] after[j]).name != key by {
                        assert(after[j] == entries[j]);
                    }
                }
                lemma_first_index(after, key, i);
            } else {
                match index_of(entries, other) {
                    Some(k) => {
                        assert(is_first_index(after, other, k)) by {
                            assert forall|j: int| 0 <= j < k implies (#[trigger] after[j]).name
                                != other by {
                                if j != i {
                                    assert(after[j] == entries[j]);
                                }
                            }
                        }
                        lemma_first_index(after, other, k);
                    },
                    None => {
                        assert forall|j: int| 0 <= j < after.len() implies (
                        #[trigger] after[j]).name != other by {
                            if j != i {
                                assert(after[j] == entries[j]);
                            }
                        }
                        lemma_no_index(after, other);
                    },
                }
            }
        },
        None => {
            let n = entries.len() as int;
            if other == key {
                assert(is_first_index(after, key, n)) by {
                    assert forall|j: int| 0 <= j < n implies (#[trigger] after[j]).name != key by {
                        assert(after[j] == entries[j]);
                    }
                }
                lemma_first_index(after, key, n);
            } else {
                match index_of(entries, other) {
                    Some(k) => {
                        assert(is_first_index(after, other, k)) by {
                            assert forall|j: int| 0 <= j < k implies (#[trigger] after[j]).name
                                != other by {
                                assert(after[j] == entries[j]);
                            }
                        }
                        lemma_first_index(after, other, k);
                    },
                    None => {
                        assert forall|j: int| 0 <= j < after.len() implies (
                        #[trigger] after[j]).name != other by {
                            if j < n {
                                assert(after[j] == entries[j]);
                            }
                        }
                        lemma_no_index(after, other);
                    },
                }
            }
        },
    }
}

/// `put` keeps the names of a map distinct.
pub proof fn lemma_put_distinct(entries: Seq<EntryModel>, key: Seq<char>, value: WireModel)
    requires
        distinct_names(entries),
    ensures
        distinct_names(put(entries, key, value)),
{
    let after = put(entries, key, value);
    lemma_index_of(entries, key);
    assert forall|i: int, j: int| 0 <= i < j < after.len() implies (#[trigger] after[i]).name != (
    #[trigger] after[j]).name by {
        match index_of(entries, key) {
            Some(k) => {
                assert(after[i].name == entries[i].name);
                assert(after[j].name == entries[j].name);
            },
            None => {
                if j < entries.len() {
                    assert(after[i] == entries[i]);
                    assert(after[j] == entries[j]);
                } else {
                    assert(after[i] == entries[i]);
                }
            },
        }
    }
}

impl WireMap {
    /// No two entries of the map have the same name. A map that is made by
    /// `new` and `insert` is such a map.
    pub open spec fn well_formed(self) -> bool {
        distinct_names(self@)
    }

    /// An empty map.
    pub fn new() -> (map: WireMap)
        ensures
            map@ == Seq::<EntryModel>::empty(),
            map.well_formed(),
    {
        let map = WireMap { entries: Vec::new() };
        assert(map@ =~= Seq::<EntryModel>::empty());
        map
    }

    /// The number of entries.
    pub fn len(&self) -> (n: usize)
        ensures
            n == self@.len(),
    {
        self.entries.len()
    }

    /// The place of the entry named `key`, if there is one.
    pub fn position(&self, key: &str) -> (place: Option<usize>)
        ensures
            match place {
                Some(i) => index_of(self@, key@) == Some(i as int) && i < self.entries@.len(),
                None => index_of(self@, key@).is_none(),
            },
    {
        let wanted = String::from_str(key);
        let mut i: usize = 0;
        while i < self.entries.len()
            invariant
                i <= self.entries@.len(),
                wanted@ == key@,
                forall|j: int| 0 <= j < i ==> (#[trigger] self@[j]).name != key@,
            decreases self.entries@.len() - i,
        {
            if self.entries[i].name == wanted {
                proof {
                    assert(self@[i as int].name == key@);
                    lemma_first_index(self@, key@, i as int);
                }
                return Some(i);
            }
            i += 1;
        }
        proof {
            lemma_no_index(self@, key@);
        }
        None
    }

    /// The value held under `key`, if any.
    pub fn get(&self, key: &str) -> (found: Option<&WireValue>)
        ensures
            match found {
                Some(value) => lookup(self@, key@) == Some(value@),
                None => lookup(self@, key@).is_none(),
            },
    {
        match self.position(key) {
            Some(i) => Some(&self.entries[i].value),
            None => None,
        }
    }

    /// Whether an entry is named `key`.
    pub fn contains_key(&self, key: &str) -> (found: bool)
        ensures
            found == lookup(self@, key@).is_some(),
    {
        self.position(key).is_some()
    }

    /// Puts `value` under `key`. An entry that had the name is replaced where
    /// it stands; a new name goes to the end.
    pub fn insert(&mut self, key: String, value: WireValue)
        ensures
            final(self)@ == put(old(self)@, key@, value@),
            old(self).well_formed() ==> final(self).well_formed(),
    {
        proof {
            if self.well_formed() {
                lemma_put_distinct(self@, key@, value@);
            }
        }
        match self.position(key.as_str()) {
            Some(i) => {
                self.entries.set(i, WireEntry { name: key, value });
            },
            None => {
                self.entries.push(WireEntry { name: key, value });
            },
        }
        assert(self@ =~= put(old(self)@, key@, value@));
    }
}

impl Clone for WireValue {
    fn clone(&self) -> (copy: WireValue)
        ensures
            copy@ == self@,
        decreases self,
    {
        match self {
            WireValue::S(text) => WireValue::S(text.clone()),
            WireValue::N(text) => WireValue::N(text.clone()),
            WireValue::L(items) => {
                let mut copies: Vec<WireValue> = Vec::new();
                let mut i: usize = 0;
                while i < items.len()
                    invariant
                        i <= items@.len(),
                        copies@.len() == i,
                        forall|k: int| 0 <= k < i ==> (#[trigger] copies@[k])@ == items@[k]@,
                        decreases_to!(self => items),
                    decreases items@.len() - i,
                {
                    proof {
                        assert(decreases_to!(items => items[i as int]));
                    }
                    copies.push(items[i].clone());
                    i += 1;
                }
                proof {
                    lemma_list_view(copies);
                    lemma_list_view(*items);
                    assert(wire_models(copies@) =~= wire_models(items@));
                }
                WireValue::L(copies)
            },
            WireValue::M(map) => {
                let mut entries: Vec<WireEntry> = Vec::new();
                let mut i: usize = 0;
                proof {
                    assert(decreases_to!(self => map));
                    assert(decreases_to!(map => map.entries));
                }
                while i < map.entries.len()
                    invariant
                        i <= map.entries@.len(),
                        entries@.len() == i,
                        forall|k: int| 0 <= k < i ==> (#[trigger] entries@[k])@ == map.entries@[k]@,
                        decreases_to!(self => map.entries),
                    decreases map.entries@.len() - i,
                {
                    proof {
                        assert(decreases_to!(map.entries => map.entries[i as int]));
                        assert(decreases_to!(map.entries[i as int] => map.entries[i as int].value));
                    }
                    entries.push(
                        WireEntry {
                            name: map.entries[i].name.clone(),
                            value: map.entries[i].value.clone(),
                        },
                    );
                    i += 1;
                }
                let copy = WireMap { entries };
                proof {
                    lemma_map_view(copy);
                    lemma_map_view(*map);
                    assert(copy@ =~= map@);
                }
                WireValue::M(copy)
            },
            WireValue::Other => WireValue::Other,
        }
    }
}

impl Clone for WireMap {
    fn clone(&self) -> (copy: WireMap)
        ensures
            copy@ == self@,
    {
        let mut entries: Vec<WireEntry> = Vec::new();
        let mut i: usize = 0;
        while i < self.entries.len()
            invariant
                i <= self.entries@.len(),
                entries@.len() == i,
                forall|k: int| 0 <= k < i ==> (#[trigger] entries@[k])@ == self.entries@[k]@,
            decreases self.entries@.len() - i,
        {
            entries.push(
                WireEntry {
                    name: self.entries[i].name.clone(),
                    value: self.entries[i].value.clone(),
                },
            );
            i += 1;
        }
        let copy = WireMap { entries };
        proof {
            assert(copy@ =~= self@);
        }
        copy
    }
}

} // verus!
