//! The domain tables that holders share.

use vstd::prelude::*;

use crate::domain::DomainTable;
use crate::holder::ServerHolder;

verus! {

use crate::domain::{lemma_first_place, lemma_no_place, TableModel};

/// Names a domain table among [`DomainTables`].
pub type TableKey = usize;

/// A place for a domain table.
pub struct TableSlot {
    taken: bool,
    table: DomainTable,
}

/// Domain tables, each under a key. Holders that have the same key share the
/// table.
pub struct DomainTables {
    slots: Vec<TableSlot>,
}

/// The model of [`DomainTables`]: the table under each key, if there is one.
#[verifier::ext_equal]
pub struct TablesModel {
    pub slots: Seq<Option<TableModel>>,
}

impl View for DomainTables {
    type V = TablesModel;

    closed spec fn view(&self) -> TablesModel {
        TablesModel {
            slots: self.slots@.map_values(
                |slot: TableSlot|
                    if slot.taken {
                        Some(slot.table@)
                    } else {
                        None
                    },
            ),
        }
    }
}

impl TablesModel {
    pub open spec fn empty() -> TablesModel {
        TablesModel { slots: Seq::empty() }
    }

    /// There is a table under the key.
    pub open spec fn has(self, key: TableKey) -> bool {
        key < self.slots.len() && self.slots[key as int] is Some
    }

    /// The table under the key.
    pub open spec fn table(self, key: TableKey) -> TableModel {
        self.slots[key as int].unwrap()
    }

    /// The key of the next table: the least under which there is none.
    pub open spec fn fresh_key(self) -> TableKey {
        match self.slots.index_of_first(None) {
            Some(i) => i as usize,
            None => self.slots.len() as usize,
        }
    }

    /// The tables with a new, empty one.
    pub open spec fn with_new(self) -> TablesModel {
        match self.slots.index_of_first(None) {
            Some(i) => TablesModel { slots: self.slots.update(i, Some(TableModel::empty())) },
            None => TablesModel { slots: self.slots.push(Some(TableModel::empty())) },
        }
    }

    /// The tables with another one under the key.
    pub open spec fn with(self, key: TableKey, table: TableModel) -> TablesModel {
        TablesModel { slots: self.slots.update(key as int, Some(table)) }
    }

    /// The tables without the one under the key.
    pub open spec fn without(self, key: TableKey) -> TablesModel {
        TablesModel { slots: self.slots.update(key as int, None) }
    }

    /// Every table of `self` is one of `other`, under the same key, though it may
    /// have changed.
    pub open spec fn keys_in(self, other: TablesModel) -> bool {
        forall|key: TableKey| #[trigger] self.has(key) ==> other.has(key)
    }
}

/// A new table is under a key of its own, and the others stay.
pub proof fn law_new_table_is_fresh(t: TablesModel)
    requires
        t.slots.len() < usize::MAX,
    ensures
        !t.has(t.fresh_key()),
        t.with_new().has(t.fresh_key()),
        t.with_new().table(t.fresh_key()) == TableModel::empty(),
        t.with_new().slots.len() <= t.slots.len() + 1,
        forall|key: TableKey|
            key != t.fresh_key() ==> #[trigger] t.with_new().has(key) == t.has(key),
        forall|key: TableKey|
            t.has(key) ==> #[trigger] t.with_new().table(key) == t.table(key),
        t.keys_in(t.with_new()),
{
    t.slots.index_of_first_ensures(None);
}

impl DomainTables {
    pub fn new() -> (t: Self)
        ensures
            t@ == TablesModel::empty(),
    {
        let t = DomainTables { slots: Vec::new() };
        assert(t@ =~= TablesModel::empty());
        t
    }

    /// How many keys were ever given out at the same time.
    pub fn len(&self) -> (n: usize)
        ensures
            n == self@.slots.len(),
    {
        self.slots.len()
    }

    /// Whether there is a table under the key.
    pub fn has(&self, key: TableKey) -> (b: bool)
        ensures
            b == self@.has(key),
    {
        key < self.slots.len() && self.slots[key].taken
    }

    /// Makes a table that nobody else has.
    pub fn new_table(&mut self) -> (key: TableKey)
        ensures
            key == old(self)@.fresh_key(),
            final(self)@ == old(self)@.with_new(),
            final(self)@.has(key),
    {
        let ghost before = self@;
        let len: usize = self.slots.len();
        let mut key: usize = 0;
        while key < len
            invariant
                key <= len,
                len == self.slots@.len(),
                self@ == before,
                before == old(self)@,
                forall|j: int| 0 <= j < key ==> (#[trigger] before.slots[j]) is Some,
            decreases len - key,
        {
            if !self.slots[key].taken {
                proof {
                    lemma_first_place(before.slots, None, key as int);
                }
                self.slots[key] = TableSlot { taken: true, table: DomainTable::new() };
                assert(self@ =~= before.with_new());
                return key;
            }
            assert(before.slots[key as int] is Some);
            key = key + 1;
        }
        proof {
            lemma_no_place(before.slots, None);
        }
        self.slots.push(TableSlot { taken: true, table: DomainTable::new() });
        assert(self@ =~= before.with_new());
        len
    }

    /// The table under the key.
    pub fn table(&self, key: TableKey) -> (table: &DomainTable)
        requires
            self@.has(key),
        ensures
            table@ == self@.table(key),
    {
        &self.slots[key].table
    }

    /// The table under the key, to be changed in place.
    pub fn table_mut(&mut self, key: TableKey) -> (table: &mut DomainTable)
        requires
            old(self)@.has(key),
        ensures
            table@ == old(self)@.table(key),
            final(self)@ == old(self)@.with(key, final(table)@),
    {
        let table = &mut self.slots[key].table;
        table
    }

    /// Lets the table under the key go. Its objects are added to `objects`.
    pub fn free(&mut self, key: TableKey, objects: &mut Vec<ServerHolder>)
        requires
            old(self)@.has(key),
        ensures
            final(self)@ == old(self)@.without(key),
            final(objects)@ == old(objects)@ + old(self)@.table(key).domains,
    {
        let mut slot = TableSlot { taken: false, table: DomainTable::new() };
        core::mem::swap(&mut slot, &mut self.slots[key]);
        slot.table.domains.move_all(objects);
        assert(self@ =~= old(self)@.without(key));
    }
}

} // verus!
