//! Domain tables: the objects that are reached through one session.

use vstd::prelude::*;

use crate::headers::DomainObjectId;
use crate::holder::{ObjectKey, ServerHolder};
use crate::holders::{HolderVec, MAX_COUNT};
use crate::results::{
    ResultCode, DOMAINS_FULL, DOMAIN_IDS_EXHAUSTED, DOMAIN_ID_NOT_ALLOCATED, DOMAIN_NOT_FOUND,
    DOMAIN_OBJECT_ID_NOT_ALLOCATED, DOMAIN_OBJECT_MISSING,
};

verus! {

/// A holder that was not taken over, and why.
#[derive(PartialEq, Eq, Structural, Debug)]
pub struct Refused {
    pub code: ResultCode,
    pub holder: ServerHolder,
}

/// The ids that are taken in a domain, and the objects that have them.
pub struct DomainTable {
    pub table: [DomainObjectId; 64],
    pub domains: HolderVec,
}

/// The model of [`DomainTable`].
#[verifier::ext_equal]
pub struct TableModel {
    pub table: Seq<DomainObjectId>,
    pub domains: Seq<ServerHolder>,
}

impl View for DomainTable {
    type V = TableModel;

    open spec fn view(&self) -> TableModel {
        TableModel { table: self.table@, domains: self.domains@ }
    }
}

/// The first place of a value is where a search from the front finds it.
pub proof fn lemma_first_place<T>(s: Seq<T>, value: T, i: int)
    requires
        0 <= i < s.len(),
        s[i] == value,
        forall|j: int| 0 <= j < i ==> s[j] != value,
    ensures
        s.index_of_first(value) == Some(i),
{
    s.index_of_first_ensures(value);
    let found = s.index_of_first(value).unwrap();
    assert(!(found < i));
    assert(!(i < found));
}

/// A value that a search through all places did not find has no place.
pub proof fn lemma_no_place<T>(s: Seq<T>, value: T)
    requires
        forall|j: int| 0 <= j < s.len() ==> s[j] != value,
    ensures
        s.index_of_first(value) is None,
{
    s.index_of_first_ensures(value);
}

/// `id` is the least number from 1 on that `ids` does not hold.
pub open spec fn is_least_absent(ids: Seq<DomainObjectId>, id: DomainObjectId) -> bool {
    &&& 1 <= id
    &&& !ids.contains(id)
    &&& forall|lower: DomainObjectId| 1 <= lower < id ==> ids.contains(lower)
}

/// The least number from 1 on that `ids` does not hold.
pub open spec fn least_absent(ids: Seq<DomainObjectId>) -> DomainObjectId {
    choose|id: DomainObjectId| is_least_absent(ids, id)
}

/// There is only one least number.
pub proof fn lemma_least_absent(ids: Seq<DomainObjectId>, id: DomainObjectId)
    requires
        is_least_absent(ids, id),
    ensures
        least_absent(ids) == id,
{
    let other = least_absent(ids);
    assert(is_least_absent(ids, other));
    assert(!(other < id));
    assert(!(id < other));
}

/// A sequence that holds all numbers from 1 to `n` is at least that long.
proof fn lemma_pigeonhole(ids: Seq<DomainObjectId>, n: nat)
    requires
        n <= u32::MAX,
        forall|id: DomainObjectId| 1 <= id <= n ==> ids.contains(id),
    ensures
        ids.len() >= n,
    decreases n,
{
    if n > 0 {
        let last = n as u32;
        assert(ids.contains(last));
        let k = choose|k: int| 0 <= k < ids.len() && ids[k] == last;
        let rest = ids.remove(k);
        assert forall|id: DomainObjectId| 1 <= id <= n - 1 implies rest.contains(id) by {
            assert(ids.contains(id));
            let j = choose|j: int| 0 <= j < ids.len() && ids[j] == id;
            if j < k {
                assert(rest[j] == id);
            } else {
                assert(rest[j - 1] == id);
            }
        }
        lemma_pigeonhole(rest, (n - 1) as nat);
    }
}

/// There is a least number that a sequence does not hold.
pub proof fn lemma_least_absent_exists(ids: Seq<DomainObjectId>)
    requires
        ids.len() < u32::MAX,
    ensures
        is_least_absent(ids, least_absent(ids)),
{
    let n = ids.len() + 1;
    if forall|id: DomainObjectId| 1 <= id <= n ==> ids.contains(id) {
        lemma_pigeonhole(ids, n);
    }
    let absent = choose|id: DomainObjectId| 1 <= id <= n && !ids.contains(id);
    lemma_least_absent_up_to(ids, absent);
}

proof fn lemma_least_absent_up_to(ids: Seq<DomainObjectId>, absent: DomainObjectId)
    requires
        1 <= absent,
        !ids.contains(absent),
    ensures
        is_least_absent(ids, least_absent(ids)),
    decreases absent,
{
    if forall|lower: DomainObjectId| 1 <= lower < absent ==> ids.contains(lower) {
        assert(is_least_absent(ids, absent));
    } else {
        let lower = choose|lower: DomainObjectId| 1 <= lower < absent && !ids.contains(lower);
        lemma_least_absent_up_to(ids, lower);
    }
}

impl TableModel {
    /// No id is taken, and there is no object.
    pub open spec fn empty() -> TableModel {
        TableModel { table: Seq::new(MAX_COUNT as nat, |i: int| 0u32), domains: Seq::empty() }
    }

    /// Each slot is free or holds its own id. Tables start like this, and giving
    /// out and taking back ids keeps them so.
    pub open spec fn wf(self) -> bool {
        &&& self.table.len() == MAX_COUNT
        &&& forall|i: int| 0 <= i < MAX_COUNT ==> #[trigger] self.table[i] == 0 || self.table[i] == i + 1
    }

    /// No id is taken twice, and no two objects have the same.
    pub open spec fn distinct_ids(self) -> bool {
        &&& forall|i: int, j: int|
            0 <= i < j < self.table.len() && self.table[i] != 0 ==> self.table[i] != self.table[j]
        &&& self.object_ids().no_duplicates()
    }

    /// The table is well-formed, each object has an id that is taken, and no two
    /// objects have the same.
    pub open spec fn consistent(self) -> bool {
        &&& self.wf()
        &&& forall|i: int|
            0 <= i < self.domains.len() ==> #[trigger] self.object_ids()[i] != 0
                && self.table.contains(self.object_ids()[i])
        &&& self.object_ids().no_duplicates()
    }

    /// The id that is given out next: the least one that no slot before the
    /// first free slot holds.
    pub open spec fn allocation(self) -> Result<DomainObjectId, ResultCode> {
        match self.table.index_of_first(0) {
            Some(slot) => Ok(least_absent(self.table.take(slot))),
            None => Err(ResultCode { value: DOMAIN_IDS_EXHAUSTED }),
        }
    }

    /// The table after the next id was given out: the first free slot holds it.
    pub open spec fn allocated(self) -> TableModel {
        match self.table.index_of_first(0) {
            Some(slot) => TableModel {
                table: self.table.update(slot, least_absent(self.table.take(slot))),
                ..self
            },
            None => self,
        }
    }

    /// The table after the first slot with an id was freed.
    pub open spec fn freed(self, id: DomainObjectId) -> TableModel {
        match self.table.index_of_first(id) {
            Some(slot) => TableModel { table: self.table.update(slot, 0), ..self },
            None => self,
        }
    }

    /// The ids of the objects, in order.
    pub open spec fn object_ids(self) -> Seq<DomainObjectId> {
        self.domains.map_values(|holder: ServerHolder| holder.info.domain_object_id)
    }

    /// The place of the first object with an id.
    pub open spec fn object_at(self, id: DomainObjectId) -> Option<int> {
        self.object_ids().index_of_first(id)
    }

    /// The id is taken and an object has it.
    pub open spec fn has_object(self, id: DomainObjectId) -> bool {
        self.table.contains(id) && self.object_at(id) is Some
    }

    /// The object that has an id.
    pub open spec fn found(self, id: DomainObjectId) -> Result<ObjectKey, ResultCode> {
        match self.object_at(id) {
            Some(at) => Ok(self.domains[at].server),
            None => Err(ResultCode { value: DOMAIN_NOT_FOUND }),
        }
    }

    /// The holder that is handed out when an object with an id is taken back.
    pub open spec fn deallocation(self, id: DomainObjectId) -> Result<ServerHolder, ResultCode> {
        if !self.table.contains(id) {
            Err(ResultCode { value: DOMAIN_OBJECT_ID_NOT_ALLOCATED })
        } else if !self.has_object(id) {
            Err(ResultCode { value: DOMAIN_OBJECT_MISSING })
        } else {
            Ok(self.domains[self.object_at(id).unwrap()])
        }
    }

    /// The table after an object with an id was taken back, if it has one.
    pub open spec fn deallocated(self, id: DomainObjectId) -> TableModel {
        if self.has_object(id) {
            self.without_object(id)
        } else {
            self
        }
    }

    /// The table after the first object with an id was taken out.
    pub open spec fn without_object(self, id: DomainObjectId) -> TableModel {
        TableModel {
            table: self.freed(id).table,
            domains: self.domains.remove(self.object_at(id).unwrap()),
        }
    }
}

impl DomainTable {
    pub fn new() -> (t: Self)
        ensures
            t@ == TableModel::empty(),
    {
        let t = DomainTable { table: [0; 64], domains: HolderVec::new() };
        assert(t@ =~= TableModel::empty());
        t
    }

    /// Gives out an id.
    pub fn allocate_id(&mut self) -> (r: Result<DomainObjectId, ResultCode>)
        ensures
            r == old(self)@.allocation(),
            final(self)@ == old(self)@.allocated(),
    {
        let ghost table = self.table@;
        let mut base_id: usize = 0;
        while base_id < MAX_COUNT
            invariant
                base_id <= MAX_COUNT,
                self@ == old(self)@,
                table == self.table@,
                forall|id: DomainObjectId, slot: int|
                    #![trigger table.take(slot).contains(id)]
                    1 <= id <= base_id && 0 <= slot < MAX_COUNT && table[slot] == 0
                        ==> table.take(slot).contains(id),
            decreases MAX_COUNT - base_id,
        {
            let domain_object_id: DomainObjectId = (base_id + 1) as DomainObjectId;
            let mut i: usize = 0;
            let mut taken: bool = false;
            while i < MAX_COUNT && !taken
                invariant
                    i <= MAX_COUNT,
                    self@ == old(self)@,
                    table == self.table@,
                    domain_object_id == base_id + 1,
                    base_id < MAX_COUNT,
                    forall|j: int| 0 <= j < i ==> table[j] != 0,
                    !taken ==> forall|j: int| 0 <= j < i ==> table[j] != domain_object_id,
                    taken ==> 0 < i && table[i - 1] == domain_object_id,
                    forall|id: DomainObjectId, slot: int|
                        #![trigger table.take(slot).contains(id)]
                        1 <= id <= base_id && 0 <= slot < MAX_COUNT && table[slot] == 0
                            ==> table.take(slot).contains(id),
                decreases MAX_COUNT - i,
            {
                let other: DomainObjectId = self.table[i];
                if other == 0 {
                    proof {
                        lemma_first_place(table, 0, i as int);
                        let before = table.take(i as int);
                        assert(!before.contains(domain_object_id));
                        assert forall|lower: DomainObjectId| 1 <= lower
                            < domain_object_id implies before.contains(lower) by {
                            assert(table.take(i as int).contains(lower));
                        }
                        lemma_least_absent(before, domain_object_id);
                    }
                    self.table[i] = domain_object_id;
                    assert(self@ =~= old(self)@.allocated());
                    return Ok(domain_object_id);
                }
                if other == domain_object_id {
                    taken = true;
                }
                i = i + 1;
            }
            assert forall|id: DomainObjectId, slot: int|
                #![trigger table.take(slot).contains(id)]
                1 <= id <= base_id + 1 && 0 <= slot < MAX_COUNT && table[slot]
                    == 0 implies table.take(slot).contains(id) by {
                if id == base_id + 1 {
                    assert(i <= slot);
                    assert(table.take(slot)[i - 1] == id);
                }
            }
            base_id = base_id + 1;
        }
        assert(self@ == old(self)@.allocated() && old(self)@.allocation() is Err) by {
            if exists|slot: int| 0 <= slot < MAX_COUNT && table[slot] == 0 {
                let slot = choose|slot: int| 0 <= slot < MAX_COUNT && table[slot] == 0;
                lemma_pigeonhole(table.take(slot), MAX_COUNT as nat);
            }
            lemma_no_place(table, 0u32);
        }
        Err(ResultCode::new(DOMAIN_IDS_EXHAUSTED))
    }

    /// Adds an object, unless the table is full.
    pub fn add_domain(&mut self, object: ServerHolder) -> (r: Result<(), Refused>)
        ensures
            old(self)@.domains.len() < MAX_COUNT ==> r is Ok && final(self)@ == (TableModel {
                domains: old(self)@.domains.push(object),
                ..old(self)@
            }),
            old(self)@.domains.len() >= MAX_COUNT ==> r == Err::<(), Refused>(
                Refused { code: ResultCode { value: DOMAINS_FULL }, holder: object },
            ) && final(self)@ == old(self)@,
    {
        match self.domains.push(object) {
            Ok(()) => Ok(()),
            Err(holder) => Err(Refused { code: ResultCode::new(DOMAINS_FULL), holder }),
        }
    }

    /// The place of the first object with an id.
    fn object_index(&self, id: DomainObjectId) -> (r: Option<usize>)
        ensures
            match self@.object_at(id) {
                Some(at) => r == Some(at as usize) && 0 <= at < self@.domains.len() <= MAX_COUNT,
                None => r is None,
            },
    {
        let ghost ids = self@.object_ids();
        let len: usize = self.domains.len();
        let mut index: usize = 0;
        while index < len
            invariant
                index <= len,
                len == self.domains@.len() <= MAX_COUNT,
                ids == self@.object_ids(),
                forall|j: int| 0 <= j < index ==> ids[j] != id,
            decreases len - index,
        {
            if self.domains.get(index).info.domain_object_id == id {
                proof {
                    lemma_first_place(ids, id, index as int);
                }
                return Some(index);
            }
            index = index + 1;
        }
        proof {
            lemma_no_place(ids, id);
        }
        None
    }

    /// The place of the first slot that holds an id.
    fn slot_index(&self, id: DomainObjectId) -> (r: Option<usize>)
        ensures
            match self@.table.index_of_first(id) {
                Some(at) => r == Some(at as usize) && 0 <= at < MAX_COUNT,
                None => r is None,
            },
    {
        let mut i: usize = 0;
        while i < MAX_COUNT
            invariant
                i <= MAX_COUNT,
                forall|j: int| 0 <= j < i ==> self.table@[j] != id,
            decreases MAX_COUNT - i,
        {
            if self.table[i] == id {
                proof {
                    lemma_first_place(self.table@, id, i as int);
                }
                return Some(i);
            }
            i = i + 1;
        }
        proof {
            lemma_no_place(self.table@, id);
        }
        None
    }

    /// The object that has an id.
    pub fn find_domain(&self, id: DomainObjectId) -> (r: Result<ObjectKey, ResultCode>)
        ensures
            r == self@.found(id),
    {
        match self.object_index(id) {
            Some(index) => Ok(self.domains.get(index).server),
            None => Err(ResultCode::new(DOMAIN_NOT_FOUND)),
        }
    }

    /// Takes back an id.
    pub fn deallocate_id(&mut self, domain_object_id: DomainObjectId) -> (r: Result<(), ResultCode>)
        ensures
            r == if old(self)@.table.contains(domain_object_id) {
                Ok(())
            } else {
                Err(ResultCode { value: DOMAIN_ID_NOT_ALLOCATED })
            },
            final(self)@ == old(self)@.freed(domain_object_id),
    {
        proof {
            self.table@.index_of_first_ensures(domain_object_id);
        }
        match self.slot_index(domain_object_id) {
            Some(i) => {
                self.table[i] = 0;
                assert(self@ =~= old(self)@.freed(domain_object_id));
                Ok(())
            },
            None => Err(ResultCode::new(DOMAIN_ID_NOT_ALLOCATED)),
        }
    }

    /// Takes back an object with its id, and hands its holder out.
    pub fn deallocate_domain(&mut self, domain_object_id: DomainObjectId) -> (r: Result<
        ServerHolder,
        ResultCode,
    >)
        ensures
            r == old(self)@.deallocation(domain_object_id),
            final(self)@ == old(self)@.deallocated(domain_object_id),
    {
        proof {
            self.table@.index_of_first_ensures(domain_object_id);
        }
        match self.slot_index(domain_object_id) {
            Some(i) => match self.object_index(domain_object_id) {
                Some(index) => {
                    self.table[i] = 0;
                    match self.domains.take_out(index) {
                        Some(holder) => {
                            assert(self@ =~= old(self)@.without_object(domain_object_id));
                            Ok(holder)
                        },
                        None => {
                            assert(false);
                            Err(ResultCode::new(DOMAIN_OBJECT_MISSING))
                        },
                    }
                },
                None => Err(ResultCode::new(DOMAIN_OBJECT_MISSING)),
            },
            None => Err(ResultCode::new(DOMAIN_OBJECT_ID_NOT_ALLOCATED)),
        }
    }
}

/// A new table is well-formed.
pub proof fn law_new_table_well_formed()
    ensures
        TableModel::empty().wf(),
{
}

/// In a well-formed table the slot that an id is put into is its own.
proof fn lemma_allocation_in_own_slot(t: TableModel)
    requires
        t.wf(),
    ensures
        match t.table.index_of_first(0) {
            Some(slot) => 0 <= slot < MAX_COUNT && t.table[slot] == 0 && is_least_absent(
                t.table.take(slot),
                (slot + 1) as u32,
            ) && t.allocation() == Ok::<DomainObjectId, ResultCode>((slot + 1) as u32),
            None => !t.table.contains(0),
        },
{
    t.table.index_of_first_ensures(0);
    if let Some(slot) = t.table.index_of_first(0) {
        let before = t.table.take(slot);
        let id = (slot + 1) as u32;
        assert forall|lower: u32| 1 <= lower < id implies before.contains(lower) by {
            assert(t.table[lower - 1] != 0);
            assert(before[lower - 1] == lower);
        }
        assert(!before.contains(id)) by {
            if before.contains(id) {
                let k = choose|k: int| 0 <= k < before.len() && before[k] == id;
                assert(t.table[k] == id);
            }
        }
        lemma_least_absent(before, id);
    }
}

/// Giving out an id keeps a table well-formed; the id was not taken, and no
/// lower one was free.
pub proof fn law_allocated_id_is_fresh(t: TableModel)
    requires
        t.wf(),
    ensures
        t.allocated().wf(),
        t.allocation() matches Ok(id) ==> {
            &&& 1 <= id <= MAX_COUNT
            &&& !t.table.contains(id)
            &&& t.allocated().table.contains(id)
            &&& forall|lower: u32| 1 <= lower < id ==> t.table.contains(lower)
        },
{
    lemma_allocation_in_own_slot(t);
    if let Some(slot) = t.table.index_of_first(0) {
        let id = (slot + 1) as u32;
        assert(!t.table.contains(id)) by {
            if t.table.contains(id) {
                let k = choose|k: int| 0 <= k < t.table.len() && t.table[k] == id;
                assert(t.table[k] == k + 1);
            }
        }
        assert(t.allocated().table[slot] == id);
        assert forall|lower: u32| 1 <= lower < id implies t.table.contains(lower) by {
            let before = t.table.take(slot);
            assert(before.contains(lower));
            let k = choose|k: int| 0 <= k < before.len() && before[k] == lower;
            assert(t.table[k] == lower);
        }
    }
}

/// An id can be given out as long as not all of them are taken.
pub proof fn law_allocation_fails_only_when_exhausted(t: TableModel)
    requires
        t.wf(),
    ensures
        t.allocation() is Err <==> forall|id: u32| 1 <= id <= MAX_COUNT ==> t.table.contains(id),
{
    lemma_allocation_in_own_slot(t);
    law_allocated_id_is_fresh(t);
    if t.allocation() is Err {
        assert forall|id: u32| 1 <= id <= MAX_COUNT implies t.table.contains(id) by {
            assert(t.table[id - 1] != 0);
            assert(t.table[id - 1] == id);
        }
    }
}

/// Taking back an id undoes giving it out.
pub proof fn law_free_undoes_allocate(t: TableModel)
    requires
        t.table.len() == MAX_COUNT,
    ensures
        t.allocation() matches Ok(id) ==> t.allocated().freed(id) == t,
{
    t.table.index_of_first_ensures(0);
    if let Some(slot) = t.table.index_of_first(0) {
        let before = t.table.take(slot);
        lemma_least_absent_exists(before);
        let id = least_absent(before);
        let after = t.allocated();
        assert forall|j: int| 0 <= j < slot implies after.table[j] != id by {
            assert(before[j] == after.table[j]);
        }
        lemma_first_place(after.table, id, slot);
        assert(after.freed(id) =~= t);
    }
}

/// Taking back an id keeps a table well-formed, and the id is free then.
pub proof fn law_freed_id_is_free(t: TableModel, id: DomainObjectId)
    requires
        t.wf(),
        id != 0,
    ensures
        t.freed(id).wf(),
        !t.freed(id).table.contains(id),
        forall|other: u32|
            other != id && other != 0 ==> (t.freed(id).table.contains(other)
                == t.table.contains(other)),
{
    t.table.index_of_first_ensures(id);
    let after = t.freed(id);
    if after.table.contains(id) {
        let k = choose|k: int| 0 <= k < after.table.len() && after.table[k] == id;
        assert(t.table[k] == id);
        assert(t.table.index_of_first(id).unwrap() == k);
    }
    assert forall|other: u32| other != id && other != 0 implies (after.table.contains(other)
        == t.table.contains(other)) by {
        if after.table.contains(other) {
            let k = choose|k: int| 0 <= k < after.table.len() && after.table[k] == other;
            assert(t.table[k] == other);
        }
        if t.table.contains(other) {
            let k = choose|k: int| 0 <= k < t.table.len() && t.table[k] == other;
            assert(after.table[k] == other);
        }
    }
}

/// An object that was added under an id of its own is found by that id, and by
/// no other id is anything else found than before.
pub proof fn law_added_object_is_found(t: TableModel, holder: ServerHolder)
    requires
        t.object_at(holder.info.domain_object_id) is None,
    ensures
        ({
            let after = TableModel { domains: t.domains.push(holder), ..t };
            &&& after.object_at(holder.info.domain_object_id) == Some(t.domains.len() as int)
            &&& forall|other: u32|
                other != holder.info.domain_object_id ==> #[trigger] after.object_at(other)
                    == t.object_at(other)
        }),
{
    let after = TableModel { domains: t.domains.push(holder), ..t };
    let id = holder.info.domain_object_id;
    assert(after.object_ids() =~= t.object_ids().push(id));
    t.object_ids().index_of_first_ensures(id);
    assert forall|j: int| 0 <= j < t.domains.len() implies after.object_ids()[j] != id by {
        assert(t.object_ids()[j] == after.object_ids()[j]);
    }
    lemma_first_place(after.object_ids(), id, t.domains.len() as int);
    assert forall|other: u32| other != id implies #[trigger] after.object_at(other) == t.object_at(
        other,
    ) by {
        t.object_ids().index_of_first_ensures(other);
        match t.object_at(other) {
            Some(at) => {
                assert forall|j: int| 0 <= j < at implies after.object_ids()[j] != other by {
                    assert(t.object_ids()[j] == after.object_ids()[j]);
                }
                lemma_first_place(after.object_ids(), other, at);
            },
            None => {
                assert forall|j: int| 0 <= j < after.object_ids().len() implies after.object_ids()[j]
                    != other by {
                    if j < t.domains.len() {
                        assert(t.object_ids()[j] == after.object_ids()[j]);
                    }
                }
                lemma_no_place(after.object_ids(), other);
            },
        }
    }
}

/// Taking back an object undoes adding it under the id that was just given out.
pub proof fn law_deallocate_undoes_add(t: TableModel, holder: ServerHolder)
    requires
        t.table.len() == MAX_COUNT,
        t.allocation() == Ok::<DomainObjectId, ResultCode>(holder.info.domain_object_id),
        t.object_at(holder.info.domain_object_id) is None,
    ensures
        ({
            let id = holder.info.domain_object_id;
            let after = TableModel { domains: t.domains.push(holder), ..t.allocated() };
            &&& after.deallocation(id) == Ok::<ServerHolder, ResultCode>(holder)
            &&& after.deallocated(id) == t
        }),
{
    let id = holder.info.domain_object_id;
    let after = TableModel { domains: t.domains.push(holder), ..t.allocated() };
    law_added_object_is_found(t, holder);
    assert(after.object_ids() =~= (TableModel { domains: t.domains.push(holder), ..t }).object_ids());
    law_free_undoes_allocate(t);
    t.table.index_of_first_ensures(0);
    let slot = t.table.index_of_first(0).unwrap();
    assert(after.table[slot] == id);
    assert(after.freed(id).table == t.allocated().freed(id).table);
    assert(after.domains.remove(t.domains.len() as int) =~= t.domains);
    assert(after.without_object(id) =~= t);
}

/// A table without objects is consistent, and giving out an id keeps a table
/// consistent.
pub proof fn law_allocation_keeps_consistent(t: TableModel)
    requires
        t.consistent(),
    ensures
        TableModel::empty().consistent(),
        t.allocated().consistent(),
        t.allocation() matches Ok(id) ==> t.object_at(id) is None,
{
    law_new_table_well_formed();
    law_allocated_id_is_fresh(t);
    lemma_allocation_in_own_slot(t);
    let after = t.allocated();
    assert(after.object_ids() == t.object_ids());
    assert forall|i: int| 0 <= i < after.domains.len() implies #[trigger] after.object_ids()[i] != 0
        && after.table.contains(after.object_ids()[i]) by {
        let id = t.object_ids()[i];
        let k = choose|k: int| 0 <= k < t.table.len() && t.table[k] == id;
        assert(after.table[k] == id);
    }
    if let Ok(id) = t.allocation() {
        t.object_ids().index_of_first_ensures(id);
    }
}

/// Adding an object under the id that was just given out keeps a table
/// consistent, and the object is found by the id. By other ids is found what was
/// found before.
pub proof fn law_object_joins_domain(t: TableModel, holder: ServerHolder)
    requires
        t.consistent(),
        t.allocation() == Ok::<DomainObjectId, ResultCode>(holder.info.domain_object_id),
    ensures
        ({
            let after = TableModel { domains: t.domains.push(holder), ..t.allocated() };
            let id = holder.info.domain_object_id;
            &&& after.consistent()
            &&& after.found(id) == Ok::<ObjectKey, ResultCode>(holder.server)
            &&& forall|other: u32| other != id ==> #[trigger] after.found(other) == t.found(other)
        }),
{
    law_allocation_keeps_consistent(t);
    law_allocated_id_is_fresh(t);
    law_added_object_is_found(t, holder);
    let id = holder.info.domain_object_id;
    let added = TableModel { domains: t.domains.push(holder), ..t };
    let after = TableModel { domains: t.domains.push(holder), ..t.allocated() };
    assert(after.object_ids() =~= t.object_ids().push(id));
    assert(added.object_ids() =~= after.object_ids());
    assert forall|i: int| 0 <= i < after.domains.len() implies #[trigger] after.object_ids()[i] != 0
        && after.table.contains(after.object_ids()[i]) by {
        if i < t.domains.len() {
            assert(t.allocated().object_ids()[i] == after.object_ids()[i]);
        }
    }
    t.object_ids().index_of_first_ensures(id);
    assert forall|i: int, j: int|
        0 <= i < after.object_ids().len() && 0 <= j < after.object_ids().len() && i
            != j implies after.object_ids()[i] != after.object_ids()[j] by {
        if i < t.domains.len() && j < t.domains.len() {
            assert(t.object_ids()[i] != t.object_ids()[j]);
        } else if i < t.domains.len() {
            assert(t.object_ids()[i] != id);
        } else {
            assert(t.object_ids()[j] != id);
        }
    }
    assert forall|other: u32| other != id implies #[trigger] after.found(other) == t.found(other) by {
        assert(added.object_at(other) == t.object_at(other));
        t.object_ids().index_of_first_ensures(other);
    }
}

/// An object that was taken back is found no more, and its id can be given out
/// again. By other ids is found what was found before. A consistent table stays
/// consistent.
pub proof fn law_object_leaves_domain(t: TableModel, id: DomainObjectId)
    requires
        t.distinct_ids(),
        t.has_object(id),
        id != 0,
    ensures
        t.deallocated(id).found(id) is Err,
        !t.deallocated(id).table.contains(id),
        forall|other: u32|
            other != id ==> #[trigger] t.deallocated(id).found(other) == t.found(other),
        t.consistent() ==> t.deallocated(id).consistent(),
{
    let after = t.deallocated(id);
    let ids = t.object_ids();
    ids.index_of_first_ensures(id);
    let at = t.object_at(id).unwrap();
    assert(ids[at] == id);
    assert(after.object_ids() =~= ids.remove(at));
    t.table.index_of_first_ensures(id);
    let slot = t.table.index_of_first(id).unwrap();
    if after.table.contains(id) {
        let k = choose|k: int| 0 <= k < after.table.len() && after.table[k] == id;
        assert(t.table[k] == t.table[slot] && k != slot);
        assert(k < slot || slot < k);
    }
    if t.consistent() {
        law_freed_id_is_free(t, id);
        assert forall|i: int| 0 <= i < after.domains.len() implies #[trigger] after.object_ids()[i]
            != 0 && after.table.contains(after.object_ids()[i]) by {
            let j = if i < at {
                i
            } else {
                i + 1
            };
            assert(after.object_ids()[i] == ids[j]);
            assert(ids[j] != ids[at]);
        }
    }
    assert forall|i: int, j: int|
        0 <= i < after.object_ids().len() && 0 <= j < after.object_ids().len() && i
            != j implies after.object_ids()[i] != after.object_ids()[j] by {
        let k = if i < at {
            i
        } else {
            i + 1
        };
        let l = if j < at {
            j
        } else {
            j + 1
        };
        assert(ids[k] != ids[l]);
    }
    assert forall|i: int| 0 <= i < after.object_ids().len() implies after.object_ids()[i] != id by {
        let j = if i < at {
            i
        } else {
            i + 1
        };
        assert(ids[j] != ids[at]);
    }
    lemma_no_place(after.object_ids(), id);
    assert forall|other: u32| other != id implies #[trigger] after.found(other) == t.found(other) by {
        ids.index_of_first_ensures(other);
        match t.object_at(other) {
            Some(k) => {
                let l = if k < at {
                    k
                } else {
                    k - 1
                };
                assert(after.object_ids()[l] == other);
                assert forall|j: int| 0 <= j < l implies after.object_ids()[j] != other by {
                    assert(after.object_ids()[j] == ids[if j < at {
                        j
                    } else {
                        j + 1
                    }]);
                }
                lemma_first_place(after.object_ids(), other, l);
            },
            None => {
                assert forall|j: int| 0 <= j < after.object_ids().len() implies after.object_ids()[j]
                    != other by {
                    assert(after.object_ids()[j] == ids[if j < at {
                        j
                    } else {
                        j + 1
                    }]);
                }
                lemma_no_place(after.object_ids(), other);
            },
        }
    }
}

/// In a consistent table all ids are distinct.
pub proof fn law_consistent_ids_are_distinct(t: TableModel)
    requires
        t.consistent(),
    ensures
        t.distinct_ids(),
{
}

} // verus!
