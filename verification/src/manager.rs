//! The server manager: everything that a server serves.

use vstd::prelude::*;

use crate::headers::{DomainObjectId, Handle};
use crate::hipc::HipcManager;
use crate::holder::{CloseAction, NewServerFn, ObjectKey, ServerHolder};
use crate::holders::{as_mut_slice, as_slice, HolderVec, MAX_COUNT};
use crate::results::{
    ResultCode, HIPC_SESSION_CLOSED, OS_OPERATION_CANCELED, SERVER_HOLDERS_FULL,
};
use crate::sf::{IMitmService, IService};
use crate::sm::ServiceName;
use crate::tables::{DomainTables, TableKey};

verus! {

use crate::context::ObjectInfo;
use crate::domain::{lemma_first_place, lemma_no_place, TableModel};
use crate::sm::{little_endian, name_part};
use crate::tables::TablesModel;
use vstd::string::StringSliceAdditionalSpecFns;

/// The ports and sessions that a server serves, with the domain tables of the
/// sessions. `P` is the size of the server's pointer buffer, which the program
/// around the library keeps.
pub struct ServerManager<const P: usize> {
    server_holders: HolderVec,
    wait_handles: [Handle; 64],
    tables: DomainTables,
}

/// The model of [`ServerManager`].
#[verifier::ext_equal]
pub struct ManagerModel {
    pub holders: Seq<ServerHolder>,
    pub wait_handles: Seq<Handle>,
    pub tables: TablesModel,
}

/// What comes of offering holders to a manager: the manager after that, and the
/// holders that found no room.
#[verifier::ext_equal]
pub struct Offer {
    pub result: Result<(), ResultCode>,
    pub manager: ManagerModel,
    pub refused: Seq<ServerHolder>,
}

impl<const P: usize> View for ServerManager<P> {
    type V = ManagerModel;

    closed spec fn view(&self) -> ManagerModel {
        ManagerModel {
            holders: self.server_holders@,
            wait_handles: self.wait_handles@,
            tables: self.tables@,
        }
    }
}

/// The place of the first holder with a handle.
pub open spec fn first_with(holders: Seq<ServerHolder>, handle: Handle) -> Option<int> {
    holders.map_values(|holder: ServerHolder| holder.info.handle).index_of_first(handle)
}

/// The handles that the holders have, in order. Zero is no handle.
pub open spec fn handles_of(holders: Seq<ServerHolder>) -> Seq<Handle> {
    holders.map_values(|holder: ServerHolder| holder.info.handle).filter(
        |handle: Handle| handle != 0,
    )
}

impl ManagerModel {
    /// Each holder's domain table is there.
    pub open spec fn wf(self) -> bool {
        &&& self.holders.len() <= MAX_COUNT
        &&& self.wait_handles.len() == MAX_COUNT
        &&& forall|i: int|
            0 <= i < self.holders.len() ==> self.tables.has(
                (#[trigger] self.holders[i]).domain_table,
            )
    }

    /// The manager with a new domain table.
    pub open spec fn with_new_table(self) -> ManagerModel {
        ManagerModel { tables: self.tables.with_new(), ..self }
    }

    /// What comes of offering a holder to the manager.
    pub open spec fn offered(self, holder: ServerHolder) -> Offer {
        if self.holders.len() < MAX_COUNT {
            Offer {
                result: Ok(()),
                manager: ManagerModel { holders: self.holders.push(holder), ..self },
                refused: Seq::empty(),
            }
        } else {
            Offer {
                result: Err(ResultCode { value: SERVER_HOLDERS_FULL }),
                manager: self,
                refused: seq![holder],
            }
        }
    }

    /// What comes of it when there is nothing to offer, for this reason.
    pub open spec fn not_offered(self, rc: ResultCode) -> Offer {
        Offer { result: Err(rc), manager: self, refused: Seq::empty() }
    }

    /// The manager without the holder at a place, if there is one.
    pub open spec fn without(self, index: int) -> ManagerModel {
        if index < self.holders.len() {
            ManagerModel { holders: self.holders.remove(index), ..self }
        } else {
            self
        }
    }

    /// What goes when the holder at a place is taken out.
    pub open spec fn released_by(self, index: int) -> Seq<ServerHolder> {
        if index < self.holders.len() {
            seq![self.holders[index]]
        } else {
            Seq::empty()
        }
    }
}

impl<const P: usize> ServerManager<P> {
    pub fn new() -> (m: Self)
        ensures
            m@ == (ManagerModel {
                holders: Seq::empty(),
                wait_handles: Seq::new(MAX_COUNT as nat, |i: int| 0u32),
                tables: TablesModel::empty(),
            }),
            m@.wf(),
    {
        let m = ServerManager {
            server_holders: HolderVec::new(),
            wait_handles: [0; 64],
            tables: DomainTables::new(),
        };
        assert(m@ =~= (ManagerModel {
            holders: Seq::empty(),
            wait_handles: Seq::new(MAX_COUNT as nat, |i: int| 0u32),
            tables: TablesModel::empty(),
        }));
        m
    }

    /// How many ports and sessions are served.
    pub fn holder_count(&self) -> (n: usize)
        ensures
            n == self@.holders.len(),
    {
        self.server_holders.len()
    }

    /// The holder at a place.
    pub fn holder(&self, index: usize) -> (holder: &ServerHolder)
        requires
            index < self@.holders.len(),
        ensures
            *holder == self@.holders[index as int],
    {
        self.server_holders.get(index)
    }

    /// The place of the first holder with a handle.
    pub fn find_holder(&self, handle: Handle) -> (r: Option<usize>)
        ensures
            match first_with(self@.holders, handle) {
                Some(at) => r == Some(at as usize) && 0 <= at < self@.holders.len() <= MAX_COUNT,
                None => r is None,
            },
    {
        let ghost handles = self@.holders.map_values(|holder: ServerHolder| holder.info.handle);
        let len: usize = self.server_holders.len();
        let mut index: usize = 0;
        while index < len
            invariant
                index <= len,
                len == self.server_holders@.len() <= MAX_COUNT,
                handles == self.server_holders@.map_values(
                    |holder: ServerHolder| holder.info.handle,
                ),
                forall|j: int| 0 <= j < index ==> handles[j] != handle,
            decreases len - index,
        {
            if self.server_holders.get(index).info.handle == handle {
                proof {
                    lemma_first_place(handles, handle, index as int);
                }
                return Some(index);
            }
            index = index + 1;
        }
        proof {
            lemma_no_place(handles, handle);
        }
        None
    }

    /// Takes a holder over, unless there are too many: then it is added to
    /// `released`.
    pub fn push_holder(
        &mut self,
        holder: ServerHolder,
        released: &mut Vec<ServerHolder>,
    ) -> (r: Result<(), ResultCode>)
        requires
            old(self)@.wf(),
            old(self)@.tables.has(holder.domain_table),
        ensures
            final(self)@.wf(),
            ({
                let offer = old(self)@.offered(holder);
                &&& r == offer.result
                &&& final(self)@ == offer.manager
                &&& final(released)@ == old(released)@ + offer.refused
            }),
    {
        let r = match self.server_holders.push(holder) {
            Ok(()) => Ok(()),
            Err(back) => {
                released.push(back);
                Err(ResultCode::new(SERVER_HOLDERS_FULL))
            },
        };
        assert(released@ =~= old(released)@ + old(self)@.offered(holder).refused);
        assert(self@ =~= old(self)@.offered(holder).manager);
        r
    }

    /// Takes out the holder at a place, if there is one, and adds it to
    /// `released`.
    pub fn remove_holder(&mut self, index: usize, released: &mut Vec<ServerHolder>)
        requires
            old(self)@.wf(),
        ensures
            final(self)@.wf(),
            final(self)@ == old(self)@.without(index as int),
            final(released)@ == old(released)@ + old(self)@.released_by(index as int),
    {
        if let Some(holder) = self.server_holders.take_out(index) {
            released.push(holder);
        }
        assert(self@ =~= old(self)@.without(index as int));
        assert(released@ =~= old(released)@ + old(self)@.released_by(index as int));
    }

    /// Takes out all holders, in order, and adds them to `released`.
    pub fn remove_all(&mut self, released: &mut Vec<ServerHolder>)
        requires
            old(self)@.wf(),
        ensures
            final(self)@.wf(),
            final(self)@ == (ManagerModel { holders: Seq::empty(), ..old(self)@ }),
            final(released)@ == old(released)@ + old(self)@.holders,
    {
        self.server_holders.move_all(released);
        assert(self@ =~= (ManagerModel { holders: Seq::empty(), ..old(self)@ }));
    }

    /// Whether another holder can be taken over.
    pub fn has_room(&self) -> (b: bool)
        ensures
            b == (self@.holders.len() < MAX_COUNT),
    {
        self.server_holders.len() < MAX_COUNT
    }

    /// The domain tables, to be changed in place.
    pub fn tables_mut(&mut self) -> (tables: &mut DomainTables)
        ensures
            tables@ == old(self)@.tables,
            final(self)@ == (ManagerModel { tables: final(tables)@, ..old(self)@ }),
    {
        &mut self.tables
    }

    /// The object that has an id in the domain table under the key.
    pub fn find_domain(&self, key: TableKey, id: DomainObjectId) -> (r: Result<
        ObjectKey,
        ResultCode,
    >)
        requires
            self@.tables.has(key),
        ensures
            r == self@.tables.table(key).found(id),
    {
        self.tables.table(key).find_domain(id)
    }

    /// Takes back an object of the domain table under the key.
    pub fn deallocate_domain(&mut self, key: TableKey, id: DomainObjectId) -> (r: Result<
        ServerHolder,
        ResultCode,
    >)
        requires
            old(self)@.wf(),
            old(self)@.tables.has(key),
        ensures
            final(self)@.wf(),
            r == old(self)@.tables.table(key).deallocation(id),
            final(self)@ == (ManagerModel {
                tables: old(self)@.tables.with(key, old(self)@.tables.table(key).deallocated(id)),
                ..old(self)@
            }),
    {
        self.tables.table_mut(key).deallocate_domain(id)
    }

    /// The holder of a new session of the port at a place, with the object that
    /// the port's function made.
    pub fn make_new_session(
        &mut self,
        index: usize,
        handle: Handle,
        forward_handle: Handle,
        server: ObjectKey,
    ) -> (r: Result<ServerHolder, ResultCode>)
        requires
            old(self)@.wf(),
            index < old(self)@.holders.len(),
        ensures
            final(self)@.wf(),
            ({
                let port = old(self)@.holders[index as int];
                if port.new_server_fn is Some {
                    &&& r == Ok::<ServerHolder, ResultCode>(
                        port.accepted(
                            handle,
                            forward_handle,
                            server,
                            old(self)@.tables.fresh_key(),
                        ),
                    )
                    &&& final(self)@ == old(self)@.with_new_table()
                    &&& final(self)@.tables.has(r->Ok_0.domain_table)
                } else {
                    &&& r == Err::<ServerHolder, ResultCode>(
                        ResultCode { value: HIPC_SESSION_CLOSED },
                    )
                    &&& final(self)@ == old(self)@
                }
            }),
    {
        proof {
            lemma_new_table_keeps_wf(self@);
        }
        let r = self.server_holders.get(index).make_new_session(
            handle,
            forward_handle,
            server,
            &mut self.tables,
        );
        r
    }
}

/// A new domain table leaves a manager well-formed.
pub proof fn lemma_new_table_keeps_wf(m: ManagerModel)
    requires
        m.wf(),
    ensures
        m.with_new_table().wf(),
{
    m.tables.slots.index_of_first_ensures(None);
    assert forall|i: int| 0 <= i < m.holders.len() implies m.with_new_table().tables.has(
        (#[trigger] m.with_new_table().holders[i]).domain_table,
    ) by {
        assert(m.tables.has(m.holders[i].domain_table));
    }
}

/// What to ask of the service manager to register a service.
#[derive(Copy, Clone, PartialEq, Eq, Structural, Debug)]
pub struct ServiceRegistration {
    pub service_name: ServiceName,
    pub is_light: bool,
    pub max_sessions: i32,
}

/// `name` is the service name of this string.
pub open spec fn is_name_of(service_name: ServiceName, name: &str) -> bool {
    service_name.value as nat == little_endian(name_part(name.spec_bytes()))
}

/// How the service `S` is to be registered.
pub fn service_registration<S: IService>() -> (r: ServiceRegistration)
    ensures
        exists|name: &'static str| #[trigger]
            call_ensures(S::get_name, (), name) && is_name_of(r.service_name, name),
        !r.is_light,
        call_ensures(S::get_max_sesssions, (), r.max_sessions),
{
    let name = S::get_name();
    let service_name = ServiceName::new(name);
    assert(is_name_of(service_name, name));
    ServiceRegistration { service_name, is_light: false, max_sessions: S::get_max_sesssions() }
}

/// The name under which the interposer `S` is to be installed.
pub fn mitm_service_name<S: IMitmService>() -> (service_name: ServiceName)
    ensures
        exists|name: &'static str| #[trigger]
            call_ensures(S::get_name, (), name) && is_name_of(service_name, name),
{
    let name = S::get_name();
    let service_name = ServiceName::new(name);
    assert(is_name_of(service_name, name));
    service_name
}

impl<const P: usize> ServerManager<P> {
    /// Serves a port, whose sessions get their objects from a function. A holder
    /// that finds no room is added to `released`, here and below.
    pub fn register_server(
        &mut self,
        handle: Handle,
        server: ObjectKey,
        new_server_fn: NewServerFn,
        service_name: ServiceName,
        is_mitm_service: bool,
        released: &mut Vec<ServerHolder>,
    ) -> (r: Result<(), ResultCode>)
        requires
            old(self)@.wf(),
        ensures
            final(self)@.wf(),
            ({
                let offer = old(self)@.with_new_table().offered(
                    ServerHolder::port_of(
                        handle,
                        server,
                        new_server_fn,
                        service_name,
                        is_mitm_service,
                        old(self)@.tables.fresh_key(),
                    ),
                );
                &&& r == offer.result
                &&& final(self)@ == offer.manager
                &&& final(released)@ == old(released)@ + offer.refused
            }),
    {
        proof {
            lemma_new_table_keeps_wf(self@);
        }
        let holder = ServerHolder::new_server(
            handle,
            server,
            new_server_fn,
            service_name,
            is_mitm_service,
            &mut self.tables,
        );
        self.push_holder(holder, released)
    }

    /// Serves a session with an object of its own.
    pub fn register_session(
        &mut self,
        handle: Handle,
        server: ObjectKey,
        released: &mut Vec<ServerHolder>,
    ) -> (r: Result<(), ResultCode>)
        requires
            old(self)@.wf(),
        ensures
            final(self)@.wf(),
            ({
                let offer = old(self)@.with_new_table().offered(
                    ServerHolder::session_of(
                        ObjectInfo::of_handle(handle),
                        server,
                        old(self)@.tables.fresh_key(),
                    ),
                );
                &&& r == offer.result
                &&& final(self)@ == offer.manager
                &&& final(released)@ == old(released)@ + offer.refused
            }),
    {
        proof {
            lemma_new_table_keeps_wf(self@);
        }
        let holder = ServerHolder::new_server_session(handle, server, &mut self.tables);
        self.push_holder(holder, released)
    }

    /// Serves a service, on the port that came of registering it.
    pub fn register_service_server(
        &mut self,
        registration: ServiceRegistration,
        registered: Result<Handle, ResultCode>,
        server: ObjectKey,
        new_server_fn: NewServerFn,
        released: &mut Vec<ServerHolder>,
    ) -> (r: Result<(), ResultCode>)
        requires
            old(self)@.wf(),
        ensures
            final(self)@.wf(),
            ({
                let offer = match registered {
                    Ok(handle) => old(self)@.with_new_table().offered(
                        ServerHolder::port_of(
                            handle,
                            server,
                            new_server_fn,
                            registration.service_name,
                            false,
                            old(self)@.tables.fresh_key(),
                        ),
                    ),
                    Err(rc) => old(self)@.not_offered(rc),
                };
                &&& r == offer.result
                &&& final(self)@ == offer.manager
                &&& final(released)@ == old(released)@ + offer.refused
            }),
    {
        match registered {
            Ok(handle) => self.register_server(
                handle,
                server,
                new_server_fn,
                registration.service_name,
                false,
                released,
            ),
            Err(rc) => {
                assert(released@ =~= old(released)@ + Seq::<ServerHolder>::empty());
                Err(rc)
            },
        }
    }

    /// Serves an interposer, on the port and the session for questions that came
    /// of installing it. `query_server` is the object that answers these.
    pub fn register_mitm_service_server(
        &mut self,
        service_name: ServiceName,
        installed: Result<(Handle, Handle), ResultCode>,
        server: ObjectKey,
        new_server_fn: NewServerFn,
        query_server: ObjectKey,
        released: &mut Vec<ServerHolder>,
    ) -> (r: Result<(), ResultCode>)
        requires
            old(self)@.wf(),
        ensures
            final(self)@.wf(),
            ({
                let offer = match installed {
                    Ok((mitm_handle, query_handle)) => {
                        let port = ServerHolder::port_of(
                            mitm_handle,
                            server,
                            new_server_fn,
                            service_name,
                            true,
                            old(self)@.tables.fresh_key(),
                        );
                        let first = old(self)@.with_new_table().offered(port);
                        let query = ServerHolder::session_of(
                            ObjectInfo::of_handle(query_handle),
                            query_server,
                            first.manager.tables.fresh_key(),
                        );
                        if first.result is Ok {
                            first.manager.with_new_table().offered(query)
                        } else {
                            first
                        }
                    },
                    Err(rc) => old(self)@.not_offered(rc),
                };
                &&& r == offer.result
                &&& final(self)@ == offer.manager
                &&& final(released)@ == old(released)@ + offer.refused
            }),
    {
        match installed {
            Ok((mitm_handle, query_handle)) => {
                if let Err(rc) = self.register_server(
                    mitm_handle,
                    server,
                    new_server_fn,
                    service_name,
                    true,
                    released,
                ) {
                    return Err(rc);
                }
                assert(released@ =~= old(released)@);
                self.register_session(query_handle, query_server, released)
            },
            Err(rc) => {
                assert(released@ =~= old(released)@ + Seq::<ServerHolder>::empty());
                Err(rc)
            },
        }
    }

    /// Serves a named port, on the handle that came of managing it. It has no
    /// service name.
    pub fn register_named_port_server(
        &mut self,
        managed: Result<Handle, ResultCode>,
        server: ObjectKey,
        new_server_fn: NewServerFn,
        released: &mut Vec<ServerHolder>,
    ) -> (r: Result<(), ResultCode>)
        requires
            old(self)@.wf(),
        ensures
            final(self)@.wf(),
            ({
                let offer = match managed {
                    Ok(handle) => old(self)@.with_new_table().offered(
                        ServerHolder::port_of(
                            handle,
                            server,
                            new_server_fn,
                            ServiceName { value: 0 },
                            false,
                            old(self)@.tables.fresh_key(),
                        ),
                    ),
                    Err(rc) => old(self)@.not_offered(rc),
                };
                &&& r == offer.result
                &&& final(self)@ == offer.manager
                &&& final(released)@ == old(released)@ + offer.refused
            }),
    {
        match managed {
            Ok(handle) => self.register_server(
                handle,
                server,
                new_server_fn,
                ServiceName::empty(),
                false,
                released,
            ),
            Err(rc) => {
                assert(released@ =~= old(released)@ + Seq::<ServerHolder>::empty());
                Err(rc)
            },
        }
    }

    /// What answers the control messages of the session at a place.
    pub fn hipc_manager<'a>(&'a mut self, index: usize) -> (m: HipcManager<'a>)
        requires
            index < old(self)@.holders.len(),
        ensures
            *m.server_holder == old(self)@.holders[index as int],
            (*m.tables)@ == old(self)@.tables,
            m.pointer_buf_size == P,
            m.cloned_object_server_handle == 0,
            m.cloned_object_forward_handle == 0,
            final(self)@ == (ManagerModel {
                holders: old(self)@.holders.update(index as int, *final(m.server_holder)),
                tables: (*final(m.tables))@,
                ..old(self)@
            }),
    {
        let holders = as_mut_slice(&mut self.server_holders);
        HipcManager::new(&mut holders[index], &mut self.tables, P)
    }
}

/// A number, as far as it can be counted.
pub open spec fn capped(n: nat) -> usize {
    if n <= usize::MAX {
        n as usize
    } else {
        usize::MAX
    }
}

/// How many of the holders are like this.
pub open spec fn count_where(
    holders: Seq<ServerHolder>,
    like: spec_fn(ServerHolder) -> bool,
) -> nat {
    holders.filter(like).len()
}

/// How many of the objects in the domain tables have holders like this.
pub open spec fn tables_count_where(
    slots: Seq<Option<TableModel>>,
    like: spec_fn(ServerHolder) -> bool,
) -> nat
    decreases slots.len(),
{
    if slots.len() == 0 {
        0
    } else {
        tables_count_where(slots.drop_last(), like) + (match slots.last() {
            Some(table) => count_where(table.domains, like),
            None => 0,
        })
    }
}

/// Holders of an object.
pub open spec fn holds(object: ObjectKey) -> spec_fn(ServerHolder) -> bool {
    |holder: ServerHolder| holder.server == object
}

/// Holders with a domain table.
pub open spec fn has_table(key: TableKey) -> spec_fn(ServerHolder) -> bool {
    |holder: ServerHolder| holder.domain_table == key
}

impl ManagerModel {
    /// How many holders there are like this, those of objects in domains
    /// included.
    pub open spec fn total_where(self, like: spec_fn(ServerHolder) -> bool) -> nat {
        count_where(self.holders, like) + tables_count_where(self.tables.slots, like)
    }

    /// How often the object of a released holder is held, where those released
    /// before it are gone and something else holds the object so many times.
    pub open spec fn use_count(self, released: Seq<ServerHolder>, at: int, elsewhere: nat) -> nat {
        let like = holds(released[at].server);
        self.total_where(like) + count_where(released.skip(at), like) + elsewhere
    }

    /// How many holders have the domain table of a released holder, counted in
    /// the same way.
    pub open spec fn table_use_count(
        self,
        released: Seq<ServerHolder>,
        at: int,
        elsewhere: nat,
    ) -> nat {
        let like = has_table(released[at].domain_table);
        self.total_where(like) + count_where(released.skip(at), like) + elsewhere
    }

    /// The domain table of a released holder goes with it.
    pub open spec fn frees_table(
        self,
        released: Seq<ServerHolder>,
        at: int,
        elsewhere: nat,
    ) -> bool {
        self.tables.has(released[at].domain_table) && self.table_use_count(
            released,
            at,
            elsewhere,
        ) == 1
    }

    /// The manager after a released holder has let its domain table go.
    pub open spec fn after_release(
        self,
        released: Seq<ServerHolder>,
        at: int,
        elsewhere: nat,
    ) -> ManagerModel {
        if self.frees_table(released, at, elsewhere) {
            ManagerModel { tables: self.tables.without(released[at].domain_table), ..self }
        } else {
            self
        }
    }

    /// The released holders after that: the objects of a table that is gone come
    /// next.
    pub open spec fn released_after(
        self,
        released: Seq<ServerHolder>,
        at: int,
        elsewhere: nat,
    ) -> Seq<ServerHolder> {
        if self.frees_table(released, at, elsewhere) {
            released.take(at + 1) + self.tables.table(released[at].domain_table).domains
                + released.skip(at + 1)
        } else {
            released
        }
    }
}

proof fn lemma_count_step(
    holders: Seq<ServerHolder>,
    i: int,
    like: spec_fn(ServerHolder) -> bool,
)
    requires
        0 <= i < holders.len(),
    ensures
        count_where(holders.take(i + 1), like) == count_where(holders.take(i), like) + (if like(
            holders[i],
        ) {
            1nat
        } else {
            0
        }),
{
    reveal(Seq::filter);
    assert(holders.take(i + 1).drop_last() =~= holders.take(i));
}

/// No holder is like this if and only if there are zero of them.
pub proof fn lemma_count_none(holders: Seq<ServerHolder>, like: spec_fn(ServerHolder) -> bool)
    ensures
        count_where(holders, like) == 0 <==> forall|i: int|
            0 <= i < holders.len() ==> !like(#[trigger] holders[i]),
    decreases holders.len(),
{
    reveal(Seq::filter);
    if holders.len() > 0 {
        let init = holders.drop_last();
        lemma_count_none(init, like);
        assert(forall|i: int| 0 <= i < init.len() ==> init[i] == holders[i]);
        assert(holders[holders.len() - 1] == holders.last());
        if count_where(holders, like) == 0 {
            assert forall|i: int| 0 <= i < holders.len() implies !like(#[trigger] holders[i]) by {
                if i < init.len() {
                    assert(!like(init[i]));
                }
            }
        } else if forall|i: int| 0 <= i < holders.len() ==> !like(#[trigger] holders[i]) {
            assert forall|i: int| 0 <= i < init.len() implies !like(#[trigger] init[i]) by {
                assert(!like(holders[i]));
            }
        }
    }
}

/// What holders are counted by.
#[derive(Copy, Clone)]
enum Criterion {
    Object(ObjectKey),
    Table(TableKey),
}

impl Criterion {
    spec fn like(self) -> spec_fn(ServerHolder) -> bool {
        match self {
            Criterion::Object(object) => holds(object),
            Criterion::Table(key) => has_table(key),
        }
    }

    fn is_like(self, holder: &ServerHolder) -> (b: bool)
        ensures
            b == (self.like())(*holder),
    {
        match self {
            Criterion::Object(object) => holder.server == object,
            Criterion::Table(key) => holder.domain_table == key,
        }
    }
}

fn count_holders(holders: &[ServerHolder], from: usize, what: Criterion) -> (n: usize)
    requires
        from <= holders@.len(),
    ensures
        n == count_where(holders@.skip(from as int), what.like()),
        n <= holders@.len() - from,
{
    let ghost rest = holders@.skip(from as int);
    let mut n: usize = 0;
    let mut i: usize = from;
    assert(count_where(rest.take(0), what.like()) == 0) by {
        reveal(Seq::filter);
    }
    while i < holders.len()
        invariant
            from <= i <= holders@.len(),
            rest == holders@.skip(from as int),
            n == count_where(rest.take(i - from), what.like()),
            n <= i - from,
        decreases holders@.len() - i,
    {
        proof {
            lemma_count_step(rest, i - from, what.like());
        }
        if what.is_like(&holders[i]) {
            n = n + 1;
        }
        i = i + 1;
    }
    assert(rest.take(rest.len() as int) =~= rest);
    n
}

impl<const P: usize> ServerManager<P> {
    /// How many holders there are like this.
    fn count_all(&self, what: Criterion) -> (n: usize)
        ensures
            n == capped(self@.total_where(what.like())),
    {
        let held: usize = count_holders(as_slice(&self.server_holders), 0, what);
        assert(self@.holders.skip(0) =~= self@.holders);
        let ghost slots = self@.tables.slots;
        let len: usize = self.tables.len();
        let mut n: usize = 0;
        let mut i: usize = 0;
        while i < len
            invariant
                i <= len,
                slots == self@.tables.slots,
                len == slots.len(),
                n == capped(tables_count_where(slots.take(i as int), what.like())),
            decreases len - i,
        {
            assert(slots.take(i + 1).drop_last() =~= slots.take(i as int));
            assert(slots.take(i + 1).last() == slots[i as int]);
            if self.tables.has(i) {
                let domains = as_slice(&self.tables.table(i).domains);
                assert(domains@.skip(0) =~= domains@);
                n = n.saturating_add(count_holders(domains, 0, what));
            }
            i = i + 1;
        }
        assert(slots.take(len as int) =~= slots);
        held.saturating_add(n)
    }

    /// How many holders hold an object.
    pub fn object_uses(&self, object: ObjectKey) -> (n: usize)
        ensures
            n == capped(self@.total_where(holds(object))),
    {
        self.count_all(Criterion::Object(object))
    }

    /// The first thing to do for the released holder at a place, where those
    /// before it are gone and something else holds its object so many times.
    pub fn release(&self, released: &Vec<ServerHolder>, at: usize, elsewhere: usize) -> (action:
        CloseAction)
        requires
            at < released@.len(),
        ensures
            action == released@[at as int].drop_action(
                self@.use_count(released@, at as int, elsewhere as nat) as int,
            ),
    {
        let what = Criterion::Object(released[at].server);
        let others: usize = self.count_all(what);
        let rest: usize = count_holders(released.as_slice(), at, what);
        released[at].drop(others.saturating_add(rest).saturating_add(elsewhere))
    }

    /// Lets the domain table of the released holder at a place go, if no other
    /// holder has it; something else has it so many times. Its objects are
    /// released next. This is done once the holder is closed.
    pub fn release_table(
        &mut self,
        released: &mut Vec<ServerHolder>,
        at: usize,
        elsewhere: usize,
    )
        requires
            old(self)@.wf(),
            at < old(released)@.len(),
        ensures
            final(self)@.wf(),
            final(self)@ == old(self)@.after_release(
                old(released)@,
                at as int,
                elsewhere as nat,
            ),
            final(released)@ == old(self)@.released_after(
                old(released)@,
                at as int,
                elsewhere as nat,
            ),
    {
        let ghost all = released@;
        let key: TableKey = released[at].domain_table;
        let what = Criterion::Table(key);
        let others: usize = self.count_all(what);
        let rest: usize = count_holders(released.as_slice(), at, what);
        if !self.tables.has(key) || others.saturating_add(rest).saturating_add(elsewhere)
            != 1 {
            return;
        }
        proof {
            lemma_count_none(all.skip(at as int), what.like());
            assert((what.like())(all.skip(at as int)[0]));
            lemma_count_none(self@.holders, what.like());
        }
        assert(at < released.len());
        let mut later: Vec<ServerHolder> = released.split_off(at + 1);
        self.tables.free(key, released);
        released.append(&mut later);
        assert(released@ =~= old(self)@.released_after(all, at as int, elsewhere as nat));
        assert forall|i: int| 0 <= i < self@.holders.len() implies self@.tables.has(
            (#[trigger] self@.holders[i]).domain_table,
        ) by {
            assert(!(what.like())(old(self)@.holders[i]));
        }
    }
}

/// What the main loop does next.
#[derive(PartialEq, Eq, Debug)]
pub enum LoopAction {
    /// Wait for one of these handles to be signaled.
    Wait { handles: Vec<Handle> },
    Stop,
}

impl<const P: usize> ServerManager<P> {
    /// Puts the handles to wait for in front of the wait handles, and gives them.
    fn prepare_wait_handles(&mut self) -> (handles: Vec<Handle>)
        requires
            old(self)@.wf(),
        ensures
            handles@ == handles_of(old(self)@.holders),
            final(self)@ == (ManagerModel {
                wait_handles: handles@ + old(self)@.wait_handles.skip(handles@.len() as int),
                ..old(self)@
            }),
            handles@.len() <= MAX_COUNT,
            final(self)@.wf(),
    {
        let len: usize = self.server_holders.len();
        let ghost all = self@.holders.map_values(|holder: ServerHolder| holder.info.handle);
        let ghost taken = |handle: Handle| handle != 0;
        let mut handles: Vec<Handle> = Vec::new();
        let mut i: usize = 0;
        assert(all.take(0) =~= Seq::<Handle>::empty());
        assert(Seq::<Handle>::empty().filter(taken) =~= Seq::<Handle>::empty()) by {
            reveal(Seq::filter);
        }
        assert(self@.wait_handles =~= handles@ + old(self)@.wait_handles.skip(0));
        while i < len
            invariant
                i <= len,
                len == old(self)@.holders.len() <= MAX_COUNT,
                old(self)@.wf(),
                all == old(self)@.holders.map_values(|holder: ServerHolder| holder.info.handle),
                taken == (|handle: Handle| handle != 0),
                handles@ == all.take(i as int).filter(taken),
                handles@.len() <= i,
                self@ == (ManagerModel {
                    wait_handles: handles@ + old(self)@.wait_handles.skip(handles@.len() as int),
                    ..old(self)@
                }),
            decreases len - i,
        {
            let handle: Handle = self.server_holders.get(i).info.handle;
            proof {
                reveal(Seq::filter);
                assert(all.take(i + 1).drop_last() =~= all.take(i as int));
                assert(all.take(i + 1).last() == handle);
            }
            if handle != 0 {
                let at: usize = handles.len();
                self.wait_handles[at] = handle;
                handles.push(handle);
                assert(self@ =~= (ManagerModel {
                    wait_handles: handles@ + old(self)@.wait_handles.skip(handles@.len() as int),
                    ..old(self)@
                }));
            }
            i = i + 1;
        }
        assert(all.take(len as int) =~= all);
        handles
    }

    /// The handle that was signaled: the one at the place that waiting gave.
    pub fn process_impl(&self, waited: Result<usize, ResultCode>) -> (r: Result<
        Handle,
        ResultCode,
    >)
        requires
            waited matches Ok(index) ==> index < MAX_COUNT,
        ensures
            r == match waited {
                Ok(index) => Ok(self@.wait_handles[index as int]),
                Err(rc) => Err(rc),
            },
    {
        match waited {
            Ok(index) => Ok(self.wait_handles[index]),
            Err(rc) => Err(rc),
        }
    }

    /// What the main loop does after a round with this outcome: it goes on,
    /// unless waiting was called off.
    pub fn loop_process(&mut self, outcome: Result<(), ResultCode>) -> (action: LoopAction)
        requires
            old(self)@.wf(),
        ensures
            final(self)@.wf(),
            if outcome matches Err(rc) && rc.value == OS_OPERATION_CANCELED {
                action is Stop && final(self)@ == old(self)@
            } else {
                let handles = handles_of(old(self)@.holders);
                &&& action matches LoopAction::Wait { handles: h } && h@ == handles
                &&& final(self)@ == (ManagerModel {
                    wait_handles: handles + old(self)@.wait_handles.skip(handles.len() as int),
                    ..old(self)@
                })
            },
    {
        if let Err(rc) = outcome {
            if rc.value == OS_OPERATION_CANCELED {
                return LoopAction::Stop;
            }
        }
        let handles: Vec<Handle> = self.prepare_wait_handles();
        LoopAction::Wait { handles }
    }
}

} // verus!
