//! Server holders: what a server knows of each port, session and domain object
//! that it serves.

use vstd::prelude::*;

use crate::context::ObjectInfo;
use crate::headers::{DomainObjectId, Handle};
use crate::results::{ResultCode, HIPC_SESSION_CLOSED};
use crate::sm::ServiceName;
use crate::tables::{DomainTables, TableKey};

verus! {

/// Names a server object. The program around the library keeps the objects.
pub type ObjectKey = u64;

/// Names the function that makes the server object of each new session of a
/// port. The program around the library keeps the functions.
pub type NewServerFn = u64;

/// What a signal on a holder's handle means.
#[derive(Copy, Clone, PartialEq, Eq, Structural, Debug)]
pub enum WaitHandleType {
    /// Someone wants a session.
    Server,
    /// A message has come.
    Session,
}

/// A port, a session or a domain object that is being served.
#[derive(PartialEq, Eq, Structural, Debug)]
pub struct ServerHolder {
    pub server: ObjectKey,
    pub info: ObjectInfo,
    pub new_server_fn: Option<NewServerFn>,
    pub handle_type: WaitHandleType,
    pub forward_handle: Handle,
    pub is_mitm_service: bool,
    pub service_name: ServiceName,
    /// The domain table of the session.
    pub domain_table: TableKey,
}

/// One thing to do to close what a holder holds.
#[derive(Copy, Clone, PartialEq, Eq, Structural, Debug)]
pub enum CloseAction {
    /// Stop interposing on the service.
    UninstallMitm { service_name: ServiceName },
    /// Give up the name of the service.
    UnregisterService { service_name: ServiceName },
    CloseHandle { handle: Handle },
    Done,
}

impl ServerHolder {
    /// A session of this object, with this domain table, that makes no further
    /// sessions.
    pub open spec fn session_of(
        info: ObjectInfo,
        server: ObjectKey,
        domain_table: TableKey,
    ) -> ServerHolder {
        ServerHolder {
            server,
            info,
            new_server_fn: None,
            handle_type: WaitHandleType::Session,
            forward_handle: 0,
            is_mitm_service: false,
            service_name: ServiceName { value: 0 },
            domain_table,
        }
    }

    /// The holder of a session with a server object of its own. Like all new
    /// holders, it gets a new domain table.
    pub fn new_server_session(
        handle: Handle,
        server: ObjectKey,
        tables: &mut DomainTables,
    ) -> (holder: Self)
        ensures
            holder == ServerHolder::session_of(
                ObjectInfo::of_handle(handle),
                server,
                old(tables)@.fresh_key(),
            ),
            final(tables)@ == old(tables)@.with_new(),
            final(tables)@.has(holder.domain_table),
    {
        ServerHolder::new_session(handle, server, tables)
    }

    /// The holder of a session for an object.
    pub fn new_session(handle: Handle, object: ObjectKey, tables: &mut DomainTables) -> (holder:
        Self)
        ensures
            holder == ServerHolder::session_of(
                ObjectInfo::of_handle(handle),
                object,
                old(tables)@.fresh_key(),
            ),
            final(tables)@ == old(tables)@.with_new(),
            final(tables)@.has(holder.domain_table),
    {
        ServerHolder {
            server: object,
            info: ObjectInfo::from_handle(handle),
            new_server_fn: None,
            handle_type: WaitHandleType::Session,
            forward_handle: 0,
            is_mitm_service: false,
            service_name: ServiceName::empty(),
            domain_table: tables.new_table(),
        }
    }

    /// The holder of an object in a domain.
    pub fn new_domain_session(
        handle: Handle,
        domain_object_id: DomainObjectId,
        object: ObjectKey,
        tables: &mut DomainTables,
    ) -> (holder: Self)
        ensures
            holder == ServerHolder::session_of(
                ObjectInfo::of_domain_object(handle, domain_object_id),
                object,
                old(tables)@.fresh_key(),
            ),
            final(tables)@ == old(tables)@.with_new(),
            final(tables)@.has(holder.domain_table),
    {
        ServerHolder {
            server: object,
            info: ObjectInfo::from_domain_object_id(handle, domain_object_id),
            new_server_fn: None,
            handle_type: WaitHandleType::Session,
            forward_handle: 0,
            is_mitm_service: false,
            service_name: ServiceName::empty(),
            domain_table: tables.new_table(),
        }
    }

    /// The holder of a port, whose sessions get their objects from a function.
    pub open spec fn port_of(
        handle: Handle,
        server: ObjectKey,
        new_server_fn: NewServerFn,
        service_name: ServiceName,
        is_mitm_service: bool,
        domain_table: TableKey,
    ) -> ServerHolder {
        ServerHolder {
            server,
            info: ObjectInfo::of_handle(handle),
            new_server_fn: Some(new_server_fn),
            handle_type: WaitHandleType::Server,
            forward_handle: 0,
            is_mitm_service,
            service_name,
            domain_table,
        }
    }

    pub fn new_server(
        handle: Handle,
        server: ObjectKey,
        new_server_fn: NewServerFn,
        service_name: ServiceName,
        is_mitm_service: bool,
        tables: &mut DomainTables,
    ) -> (holder: Self)
        ensures
            holder == ServerHolder::port_of(
                handle,
                server,
                new_server_fn,
                service_name,
                is_mitm_service,
                old(tables)@.fresh_key(),
            ),
            final(tables)@ == old(tables)@.with_new(),
            final(tables)@.has(holder.domain_table),
    {
        ServerHolder {
            server,
            info: ObjectInfo::from_handle(handle),
            new_server_fn: Some(new_server_fn),
            handle_type: WaitHandleType::Server,
            forward_handle: 0,
            is_mitm_service,
            service_name,
            domain_table: tables.new_table(),
        }
    }

    /// The holder of a new session of this port. It has no service name: the
    /// name goes with the port.
    pub open spec fn accepted(
        self,
        handle: Handle,
        forward_handle: Handle,
        server: ObjectKey,
        domain_table: TableKey,
    ) -> ServerHolder {
        ServerHolder {
            server,
            info: ObjectInfo::of_handle(handle),
            new_server_fn: self.new_server_fn,
            handle_type: WaitHandleType::Session,
            forward_handle,
            is_mitm_service: self.is_mitm_service,
            service_name: ServiceName { value: 0 },
            domain_table,
        }
    }

    /// The holder of a new session of this port, with the object that the port's
    /// function made.
    pub fn make_new_session(
        &self,
        handle: Handle,
        forward_handle: Handle,
        server: ObjectKey,
        tables: &mut DomainTables,
    ) -> (r: Result<ServerHolder, ResultCode>)
        ensures
            self.new_server_fn is Some ==> {
                &&& r == Ok::<ServerHolder, ResultCode>(
                    self.accepted(handle, forward_handle, server, old(tables)@.fresh_key()),
                )
                &&& final(tables)@ == old(tables)@.with_new()
                &&& final(tables)@.has(r->Ok_0.domain_table)
            },
            self.new_server_fn is None ==> {
                &&& r == Err::<ServerHolder, ResultCode>(ResultCode { value: HIPC_SESSION_CLOSED })
                &&& final(tables)@ == old(tables)@
            },
    {
        match self.get_new_server_fn() {
            Ok(new_fn) => Ok(
                ServerHolder {
                    server,
                    info: ObjectInfo::from_handle(handle),
                    new_server_fn: Some(new_fn),
                    handle_type: WaitHandleType::Session,
                    forward_handle,
                    is_mitm_service: self.is_mitm_service,
                    service_name: ServiceName::empty(),
                    domain_table: tables.new_table(),
                },
            ),
            Err(rc) => Err(rc),
        }
    }

    /// A second session for the same object, in the same domain.
    pub open spec fn cloned(self, handle: Handle, forward_handle: Handle) -> ServerHolder {
        ServerHolder {
            server: self.server,
            info: ObjectInfo { handle, ..self.info },
            new_server_fn: self.new_server_fn,
            handle_type: WaitHandleType::Session,
            forward_handle,
            is_mitm_service: forward_handle != 0,
            service_name: ServiceName { value: 0 },
            domain_table: self.domain_table,
        }
    }

    /// The holder of a second session for the same object. The two share their
    /// domain table.
    pub fn clone_self(&self, handle: Handle, forward_handle: Handle) -> (r: Result<
        ServerHolder,
        ResultCode,
    >)
        ensures
            r == Ok::<ServerHolder, ResultCode>(self.cloned(handle, forward_handle)),
    {
        let mut object_info = self.info;
        object_info.handle = handle;
        Ok(
            ServerHolder {
                server: self.server,
                info: object_info,
                new_server_fn: self.new_server_fn,
                handle_type: WaitHandleType::Session,
                forward_handle,
                is_mitm_service: forward_handle != 0,
                service_name: ServiceName::empty(),
                domain_table: self.domain_table,
            },
        )
    }

    /// Where the service behind an interposed session is reached.
    pub fn make_forward_info(&self) -> (info: ObjectInfo)
        ensures
            info == ObjectInfo::of_handle(self.forward_handle),
    {
        ObjectInfo::from_handle(self.forward_handle)
    }

    pub fn get_new_server_fn(&self) -> (r: Result<NewServerFn, ResultCode>)
        ensures
            r == match self.new_server_fn {
                Some(new_server_fn) => Ok(new_server_fn),
                None => Err(ResultCode { value: HIPC_SESSION_CLOSED }),
            },
    {
        match self.new_server_fn {
            Some(new_server_fn) => Ok(new_server_fn),
            None => Err(ResultCode::new(HIPC_SESSION_CLOSED)),
        }
    }

    /// Makes the session a domain: its object gets an id from its domain table.
    pub fn convert_to_domain(&mut self, tables: &mut DomainTables) -> (r: Result<
        DomainObjectId,
        ResultCode,
    >)
        requires
            old(tables)@.has(old(self).domain_table),
        ensures
            final(tables)@ == old(tables)@.with(
                old(self).domain_table,
                old(tables)@.table(old(self).domain_table).allocated(),
            ),
            r == old(tables)@.table(old(self).domain_table).allocation(),
            *final(self) == (match old(tables)@.table(old(self).domain_table).allocation() {
                Ok(id) => ServerHolder {
                    info: ObjectInfo { domain_object_id: id, ..old(self).info },
                    ..*old(self)
                },
                Err(rc) => *old(self),
            }),
    {
        let domain_object_id: DomainObjectId = match tables.table_mut(self.domain_table).allocate_id() {
            Ok(id) => id,
            Err(rc) => return Err(rc),
        };
        let mut new_info = self.info;
        new_info.domain_object_id = domain_object_id;
        self.info = new_info;
        Ok(domain_object_id)
    }

    /// The last thing to do to close what the holder holds.
    pub open spec fn close_handle_action(self) -> CloseAction {
        if self.info.owns_handle {
            CloseAction::CloseHandle { handle: self.info.handle }
        } else {
            CloseAction::Done
        }
    }

    /// The first thing to do to close what the holder holds: a name that it has
    /// is given up before its handle is closed.
    pub open spec fn close_action(self) -> CloseAction {
        if self.service_name.value != 0 {
            if self.is_mitm_service {
                CloseAction::UninstallMitm { service_name: self.service_name }
            } else {
                CloseAction::UnregisterService { service_name: self.service_name }
            }
        } else {
            self.close_handle_action()
        }
    }

    /// Starts to close what the holder holds.
    pub fn close(&self) -> (action: CloseAction)
        ensures
            action == self.close_action(),
    {
        if !self.service_name.is_empty() {
            match self.is_mitm_service {
                true => CloseAction::UninstallMitm { service_name: self.service_name },
                false => CloseAction::UnregisterService { service_name: self.service_name },
            }
        } else if self.info.owns_handle {
            CloseAction::CloseHandle { handle: self.info.handle }
        } else {
            CloseAction::Done
        }
    }

    /// Goes on closing after `action`: where it failed, closing ends there.
    pub fn close_after(&self, action: CloseAction, outcome: Result<(), ResultCode>) -> (r: Result<
        CloseAction,
        ResultCode,
    >)
        ensures
            r == match outcome {
                Err(rc) => Err(rc),
                Ok(_) => Ok(
                    if action is UninstallMitm || action is UnregisterService {
                        self.close_handle_action()
                    } else {
                        CloseAction::Done
                    },
                ),
            },
    {
        match outcome {
            Err(rc) => Err(rc),
            Ok(_) => match action {
                CloseAction::UninstallMitm { .. } | CloseAction::UnregisterService { .. } => {
                    if self.info.owns_handle {
                        Ok(CloseAction::CloseHandle { handle: self.info.handle })
                    } else {
                        Ok(CloseAction::Done)
                    }
                },
                _ => Ok(CloseAction::Done),
            },
        }
    }

    /// What to close when the holder goes, where its object is held `use_count`
    /// times, this holder included: a session that another holder's object is
    /// still reached through stays open.
    pub fn drop(&self, use_count: usize) -> (action: CloseAction)
        ensures
            action == self.drop_action(use_count as int),
    {
        if use_count == 1 {
            self.close()
        } else {
            CloseAction::Done
        }
    }

    pub open spec fn drop_action(self, use_count: int) -> CloseAction {
        if use_count == 1 {
            self.close_action()
        } else {
            CloseAction::Done
        }
    }
}

} // verus!
