//! The objects that every server has on its own: one that answers the control
//! messages of a session, and one that is asked whether to interpose on a
//! process.

use vstd::prelude::*;

use crate::headers::{DomainObjectId, Handle};
use crate::holder::ServerHolder;
use crate::results::{ResultCode, COPY_FROM_DOMAIN_UNSUPPORTED};
use crate::sf::{IMitmService, IObject, IServerObject, MoveHandle, Session};
use crate::sm::MitmProcessInfo;
use crate::tables::DomainTables;

verus! {

use crate::context::ObjectInfo;

/// The request id of a control message that makes its session a domain.
pub const CONVERT_CURRENT_OBJECT_TO_DOMAIN: u32 = 0;

/// The request id of a control message that copies an object out of a domain.
pub const COPY_FROM_CURRENT_DOMAIN: u32 = 1;

/// The request id of a control message that asks for a second session.
pub const CLONE_CURRENT_OBJECT: u32 = 2;

/// The request id of a control message that asks for the size of the pointer
/// buffer.
pub const QUERY_POINTER_BUFFER_SIZE: u32 = 3;

/// The request id of a control message that asks for a second session, with a
/// tag.
pub const CLONE_CURRENT_OBJECT_EX: u32 = 4;

/// The control commands of a session.
#[derive(Copy, Clone, PartialEq, Eq, Structural, Debug)]
pub enum ControlCommand {
    ConvertCurrentObjectToDomain,
    CopyFromCurrentDomain,
    CloneCurrentObject,
    QueryPointerBufferSize,
    CloneCurrentObjectEx,
}

impl ControlCommand {
    /// The request id of the command.
    pub open spec fn rq_id(self) -> u32 {
        match self {
            ControlCommand::ConvertCurrentObjectToDomain => CONVERT_CURRENT_OBJECT_TO_DOMAIN,
            ControlCommand::CopyFromCurrentDomain => COPY_FROM_CURRENT_DOMAIN,
            ControlCommand::CloneCurrentObject => CLONE_CURRENT_OBJECT,
            ControlCommand::QueryPointerBufferSize => QUERY_POINTER_BUFFER_SIZE,
            ControlCommand::CloneCurrentObjectEx => CLONE_CURRENT_OBJECT_EX,
        }
    }
}

/// What comes of asking for a second session: its server's end, its client's
/// end, and the handle that forwards to the service behind an interposer.
pub open spec fn second_session(
    is_mitm: bool,
    created: Result<(Handle, Handle), ResultCode>,
    forwarded: Result<Handle, ResultCode>,
) -> Result<(Handle, Handle, Handle), ResultCode> {
    match created {
        Err(rc) => Err(rc),
        Ok((server_handle, client_handle)) => if is_mitm {
            match forwarded {
                Err(rc) => Err(rc),
                Ok(forward_handle) => Ok((server_handle, client_handle, forward_handle)),
            }
        } else {
            Ok((server_handle, client_handle, 0))
        },
    }
}

/// Answers the control messages of a session.
pub struct HipcManager<'a> {
    pub session: Session,
    pub server_holder: &'a mut ServerHolder,
    pub tables: &'a mut DomainTables,
    pub pointer_buf_size: usize,
    /// The server's end of the second session, once one was asked for.
    pub cloned_object_server_handle: Handle,
    /// Where the second session reaches the service behind an interposer.
    pub cloned_object_forward_handle: Handle,
}

impl<'a> HipcManager<'a> {
    pub fn new(
        server_holder: &'a mut ServerHolder,
        tables: &'a mut DomainTables,
        pointer_buf_size: usize,
    ) -> (m: Self)
        ensures
            m.session.object_info == (ObjectInfo {
                handle: 0,
                domain_object_id: 0,
                owns_handle: false,
            }),
            *m.server_holder == *old(server_holder),
            *final(m.server_holder) == *final(server_holder),
            *m.tables == *old(tables),
            *final(m.tables) == *final(tables),
            m.pointer_buf_size == pointer_buf_size,
            m.cloned_object_server_handle == 0,
            m.cloned_object_forward_handle == 0,
    {
        HipcManager {
            session: Session::new(),
            server_holder,
            tables,
            pointer_buf_size,
            cloned_object_server_handle: 0,
            cloned_object_forward_handle: 0,
        }
    }

    pub fn has_cloned_object(&self) -> (b: bool)
        ensures
            b == (self.cloned_object_server_handle != 0),
    {
        self.cloned_object_server_handle != 0
    }

    /// The holder of the second session.
    pub fn clone_object(&self) -> (r: Result<ServerHolder, ResultCode>)
        ensures
            r == Ok::<ServerHolder, ResultCode>(
                (*old(self.server_holder)).cloned(
                    self.cloned_object_server_handle,
                    self.cloned_object_forward_handle,
                ),
            ),
    {
        self.server_holder.clone_self(
            self.cloned_object_server_handle,
            self.cloned_object_forward_handle,
        )
    }

    /// Makes the session a domain.
    pub fn convert_current_object_to_domain(&mut self) -> (r: Result<DomainObjectId, ResultCode>)
        requires
            (*old(self).tables)@.has((*old(self).server_holder).domain_table),
        ensures
            *final(final(self).server_holder) == *final(old(self).server_holder),
            *final(final(self).tables) == *final(old(self).tables),
            ({
                let key = (*old(self).server_holder).domain_table;
                let table = (*old(self).tables)@.table(key);
                &&& r == table.allocation()
                &&& (*final(self).tables)@ == (*old(self).tables)@.with(key, table.allocated())
                &&& *final(self).server_holder == (match table.allocation() {
                    Ok(id) => ServerHolder {
                        info: ObjectInfo {
                            domain_object_id: id,
                            ..(*old(self).server_holder).info
                        },
                        ..*old(self).server_holder
                    },
                    Err(rc) => *old(self).server_holder,
                })
            }),
            final(self).session == old(self).session,
            final(self).pointer_buf_size == old(self).pointer_buf_size,
            final(self).cloned_object_server_handle == old(self).cloned_object_server_handle,
            final(self).cloned_object_forward_handle == old(self).cloned_object_forward_handle,
    {
        self.server_holder.convert_to_domain(self.tables)
    }

    /// Copying an object out of a domain is not offered.
    pub fn copy_from_current_domain(&mut self, _domain_object_id: DomainObjectId) -> (r: Result<
        MoveHandle,
        ResultCode,
    >)
        ensures
            r == Err::<MoveHandle, ResultCode>(ResultCode { value: COPY_FROM_DOMAIN_UNSUPPORTED }),
            *final(self) == *old(self),
    {
        Err(ResultCode::new(COPY_FROM_DOMAIN_UNSUPPORTED))
    }

    /// Where a second session has to be made too, once this one was made: with
    /// the service behind an interposer. `created` is what came of making the
    /// session.
    pub fn forward_needed(&self, created: &Result<(Handle, Handle), ResultCode>) -> (info: Option<
        ObjectInfo,
    >)
        ensures
            info == if created is Ok && (*old(self.server_holder)).is_mitm_service {
                Some(ObjectInfo::of_handle((*old(self.server_holder)).forward_handle))
            } else {
                None
            },
    {
        match created {
            Ok(_) => if self.server_holder.is_mitm_service {
                Some(self.server_holder.make_forward_info())
            } else {
                None
            },
            Err(_) => None,
        }
    }

    /// Keeps a second session for the object, and gives out the client's end of
    /// it. `created` is what came of making the session, first the server's end,
    /// then the client's; `forwarded` what came of making one with the service
    /// behind an interposer, which counts only where there is one.
    pub fn clone_current_object(
        &mut self,
        created: Result<(Handle, Handle), ResultCode>,
        forwarded: Result<Handle, ResultCode>,
    ) -> (r: Result<MoveHandle, ResultCode>)
        ensures
            *final(final(self).server_holder) == *final(old(self).server_holder),
            *final(final(self).tables) == *final(old(self).tables),
            *final(self).server_holder == *old(self).server_holder,
            *final(self).tables == *old(self).tables,
            final(self).session == old(self).session,
            final(self).pointer_buf_size == old(self).pointer_buf_size,
            ({
                let is_mitm = (*old(self).server_holder).is_mitm_service;
                match second_session(is_mitm, created, forwarded) {
                    Ok((server_handle, client_handle, forward_handle)) => {
                        &&& r == Ok::<MoveHandle, ResultCode>(
                            crate::sf::Handle::<true> { handle: client_handle },
                        )
                        &&& final(self).cloned_object_server_handle == server_handle
                        &&& final(self).cloned_object_forward_handle == forward_handle
                    },
                    Err(rc) => {
                        &&& r == Err::<MoveHandle, ResultCode>(rc)
                        &&& final(self).cloned_object_server_handle
                            == old(self).cloned_object_server_handle
                        &&& final(self).cloned_object_forward_handle
                            == old(self).cloned_object_forward_handle
                    },
                }
            }),
    {
        let (server_handle, client_handle): (Handle, Handle) = match created {
            Ok(handles) => handles,
            Err(rc) => return Err(rc),
        };
        let mut forward_handle: Handle = 0;
        if self.server_holder.is_mitm_service {
            forward_handle = match forwarded {
                Ok(handle) => handle,
                Err(rc) => return Err(rc),
            };
        }
        self.cloned_object_server_handle = server_handle;
        self.cloned_object_forward_handle = forward_handle;
        Ok(crate::sf::Handle::<true> { handle: client_handle })
    }

    /// The size of the pointer buffer, as far as its lower 16 bits tell.
    pub fn query_pointer_buffer_size(&mut self) -> (r: Result<u16, ResultCode>)
        ensures
            r == Ok::<u16, ResultCode>((old(self).pointer_buf_size % 0x1_0000) as u16),
            *final(self) == *old(self),
    {
        Ok((self.pointer_buf_size % 0x1_0000) as u16)
    }

    /// As without a tag: the tag does not count.
    pub fn clone_current_object_ex(
        &mut self,
        _tag: u32,
        created: Result<(Handle, Handle), ResultCode>,
        forwarded: Result<Handle, ResultCode>,
    ) -> (r: Result<MoveHandle, ResultCode>)
        ensures
            *final(final(self).server_holder) == *final(old(self).server_holder),
            *final(final(self).tables) == *final(old(self).tables),
            *final(self).server_holder == *old(self).server_holder,
            *final(self).tables == *old(self).tables,
            final(self).session == old(self).session,
            final(self).pointer_buf_size == old(self).pointer_buf_size,
            ({
                let is_mitm = (*old(self).server_holder).is_mitm_service;
                match second_session(is_mitm, created, forwarded) {
                    Ok((server_handle, client_handle, forward_handle)) => {
                        &&& r == Ok::<MoveHandle, ResultCode>(
                            crate::sf::Handle::<true> { handle: client_handle },
                        )
                        &&& final(self).cloned_object_server_handle == server_handle
                        &&& final(self).cloned_object_forward_handle == forward_handle
                    },
                    Err(rc) => {
                        &&& r == Err::<MoveHandle, ResultCode>(rc)
                        &&& final(self).cloned_object_server_handle
                            == old(self).cloned_object_server_handle
                        &&& final(self).cloned_object_forward_handle
                            == old(self).cloned_object_forward_handle
                    },
                }
            }),
    {
        self.clone_current_object(created, forwarded)
    }
}

/// The request ids of the control messages, in order.
pub open spec fn control_commands() -> Seq<u32> {
    seq![
        CONVERT_CURRENT_OBJECT_TO_DOMAIN,
        COPY_FROM_CURRENT_DOMAIN,
        CLONE_CURRENT_OBJECT,
        QUERY_POINTER_BUFFER_SIZE,
        CLONE_CURRENT_OBJECT_EX,
    ]
}

/// The control command at a place of the table of these.
pub fn control_command_at(place: usize) -> (c: ControlCommand)
    requires
        place < control_commands().len(),
    ensures
        c.rq_id() == control_commands()[place as int],
{
    match place {
        0 => ControlCommand::ConvertCurrentObjectToDomain,
        1 => ControlCommand::CopyFromCurrentDomain,
        2 => ControlCommand::CloneCurrentObject,
        3 => ControlCommand::QueryPointerBufferSize,
        _ => ControlCommand::CloneCurrentObjectEx,
    }
}

/// The table of the control messages.
pub fn control_command_table() -> (table: Vec<u32>)
    ensures
        table@ == control_commands(),
{
    let table: Vec<u32> = vec![
        CONVERT_CURRENT_OBJECT_TO_DOMAIN,
        COPY_FROM_CURRENT_DOMAIN,
        CLONE_CURRENT_OBJECT,
        QUERY_POINTER_BUFFER_SIZE,
        CLONE_CURRENT_OBJECT_EX,
    ];
    assert(table@ =~= control_commands());
    table
}

impl<'a> IObject for HipcManager<'a> {
    fn get_session(&mut self) -> (s: &mut Session)
        ensures
            *s == old(self).session,
            final(self).session == *final(s),
            *final(final(self).server_holder) == *final(old(self).server_holder),
            *final(final(self).tables) == *final(old(self).tables),
            *final(self).server_holder == *old(self).server_holder,
            *final(self).tables == *old(self).tables,
            final(self).pointer_buf_size == old(self).pointer_buf_size,
            final(self).cloned_object_server_handle == old(self).cloned_object_server_handle,
            final(self).cloned_object_forward_handle == old(self).cloned_object_forward_handle,
    {
        &mut self.session
    }

    fn get_command_table(&self) -> (table: Vec<u32>)
        ensures
            table@ == control_commands(),
    {
        control_command_table()
    }
}

/// The request id under which an interposer is asked about a process.
pub const SHOULD_MITM: u32 = 65000;

/// Tells whether the interposer `S` wants to interpose on a process.
pub struct MitmQueryServer<S: IMitmService> {
    pub session: Session,
    pub phantom: core::marker::PhantomData<S>,
}

impl<S: IMitmService> MitmQueryServer<S> {
    pub fn should_mitm(&mut self, info: MitmProcessInfo) -> (r: Result<bool, ResultCode>)
        ensures
            r matches Ok(b) && call_ensures(S::should_mitm, (info,), b),
            *final(self) == *old(self),
    {
        Ok(S::should_mitm(info))
    }
}

impl<S: IMitmService> IObject for MitmQueryServer<S> {
    fn get_session(&mut self) -> (s: &mut Session)
        ensures
            *s == old(self).session,
            final(self).session == *final(s),
    {
        &mut self.session
    }

    fn get_command_table(&self) -> (table: Vec<u32>)
        ensures
            table@ == seq![SHOULD_MITM],
    {
        let table: Vec<u32> = vec![SHOULD_MITM];
        assert(table@ =~= seq![SHOULD_MITM]);
        table
    }
}

impl<S: IMitmService> IServerObject for MitmQueryServer<S> {
    fn new() -> (server: Self)
        ensures
            server.session.object_info == (ObjectInfo {
                handle: 0,
                domain_object_id: 0,
                owns_handle: false,
            }),
    {
        MitmQueryServer { session: Session::new(), phantom: core::marker::PhantomData }
    }
}

} // verus!
