//! What is known of a command: the object it is for, what came with the
//! request and what goes into the response.

use vstd::prelude::*;

use crate::headers::{
    BufferDescriptor, DomainObjectId, Handle, ReceiveStaticDescriptor, SendStaticDescriptor,
};
use crate::results::{ResultCode, CONTEXT_FULL};

verus! {

/// How many handles, domain objects or descriptors of one kind can be added to a
/// command context.
pub const MAX_CONTEXT_ITEMS: usize = 8;

/// Where an object is reached: a session, and an object id where the session
/// is a domain.
#[derive(Copy, Clone, PartialEq, Eq, Structural, Debug)]
pub struct ObjectInfo {
    pub handle: Handle,
    pub domain_object_id: DomainObjectId,
    pub owns_handle: bool,
}

impl ObjectInfo {
    /// The info of an object that is reached nowhere.
    pub fn new() -> (info: Self)
        ensures
            info == (ObjectInfo { handle: 0, domain_object_id: 0, owns_handle: false }),
    {
        ObjectInfo { handle: 0, domain_object_id: 0, owns_handle: false }
    }

    /// The info of the object of a session of its own.
    pub open spec fn of_handle(handle: Handle) -> ObjectInfo {
        ObjectInfo { handle, domain_object_id: 0, owns_handle: true }
    }

    pub fn from_handle(handle: Handle) -> (info: Self)
        ensures
            info == ObjectInfo::of_handle(handle),
    {
        ObjectInfo { handle, domain_object_id: 0, owns_handle: true }
    }

    /// The info of an object in the domain of a session.
    pub open spec fn of_domain_object(
        handle: Handle,
        domain_object_id: DomainObjectId,
    ) -> ObjectInfo {
        ObjectInfo { handle, domain_object_id, owns_handle: false }
    }

    pub fn from_domain_object_id(handle: Handle, domain_object_id: DomainObjectId) -> (info: Self)
        ensures
            info == ObjectInfo::of_domain_object(handle, domain_object_id),
    {
        ObjectInfo { handle, domain_object_id, owns_handle: false }
    }

    pub open spec fn in_domain(self) -> bool {
        self.domain_object_id != 0
    }

    pub fn is_domain(&self) -> (b: bool)
        ensures
            b == self.in_domain(),
    {
        self.domain_object_id != 0
    }
}

/// What came with a request. Offsets count from the start of the IPC buffer.
pub struct CommandIn {
    pub send_process_id: bool,
    pub process_id: u64,
    pub data_size: u32,
    pub data_offset: usize,
    pub data_words_offset: usize,
    pub copy_handles: Vec<Handle>,
    pub move_handles: Vec<Handle>,
    pub objects: Vec<DomainObjectId>,
}

/// What goes into a response. Offsets count from the start of the IPC buffer.
pub struct CommandOut {
    pub send_process_id: bool,
    pub data_size: u32,
    pub data_offset: usize,
    pub data_words_offset: usize,
    pub copy_handles: Vec<Handle>,
    pub move_handles: Vec<Handle>,
    pub objects: Vec<DomainObjectId>,
}

/// Everything that is known of a command.
pub struct CommandContext {
    pub object_info: ObjectInfo,
    pub in_params: CommandIn,
    pub out_params: CommandOut,
    pub send_statics: Vec<SendStaticDescriptor>,
    pub receive_statics: Vec<ReceiveStaticDescriptor>,
    pub send_buffers: Vec<BufferDescriptor>,
    pub receive_buffers: Vec<BufferDescriptor>,
    pub exchange_buffers: Vec<BufferDescriptor>,
    /// The address of the unused part of the pointer buffer.
    pub pointer_buffer: u64,
}

/// The model of [`CommandIn`].
#[verifier::ext_equal]
pub struct CommandInModel {
    pub send_process_id: bool,
    pub process_id: u64,
    pub data_size: u32,
    pub data_offset: usize,
    pub data_words_offset: usize,
    pub copy_handles: Seq<Handle>,
    pub move_handles: Seq<Handle>,
    pub objects: Seq<DomainObjectId>,
}

/// The model of [`CommandOut`].
#[verifier::ext_equal]
pub struct CommandOutModel {
    pub send_process_id: bool,
    pub data_size: u32,
    pub data_offset: usize,
    pub data_words_offset: usize,
    pub copy_handles: Seq<Handle>,
    pub move_handles: Seq<Handle>,
    pub objects: Seq<DomainObjectId>,
}

/// The model of [`CommandContext`].
#[verifier::ext_equal]
pub struct CommandModel {
    pub object_info: ObjectInfo,
    pub in_params: CommandInModel,
    pub out_params: CommandOutModel,
    pub send_statics: Seq<SendStaticDescriptor>,
    pub receive_statics: Seq<ReceiveStaticDescriptor>,
    pub send_buffers: Seq<BufferDescriptor>,
    pub receive_buffers: Seq<BufferDescriptor>,
    pub exchange_buffers: Seq<BufferDescriptor>,
    pub pointer_buffer: u64,
}

impl View for CommandIn {
    type V = CommandInModel;

    open spec fn view(&self) -> CommandInModel {
        CommandInModel {
            send_process_id: self.send_process_id,
            process_id: self.process_id,
            data_size: self.data_size,
            data_offset: self.data_offset,
            data_words_offset: self.data_words_offset,
            copy_handles: self.copy_handles@,
            move_handles: self.move_handles@,
            objects: self.objects@,
        }
    }
}

impl View for CommandOut {
    type V = CommandOutModel;

    open spec fn view(&self) -> CommandOutModel {
        CommandOutModel {
            send_process_id: self.send_process_id,
            data_size: self.data_size,
            data_offset: self.data_offset,
            data_words_offset: self.data_words_offset,
            copy_handles: self.copy_handles@,
            move_handles: self.move_handles@,
            objects: self.objects@,
        }
    }
}

impl View for CommandContext {
    type V = CommandModel;

    open spec fn view(&self) -> CommandModel {
        CommandModel {
            object_info: self.object_info,
            in_params: self.in_params@,
            out_params: self.out_params@,
            send_statics: self.send_statics@,
            receive_statics: self.receive_statics@,
            send_buffers: self.send_buffers@,
            receive_buffers: self.receive_buffers@,
            exchange_buffers: self.exchange_buffers@,
            pointer_buffer: self.pointer_buffer,
        }
    }
}

impl CommandInModel {
    pub open spec fn empty() -> CommandInModel {
        CommandInModel {
            send_process_id: false,
            process_id: 0,
            data_size: 0,
            data_offset: 0,
            data_words_offset: 0,
            copy_handles: Seq::empty(),
            move_handles: Seq::empty(),
            objects: Seq::empty(),
        }
    }
}

impl CommandOutModel {
    pub open spec fn empty() -> CommandOutModel {
        CommandOutModel {
            send_process_id: false,
            data_size: 0,
            data_offset: 0,
            data_words_offset: 0,
            copy_handles: Seq::empty(),
            move_handles: Seq::empty(),
            objects: Seq::empty(),
        }
    }
}

impl CommandModel {
    /// The context of a command of which nothing is known but the object.
    pub open spec fn blank(object_info: ObjectInfo, pointer_buffer: u64) -> CommandModel {
        CommandModel {
            object_info,
            in_params: CommandInModel::empty(),
            out_params: CommandOutModel::empty(),
            send_statics: Seq::empty(),
            receive_statics: Seq::empty(),
            send_buffers: Seq::empty(),
            receive_buffers: Seq::empty(),
            exchange_buffers: Seq::empty(),
            pointer_buffer,
        }
    }
}

impl CommandIn {
    pub fn empty() -> (params: Self)
        ensures
            params@ == CommandInModel::empty(),
    {
        CommandIn {
            send_process_id: false,
            process_id: 0,
            data_size: 0,
            data_offset: 0,
            data_words_offset: 0,
            copy_handles: Vec::new(),
            move_handles: Vec::new(),
            objects: Vec::new(),
        }
    }
}

impl CommandOut {
    pub fn empty() -> (params: Self)
        ensures
            params@ == CommandOutModel::empty(),
    {
        CommandOut {
            send_process_id: false,
            data_size: 0,
            data_offset: 0,
            data_words_offset: 0,
            copy_handles: Vec::new(),
            move_handles: Vec::new(),
            objects: Vec::new(),
        }
    }

    /// Adds a handle that stays with the server.
    pub fn push_copy_handle(&mut self, handle: Handle) -> (r: Result<(), ResultCode>)
        ensures
            old(self)@.copy_handles.len() < MAX_CONTEXT_ITEMS ==> r is Ok && final(self)@ == (
            CommandOutModel { copy_handles: old(self)@.copy_handles.push(handle), ..old(self)@ }),
            old(self)@.copy_handles.len() >= MAX_CONTEXT_ITEMS ==> r == Err::<(), _>(
                ResultCode { value: CONTEXT_FULL },
            ) && final(self)@ == old(self)@,
    {
        if self.copy_handles.len() < MAX_CONTEXT_ITEMS {
            self.copy_handles.push(handle);
            Ok(())
        } else {
            Err(ResultCode::new(CONTEXT_FULL))
        }
    }

    /// Adds a handle that the server gives away.
    pub fn push_move_handle(&mut self, handle: Handle) -> (r: Result<(), ResultCode>)
        ensures
            old(self)@.move_handles.len() < MAX_CONTEXT_ITEMS ==> r is Ok && final(self)@ == (
            CommandOutModel { move_handles: old(self)@.move_handles.push(handle), ..old(self)@ }),
            old(self)@.move_handles.len() >= MAX_CONTEXT_ITEMS ==> r == Err::<(), _>(
                ResultCode { value: CONTEXT_FULL },
            ) && final(self)@ == old(self)@,
    {
        if self.move_handles.len() < MAX_CONTEXT_ITEMS {
            self.move_handles.push(handle);
            Ok(())
        } else {
            Err(ResultCode::new(CONTEXT_FULL))
        }
    }

    /// Adds an object of the session's domain.
    pub fn push_domain_object(&mut self, id: DomainObjectId) -> (r: Result<(), ResultCode>)
        ensures
            old(self)@.objects.len() < MAX_CONTEXT_ITEMS ==> r is Ok && final(self)@ == (
            CommandOutModel { objects: old(self)@.objects.push(id), ..old(self)@ }),
            old(self)@.objects.len() >= MAX_CONTEXT_ITEMS ==> r == Err::<(), _>(
                ResultCode { value: CONTEXT_FULL },
            ) && final(self)@ == old(self)@,
    {
        if self.objects.len() < MAX_CONTEXT_ITEMS {
            self.objects.push(id);
            Ok(())
        } else {
            Err(ResultCode::new(CONTEXT_FULL))
        }
    }
}

impl CommandContext {
    /// The context of a command that is sent to an object.
    pub fn new_client(object_info: ObjectInfo) -> (ctx: Self)
        ensures
            ctx@ == CommandModel::blank(object_info, 0),
    {
        CommandContext::new_server(object_info, 0)
    }

    /// The context of a command that an object is to answer.
    pub fn new_server(object_info: ObjectInfo, pointer_buffer: u64) -> (ctx: Self)
        ensures
            ctx@ == CommandModel::blank(object_info, pointer_buffer),
    {
        CommandContext {
            object_info,
            in_params: CommandIn::empty(),
            out_params: CommandOut::empty(),
            send_statics: Vec::new(),
            receive_statics: Vec::new(),
            send_buffers: Vec::new(),
            receive_buffers: Vec::new(),
            exchange_buffers: Vec::new(),
            pointer_buffer,
        }
    }

    /// The context of no command.
    pub fn empty() -> (ctx: Self)
        ensures
            ctx@ == CommandModel::blank(
                ObjectInfo { handle: 0, domain_object_id: 0, owns_handle: false },
                0,
            ),
    {
        CommandContext::new_client(ObjectInfo::new())
    }

    /// Adds a place for buffers that are sent through a pointer buffer.
    pub fn add_receive_static(&mut self, descriptor: ReceiveStaticDescriptor) -> (r: Result<
        (),
        ResultCode,
    >)
        ensures
            old(self)@.receive_statics.len() < MAX_CONTEXT_ITEMS ==> r is Ok && final(self)@ == (
            CommandModel {
                receive_statics: old(self)@.receive_statics.push(descriptor),
                ..old(self)@
            }),
            old(self)@.receive_statics.len() >= MAX_CONTEXT_ITEMS ==> r == Err::<(), _>(
                ResultCode { value: CONTEXT_FULL },
            ) && final(self)@ == old(self)@,
    {
        if self.receive_statics.len() < MAX_CONTEXT_ITEMS {
            self.receive_statics.push(descriptor);
            assert(self@ =~= (CommandModel {
                receive_statics: old(self)@.receive_statics.push(descriptor),
                ..old(self)@
            }));
            Ok(())
        } else {
            Err(ResultCode::new(CONTEXT_FULL))
        }
    }
}

} // verus!
