//! Commands' parameters: how each kind of them is taken from a request and put
//! into a response.

use vstd::prelude::*;

use crate::array::WireItem;
use crate::buffer::IPC_BUFFER_SIZE;
use crate::context::{CommandContext, MAX_CONTEXT_ITEMS};
use crate::domain::Refused;
use crate::headers::Handle;
use crate::holder::{ObjectKey, ServerHolder};
use crate::holders::{HolderVec, MAX_COUNT};
use crate::results::{
    ResultCode, CONTEXT_FULL, DOMAINS_FULL, HIPC_UNSUPPORTED_OPERATION, NEW_SESSIONS_FULL,
};
use crate::sf::ProcessId;
use crate::tables::{DomainTables, TableKey};

verus! {

use crate::buffer::splice;
use crate::context::{CommandModel, CommandOutModel, ObjectInfo};
use crate::domain::TableModel;
use crate::tables::TablesModel;

/// Walks over raw data, each value at the next multiple of its alignment.
#[derive(Copy, Clone, PartialEq, Eq, Structural, Debug)]
pub struct DataWalker {
    /// Where the data starts in the IPC buffer. Without it the walker only
    /// counts.
    pub base: Option<usize>,
    pub cur_offset: usize,
}

/// The first multiple of `align` from `n` on.
pub open spec fn align_up(n: int, align: int) -> int {
    if n % align == 0 {
        n
    } else {
        n + align - n % align
    }
}

impl DataWalker {
    pub fn empty() -> (w: Self)
        ensures
            w == (DataWalker { base: None, cur_offset: 0 }),
    {
        DataWalker { base: None, cur_offset: 0 }
    }

    pub fn new(base: usize) -> (w: Self)
        ensures
            w == (DataWalker { base: Some(base), cur_offset: 0 }),
    {
        DataWalker { base: Some(base), cur_offset: 0 }
    }

    /// Where the next value stands, counted from the start of the data.
    pub open spec fn next_offset<T: WireItem>(self) -> int {
        align_up(self.cur_offset as int, T::alignment() as int)
    }

    /// Where the next value stands in the IPC buffer.
    pub open spec fn next_at<T: WireItem>(self) -> int {
        self.base.unwrap() + self.next_offset::<T>()
    }

    /// The walker behind the next value.
    pub open spec fn advanced<T: WireItem>(self) -> DataWalker {
        DataWalker { cur_offset: (self.next_offset::<T>() + T::width()) as usize, ..self }
    }

    /// The next value lies in the IPC buffer.
    pub open spec fn in_buffer<T: WireItem>(self) -> bool {
        self.base is Some && self.next_at::<T>() + T::width() <= IPC_BUFFER_SIZE
    }

    /// The offset behind the next value can be counted.
    pub open spec fn can_count<T: WireItem>(self) -> bool {
        self.next_offset::<T>() + T::width() <= usize::MAX
    }

    /// Whether the next value lies in the IPC buffer.
    pub fn is_in_buffer<T: WireItem>(&self) -> (b: bool)
        ensures
            b == self.in_buffer::<T>(),
    {
        proof {
            T::width_bounds();
        }
        if self.cur_offset > IPC_BUFFER_SIZE {
            return false;
        }
        match self.base {
            Some(base) => {
                if base > IPC_BUFFER_SIZE {
                    return false;
                }
                let mut next = *self;
                base + next.advance::<T>() + T::item_size() <= IPC_BUFFER_SIZE
            },
            None => false,
        }
    }

    pub fn get_offset(&self) -> (offset: usize)
        ensures
            offset == self.cur_offset,
    {
        self.cur_offset
    }

    /// Steps over the next value, and gives the offset at which it stands.
    pub fn advance<T: WireItem>(&mut self) -> (offset: usize)
        requires
            old(self).can_count::<T>(),
        ensures
            offset == old(self).next_offset::<T>(),
            *final(self) == old(self).advanced::<T>(),
    {
        proof {
            T::width_bounds();
        }
        let align: usize = T::item_align();
        let over: usize = self.cur_offset % align;
        let offset: usize = if over == 0 {
            self.cur_offset
        } else {
            self.cur_offset + (align - over)
        };
        self.cur_offset = offset + T::item_size();
        offset
    }
}

/// What taking a buffer gives where there is none to take.
pub open spec fn no_buffer() -> Result<(u64, u64), ResultCode> {
    Err(ResultCode { value: HIPC_UNSUPPORTED_OPERATION })
}

/// What a command works on.
pub struct ServerContext<'a> {
    pub ctx: &'a mut CommandContext,
    pub raw_data_walker: DataWalker,
    /// The domain table of the session.
    pub domain_table: TableKey,
    pub tables: &'a mut DomainTables,
    /// The sessions that the command makes, in order.
    pub new_sessions: &'a mut HolderVec,
    /// The objects that got a new place to be reached at: what they know of an
    /// earlier one is to be forgotten.
    pub reset_objects: Vec<ObjectKey>,
    /// What came of taking the next buffer from the request's descriptors: its
    /// address and its size. It is set before a buffer is read as a parameter.
    pub next_buffer: Result<(u64, u64), ResultCode>,
}

/// The model of [`ServerContext`].
#[verifier::ext_equal]
pub struct ContextModel {
    pub ctx: CommandModel,
    pub walker: DataWalker,
    pub domain_table: TableKey,
    pub tables: TablesModel,
    pub new_sessions: Seq<ServerHolder>,
    pub reset_objects: Seq<ObjectKey>,
    pub next_buffer: Result<(u64, u64), ResultCode>,
}

impl<'a> View for ServerContext<'a> {
    type V = ContextModel;

    open spec fn view(&self) -> ContextModel {
        ContextModel {
            ctx: (*self.ctx)@,
            walker: self.raw_data_walker,
            domain_table: self.domain_table,
            tables: (*self.tables)@,
            new_sessions: (*self.new_sessions)@,
            reset_objects: self.reset_objects@,
            next_buffer: self.next_buffer,
        }
    }
}

impl<'a> ServerContext<'a> {
    pub fn new(
        ctx: &'a mut CommandContext,
        raw_data_walker: DataWalker,
        domain_table: TableKey,
        tables: &'a mut DomainTables,
        new_sessions: &'a mut HolderVec,
    ) -> (c: Self)
        ensures
            *c.ctx == *old(ctx),
            *final(c.ctx) == *final(ctx),
            c.raw_data_walker == raw_data_walker,
            c.domain_table == domain_table,
            *c.tables == *old(tables),
            *final(c.tables) == *final(tables),
            *c.new_sessions == *old(new_sessions),
            *final(c.new_sessions) == *final(new_sessions),
            c.reset_objects@ == Seq::<ObjectKey>::empty(),
            c.next_buffer == no_buffer(),
    {
        ServerContext {
            ctx,
            raw_data_walker,
            domain_table,
            tables,
            new_sessions,
            reset_objects: Vec::new(),
            next_buffer: Err(ResultCode::new(HIPC_UNSUPPORTED_OPERATION)),
        }
    }

    /// Adds a session that the command made, unless there are too many.
    pub fn push_holder(&mut self, server_holder: ServerHolder) -> (r: Result<(), Refused>)
        ensures
            *final(final(self).ctx) == *final(old(self).ctx),
            *final(final(self).tables) == *final(old(self).tables),
            *final(final(self).new_sessions) == *final(old(self).new_sessions),
            old(self)@.new_sessions.len() < MAX_COUNT ==> r is Ok && final(self)@ == (ContextModel {
                new_sessions: old(self)@.new_sessions.push(server_holder),
                ..old(self)@
            }),
            old(self)@.new_sessions.len() >= MAX_COUNT ==> r == Err::<(), Refused>(
                Refused { code: ResultCode { value: NEW_SESSIONS_FULL }, holder: server_holder },
            ) && final(self)@ == old(self)@,
    {
        match self.new_sessions.push(server_holder) {
            Ok(()) => {
                assert(self@ =~= (ContextModel {
                    new_sessions: old(self)@.new_sessions.push(server_holder),
                    ..old(self)@
                }));
                Ok(())
            },
            Err(holder) => {
                assert(self@ =~= old(self)@);
                Err(Refused { code: ResultCode::new(NEW_SESSIONS_FULL), holder })
            },
        }
    }
}

/// A kind of parameter of a command.
pub trait CommandParameter<O>: Sized {
    /// What a request must offer for the parameter to be taken from it.
    spec fn readable(c: ContextModel) -> bool;

    /// What a response must offer for the parameter to be counted.
    spec fn countable(c: ContextModel) -> bool;

    /// What a response must offer for the parameter to be put into it.
    spec fn writable(c: ContextModel) -> bool;

    /// Takes the parameter from a request.
    fn after_request_read(ctx: &mut ServerContext, ipc_buf: &[u8; 0x100]) -> (r: Result<
        O,
        ResultCode,
    >)
        requires
            Self::readable(old(ctx)@),
        ensures
            *final(final(ctx).ctx) == *final(old(ctx).ctx),
            *final(final(ctx).tables) == *final(old(ctx).tables),
            *final(final(ctx).new_sessions) == *final(old(ctx).new_sessions),
    ;

    /// Makes room for the parameter in a response that is yet to be written.
    fn before_response_write(var: &Self, ctx: &mut ServerContext) -> (r: Result<(), ResultCode>)
        requires
            Self::countable(old(ctx)@),
        ensures
            *final(final(ctx).ctx) == *final(old(ctx).ctx),
            *final(final(ctx).tables) == *final(old(ctx).tables),
            *final(final(ctx).new_sessions) == *final(old(ctx).new_sessions),
    ;

    /// Puts the parameter into a response.
    fn after_response_write(
        var: &Self,
        ctx: &mut ServerContext,
        ipc_buf: &mut [u8; 0x100],
    ) -> (r: Result<(), ResultCode>)
        requires
            Self::writable(old(ctx)@),
        ensures
            *final(final(ctx).ctx) == *final(old(ctx).ctx),
            *final(final(ctx).tables) == *final(old(ctx).tables),
            *final(final(ctx).new_sessions) == *final(old(ctx).new_sessions),
    ;
}

impl<T: WireItem> CommandParameter<T> for T {
    open spec fn readable(c: ContextModel) -> bool {
        c.walker.in_buffer::<T>()
    }

    open spec fn countable(c: ContextModel) -> bool {
        c.walker.can_count::<T>()
    }

    open spec fn writable(c: ContextModel) -> bool {
        c.walker.in_buffer::<T>()
    }

    fn after_request_read(ctx: &mut ServerContext, ipc_buf: &[u8; 0x100]) -> (r: Result<
        T,
        ResultCode,
    >)
        ensures
            r == Ok::<T, ResultCode>(T::decode(ipc_buf@, old(ctx)@.walker.next_at::<T>())),
            final(ctx)@ == (ContextModel { walker: old(ctx)@.walker.advanced::<T>(), ..old(ctx)@ }),
    {
        proof {
            T::width_bounds();
        }
        let base: usize = match ctx.raw_data_walker.base {
            Some(base) => base,
            None => 0,
        };
        let offset: usize = ctx.raw_data_walker.advance::<T>();
        let value = T::read_item(ipc_buf, base + offset);
        assert(ctx@ =~= (ContextModel { walker: old(ctx)@.walker.advanced::<T>(), ..old(ctx)@ }));
        Ok(value)
    }

    fn before_response_write(_raw: &T, ctx: &mut ServerContext) -> (r: Result<(), ResultCode>)
        ensures
            r is Ok,
            final(ctx)@ == (ContextModel { walker: old(ctx)@.walker.advanced::<T>(), ..old(ctx)@ }),
    {
        let _offset: usize = ctx.raw_data_walker.advance::<T>();
        assert(ctx@ =~= (ContextModel { walker: old(ctx)@.walker.advanced::<T>(), ..old(ctx)@ }));
        Ok(())
    }

    fn after_response_write(
        raw: &T,
        ctx: &mut ServerContext,
        ipc_buf: &mut [u8; 0x100],
    ) -> (r: Result<(), ResultCode>)
        ensures
            r is Ok,
            final(ctx)@ == (ContextModel { walker: old(ctx)@.walker.advanced::<T>(), ..old(ctx)@ }),
            final(ipc_buf)@ == splice(
                old(ipc_buf)@,
                old(ctx)@.walker.next_at::<T>(),
                (*raw).encode(),
            ),
    {
        proof {
            T::width_bounds();
        }
        let base: usize = match ctx.raw_data_walker.base {
            Some(base) => base,
            None => 0,
        };
        let offset: usize = ctx.raw_data_walker.advance::<T>();
        raw.write_item(ipc_buf, base + offset);
        assert(ctx@ =~= (ContextModel { walker: old(ctx)@.walker.advanced::<T>(), ..old(ctx)@ }));
        Ok(())
    }
}

impl<const A: u8, const S: usize> CommandParameter<crate::sf::Buffer<A, S>> for crate::sf::Buffer<
    A,
    S,
> {
    open spec fn readable(c: ContextModel) -> bool {
        true
    }

    open spec fn countable(c: ContextModel) -> bool {
        true
    }

    open spec fn writable(c: ContextModel) -> bool {
        true
    }

    /// The buffer is the one that was taken from the descriptors; it is given
    /// out once.
    fn after_request_read(ctx: &mut ServerContext, _ipc_buf: &[u8; 0x100]) -> (r: Result<
        crate::sf::Buffer<A, S>,
        ResultCode,
    >)
        ensures
            r == match old(ctx)@.next_buffer {
                Ok((address, size)) => Ok(crate::sf::Buffer::<A, S> { address, size }),
                Err(rc) => Err(rc),
            },
            final(ctx)@ == (ContextModel { next_buffer: no_buffer(), ..old(ctx)@ }),
    {
        let taken = ctx.next_buffer;
        ctx.next_buffer = Err(ResultCode::new(HIPC_UNSUPPORTED_OPERATION));
        assert(ctx@ =~= (ContextModel { next_buffer: no_buffer(), ..old(ctx)@ }));
        match taken {
            Ok((address, size)) => Ok(crate::sf::Buffer::<A, S> { address, size }),
            Err(rc) => Err(rc),
        }
    }

    /// Buffers do not go into responses: they are written in place.
    fn before_response_write(_buffer: &crate::sf::Buffer<A, S>, _ctx: &mut ServerContext) -> (r: Result<
        (),
        ResultCode,
    >)
        ensures
            r == Err::<(), ResultCode>(ResultCode { value: HIPC_UNSUPPORTED_OPERATION }),
            final(_ctx)@ == old(_ctx)@,
    {
        Err(ResultCode::new(HIPC_UNSUPPORTED_OPERATION))
    }

    fn after_response_write(
        _buffer: &crate::sf::Buffer<A, S>,
        _ctx: &mut ServerContext,
        _ipc_buf: &mut [u8; 0x100],
    ) -> (r: Result<(), ResultCode>)
        ensures
            r == Err::<(), ResultCode>(ResultCode { value: HIPC_UNSUPPORTED_OPERATION }),
            final(_ctx)@ == old(_ctx)@,
            final(_ipc_buf)@ == old(_ipc_buf)@,
    {
        Err(ResultCode::new(HIPC_UNSUPPORTED_OPERATION))
    }
}

impl<const MOVE: bool> CommandParameter<crate::sf::Handle<MOVE>> for crate::sf::Handle<MOVE> {
    open spec fn readable(c: ContextModel) -> bool {
        true
    }

    open spec fn countable(c: ContextModel) -> bool {
        true
    }

    open spec fn writable(c: ContextModel) -> bool {
        true
    }

    /// Handles are not taken from requests.
    fn after_request_read(_ctx: &mut ServerContext, _ipc_buf: &[u8; 0x100]) -> (r: Result<
        crate::sf::Handle<MOVE>,
        ResultCode,
    >)
        ensures
            r == Err::<crate::sf::Handle<MOVE>, ResultCode>(
                ResultCode { value: HIPC_UNSUPPORTED_OPERATION },
            ),
            final(_ctx)@ == old(_ctx)@,
    {
        Err(ResultCode::new(HIPC_UNSUPPORTED_OPERATION))
    }

    fn before_response_write(handle: &crate::sf::Handle<MOVE>, ctx: &mut ServerContext) -> (r: Result<
        (),
        ResultCode,
    >)
        ensures
            (r, final(ctx)@) == with_handle(old(ctx)@, MOVE, handle.handle),
    {
        let r: Result<(), ResultCode> = if MOVE {
            ctx.ctx.out_params.push_move_handle(handle.handle)
        } else {
            ctx.ctx.out_params.push_copy_handle(handle.handle)
        };
        assert(ctx@ =~= with_handle(old(ctx)@, MOVE, handle.handle).1);
        match r {
            Ok(()) => Ok(()),
            Err(rc) => Err(rc),
        }
    }

    /// A handle is in place once the response is written.
    fn after_response_write(
        _handle: &crate::sf::Handle<MOVE>,
        _ctx: &mut ServerContext,
        _ipc_buf: &mut [u8; 0x100],
    ) -> (r: Result<(), ResultCode>)
        ensures
            r is Ok,
            final(_ctx)@ == old(_ctx)@,
            final(_ipc_buf)@ == old(_ipc_buf)@,
    {
        Ok(())
    }
}

/// What adding a handle to the response gives: it is added where there is room.
pub open spec fn with_handle(c: ContextModel, moved: bool, handle: Handle) -> (
    Result<(), ResultCode>,
    ContextModel,
) {
    let out = c.ctx.out_params;
    let full = if moved {
        out.move_handles.len() >= MAX_CONTEXT_ITEMS
    } else {
        out.copy_handles.len() >= MAX_CONTEXT_ITEMS
    };
    if full {
        (Err(ResultCode { value: CONTEXT_FULL }), c)
    } else {
        let added = if moved {
            CommandOutModel { move_handles: out.move_handles.push(handle), ..out }
        } else {
            CommandOutModel { copy_handles: out.copy_handles.push(handle), ..out }
        };
        (Ok(()), ContextModel { ctx: CommandModel { out_params: added, ..c.ctx }, ..c })
    }
}

impl CommandParameter<ProcessId> for ProcessId {
    /// A placeholder for the process id stands among the raw data.
    open spec fn readable(c: ContextModel) -> bool {
        c.ctx.in_params.send_process_id ==> c.walker.in_buffer::<u64>()
    }

    open spec fn countable(c: ContextModel) -> bool {
        true
    }

    open spec fn writable(c: ContextModel) -> bool {
        true
    }

    /// The process id is the one that the kernel put into the request.
    fn after_request_read(ctx: &mut ServerContext, ipc_buf: &[u8; 0x100]) -> (r: Result<
        ProcessId,
        ResultCode,
    >)
        ensures
            if old(ctx)@.ctx.in_params.send_process_id {
                &&& r == Ok::<ProcessId, ResultCode>(
                    ProcessId { process_id: old(ctx)@.ctx.in_params.process_id },
                )
                &&& final(ctx)@ == (ContextModel {
                    walker: old(ctx)@.walker.advanced::<u64>(),
                    ..old(ctx)@
                })
            } else {
                &&& r == Err::<ProcessId, ResultCode>(
                    ResultCode { value: HIPC_UNSUPPORTED_OPERATION },
                )
                &&& final(ctx)@ == old(ctx)@
            },
    {
        if ctx.ctx.in_params.send_process_id {
            let _placeholder: usize = ctx.raw_data_walker.advance::<u64>();
            assert(ctx@ =~= (ContextModel {
                walker: old(ctx)@.walker.advanced::<u64>(),
                ..old(ctx)@
            }));
            Ok(ProcessId { process_id: ctx.ctx.in_params.process_id })
        } else {
            Err(ResultCode::new(HIPC_UNSUPPORTED_OPERATION))
        }
    }

    fn before_response_write(_process_id: &ProcessId, _ctx: &mut ServerContext) -> (r: Result<
        (),
        ResultCode,
    >)
        ensures
            r == Err::<(), ResultCode>(ResultCode { value: HIPC_UNSUPPORTED_OPERATION }),
            final(_ctx)@ == old(_ctx)@,
    {
        Err(ResultCode::new(HIPC_UNSUPPORTED_OPERATION))
    }

    fn after_response_write(
        _process_id: &ProcessId,
        _ctx: &mut ServerContext,
        _ipc_buf: &mut [u8; 0x100],
    ) -> (r: Result<(), ResultCode>)
        ensures
            r == Err::<(), ResultCode>(ResultCode { value: HIPC_UNSUPPORTED_OPERATION }),
            final(_ctx)@ == old(_ctx)@,
            final(_ipc_buf)@ == old(_ipc_buf)@,
    {
        Err(ResultCode::new(HIPC_UNSUPPORTED_OPERATION))
    }
}

/// An object that a command gives to its caller. Where the session is no domain,
/// the object goes into a session of its own: `session` is what came of making
/// one, first its server's end, then its client's.
#[derive(Copy, Clone, Debug)]
pub struct SessionObject {
    pub object: ObjectKey,
    pub session: Result<(Handle, Handle), ResultCode>,
}

impl ContextModel {
    /// The session's domain table.
    pub open spec fn table(self) -> TableModel {
        self.tables.table(self.domain_table)
    }
}

/// What giving an object to the caller through the session's domain gives: it
/// gets an id, which goes into the response, and joins the domain.
pub open spec fn with_domain_object(c: ContextModel, object: ObjectKey) -> (
    Result<(), ResultCode>,
    ContextModel,
) {
    let out = c.ctx.out_params;
    let taken = ContextModel {
        tables: c.tables.with(c.domain_table, c.table().allocated()),
        ..c
    };
    match c.table().allocation() {
        Err(rc) => (Err(rc), c),
        Ok(id) => if out.objects.len() >= MAX_CONTEXT_ITEMS {
            (Err(ResultCode { value: CONTEXT_FULL }), taken)
        } else {
            let told = ContextModel {
                ctx: CommandModel {
                    out_params: CommandOutModel { objects: out.objects.push(id), ..out },
                    ..c.ctx
                },
                reset_objects: c.reset_objects.push(object),
                ..taken
            };
            let key = taken.tables.fresh_key();
            let made = taken.tables.with_new();
            let holder = ServerHolder::session_of(
                ObjectInfo::of_domain_object(0, id),
                object,
                key,
            );
            if taken.table().domains.len() >= MAX_COUNT {
                (
                    Err(ResultCode { value: DOMAINS_FULL }),
                    ContextModel { tables: made.without(key), ..told },
                )
            } else {
                (
                    Ok(()),
                    ContextModel {
                        tables: made.with(
                            c.domain_table,
                            TableModel {
                                domains: taken.table().domains.push(holder),
                                ..taken.table()
                            },
                        ),
                        ..told
                    },
                )
            }
        },
    }
}

/// What giving an object to the caller through a session of its own gives: the
/// client's end goes into the response, the server's end among the new sessions.
pub open spec fn with_session_object(
    c: ContextModel,
    object: ObjectKey,
    server_handle: Handle,
    client_handle: Handle,
) -> (Result<(), ResultCode>, ContextModel) {
    let (r, sent) = with_handle(c, true, client_handle);
    if r is Err {
        (r, c)
    } else {
        let told = ContextModel { reset_objects: c.reset_objects.push(object), ..sent };
        let key = c.tables.fresh_key();
        let made = c.tables.with_new();
        let holder = ServerHolder::session_of(ObjectInfo::of_handle(server_handle), object, key);
        if c.new_sessions.len() >= MAX_COUNT {
            (
                Err(ResultCode { value: NEW_SESSIONS_FULL }),
                ContextModel { tables: made.without(key), ..told },
            )
        } else {
            (
                Ok(()),
                ContextModel {
                    new_sessions: c.new_sessions.push(holder),
                    tables: made,
                    ..told
                },
            )
        }
    }
}

impl CommandParameter<SessionObject> for SessionObject {
    open spec fn readable(c: ContextModel) -> bool {
        true
    }

    /// In a domain, the session has its domain table.
    open spec fn countable(c: ContextModel) -> bool {
        c.ctx.object_info.in_domain() ==> c.tables.has(c.domain_table)
    }

    open spec fn writable(c: ContextModel) -> bool {
        true
    }

    /// Objects are not taken from requests.
    fn after_request_read(_ctx: &mut ServerContext, _ipc_buf: &[u8; 0x100]) -> (r: Result<
        SessionObject,
        ResultCode,
    >)
        ensures
            r == Err::<SessionObject, ResultCode>(ResultCode { value: HIPC_UNSUPPORTED_OPERATION }),
            final(_ctx)@ == old(_ctx)@,
    {
        Err(ResultCode::new(HIPC_UNSUPPORTED_OPERATION))
    }

    /// A holder that finds no room is let go, and its empty domain table with it:
    /// the command still has the object.
    fn before_response_write(session: &SessionObject, ctx: &mut ServerContext) -> (r: Result<
        (),
        ResultCode,
    >)
        ensures
            (r, final(ctx)@) == if old(ctx)@.ctx.object_info.in_domain() {
                with_domain_object(old(ctx)@, session.object)
            } else {
                match session.session {
                    Ok((server_handle, client_handle)) => with_session_object(
                        old(ctx)@,
                        session.object,
                        server_handle,
                        client_handle,
                    ),
                    Err(rc) => (Err(rc), old(ctx)@),
                }
            },
    {
        if ctx.ctx.object_info.is_domain() {
            let domain_object_id: u32 = match ctx.tables.table_mut(ctx.domain_table).allocate_id() {
                Ok(id) => id,
                Err(rc) => {
                    assert(ctx@ =~= old(ctx)@);
                    return Err(rc);
                },
            };
            if let Err(rc) = ctx.ctx.out_params.push_domain_object(domain_object_id) {
                assert(ctx@ =~= with_domain_object(old(ctx)@, session.object).1);
                return Err(rc);
            }
            ctx.reset_objects.push(session.object);
            proof {
                (*ctx.tables)@.slots.index_of_first_ensures(None);
            }
            let holder = ServerHolder::new_domain_session(
                0,
                domain_object_id,
                session.object,
                ctx.tables,
            );
            match ctx.tables.table_mut(ctx.domain_table).add_domain(holder) {
                Ok(()) => {
                    assert(ctx@ =~= with_domain_object(old(ctx)@, session.object).1);
                    Ok(())
                },
                Err(refused) => {
                    let mut none: Vec<ServerHolder> = Vec::new();
                    ctx.tables.free(refused.holder.domain_table, &mut none);
                    assert(ctx@ =~= with_domain_object(old(ctx)@, session.object).1);
                    Err(refused.code)
                },
            }
        } else {
            match session.session {
                Ok((server_handle, client_handle)) => {
                    if let Err(rc) = ctx.ctx.out_params.push_move_handle(client_handle) {
                        assert(ctx@ =~= old(ctx)@);
                        return Err(rc);
                    }
                    ctx.reset_objects.push(session.object);
                    let holder = ServerHolder::new_session(
                        server_handle,
                        session.object,
                        ctx.tables,
                    );
                    match ctx.push_holder(holder) {
                        Ok(()) => {
                            assert(ctx@ =~= with_session_object(
                                old(ctx)@,
                                session.object,
                                server_handle,
                                client_handle,
                            ).1);
                            Ok(())
                        },
                        Err(refused) => {
                            let mut none: Vec<ServerHolder> = Vec::new();
                            ctx.tables.free(refused.holder.domain_table, &mut none);
                            assert(ctx@ =~= with_session_object(
                                old(ctx)@,
                                session.object,
                                server_handle,
                                client_handle,
                            ).1);
                            Err(refused.code)
                        },
                    }
                },
                Err(rc) => Err(rc),
            }
        }
    }

    /// The object is in place once the response is written.
    fn after_response_write(
        _session: &SessionObject,
        _ctx: &mut ServerContext,
        _ipc_buf: &mut [u8; 0x100],
    ) -> (r: Result<(), ResultCode>)
        ensures
            r is Ok,
            final(_ctx)@ == old(_ctx)@,
            final(_ipc_buf)@ == old(_ipc_buf)@,
    {
        Ok(())
    }
}

} // verus!
