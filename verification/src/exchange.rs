//! Serving a signaled handle, step by step. The program around the library does
//! what an action says and reports what came of it, until the action is to
//! finish.

use vstd::prelude::*;

use crate::client::write_command_on_ipc_buffer;
use crate::commands::{
    read_command_from_ipc_buffer, read_control_command_from_ipc_buffer,
    read_request_command_from_ipc_buffer, write_close_command_response_on_ipc_buffer,
    write_control_command_response_on_ipc_buffer, write_request_command_response_on_ipc_buffer,
};
use crate::context::CommandContext;
use crate::headers::{
    CommandType, DomainCommandType, DomainObjectId, Handle, ReceiveStaticDescriptor,
};
use crate::hipc::control_command_table;
use crate::holder::{NewServerFn, ObjectKey, ServerHolder, WaitHandleType};
use crate::holders::HolderVec;
use crate::manager::ServerManager;
use crate::params::{DataWalker, ServerContext};
use crate::ready::{
    is_control_in_buffer, is_message_in_buffer, is_request_in_buffer, is_room_for_control_response,
    is_room_for_request_response,
};
use crate::results::{
    ResultCode, CMIF_INVALID_COMMAND_REQUEST_ID, INVALID_DOMAIN_COMMAND, OS_SESSION_CLOSED,
    OS_TIMEOUT, SM_MITM_SHOULD_FORWARD_TO_SESSION, UNKNOWN_SIGNALED_HANDLE,
};
use crate::sm::ServiceName;
use crate::tables::TableKey;

verus! {

use crate::buffer::{u32_at, IPC_BUFFER_SIZE};
use crate::client::command_outline;
use crate::commands::{
    aligned, control_readable, control_response, control_response_outline, request_head,
    request_readable, request_response, request_response_header_at, request_response_outline,
    response_outline, with_command, with_control, with_request, with_response, with_response_words,
};
use crate::context::{CommandModel, ObjectInfo};
use crate::domain::TableModel;
use crate::headers::IN_DATA_HEADER_MAGIC;
use crate::hipc::control_commands;
use crate::manager::{first_with, ManagerModel, Offer};
use crate::message::{message_fits, outline_of};
use crate::params::{no_buffer, ContextModel};
use crate::results::{CMIF_INVALID_INPUT_HEADER, HIPC_SESSION_CLOSED};
use crate::tables::TablesModel;

/// What is to be done next, and reported.
#[derive(Copy, Clone, PartialEq, Eq, Debug)]
pub enum Action {
    /// Receive the message of a session into the IPC buffer, however long it
    /// takes.
    Receive { handle: Handle },
    /// Accept a session of a port.
    AcceptSession { port: Handle },
    /// Acknowledge to the service manager that a session of an interposed
    /// service was accepted.
    AcknowledgeMitm { service_name: ServiceName },
    /// Make the server object of a new session.
    CreateObject { new_server_fn: NewServerFn },
    /// Tell which commands an object has.
    ListCommands { object: ObjectKey },
    /// Let an object carry out the command at a place of its table.
    CallCommand { object: ObjectKey, command: usize },
    /// Carry out the control command at a place of the table of these.
    CallControl { index: usize, command: usize },
    /// Send the message in the IPC buffer on.
    Forward { handle: Handle },
    /// Take the released holders, and release them.
    Release,
    /// Send the message in the IPC buffer back, without waiting.
    Reply { handle: Handle },
    /// Nothing: the handle was served, with this result.
    Finish { result: Result<(), ResultCode> },
}

/// How far a signaled handle was served: what is being waited for.
#[derive(Copy, Clone, PartialEq, Eq, Structural, Debug)]
pub enum Stage {
    Receiving,
    Accepting,
    Acknowledging { new_handle: Handle },
    Creating { new_handle: Handle, forward_handle: Handle },
    Listing,
    Calling { at: usize },
    Forwarding { next: usize },
    Controlling,
    Releasing,
    Replying { closing: bool },
    Finished,
}

/// A signaled handle that is being served.
pub struct Exchange {
    handle: Handle,
    index: usize,
    pointer_buffer: u64,
    stage: Stage,
    ctx: CommandContext,
    command_type: CommandType,
    rq_id: u32,
    domain_table: TableKey,
    ipc_buf_backup: [u8; 0x100],
    object: ObjectKey,
    commands: Vec<u32>,
    new_sessions: HolderVec,
    released: Vec<ServerHolder>,
}

/// The model of [`Exchange`].
#[verifier::ext_equal]
pub struct ExchangeModel {
    /// The handle that was signaled.
    pub handle: Handle,
    /// The place of its holder.
    pub index: usize,
    /// The address of the server's pointer buffer.
    pub pointer_buffer: u64,
    pub stage: Stage,
    pub ctx: CommandModel,
    pub command_type: CommandType,
    /// The id of the command that is asked for.
    pub rq_id: u32,
    /// The domain table of the session that a request came through.
    pub domain_table: TableKey,
    /// The message as it came.
    pub backup: Seq<u8>,
    /// The object that the command is asked of.
    pub object: ObjectKey,
    /// The request ids of its commands, in order.
    pub commands: Seq<u32>,
    /// The sessions that the command has made, in order.
    pub new_sessions: Seq<ServerHolder>,
    /// The holders that are gone and yet to be closed, in order.
    pub released: Seq<ServerHolder>,
}

impl View for Exchange {
    type V = ExchangeModel;

    closed spec fn view(&self) -> ExchangeModel {
        ExchangeModel {
            handle: self.handle,
            index: self.index,
            pointer_buffer: self.pointer_buffer,
            stage: self.stage,
            ctx: self.ctx@,
            command_type: self.command_type,
            rq_id: self.rq_id,
            domain_table: self.domain_table,
            backup: self.ipc_buf_backup@,
            object: self.object,
            commands: self.commands@,
            new_sessions: self.new_sessions@,
            released: self.released@,
        }
    }
}

/// Everything that a step of serving a handle works on.
#[verifier::ext_equal]
pub struct State {
    pub manager: ManagerModel,
    pub exchange: ExchangeModel,
    /// The bytes of the IPC buffer.
    pub buf: Seq<u8>,
}

pub open spec fn state_of<const P: usize>(
    manager: ServerManager<P>,
    exchange: Exchange,
    ipc_buf: [u8; 0x100],
) -> State {
    State { manager: manager@, exchange: exchange@, buf: ipc_buf@ }
}

/// The context of the empty message that tells the kernel where the pointer
/// buffer is.
pub open spec fn pointer_buffer_context(
    info: ObjectInfo,
    pointer_buffer: u64,
    size: int,
) -> CommandModel {
    CommandModel {
        receive_statics: seq![ReceiveStaticDescriptor::describe(pointer_buffer, size)],
        ..CommandModel::blank(info, 0)
    }
}

/// The place of the first command from `from` on that has a request id.
pub open spec fn next_command(commands: Seq<u32>, rq_id: u32, from: int) -> Option<int> {
    match commands.skip(from).index_of_first(rq_id) {
        Some(i) => Some(from + i),
        None => None,
    }
}

/// The object that a request is for, where it came through a session with this
/// info and names this object id. The session's own object is reached by the
/// session's own id.
pub open spec fn target_info(info: ObjectInfo, id: DomainObjectId) -> ObjectInfo {
    if info.in_domain() {
        ObjectInfo {
            handle: info.handle,
            domain_object_id: id,
            owns_handle: info.domain_object_id == id,
        }
    } else {
        info
    }
}

/// What comes of offering holders to a manager one after the other. Once one
/// finds no room, the rest is not offered.
pub open spec fn offered_all(manager: ManagerModel, holders: Seq<ServerHolder>) -> Offer
    decreases holders.len(),
{
    if holders.len() == 0 {
        Offer { result: Ok(()), manager, refused: Seq::empty() }
    } else {
        let first = manager.offered(holders[0]);
        if first.result is Err {
            Offer { result: first.result, manager, refused: holders }
        } else {
            offered_all(first.manager, holders.skip(1))
        }
    }
}

impl ExchangeModel {
    /// Serving this handle is to start.
    pub open spec fn starting(handle: Handle, pointer_buffer: u64) -> ExchangeModel {
        ExchangeModel {
            handle,
            index: 0,
            pointer_buffer,
            stage: Stage::Finished,
            ctx: CommandModel::blank(
                ObjectInfo { handle: 0, domain_object_id: 0, owns_handle: false },
                0,
            ),
            command_type: CommandType::Invalid,
            rq_id: 0,
            domain_table: 0,
            backup: Seq::new(IPC_BUFFER_SIZE as nat, |i: int| 0u8),
            object: 0,
            commands: Seq::empty(),
            new_sessions: Seq::empty(),
            released: Seq::empty(),
        }
    }
}

impl State {
    /// The manager is well-formed, and so are the new sessions. Until the answer
    /// is to be sent, the holder that is being served is there, at first as the
    /// first one with its handle; while a request is handled, so is its domain
    /// table. There are new sessions only once a command was called.
    pub open spec fn valid(self) -> bool {
        &&& self.manager.wf()
        &&& self.sessions_valid()
        &&& self.exchange.stage !is Finished && self.exchange.stage !is Replying
            && self.exchange.stage !is Releasing ==> self.exchange.index < self.manager.holders.len()
        &&& self.exchange.stage is Receiving ==> first_with(
            self.manager.holders,
            self.holder().info.handle,
        ) == Some(self.exchange.index as int)
        &&& self.exchange.stage is Listing || self.exchange.stage is Calling
            || self.exchange.stage is Forwarding ==> self.manager.tables.has(
            self.exchange.domain_table,
        )
        &&& self.exchange.stage is Receiving || self.exchange.stage is Listing
            || self.exchange.stage is Releasing ==> self.exchange.new_sessions.len() == 0
        &&& self.exchange.stage matches Stage::Calling { at } ==> at < self.exchange.commands.len()
        &&& self.exchange.stage matches Stage::Forwarding { next } ==> next
            <= self.exchange.commands.len()
    }

    /// The domain tables of the new sessions are there.
    pub open spec fn sessions_valid(self) -> bool {
        forall|i: int|
            0 <= i < self.exchange.new_sessions.len() ==> self.manager.tables.has(
                (#[trigger] self.exchange.new_sessions[i]).domain_table,
            )
    }

    /// The holder that is being served.
    pub open spec fn holder(self) -> ServerHolder {
        self.manager.holders[self.exchange.index as int]
    }

    /// The domain table of the session that the request came through.
    pub open spec fn table(self) -> TableModel {
        self.manager.tables.table(self.exchange.domain_table)
    }

    /// The place of the holder that the message is for.
    pub open spec fn addressed(self) -> Option<int> {
        first_with(self.manager.holders, self.exchange.ctx.object_info.handle)
    }

    pub open spec fn at_stage(self, stage: Stage) -> State {
        State { exchange: ExchangeModel { stage, ..self.exchange }, ..self }
    }

    pub open spec fn finish(self, result: Result<(), ResultCode>) -> (State, Action) {
        (self.at_stage(Stage::Finished), Action::Finish { result })
    }

    pub open spec fn reply(self, closing: bool) -> (State, Action) {
        (self.at_stage(Stage::Replying { closing }), Action::Reply { handle: self.exchange.handle })
    }

    /// What serving the handle starts with. A session's message is received,
    /// after the kernel was told where the pointer buffer is, if there is one; a
    /// port's session is accepted; a handle that no holder has is an error.
    pub open spec fn started(self, pointer_buf_size: int) -> (State, Action) {
        match first_with(self.manager.holders, self.exchange.handle) {
            None => self.finish(Err(ResultCode { value: UNKNOWN_SIGNALED_HANDLE })),
            Some(at) => {
                let s = State {
                    exchange: ExchangeModel { index: at as usize, ..self.exchange },
                    ..self
                };
                match s.holder().handle_type {
                    WaitHandleType::Session => (
                        State {
                            buf: if pointer_buf_size > 0 {
                                command_outline(
                                    pointer_buffer_context(
                                        s.holder().info,
                                        self.exchange.pointer_buffer,
                                        pointer_buf_size,
                                    ),
                                    CommandType::Invalid,
                                    0,
                                ).put(s.buf)
                            } else {
                                s.buf
                            },
                            ..s.at_stage(Stage::Receiving)
                        },
                        Action::Receive { handle: s.exchange.handle },
                    ),
                    WaitHandleType::Server => (
                        s.at_stage(Stage::Accepting),
                        Action::AcceptSession { port: s.exchange.handle },
                    ),
                }
            },
        }
    }

    /// The server object of a new session is to be made.
    pub open spec fn creating(self, new_handle: Handle, forward_handle: Handle) -> (State, Action) {
        match self.holder().new_server_fn {
            Some(new_server_fn) => (
                self.at_stage(Stage::Creating { new_handle, forward_handle }),
                Action::CreateObject { new_server_fn },
            ),
            None => self.finish(Err(ResultCode { value: HIPC_SESSION_CLOSED })),
        }
    }

    /// A session of the port was accepted, or not. That of an interposed service
    /// is acknowledged.
    pub open spec fn accepted(self, result: Result<Handle, ResultCode>) -> (State, Action) {
        match result {
            Err(rc) => self.finish(Err(rc)),
            Ok(new_handle) => if self.holder().is_mitm_service {
                (
                    self.at_stage(Stage::Acknowledging { new_handle }),
                    Action::AcknowledgeMitm { service_name: self.holder().service_name },
                )
            } else {
                self.creating(new_handle, 0)
            },
        }
    }

    /// The service manager acknowledged the session, and gave the handle that
    /// reaches the service behind the interposer, or not.
    pub open spec fn acknowledged(self, result: Result<Handle, ResultCode>) -> (State, Action) {
        match result {
            Err(rc) => self.finish(Err(rc)),
            Ok(forward_handle) => self.creating(
                self.exchange.stage->Acknowledging_new_handle,
                forward_handle,
            ),
        }
    }

    /// The state after holders were offered to the manager.
    pub open spec fn after_offer(self, offer: Offer) -> State {
        State {
            manager: offer.manager,
            exchange: ExchangeModel {
                released: self.exchange.released + offer.refused,
                ..self.exchange
            },
            ..self
        }
    }

    /// The server object of the new session was made: the session is served.
    pub open spec fn created(self, server: ObjectKey) -> (State, Action) {
        if self.holder().new_server_fn is None {
            self.finish(Err(ResultCode { value: HIPC_SESSION_CLOSED }))
        } else {
            let offer = self.manager.with_new_table().offered(
                self.holder().accepted(
                    self.exchange.stage->Creating_new_handle,
                    self.exchange.stage->Creating_forward_handle,
                    server,
                    self.manager.tables.fresh_key(),
                ),
            );
            self.after_offer(offer).finish(offer.result)
        }
    }
}

impl State {
    /// The state after the session was taken out.
    pub open spec fn removed(self) -> State {
        State {
            manager: self.manager.without(self.exchange.index as int),
            exchange: ExchangeModel {
                released: self.exchange.released + self.manager.released_by(
                    self.exchange.index as int,
                ),
                ..self.exchange
            },
            ..self
        }
    }

    /// The sessions that the command has made are served, and the answer is
    /// sent.
    pub open spec fn settle(self) -> (State, Action) {
        let offer = offered_all(self.manager, self.exchange.new_sessions);
        let emptied = State {
            exchange: ExchangeModel { new_sessions: Seq::empty(), ..self.exchange },
            ..self
        };
        match offer.result {
            Ok(_) => emptied.after_offer(offer).reply(false),
            Err(rc) => emptied.after_offer(offer).finish(Err(rc)),
        }
    }

    /// The state after the request was answered with a result.
    pub open spec fn answered(self, rc: ResultCode) -> State {
        let ctx = self.exchange.ctx;
        let request_type = self.exchange.command_type;
        let o = request_response_outline(ctx, request_type);
        State {
            buf: request_response(ctx, rc, request_type, self.buf),
            exchange: ExchangeModel {
                ctx: with_response(ctx, o, request_response_header_at(ctx, o)),
                ..self.exchange
            },
            ..self
        }
    }

    /// A result to the request can be written.
    pub open spec fn can_answer(self) -> bool {
        request_response_outline(self.exchange.ctx, self.exchange.command_type).writable()
    }

    /// The message is sent on as it came.
    pub open spec fn forward(self, next: usize) -> (State, Action) {
        (
            State { buf: self.exchange.backup, ..self.at_stage(Stage::Forwarding { next }) },
            Action::Forward { handle: self.holder().forward_handle },
        )
    }

    /// The next command with the request id is called. Where there was none at
    /// all, the service behind an interposer answers; other servers answer that
    /// there is no such command.
    pub open spec fn advance(self, from: int, found: bool) -> (State, Action) {
        match next_command(self.exchange.commands, self.exchange.rq_id, from) {
            Some(at) => (
                self.at_stage(Stage::Calling { at: at as usize }),
                Action::CallCommand { object: self.exchange.object, command: at as usize },
            ),
            None => if found {
                self.settle()
            } else if self.holder().is_mitm_service {
                self.forward(self.exchange.commands.len() as usize)
            } else {
                self.answered(ResultCode { value: CMIF_INVALID_COMMAND_REQUEST_ID }).settle()
            },
        }
    }

    /// What is needed to go on after the commands of the object were listed.
    pub open spec fn can_list(self, commands: Seq<u32>) -> bool {
        next_command(commands, self.exchange.rq_id, 0) is None && !self.holder().is_mitm_service
            ==> self.can_answer()
    }

    /// The commands of the object were listed.
    pub open spec fn listed(self, commands: Seq<u32>) -> (State, Action) {
        (State { exchange: ExchangeModel { commands, ..self.exchange }, ..self }).advance(0, false)
    }

    /// A command that ends like this leaves the answer to the service behind the
    /// interposer.
    pub open spec fn forwards(self, rc: ResultCode) -> bool {
        self.holder().is_mitm_service && rc.value == SM_MITM_SHOULD_FORWARD_TO_SESSION
    }

    /// The state after a command left its context, the domain tables and the new
    /// sessions like this.
    pub open spec fn commanded(
        self,
        ctx: CommandModel,
        tables: TablesModel,
        new_sessions: Seq<ServerHolder>,
    ) -> State {
        State {
            manager: ManagerModel { tables, ..self.manager },
            exchange: ExchangeModel { ctx, new_sessions, ..self.exchange },
            ..self
        }
    }

    /// What is needed to go on after a command was called.
    pub open spec fn can_call(self, result: Result<(), ResultCode>) -> bool {
        result matches Err(rc) ==> self.forwards(rc) || self.can_answer()
    }

    /// A command was called. One that succeeds has written the answer.
    pub open spec fn called(self, result: Result<(), ResultCode>) -> (State, Action) {
        let at = self.exchange.stage->Calling_at;
        match result {
            Ok(_) => self.advance(at + 1, true),
            Err(rc) => if self.forwards(rc) {
                self.forward((at + 1) as usize)
            } else {
                self.answered(rc).advance(at + 1, true)
            },
        }
    }

    /// What is needed to go on after the message was sent on.
    pub open spec fn can_forward(self, result: Result<(), ResultCode>) -> bool {
        result is Err ==> self.can_answer()
    }

    /// The message was sent on. Where that succeeded, the answer came with it.
    pub open spec fn forwarded(self, result: Result<(), ResultCode>) -> (State, Action) {
        let next = self.exchange.stage->next as int;
        match result {
            Ok(_) => self.advance(next, true),
            Err(rc) => self.answered(rc).advance(next, true),
        }
    }

    /// The object that a request is for, where the holder at this place is
    /// addressed: an object of the domain, or that of the session itself.
    pub open spec fn target(self, at: int) -> Result<ObjectKey, ResultCode> {
        let info = self.exchange.ctx.object_info;
        if info.in_domain() && !info.owns_handle {
            self.table().found(info.domain_object_id)
        } else {
            Ok(self.manager.holders[at].server)
        }
    }

    /// The commands of the object that the request is for are to be listed.
    /// Where no holder is addressed, there is nothing to do but to reply.
    pub open spec fn find_target(self) -> (State, Action) {
        match self.addressed() {
            None => self.reply(false),
            Some(at) => match self.target(at) {
                Ok(object) => (
                    State {
                        exchange: ExchangeModel {
                            index: at as usize,
                            object,
                            new_sessions: Seq::empty(),
                            stage: Stage::Listing,
                            ..self.exchange
                        },
                        ..self
                    },
                    Action::ListCommands { object },
                ),
                Err(rc) => self.finish(Err(rc)),
            },
        }
    }

    /// The answer is sent once the released holders are released.
    pub open spec fn release(self) -> (State, Action) {
        (self.at_stage(Stage::Releasing), Action::Release)
    }

    /// The released holders were released.
    pub open spec fn holders_released(self) -> (State, Action) {
        self.reply(false)
    }

    /// An object of the domain is taken back, and what holds it is released
    /// before the answer is sent. The session's own object stays.
    pub open spec fn close_domain_object(self) -> (State, Action) {
        let id = self.exchange.ctx.object_info.domain_object_id;
        if self.exchange.ctx.object_info.owns_handle {
            self.reply(false)
        } else {
            match self.table().deallocation(id) {
                Ok(holder) => (State {
                    manager: ManagerModel {
                        tables: self.manager.tables.with(
                            self.exchange.domain_table,
                            self.table().deallocated(id),
                        ),
                        ..self.manager
                    },
                    exchange: ExchangeModel {
                        released: self.exchange.released.push(holder),
                        ..self.exchange
                    },
                    ..self
                }).release(),
                Err(rc) => self.finish(Err(rc)),
            }
        }
    }

    /// The domain table is needed to handle a request.
    pub open spec fn needs_table(self, domain_command_type: DomainCommandType) -> bool {
        match domain_command_type {
            DomainCommandType::Close => !self.exchange.ctx.object_info.owns_handle,
            _ => self.addressed() is Some,
        }
    }

    /// A request is handled. In a domain it names what is asked of the domain.
    pub open spec fn handle_request(self, domain_command_type: DomainCommandType) -> (
        State,
        Action,
    ) {
        match domain_command_type {
            DomainCommandType::Invalid => if self.exchange.ctx.object_info.in_domain() {
                self.finish(Err(ResultCode { value: INVALID_DOMAIN_COMMAND }))
            } else {
                self.find_target()
            },
            DomainCommandType::SendMessage => self.find_target(),
            DomainCommandType::Close => self.close_domain_object(),
        }
    }
}

impl State {
    /// The state after the control message was answered with a result.
    pub open spec fn control_answered(self, rc: ResultCode) -> State {
        let ctx = self.exchange.ctx;
        let control_type = self.exchange.command_type;
        let o = control_response_outline(ctx, control_type);
        State {
            buf: control_response(ctx, rc, control_type, self.buf),
            exchange: ExchangeModel {
                ctx: with_response(ctx, o, aligned(o.shape().data_words_at())),
                ..self.exchange
            },
            ..self
        }
    }

    /// A result to the control message can be written.
    pub open spec fn can_answer_control(self) -> bool {
        control_response_outline(self.exchange.ctx, self.exchange.command_type).writable()
    }

    /// A control message is handled: the command that it asks for is called, or
    /// it is answered that there is none. Where no holder is addressed, there is
    /// nothing to do but to reply.
    pub open spec fn handle_control(self) -> (State, Action) {
        match self.addressed() {
            None => self.reply(false),
            Some(at) => match next_command(control_commands(), self.exchange.rq_id, 0) {
                Some(command) => (
                    State {
                        exchange: ExchangeModel {
                            index: at as usize,
                            stage: Stage::Controlling,
                            ..self.exchange
                        },
                        ..self
                    },
                    Action::CallControl { index: at as usize, command: command as usize },
                ),
                None => self.control_answered(
                    ResultCode { value: CMIF_INVALID_COMMAND_REQUEST_ID },
                ).reply(false),
            },
        }
    }

    /// What is needed to handle a control message.
    pub open spec fn can_handle_control(self) -> bool {
        self.addressed() is Some && next_command(
            control_commands(),
            self.exchange.rq_id,
            0,
        ) is None ==> self.can_answer_control()
    }

    /// What is needed to go on after a control command was called.
    pub open spec fn can_call_control(self, result: Result<(), ResultCode>) -> bool {
        result is Err ==> self.can_answer_control()
    }

    /// A control command was called. One that succeeds has written the answer. A
    /// second session that it made is served.
    pub open spec fn control_called(
        self,
        result: Result<(), ResultCode>,
        server_handle: Handle,
        forward_handle: Handle,
    ) -> (State, Action) {
        let s = match result {
            Ok(_) => self,
            Err(rc) => self.control_answered(rc),
        };
        if server_handle != 0 {
            let offer = s.manager.offered(s.holder().cloned(server_handle, forward_handle));
            match offer.result {
                Ok(_) => s.after_offer(offer).reply(false),
                Err(rc) => s.after_offer(offer).finish(Err(rc)),
            }
        } else {
            s.reply(false)
        }
    }

    /// The state after the message that came was read.
    pub open spec fn message(self) -> State {
        State {
            exchange: ExchangeModel {
                backup: self.buf,
                ctx: with_command(
                    CommandModel::blank(self.holder().info, self.exchange.pointer_buffer),
                    self.buf,
                ),
                command_type: outline_of(self.buf).command_type,
                ..self.exchange
            },
            ..self
        }
    }

    /// The head of a request is read, and the request is handled.
    pub open spec fn read_request(self) -> (State, Action) {
        let ctx = self.exchange.ctx;
        let head = request_head(ctx, self.buf);
        let read = with_request(ctx, self.buf);
        if head.valid(self.buf) {
            (State {
                exchange: ExchangeModel {
                    ctx: CommandModel {
                        object_info: target_info(self.holder().info, head.domain_object_id),
                        ..read
                    },
                    rq_id: head.request_id(self.buf),
                    domain_table: self.holder().domain_table,
                    ..self.exchange
                },
                ..self
            }).handle_request(head.domain_command_type)
        } else {
            (State {
                exchange: ExchangeModel { ctx: read, ..self.exchange },
                ..self
            }).finish(Err(ResultCode { value: CMIF_INVALID_INPUT_HEADER }))
        }
    }

    /// Where the data header of a control message stands.
    pub open spec fn control_header_at(self) -> int {
        aligned(self.exchange.ctx.in_params.data_words_offset as int)
    }

    /// The state after the head of a control message was read.
    pub open spec fn control_head(self) -> State {
        State {
            exchange: ExchangeModel {
                ctx: with_control(self.exchange.ctx),
                rq_id: u32_at(self.buf, self.control_header_at() + 8),
                ..self.exchange
            },
            ..self
        }
    }

    /// The head of a control message is read, and the message is handled.
    pub open spec fn read_control(self) -> (State, Action) {
        if u32_at(self.buf, self.control_header_at()) == IN_DATA_HEADER_MAGIC {
            self.control_head().handle_control()
        } else {
            self.finish(Err(ResultCode { value: CMIF_INVALID_INPUT_HEADER }))
        }
    }

    /// A message that closes the session is answered; then the session goes.
    pub open spec fn close(self) -> (State, Action) {
        let ctx = self.exchange.ctx;
        let o = response_outline(ctx, CommandType::Close, 0);
        (State {
            buf: o.put(self.buf),
            exchange: ExchangeModel { ctx: with_response_words(ctx, o), ..self.exchange },
            ..self
        }).reply(true)
    }

    /// What is needed to go on after the session's message was received: the
    /// message lies in the IPC buffer, and so does the answer that there is no
    /// control command as asked for.
    pub open spec fn can_receive(self) -> bool {
        let s = self.message();
        &&& message_fits(self.buf)
        &&& s.exchange.command_type.is_request() ==> request_readable(s.exchange.ctx, self.buf)
        &&& s.exchange.command_type.is_control() ==> {
            &&& control_readable(s.exchange.ctx, self.buf)
            &&& u32_at(self.buf, s.control_header_at()) == IN_DATA_HEADER_MAGIC
                ==> s.control_head().can_handle_control()
        }
    }

    /// The session's message was received, or not. A session whose other end is
    /// gone goes.
    pub open spec fn received(self, result: Result<(), ResultCode>) -> (State, Action) {
        match result {
            Err(rc) => if rc.value == OS_SESSION_CLOSED {
                self.removed().finish(Ok(()))
            } else {
                self.finish(Err(rc))
            },
            Ok(_) => {
                let s = self.message();
                match s.exchange.command_type {
                    CommandType::Request => s.read_request(),
                    CommandType::RequestWithContext => s.read_request(),
                    CommandType::Control => s.read_control(),
                    CommandType::ControlWithContext => s.read_control(),
                    CommandType::Close => s.close(),
                    _ => s.finish(Ok(())),
                }
            },
        }
    }

    /// The answer was sent, or not. That nobody takes it is no error.
    pub open spec fn replied(self, result: Result<(), ResultCode>) -> (State, Action) {
        match result {
            Err(rc) => if rc.value == OS_TIMEOUT || rc.value == OS_SESSION_CLOSED {
                self.sent()
            } else {
                self.finish(Err(rc))
            },
            Ok(_) => self.sent(),
        }
    }

    /// The answer is gone: a session that was closed goes.
    pub open spec fn sent(self) -> (State, Action) {
        if self.exchange.stage->closing {
            self.removed().finish(Ok(()))
        } else {
            self.finish(Ok(()))
        }
    }
}

impl<const P: usize> ServerManager<P> {
    /// Starts to serve a handle that was signaled. The server's pointer buffer
    /// is at this address.
    pub fn process_signaled_handle(
        &mut self,
        handle: Handle,
        pointer_buffer: u64,
        ipc_buf: &mut [u8; 0x100],
    ) -> (r: (Exchange, Action))
        requires
            old(self)@.wf(),
        ensures
            state_of(*final(self), r.0, *final(ipc_buf)).valid(),
            (state_of(*final(self), r.0, *final(ipc_buf)), r.1) == (State {
                manager: old(self)@,
                exchange: ExchangeModel::starting(handle, pointer_buffer),
                buf: old(ipc_buf)@,
            }).started(P as int),
    {
        let ghost start = State {
            manager: self@,
            exchange: ExchangeModel::starting(handle, pointer_buffer),
            buf: ipc_buf@,
        };
        let mut ex = Exchange::new(handle, pointer_buffer);
        let index: usize = match self.find_holder(handle) {
            Some(index) => index,
            None => {
                let action = Action::Finish { result: Err(ResultCode::new(UNKNOWN_SIGNALED_HANDLE)) };
                assert(state_of(*self, ex, *ipc_buf) =~= start.started(P as int).0);
                return (ex, action);
            },
        };
        ex.index = index;
        let action = match self.holder(index).handle_type {
            WaitHandleType::Session => {
                if P > 0 {
                    let mut tmp_ctx = CommandContext::new_client(self.holder(index).info);
                    if let Err(rc) = tmp_ctx.add_receive_static(
                        ReceiveStaticDescriptor::new(pointer_buffer, P),
                    ) {
                        return (ex, Action::Finish { result: Err(rc) });
                    }
                    assert(tmp_ctx@ =~= pointer_buffer_context(
                        self@.holders[index as int].info,
                        pointer_buffer,
                        P as int,
                    ));
                    write_command_on_ipc_buffer(&mut tmp_ctx, ipc_buf, CommandType::Invalid, 0);
                }
                ex.stage = Stage::Receiving;
                Action::Receive { handle }
            },
            WaitHandleType::Server => {
                ex.stage = Stage::Accepting;
                Action::AcceptSession { port: handle }
            },
        };
        proof {
            self@.holders.map_values(
                |holder: ServerHolder| holder.info.handle,
            ).index_of_first_ensures(handle);
        }
        assert(state_of(*self, ex, *ipc_buf) =~= start.started(P as int).0);
        (ex, action)
    }

    /// The server object of a new session is to be made.
    fn create_object(
        &self,
        ex: &mut Exchange,
        new_handle: Handle,
        forward_handle: Handle,
        ipc_buf: &[u8; 0x100],
    ) -> (action: Action)
        requires
            state_of(*self, *old(ex), *ipc_buf).valid(),
            old(ex)@.stage is Accepting || old(ex)@.stage is Acknowledging,
        ensures
            state_of(*self, *final(ex), *ipc_buf).valid(),
            (state_of(*self, *final(ex), *ipc_buf), action) == state_of(
                *self,
                *old(ex),
                *ipc_buf,
            ).creating(new_handle, forward_handle),
    {
        let ghost before = state_of(*self, *ex, *ipc_buf);
        let action = match self.holder(ex.index).get_new_server_fn() {
            Ok(new_server_fn) => {
                ex.stage = Stage::Creating { new_handle, forward_handle };
                Action::CreateObject { new_server_fn }
            },
            Err(rc) => {
                ex.stage = Stage::Finished;
                Action::Finish { result: Err(rc) }
            },
        };
        assert(state_of(*self, *ex, *ipc_buf) =~= before.creating(new_handle, forward_handle).0);
        action
    }

    /// Goes on after a session of the port was to be accepted.
    pub fn accepted(
        &self,
        ex: &mut Exchange,
        ipc_buf: &[u8; 0x100],
        result: Result<Handle, ResultCode>,
    ) -> (action: Action)
        requires
            state_of(*self, *old(ex), *ipc_buf).valid(),
            old(ex)@.stage is Accepting,
        ensures
            state_of(*self, *final(ex), *ipc_buf).valid(),
            (state_of(*self, *final(ex), *ipc_buf), action) == state_of(
                *self,
                *old(ex),
                *ipc_buf,
            ).accepted(result),
    {
        let ghost before = state_of(*self, *ex, *ipc_buf);
        let new_handle: Handle = match result {
            Ok(new_handle) => new_handle,
            Err(rc) => {
                ex.stage = Stage::Finished;
                assert(state_of(*self, *ex, *ipc_buf) =~= before.accepted(result).0);
                return Action::Finish { result: Err(rc) };
            },
        };
        let holder = self.holder(ex.index);
        if holder.is_mitm_service {
            ex.stage = Stage::Acknowledging { new_handle };
            assert(state_of(*self, *ex, *ipc_buf) =~= before.accepted(result).0);
            Action::AcknowledgeMitm { service_name: holder.service_name }
        } else {
            self.create_object(ex, new_handle, 0, ipc_buf)
        }
    }

    /// Goes on after the session was to be acknowledged.
    pub fn acknowledged(
        &self,
        ex: &mut Exchange,
        ipc_buf: &[u8; 0x100],
        result: Result<Handle, ResultCode>,
    ) -> (action: Action)
        requires
            state_of(*self, *old(ex), *ipc_buf).valid(),
            old(ex)@.stage is Acknowledging,
        ensures
            state_of(*self, *final(ex), *ipc_buf).valid(),
            (state_of(*self, *final(ex), *ipc_buf), action) == state_of(
                *self,
                *old(ex),
                *ipc_buf,
            ).acknowledged(result),
    {
        let ghost before = state_of(*self, *ex, *ipc_buf);
        let new_handle: Handle = match ex.stage {
            Stage::Acknowledging { new_handle } => new_handle,
            _ => 0,
        };
        match result {
            Ok(forward_handle) => self.create_object(ex, new_handle, forward_handle, ipc_buf),
            Err(rc) => {
                ex.stage = Stage::Finished;
                assert(state_of(*self, *ex, *ipc_buf) =~= before.acknowledged(result).0);
                Action::Finish { result: Err(rc) }
            },
        }
    }

    /// Goes on after the server object of the new session was made.
    pub fn created(&mut self, ex: &mut Exchange, ipc_buf: &[u8; 0x100], server: ObjectKey) -> (action:
        Action)
        requires
            state_of(*old(self), *old(ex), *ipc_buf).valid(),
            old(ex)@.stage is Creating,
        ensures
            state_of(*final(self), *final(ex), *ipc_buf).valid(),
            (state_of(*final(self), *final(ex), *ipc_buf), action) == state_of(
                *old(self),
                *old(ex),
                *ipc_buf,
            ).created(server),
    {
        let ghost before = state_of(*self, *ex, *ipc_buf);
        let (new_handle, forward_handle): (Handle, Handle) = match ex.stage {
            Stage::Creating { new_handle, forward_handle } => (new_handle, forward_handle),
            _ => (0, 0),
        };
        proof {
            self@.tables.slots.index_of_first_ensures(None);
            assert(self@.tables.keys_in(self@.tables.with_new()));
        }
        let result = match self.make_new_session(ex.index, new_handle, forward_handle, server) {
            Ok(holder) => self.push_holder(holder, &mut ex.released),
            Err(rc) => Err(rc),
        };
        ex.stage = Stage::Finished;
        assert(state_of(*self, *ex, *ipc_buf) =~= before.created(server).0);
        Action::Finish { result }
    }
}

/// Gives the place of the first command from `from` on that has a request id.
fn find_command(commands: &Vec<u32>, rq_id: u32, from: usize) -> (r: Option<usize>)
    requires
        from <= commands@.len(),
    ensures
        match next_command(commands@, rq_id, from as int) {
            Some(at) => r == Some(at as usize) && from <= at < commands@.len(),
            None => r is None,
        },
{
    let ghost rest = commands@.skip(from as int);
    let mut i: usize = from;
    while i < commands.len()
        invariant
            from <= i <= commands@.len(),
            rest == commands@.skip(from as int),
            forall|j: int| 0 <= j < i - from ==> rest[j] != rq_id,
        decreases commands@.len() - i,
    {
        if commands[i] == rq_id {
            proof {
                crate::domain::lemma_first_place(rest, rq_id, i - from);
            }
            return Some(i);
        }
        i = i + 1;
    }
    proof {
        crate::domain::lemma_no_place(rest, rq_id);
    }
    None
}

impl<const P: usize> ServerManager<P> {
    /// Serves the sessions that the command has made, and sends the answer.
    fn settle(&mut self, ex: &mut Exchange, ipc_buf: &[u8; 0x100]) -> (action: Action)
        requires
            state_of(*old(self), *old(ex), *ipc_buf).valid(),
            old(ex)@.stage !is Finished,
        ensures
            state_of(*final(self), *final(ex), *ipc_buf).valid(),
            (state_of(*final(self), *final(ex), *ipc_buf), action) == state_of(
                *old(self),
                *old(ex),
                *ipc_buf,
            ).settle(),
    {
        let ghost before = state_of(*self, *ex, *ipc_buf);
        let ghost offer = offered_all(self@, ex.new_sessions@);
        assert(ex.released@ + Seq::<ServerHolder>::empty() =~= ex.released@);
        let mut left: usize = ex.new_sessions.len();
        while left > 0
            invariant
                left == ex.new_sessions@.len(),
                self@.wf(),
                self@.tables == before.manager.tables,
                before.manager.holders.len() <= self@.holders.len(),
                forall|i: int|
                    0 <= i < ex.new_sessions@.len() ==> self@.tables.has(
                        (#[trigger] ex.new_sessions@[i]).domain_table,
                    ),
                ex@ == (ExchangeModel { new_sessions: ex.new_sessions@, ..before.exchange }),
                before.exchange.stage !is Finished,
                before.buf == ipc_buf@,
                before == state_of(*old(self), *old(ex), *ipc_buf),
                offer == offered_all(before.manager, before.exchange.new_sessions),
                offered_all(self@, ex.new_sessions@) == offer,
            decreases left,
        {
            let ghost rest = ex.new_sessions@;
            if let Some(holder) = ex.new_sessions.take_out(0) {
                assert(rest.remove(0) =~= rest.skip(1));
                assert(holder == rest[0]);
                if let Err(rc) = self.push_holder(holder, &mut ex.released) {
                    ex.new_sessions.move_all(&mut ex.released);
                    ex.stage = Stage::Finished;
                    assert(offer.refused =~= seq![rest[0]] + rest.skip(1));
                    assert(ex.released@ =~= before.exchange.released + offer.refused);
                    assert(state_of(*self, *ex, *ipc_buf) =~= before.settle().0);
                    return Action::Finish { result: Err(rc) };
                }
                assert(ex.released@ =~= before.exchange.released);
                assert(ex@ =~= (ExchangeModel {
                    new_sessions: ex.new_sessions@,
                    ..before.exchange
                }));
            }
            left = left - 1;
        }
        assert(ex.new_sessions@ =~= Seq::<ServerHolder>::empty());
        ex.stage = Stage::Replying { closing: false };
        assert(ex.released@ =~= before.exchange.released + offer.refused);
        assert(state_of(*self, *ex, *ipc_buf) =~= before.settle().0);
        Action::Reply { handle: ex.handle }
    }
}

impl<const P: usize> ServerManager<P> {
    /// Answers the request with a result.
    fn answer(&self, ex: &mut Exchange, ipc_buf: &mut [u8; 0x100], rc: ResultCode)
        requires
            state_of(*self, *old(ex), *old(ipc_buf)).can_answer(),
        ensures
            state_of(*self, *final(ex), *final(ipc_buf)) == state_of(
                *self,
                *old(ex),
                *old(ipc_buf),
            ).answered(rc),
    {
        let ghost before = state_of(*self, *ex, *ipc_buf);
        write_request_command_response_on_ipc_buffer(&mut ex.ctx, ipc_buf, rc, ex.command_type);
        assert(state_of(*self, *ex, *ipc_buf) =~= before.answered(rc));
    }

    /// Lets the service behind an interposer answer.
    fn send_to_forward_handle(
        &self,
        ex: &mut Exchange,
        ipc_buf: &mut [u8; 0x100],
        next: usize,
    ) -> (action: Action)
        requires
            state_of(*self, *old(ex), *old(ipc_buf)).valid(),
            old(ex)@.stage is Listing || old(ex)@.stage is Calling,
            next <= old(ex)@.commands.len(),
        ensures
            state_of(*self, *final(ex), *final(ipc_buf)).valid(),
            (state_of(*self, *final(ex), *final(ipc_buf)), action) == state_of(
                *self,
                *old(ex),
                *old(ipc_buf),
            ).forward(next),
    {
        let ghost before = state_of(*self, *ex, *ipc_buf);
        *ipc_buf = ex.ipc_buf_backup;
        ex.stage = Stage::Forwarding { next };
        assert(state_of(*self, *ex, *ipc_buf) =~= before.forward(next).0);
        Action::Forward { handle: self.holder(ex.index).forward_handle }
    }

    /// Goes on to the next command with the request id.
    fn advance(
        &mut self,
        ex: &mut Exchange,
        ipc_buf: &mut [u8; 0x100],
        from: usize,
        found: bool,
    ) -> (action: Action)
        requires
            state_of(*old(self), *old(ex), *old(ipc_buf)).valid(),
            old(ex)@.stage is Listing || old(ex)@.stage is Calling || old(ex)@.stage is Forwarding,
            old(ex)@.stage is Forwarding ==> found,
            from <= old(ex)@.commands.len(),
            !found && next_command(old(ex)@.commands, old(ex)@.rq_id, from as int) is None
                && !state_of(*old(self), *old(ex), *old(ipc_buf)).holder().is_mitm_service
                ==> state_of(*old(self), *old(ex), *old(ipc_buf)).can_answer(),
        ensures
            state_of(*final(self), *final(ex), *final(ipc_buf)).valid(),
            (state_of(*final(self), *final(ex), *final(ipc_buf)), action) == state_of(
                *old(self),
                *old(ex),
                *old(ipc_buf),
            ).advance(from as int, found),
    {
        let ghost before = state_of(*self, *ex, *ipc_buf);
        if let Some(at) = find_command(&ex.commands, ex.rq_id, from) {
            ex.stage = Stage::Calling { at };
            assert(state_of(*self, *ex, *ipc_buf) =~= before.advance(from as int, found).0);
            return Action::CallCommand { object: ex.object, command: at };
        }
        if !found {
            if self.holder(ex.index).is_mitm_service {
                let next: usize = ex.commands.len();
                return self.send_to_forward_handle(ex, ipc_buf, next);
            }
            self.answer(ex, ipc_buf, ResultCode::new(CMIF_INVALID_COMMAND_REQUEST_ID));
        }
        self.settle(ex, ipc_buf)
    }

    /// Goes on after the commands of the object were listed, each by its request
    /// id.
    pub fn listed(&mut self, ex: &mut Exchange, ipc_buf: &mut [u8; 0x100], commands: Vec<u32>) -> (action:
        Action)
        requires
            state_of(*old(self), *old(ex), *old(ipc_buf)).valid(),
            old(ex)@.stage is Listing,
            state_of(*old(self), *old(ex), *old(ipc_buf)).can_list(commands@),
        ensures
            state_of(*final(self), *final(ex), *final(ipc_buf)).valid(),
            (state_of(*final(self), *final(ex), *final(ipc_buf)), action) == state_of(
                *old(self),
                *old(ex),
                *old(ipc_buf),
            ).listed(commands@),
    {
        let ghost before = state_of(*self, *ex, *ipc_buf);
        ex.commands = commands;
        assert(state_of(*self, *ex, *ipc_buf) =~= (State {
            exchange: ExchangeModel { commands: commands@, ..before.exchange },
            ..before
        }));
        self.advance(ex, ipc_buf, 0, false)
    }

    /// Goes on after a command was called.
    pub fn called(
        &mut self,
        ex: &mut Exchange,
        ipc_buf: &mut [u8; 0x100],
        result: Result<(), ResultCode>,
    ) -> (action: Action)
        requires
            state_of(*old(self), *old(ex), *old(ipc_buf)).valid(),
            old(ex)@.stage is Calling,
            state_of(*old(self), *old(ex), *old(ipc_buf)).can_call(result),
        ensures
            state_of(*final(self), *final(ex), *final(ipc_buf)).valid(),
            (state_of(*final(self), *final(ex), *final(ipc_buf)), action) == state_of(
                *old(self),
                *old(ex),
                *old(ipc_buf),
            ).called(result),
    {
        let at: usize = match ex.stage {
            Stage::Calling { at } => at,
            _ => 0,
        };
        assert(at < ex.commands.len());
        if let Err(rc) = result {
            if self.holder(ex.index).is_mitm_service && rc.value
                == SM_MITM_SHOULD_FORWARD_TO_SESSION {
                return self.send_to_forward_handle(ex, ipc_buf, at + 1);
            }
            self.answer(ex, ipc_buf, rc);
        }
        self.advance(ex, ipc_buf, at + 1, true)
    }

    /// Goes on after the message was sent on.
    pub fn forwarded(
        &mut self,
        ex: &mut Exchange,
        ipc_buf: &mut [u8; 0x100],
        result: Result<(), ResultCode>,
    ) -> (action: Action)
        requires
            state_of(*old(self), *old(ex), *old(ipc_buf)).valid(),
            old(ex)@.stage is Forwarding,
            state_of(*old(self), *old(ex), *old(ipc_buf)).can_forward(result),
        ensures
            state_of(*final(self), *final(ex), *final(ipc_buf)).valid(),
            (state_of(*final(self), *final(ex), *final(ipc_buf)), action) == state_of(
                *old(self),
                *old(ex),
                *old(ipc_buf),
            ).forwarded(result),
    {
        let next: usize = match ex.stage {
            Stage::Forwarding { next } => next,
            _ => 0,
        };
        if let Err(rc) = result {
            self.answer(ex, ipc_buf, rc);
        }
        self.advance(ex, ipc_buf, next, true)
    }

    /// Finds the object that the request is for.
    fn find_target(&self, ex: &mut Exchange, ipc_buf: &[u8; 0x100]) -> (action: Action)
        requires
            state_of(*self, *old(ex), *ipc_buf).manager.wf(),
            state_of(*self, *old(ex), *ipc_buf).addressed() is Some ==> self@.tables.has(
                old(ex)@.domain_table,
            ),
        ensures
            (state_of(*self, *final(ex), *ipc_buf), action) == state_of(
                *self,
                *old(ex),
                *ipc_buf,
            ).find_target(),
            state_of(*self, *old(ex), *ipc_buf).sessions_valid() ==> state_of(
                *self,
                *final(ex),
                *ipc_buf,
            ).valid(),
    {
        let ghost before = state_of(*self, *ex, *ipc_buf);
        let index: usize = match self.find_holder(ex.ctx.object_info.handle) {
            Some(index) => index,
            None => {
                ex.stage = Stage::Replying { closing: false };
                assert(state_of(*self, *ex, *ipc_buf) =~= before.find_target().0);
                return Action::Reply { handle: ex.handle };
            },
        };
        let target = match ex.ctx.object_info.is_domain() {
            true => match ex.ctx.object_info.owns_handle {
                true => Ok(self.holder(index).server),
                false => self.find_domain(ex.domain_table, ex.ctx.object_info.domain_object_id),
            },
            false => Ok(self.holder(index).server),
        };
        let action = match target {
            Ok(object) => {
                ex.index = index;
                ex.object = object;
                ex.new_sessions = HolderVec::new();
                ex.stage = Stage::Listing;
                Action::ListCommands { object }
            },
            Err(rc) => {
                ex.stage = Stage::Finished;
                Action::Finish { result: Err(rc) }
            },
        };
        assert(state_of(*self, *ex, *ipc_buf) =~= before.find_target().0);
        action
    }

    /// Handles a request.
    pub fn handle_request_command(
        &mut self,
        ex: &mut Exchange,
        domain_command_type: DomainCommandType,
        ipc_buf: &[u8; 0x100],
    ) -> (action: Action)
        requires
            old(self)@.wf(),
            state_of(*old(self), *old(ex), *ipc_buf).needs_table(domain_command_type) ==> old(
                self,
            )@.tables.has(old(ex)@.domain_table),
        ensures
            (state_of(*final(self), *final(ex), *ipc_buf), action) == state_of(
                *old(self),
                *old(ex),
                *ipc_buf,
            ).handle_request(domain_command_type),
            old(ex)@.new_sessions.len() == 0 ==> state_of(
                *final(self),
                *final(ex),
                *ipc_buf,
            ).valid(),
    {
        let ghost before = state_of(*self, *ex, *ipc_buf);
        let action = match domain_command_type {
            DomainCommandType::Invalid => {
                match ex.ctx.object_info.is_domain() {
                    false => self.find_target(ex, ipc_buf),
                    true => {
                        ex.stage = Stage::Finished;
                        Action::Finish { result: Err(ResultCode::new(INVALID_DOMAIN_COMMAND)) }
                    },
                }
            },
            DomainCommandType::SendMessage => self.find_target(ex, ipc_buf),
            DomainCommandType::Close => {
                if ex.ctx.object_info.owns_handle {
                    ex.stage = Stage::Replying { closing: false };
                    Action::Reply { handle: ex.handle }
                } else {
                    match self.deallocate_domain(
                        ex.domain_table,
                        ex.ctx.object_info.domain_object_id,
                    ) {
                        Ok(holder) => {
                            ex.released.push(holder);
                            ex.stage = Stage::Releasing;
                            Action::Release
                        },
                        Err(rc) => {
                            assert(self@ =~= before.manager);
                            ex.stage = Stage::Finished;
                            Action::Finish { result: Err(rc) }
                        },
                    }
                }
            },
        };
        assert(state_of(*self, *ex, *ipc_buf) =~= before.handle_request(domain_command_type).0);
        action
    }
}

/// The answer to a message that closes its session takes no more room than the
/// message.
pub proof fn lemma_close_response_fits(info: ObjectInfo, pointer_buffer: u64, b: Seq<u8>)
    requires
        message_fits(b),
    ensures
        response_outline(
            with_command(CommandModel::blank(info, pointer_buffer), b),
            CommandType::Close,
            0,
        ).writable(),
{
}

impl<const P: usize> ServerManager<P> {
    /// Handles a control message.
    pub fn handle_control_command(&self, ex: &mut Exchange, ipc_buf: &mut [u8; 0x100]) -> (action:
        Action)
        requires
            self@.wf(),
            state_of(*self, *old(ex), *old(ipc_buf)).can_handle_control(),
        ensures
            (state_of(*self, *final(ex), *final(ipc_buf)), action) == state_of(
                *self,
                *old(ex),
                *old(ipc_buf),
            ).handle_control(),
            state_of(*self, *old(ex), *old(ipc_buf)).sessions_valid() ==> state_of(
                *self,
                *final(ex),
                *final(ipc_buf),
            ).valid(),
    {
        let ghost before = state_of(*self, *ex, *ipc_buf);
        let index: usize = match self.find_holder(ex.ctx.object_info.handle) {
            Some(index) => index,
            None => {
                ex.stage = Stage::Replying { closing: false };
                assert(state_of(*self, *ex, *ipc_buf) =~= before.handle_control().0);
                return Action::Reply { handle: ex.handle };
            },
        };
        let commands = control_command_table();
        let action = match find_command(&commands, ex.rq_id, 0) {
            Some(command) => {
                ex.index = index;
                ex.stage = Stage::Controlling;
                Action::CallControl { index, command }
            },
            None => {
                write_control_command_response_on_ipc_buffer(
                    &mut ex.ctx,
                    ipc_buf,
                    ResultCode::new(CMIF_INVALID_COMMAND_REQUEST_ID),
                    ex.command_type,
                );
                ex.stage = Stage::Replying { closing: false };
                Action::Reply { handle: ex.handle }
            },
        };
        assert(state_of(*self, *ex, *ipc_buf) =~= before.handle_control().0);
        action
    }

    /// Goes on after a control command was called. The handles are those of the
    /// second session that it made; where it made none, they are zero.
    pub fn control_called(
        &mut self,
        ex: &mut Exchange,
        ipc_buf: &mut [u8; 0x100],
        result: Result<(), ResultCode>,
        server_handle: Handle,
        forward_handle: Handle,
    ) -> (action: Action)
        requires
            state_of(*old(self), *old(ex), *old(ipc_buf)).valid(),
            old(ex)@.stage is Controlling,
            state_of(*old(self), *old(ex), *old(ipc_buf)).can_call_control(result),
        ensures
            state_of(*final(self), *final(ex), *final(ipc_buf)).valid(),
            (state_of(*final(self), *final(ex), *final(ipc_buf)), action) == state_of(
                *old(self),
                *old(ex),
                *old(ipc_buf),
            ).control_called(result, server_handle, forward_handle),
    {
        let ghost before = state_of(*self, *ex, *ipc_buf);
        if let Err(rc) = result {
            write_control_command_response_on_ipc_buffer(
                &mut ex.ctx,
                ipc_buf,
                rc,
                ex.command_type,
            );
        }
        let mut cloned: Option<ServerHolder> = None;
        {
            let mut hipc_manager = self.hipc_manager(ex.index);
            hipc_manager.cloned_object_server_handle = server_handle;
            hipc_manager.cloned_object_forward_handle = forward_handle;
            if hipc_manager.has_cloned_object() {
                if let Ok(holder) = hipc_manager.clone_object() {
                    cloned = Some(holder);
                }
            }
        }
        assert(self@ =~= before.manager);
        let mut pushed: Result<(), ResultCode> = Ok(());
        if let Some(holder) = cloned {
            pushed = self.push_holder(holder, &mut ex.released);
        }
        let action = match pushed {
            Ok(()) => {
                ex.stage = Stage::Replying { closing: false };
                Action::Reply { handle: ex.handle }
            },
            Err(rc) => {
                ex.stage = Stage::Finished;
                Action::Finish { result: Err(rc) }
            },
        };
        assert(state_of(*self, *ex, *ipc_buf) =~= before.control_called(
            result,
            server_handle,
            forward_handle,
        ).0);
        action
    }

    /// Takes out the session, and finishes.
    fn close_session(&mut self, ex: &mut Exchange, ipc_buf: &[u8; 0x100]) -> (action: Action)
        requires
            state_of(*old(self), *old(ex), *ipc_buf).valid(),
        ensures
            state_of(*final(self), *final(ex), *ipc_buf).valid(),
            (state_of(*final(self), *final(ex), *ipc_buf), action) == state_of(
                *old(self),
                *old(ex),
                *ipc_buf,
            ).removed().finish(Ok(())),
    {
        let ghost before = state_of(*self, *ex, *ipc_buf);
        self.remove_holder(ex.index, &mut ex.released);
        ex.stage = Stage::Finished;
        assert(state_of(*self, *ex, *ipc_buf) =~= before.removed().finish(Ok(())).0);
        Action::Finish { result: Ok(()) }
    }

    /// Goes on after the session's message was to be received.
    pub fn received(
        &mut self,
        ex: &mut Exchange,
        ipc_buf: &mut [u8; 0x100],
        result: Result<(), ResultCode>,
    ) -> (action: Action)
        requires
            state_of(*old(self), *old(ex), *old(ipc_buf)).valid(),
            old(ex)@.stage is Receiving,
            result is Ok ==> state_of(*old(self), *old(ex), *old(ipc_buf)).can_receive(),
        ensures
            state_of(*final(self), *final(ex), *final(ipc_buf)).valid(),
            (state_of(*final(self), *final(ex), *final(ipc_buf)), action) == state_of(
                *old(self),
                *old(ex),
                *old(ipc_buf),
            ).received(result),
    {
        let ghost before = state_of(*self, *ex, *ipc_buf);
        if let Err(rc) = result {
            if rc.value == OS_SESSION_CLOSED {
                return self.close_session(ex, ipc_buf);
            }
            ex.stage = Stage::Finished;
            assert(state_of(*self, *ex, *ipc_buf) =~= before.received(result).0);
            return Action::Finish { result: Err(rc) };
        }
        ex.ipc_buf_backup = *ipc_buf;
        let server_info = self.holder(ex.index).info;
        ex.ctx = CommandContext::new_server(server_info, ex.pointer_buffer);
        ex.command_type = read_command_from_ipc_buffer(&mut ex.ctx, ipc_buf);
        assert(state_of(*self, *ex, *ipc_buf) =~= before.message());
        match ex.command_type {
            CommandType::Request | CommandType::RequestWithContext => self.receive_request(
                ex,
                ipc_buf,
            ),
            CommandType::Control | CommandType::ControlWithContext => self.receive_control(
                ex,
                ipc_buf,
            ),
            CommandType::Close => {
                proof {
                    lemma_close_response_fits(server_info, ex.pointer_buffer, ipc_buf@);
                }
                write_close_command_response_on_ipc_buffer(&mut ex.ctx, ipc_buf);
                ex.stage = Stage::Replying { closing: true };
                assert(state_of(*self, *ex, *ipc_buf) =~= before.message().close().0);
                Action::Reply { handle: ex.handle }
            },
            _ => {
                ex.stage = Stage::Finished;
                assert(state_of(*self, *ex, *ipc_buf) =~= before.received(result).0);
                Action::Finish { result: Ok(()) }
            },
        }
    }

    /// Reads the head of a request, and handles the request.
    fn receive_request(&mut self, ex: &mut Exchange, ipc_buf: &[u8; 0x100]) -> (action: Action)
        requires
            state_of(*old(self), *old(ex), *ipc_buf).valid(),
            old(ex)@.stage is Receiving,
            request_readable(old(ex)@.ctx, ipc_buf@),
        ensures
            state_of(*final(self), *final(ex), *ipc_buf).valid(),
            (state_of(*final(self), *final(ex), *ipc_buf), action) == state_of(
                *old(self),
                *old(ex),
                *ipc_buf,
            ).read_request(),
    {
        let ghost before = state_of(*self, *ex, *ipc_buf);
        let ghost head = request_head(ex@.ctx, ipc_buf@);
        let server_info = self.holder(ex.index).info;
        let domain_table: TableKey = self.holder(ex.index).domain_table;
        match read_request_command_from_ipc_buffer(&mut ex.ctx, ipc_buf) {
            Ok((request_id, domain_command_type, domain_object_id)) => {
                let mut base_info = server_info;
                if server_info.is_domain() {
                    base_info.domain_object_id = domain_object_id;
                    base_info.owns_handle = server_info.domain_object_id == domain_object_id;
                }
                ex.ctx.object_info = base_info;
                ex.rq_id = request_id;
                ex.domain_table = domain_table;
                assert(state_of(*self, *ex, *ipc_buf) =~= (State {
                    exchange: ExchangeModel {
                        ctx: CommandModel {
                            object_info: target_info(before.holder().info, domain_object_id),
                            ..with_request(before.exchange.ctx, ipc_buf@)
                        },
                        rq_id: request_id,
                        domain_table,
                        ..before.exchange
                    },
                    ..before
                }));
                self.handle_request_command(ex, domain_command_type, ipc_buf)
            },
            Err(rc) => {
                ex.stage = Stage::Finished;
                assert(state_of(*self, *ex, *ipc_buf) =~= before.read_request().0);
                Action::Finish { result: Err(rc) }
            },
        }
    }

    /// Reads the head of a control message, and handles the message.
    fn receive_control(&mut self, ex: &mut Exchange, ipc_buf: &mut [u8; 0x100]) -> (action: Action)
        requires
            state_of(*old(self), *old(ex), *old(ipc_buf)).valid(),
            old(ex)@.stage is Receiving,
            control_readable(old(ex)@.ctx, old(ipc_buf)@),
            ({
                let s = state_of(*old(self), *old(ex), *old(ipc_buf));
                u32_at(s.buf, s.control_header_at()) == IN_DATA_HEADER_MAGIC
                    ==> s.control_head().can_handle_control()
            }),
        ensures
            state_of(*final(self), *final(ex), *final(ipc_buf)).valid(),
            (state_of(*final(self), *final(ex), *final(ipc_buf)), action) == state_of(
                *old(self),
                *old(ex),
                *old(ipc_buf),
            ).read_control(),
    {
        let ghost before = state_of(*self, *ex, *ipc_buf);
        match read_control_command_from_ipc_buffer(&mut ex.ctx, ipc_buf) {
            Ok(control_rq_id) => {
                ex.rq_id = control_rq_id;
                assert(state_of(*self, *ex, *ipc_buf) =~= before.control_head());
                self.handle_control_command(ex, ipc_buf)
            },
            Err(rc) => {
                ex.stage = Stage::Finished;
                assert(state_of(*self, *ex, *ipc_buf) =~= before.read_control().0);
                Action::Finish { result: Err(rc) }
            },
        }
    }

    /// Goes on after the released holders were released: they were taken out
    /// with [`Exchange::take_released`].
    pub fn holders_released(&self, ex: &mut Exchange, ipc_buf: &[u8; 0x100]) -> (action: Action)
        requires
            state_of(*self, *old(ex), *ipc_buf).valid(),
            old(ex)@.stage is Releasing,
            old(ex)@.released.len() == 0,
        ensures
            state_of(*self, *final(ex), *ipc_buf).valid(),
            (state_of(*self, *final(ex), *ipc_buf), action) == state_of(
                *self,
                *old(ex),
                *ipc_buf,
            ).holders_released(),
    {
        let ghost before = state_of(*self, *ex, *ipc_buf);
        ex.stage = Stage::Replying { closing: false };
        assert(state_of(*self, *ex, *ipc_buf) =~= before.holders_released().0);
        Action::Reply { handle: ex.handle }
    }

    /// Goes on after the answer was to be sent.
    pub fn replied(
        &mut self,
        ex: &mut Exchange,
        ipc_buf: &[u8; 0x100],
        result: Result<(), ResultCode>,
    ) -> (action: Action)
        requires
            state_of(*old(self), *old(ex), *ipc_buf).valid(),
            old(ex)@.stage is Replying,
        ensures
            state_of(*final(self), *final(ex), *ipc_buf).valid(),
            (state_of(*final(self), *final(ex), *ipc_buf), action) == state_of(
                *old(self),
                *old(ex),
                *ipc_buf,
            ).replied(result),
    {
        let ghost before = state_of(*self, *ex, *ipc_buf);
        if let Err(rc) = result {
            if rc.value != OS_TIMEOUT && rc.value != OS_SESSION_CLOSED {
                ex.stage = Stage::Finished;
                assert(state_of(*self, *ex, *ipc_buf) =~= before.replied(result).0);
                return Action::Finish { result: Err(rc) };
            }
        }
        let closing: bool = match ex.stage {
            Stage::Replying { closing } => closing,
            _ => false,
        };
        if closing {
            return self.close_session(ex, ipc_buf);
        }
        ex.stage = Stage::Finished;
        assert(state_of(*self, *ex, *ipc_buf) =~= before.replied(result).0);
        Action::Finish { result: Ok(()) }
    }
}

impl Exchange {
    /// Serving this handle is to start.
    pub fn new(handle: Handle, pointer_buffer: u64) -> (ex: Self)
        ensures
            ex@ == ExchangeModel::starting(handle, pointer_buffer),
    {
        let ex = Exchange {
            handle,
            index: 0,
            pointer_buffer,
            stage: Stage::Finished,
            ctx: CommandContext::empty(),
            command_type: CommandType::Invalid,
            rq_id: 0,
            domain_table: 0,
            ipc_buf_backup: [0; 0x100],
            object: 0,
            commands: Vec::new(),
            new_sessions: HolderVec::new(),
            released: Vec::new(),
        };
        assert(ex@ =~= ExchangeModel::starting(handle, pointer_buffer));
        ex
    }

    /// What the message asks of the session.
    pub fn command_type(&self) -> (t: CommandType)
        ensures
            t == self@.command_type,
    {
        self.command_type
    }

    /// The context of the command.
    pub fn context_mut(&mut self) -> (ctx: &mut CommandContext)
        ensures
            ctx@ == old(self)@.ctx,
            final(self)@ == (ExchangeModel { ctx: final(ctx)@, ..old(self)@ }),
    {
        &mut self.ctx
    }

    /// Takes out the holders that are gone and yet to be closed, in order.
    pub fn take_released(&mut self) -> (released: Vec<ServerHolder>)
        ensures
            released@ == old(self)@.released,
            final(self)@ == (ExchangeModel { released: Seq::empty(), ..old(self)@ }),
    {
        let mut released: Vec<ServerHolder> = Vec::new();
        core::mem::swap(&mut released, &mut self.released);
        assert(self@ =~= (ExchangeModel { released: Seq::empty(), ..old(self)@ }));
        released
    }
}

impl<const P: usize> ServerManager<P> {
    /// What a command of the object that is being served works on.
    pub fn command_context<'a>(&'a mut self, ex: &'a mut Exchange, ipc_buf: &[u8; 0x100]) -> (c:
        ServerContext<'a>)
        requires
            state_of(*old(self), *old(ex), *ipc_buf).valid(),
            old(ex)@.stage is Calling,
        ensures
            ({
                let s = state_of(*old(self), *old(ex), *ipc_buf);
                &&& c@ == (ContextModel {
                    ctx: s.exchange.ctx,
                    walker: DataWalker { base: None, cur_offset: 0 },
                    domain_table: s.exchange.domain_table,
                    tables: s.manager.tables,
                    new_sessions: s.exchange.new_sessions,
                    reset_objects: Seq::empty(),
                    next_buffer: no_buffer(),
                })
                &&& state_of(*final(self), *final(ex), *ipc_buf) == s.commanded(
                    (*final(c.ctx))@,
                    (*final(c.tables))@,
                    (*final(c.new_sessions))@,
                )
            }),
    {
        ServerContext::new(
            &mut ex.ctx,
            DataWalker::empty(),
            ex.domain_table,
            self.tables_mut(),
            &mut ex.new_sessions,
        )
    }

    /// Whether the session's message can be served once it was received.
    pub fn can_receive(&self, ex: &Exchange, ipc_buf: &[u8; 0x100]) -> (b: bool)
        requires
            state_of(*self, *ex, *ipc_buf).valid(),
            ex@.stage is Receiving,
        ensures
            b == state_of(*self, *ex, *ipc_buf).can_receive(),
    {
        if !is_message_in_buffer(ipc_buf) {
            return false;
        }
        let ghost s = state_of(*self, *ex, *ipc_buf).message();
        let mut ctx = CommandContext::new_server(self.holder(ex.index).info, ex.pointer_buffer);
        let command_type = read_command_from_ipc_buffer(&mut ctx, ipc_buf);
        assert(ctx@ == s.exchange.ctx);
        match command_type {
            CommandType::Request | CommandType::RequestWithContext => is_request_in_buffer(
                &ctx,
                ipc_buf,
            ),
            CommandType::Control | CommandType::ControlWithContext => {
                if !is_control_in_buffer(&ctx, ipc_buf) {
                    return false;
                }
                match read_control_command_from_ipc_buffer(&mut ctx, ipc_buf) {
                    Ok(control_rq_id) => {
                        assert(ctx@ == s.control_head().exchange.ctx);
                        let commands = control_command_table();
                        match (self.find_holder(ctx.object_info.handle), find_command(
                            &commands,
                            control_rq_id,
                            0,
                        )) {
                            (Some(_), None) => is_room_for_control_response(&ctx, command_type),
                            _ => true,
                        }
                    },
                    Err(_) => true,
                }
            },
            _ => true,
        }
    }

    /// Whether serving can go on once the commands of the object were listed.
    pub fn can_list(&self, ex: &Exchange, ipc_buf: &[u8; 0x100], commands: &Vec<u32>) -> (b: bool)
        requires
            state_of(*self, *ex, *ipc_buf).valid(),
            ex@.stage is Listing,
        ensures
            b == state_of(*self, *ex, *ipc_buf).can_list(commands@),
    {
        match find_command(commands, ex.rq_id, 0) {
            Some(_) => true,
            None => self.holder(ex.index).is_mitm_service || is_room_for_request_response(
                &ex.ctx,
                ex.command_type,
            ),
        }
    }

    /// Whether serving can go on once a command was called.
    pub fn can_call(&self, ex: &Exchange, ipc_buf: &[u8; 0x100], result: Result<(), ResultCode>) -> (b:
        bool)
        requires
            state_of(*self, *ex, *ipc_buf).valid(),
            ex@.stage is Calling,
        ensures
            b == state_of(*self, *ex, *ipc_buf).can_call(result),
    {
        match result {
            Ok(_) => true,
            Err(rc) => (self.holder(ex.index).is_mitm_service && rc.value
                == SM_MITM_SHOULD_FORWARD_TO_SESSION) || is_room_for_request_response(
                &ex.ctx,
                ex.command_type,
            ),
        }
    }

    /// Whether serving can go on once the message was sent on.
    pub fn can_forward(
        &self,
        ex: &Exchange,
        ipc_buf: &[u8; 0x100],
        result: Result<(), ResultCode>,
    ) -> (b: bool)
        ensures
            b == state_of(*self, *ex, *ipc_buf).can_forward(result),
    {
        match result {
            Ok(_) => true,
            Err(_) => is_room_for_request_response(&ex.ctx, ex.command_type),
        }
    }

    /// Whether serving can go on once a control command was called.
    pub fn can_call_control(
        &self,
        ex: &Exchange,
        ipc_buf: &[u8; 0x100],
        result: Result<(), ResultCode>,
    ) -> (b: bool)
        ensures
            b == state_of(*self, *ex, *ipc_buf).can_call_control(result),
    {
        match result {
            Ok(_) => true,
            Err(_) => is_room_for_control_response(&ex.ctx, ex.command_type),
        }
    }
}

} // verus!
