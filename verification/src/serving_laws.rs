//! What each step of serving a handle does, told by the bytes of the message,
//! by the holder that is served and by what was reported.

use vstd::prelude::*;

use crate::exchange::{Action, Stage};
use crate::headers::{CommandType, DomainCommandType, Handle};
use crate::holder::{ObjectKey, ServerHolder};
use crate::results::ResultCode;
use crate::tables::TableKey;

verus! {

use crate::byte_laws::{
    data_bytes, data_from, data_words_from, input_magic, law_command_in_bytes, law_control_in_bytes,
    law_descriptors_of_message_in_bytes, law_domain_request_in_bytes, law_message_in_bytes,
    law_request_in_bytes, receive_statics_in, request_bytes, request_header_from, type_code, word,
};
use crate::client::command_outline;
use crate::commands::{
    control_response, control_response_outline, request_head, request_readable, request_response,
    request_response_header_at, request_response_outline, response_outline, with_command,
    with_control, with_request, with_response,
};
use crate::context::CommandModel;
use crate::exchange::{
    next_command, offered_all, pointer_buffer_context, ExchangeModel, State,
};
use crate::holder_laws::{law_first_command, law_first_holder};
use crate::manager::ManagerModel;
use crate::message::lemma_outline_read_back;
use crate::server_laws::{law_control_commands, law_offers_are_taken_in_order};
use crate::tables::{law_new_table_is_fresh, TablesModel};

/// The holder at a place is the first one with the handle.
pub open spec fn serves(holders: Seq<ServerHolder>, handle: Handle, at: int) -> bool {
    &&& 0 <= at < holders.len()
    &&& holders[at].info.handle == handle
    &&& forall|j: int| 0 <= j < at ==> (#[trigger] holders[j]).info.handle != handle
}

/// Ports and sessions, their domains, what is to be released and the bytes of the
/// IPC buffer are the same in both states.
pub open spec fn nothing_changed(a: State, b: State) -> bool {
    &&& b.manager == a.manager
    &&& b.exchange.released == a.exchange.released
    &&& b.buf == a.buf
}

/// What was signaled, where it is served and what is known of the message stay
/// from one step to the next, but for the command's context.
pub open spec fn same_exchange(a: State, b: State) -> bool {
    b.exchange == (ExchangeModel {
        stage: b.exchange.stage,
        ctx: b.exchange.ctx,
        new_sessions: b.exchange.new_sessions,
        released: b.exchange.released,
        ..a.exchange
    })
}

/// The context of a request after it was answered: only the places at which the
/// data of the answer stand are new.
pub open spec fn answered_context(s: State) -> CommandModel {
    let o = request_response_outline(s.exchange.ctx, s.exchange.command_type);
    with_response(s.exchange.ctx, o, request_response_header_at(s.exchange.ctx, o))
}

/// A port that is signaled is asked for a session, a session for its message.
/// The holder is the first one with the handle, and nothing of the manager
/// changes. Before a message is received, the kernel is told where the pointer
/// buffer is, if there is one: by the four words of a message of no type that
/// holds only its address and its size. No other byte changes.
pub proof fn law_signaled_handle_is_served(s: State, at: int, pointer_buf_size: int)
    requires
        serves(s.manager.holders, s.exchange.handle, at),
        s.manager.holders.len() <= 64,
        s.buf.len() == 0x100,
        0 <= pointer_buf_size,
    ensures
        ({
            let (next, action) = s.started(pointer_buf_size);
            let session = s.manager.holders[at].handle_type is Session;
            &&& next.manager == s.manager
            &&& next.exchange == (ExchangeModel {
                index: at as usize,
                stage: next.exchange.stage,
                ..s.exchange
            })
            &&& session ==> {
                &&& action == (Action::Receive { handle: s.exchange.handle })
                &&& next.exchange.stage is Receiving
            }
            &&& !session ==> {
                &&& action == (Action::AcceptSession { port: s.exchange.handle })
                &&& next.exchange.stage is Accepting
            }
            &&& !session || pointer_buf_size == 0 ==> next.buf == s.buf
            &&& session && pointer_buf_size > 0 ==> {
                let address = s.exchange.pointer_buffer;
                &&& next.buf.len() == 0x100
                &&& word(next.buf, 0) == 0
                &&& word(next.buf, 4) == 0xC00
                &&& word(next.buf, 8) == address % 0x1_0000_0000
                &&& word(next.buf, 12) == address / 0x1_0000_0000 % 0x1_0000 + 0x1_0000 * (
                pointer_buf_size % 0x1_0000)
                &&& forall|i: int| 16 <= i < 0x100 ==> #[trigger] next.buf[i] == s.buf[i]
            }
        }),
{
    law_first_holder(s.manager.holders, s.exchange.handle, at);
    let (next, action) = s.started(pointer_buf_size);
    if s.manager.holders[at].handle_type is Session && pointer_buf_size > 0 {
        lemma_pointer_buffer_told(s, at, pointer_buf_size);
    }
}

proof fn lemma_pointer_buffer_told(s: State, at: int, pointer_buf_size: int)
    requires
        s.buf.len() == 0x100,
        0 < pointer_buf_size,
    ensures
        ({
            let ctx = pointer_buffer_context(
                s.manager.holders[at].info,
                s.exchange.pointer_buffer,
                pointer_buf_size,
            );
            let told = command_outline(ctx, CommandType::Invalid, 0).put(s.buf);
            let address = s.exchange.pointer_buffer;
            &&& told.len() == 0x100
            &&& word(told, 0) == 0
            &&& word(told, 4) == 0xC00
            &&& word(told, 8) == address % 0x1_0000_0000
            &&& word(told, 12) == address / 0x1_0000_0000 % 0x1_0000 + 0x1_0000 * (pointer_buf_size
                % 0x1_0000)
            &&& forall|i: int| 16 <= i < 0x100 ==> #[trigger] told[i] == s.buf[i]
        }),
{
    let ctx = pointer_buffer_context(
        s.manager.holders[at].info,
        s.exchange.pointer_buffer,
        pointer_buf_size,
    );
    let o = command_outline(ctx, CommandType::Invalid, 0);
    let told = o.put(s.buf);
    law_command_in_bytes(ctx, CommandType::Invalid, 0, s.buf);
    lemma_outline_read_back(o, s.buf);
    law_descriptors_of_message_in_bytes(ctx, told);
    assert(data_words_from(told) + data_bytes(told) == 8);
    let read = with_command(ctx, told).receive_statics;
    assert(read == ctx.receive_statics);
    assert(read[0] == ctx.receive_statics[0]);
}

/// A session that could not be accepted ends serving with the reason. One of an
/// interposed service is acknowledged under the port's name. Any other gets its
/// object from the port's function, and has nothing behind it; without such a
/// function that is an error.
pub proof fn law_session_is_accepted(s: State, result: Result<Handle, ResultCode>)
    requires
        s.valid(),
        s.exchange.stage is Accepting,
    ensures
        ({
            let (next, action) = s.accepted(result);
            let port = s.manager.holders[s.exchange.index as int];
            &&& nothing_changed(s, next)
            &&& next.exchange == (ExchangeModel { stage: next.exchange.stage, ..s.exchange })
            &&& result matches Err(rc) ==> action == (Action::Finish { result: Err(rc) })
            &&& result matches Ok(handle) ==> {
                if port.is_mitm_service {
                    &&& action == (Action::AcknowledgeMitm { service_name: port.service_name })
                    &&& next.exchange.stage == (Stage::Acknowledging { new_handle: handle })
                } else if port.new_server_fn is Some {
                    &&& action == (Action::CreateObject {
                        new_server_fn: port.new_server_fn.unwrap(),
                    })
                    &&& next.exchange.stage == (Stage::Creating {
                        new_handle: handle,
                        forward_handle: 0,
                    })
                } else {
                    action == (Action::Finish { result: Err(ResultCode { value: 0x25A0B }) })
                }
            }
        }),
{
}

/// A session of an interposed service that was acknowledged gets its object from
/// the port's function, and forwards to the handle that came with it. One that
/// was not ends serving with the reason.
pub proof fn law_session_is_acknowledged(s: State, result: Result<Handle, ResultCode>)
    requires
        s.valid(),
        s.exchange.stage is Acknowledging,
    ensures
        ({
            let (next, action) = s.acknowledged(result);
            let port = s.manager.holders[s.exchange.index as int];
            &&& nothing_changed(s, next)
            &&& next.exchange == (ExchangeModel { stage: next.exchange.stage, ..s.exchange })
            &&& result matches Err(rc) ==> action == (Action::Finish { result: Err(rc) })
            &&& result matches Ok(forward_handle) ==> {
                if port.new_server_fn is Some {
                    &&& action == (Action::CreateObject {
                        new_server_fn: port.new_server_fn.unwrap(),
                    })
                    &&& next.exchange.stage == (Stage::Creating {
                        new_handle: s.exchange.stage->Acknowledging_new_handle,
                        forward_handle,
                    })
                } else {
                    action == (Action::Finish { result: Err(ResultCode { value: 0x25A0B }) })
                }
            }
        }),
{
}

/// A new session of a port waits on its own handle with its own object, forwards
/// where it was told to, interposes where the port does, makes sessions as the
/// port does, and has no name.
pub open spec fn is_session_of(
    port: ServerHolder,
    session: ServerHolder,
    handle: Handle,
    forward_handle: Handle,
    server: ObjectKey,
) -> bool {
    &&& session.server == server
    &&& session.info.handle == handle
    &&& session.info.owns_handle
    &&& session.info.domain_object_id == 0
    &&& session.handle_type is Session
    &&& session.new_server_fn == port.new_server_fn
    &&& session.forward_handle == forward_handle
    &&& session.is_mitm_service == port.is_mitm_service
    &&& session.service_name.value == 0
}

/// Once its object is made, the new session of a port is served behind all
/// others, with an empty domain that is no other's; where there is no room, it
/// is handed back, and that is an error.
pub proof fn law_session_is_created(s: State, server: ObjectKey)
    requires
        s.valid(),
        s.exchange.stage is Creating,
        s.manager.tables.slots.len() < usize::MAX,
    ensures
        ({
            let (next, action) = s.created(server);
            let port = s.manager.holders[s.exchange.index as int];
            let handle = s.exchange.stage->Creating_new_handle;
            let forward_handle = s.exchange.stage->Creating_forward_handle;
            let last = next.manager.holders.last();
            &&& next.buf == s.buf
            &&& next.exchange == (ExchangeModel {
                stage: Stage::Finished,
                released: next.exchange.released,
                ..s.exchange
            })
            &&& port.new_server_fn is None ==> {
                &&& action == (Action::Finish { result: Err(ResultCode { value: 0x25A0B }) })
                &&& nothing_changed(s, next)
            }
            &&& port.new_server_fn is Some && s.manager.holders.len() < 64 ==> {
                &&& action == (Action::Finish { result: Ok(()) })
                &&& next.manager.holders == s.manager.holders.push(last)
                &&& is_session_of(port, last, handle, forward_handle, server)
                &&& !s.manager.tables.has(last.domain_table)
                &&& next.manager.tables.has(last.domain_table)
                &&& next.manager.tables.table(last.domain_table).domains.len() == 0
                &&& forall|key: TableKey|
                    s.manager.tables.has(key) ==> #[trigger] next.manager.tables.table(key)
                        == s.manager.tables.table(key)
                &&& next.exchange.released == s.exchange.released
            }
            &&& port.new_server_fn is Some && s.manager.holders.len() >= 64 ==> {
                &&& action == (Action::Finish { result: Err(ResultCode { value: 0x12 }) })
                &&& next.manager.holders == s.manager.holders
                &&& next.exchange.released == s.exchange.released.push(next.exchange.released.last())
                &&& is_session_of(
                    port,
                    next.exchange.released.last(),
                    handle,
                    forward_handle,
                    server,
                )
            }
        }),
{
    law_new_table_is_fresh(s.manager.tables);
    let (next, action) = s.created(server);
    if s.manager.holders.len() >= 64 && s.holder().new_server_fn is Some {
        assert(next.exchange.released =~= s.exchange.released.push(next.exchange.released.last()));
    }
}

/// Once a session of a port is served, a signal on its handle is a message of
/// its: it is received, and no session of it is accepted.
pub proof fn law_created_session_is_received(
    s: State,
    server: ObjectKey,
    pointer_buffer: u64,
    pointer_buf_size: int,
    buf: Seq<u8>,
)
    requires
        s.valid(),
        s.exchange.stage is Creating,
        s.manager.tables.slots.len() < usize::MAX,
        s.manager.holders.len() < 64,
        s.manager.holders[s.exchange.index as int].new_server_fn is Some,
        forall|i: int|
            0 <= i < s.manager.holders.len() ==> (#[trigger] s.manager.holders[i]).info.handle
                != s.exchange.stage->Creating_new_handle,
        buf.len() == 0x100,
        0 <= pointer_buf_size,
    ensures
        ({
            let handle = s.exchange.stage->Creating_new_handle;
            let signaled = State {
                manager: s.created(server).0.manager,
                exchange: ExchangeModel::starting(handle, pointer_buffer),
                buf,
            };
            let (next, action) = signaled.started(pointer_buf_size);
            &&& action == (Action::Receive { handle })
            &&& next.exchange.index == s.manager.holders.len()
        }),
{
    law_session_is_created(s, server);
    let handle = s.exchange.stage->Creating_new_handle;
    let signaled = State {
        manager: s.created(server).0.manager,
        exchange: ExchangeModel::starting(handle, pointer_buffer),
        buf,
    };
    law_signaled_handle_is_served(signaled, s.manager.holders.len() as int, pointer_buf_size);
}

/// Sending an answer that closes nothing leaves all ports and sessions, whatever
/// comes of it: that nobody waited for it or took it is no error, and the
/// session stays. An answer that closes the session takes it out once it is
/// sent, or nobody takes it; where it could not be sent for another reason, the
/// session stays.
pub proof fn law_reply_is_sent(s: State, result: Result<(), ResultCode>)
    requires
        s.exchange.stage is Replying,
        s.exchange.stage->closing ==> s.exchange.index < s.manager.holders.len(),
    ensures
        ({
            let (next, action) = s.replied(result);
            let failed = result matches Err(rc) && rc.value != 0xEA01 && rc.value != 0xF601;
            let index = s.exchange.index as int;
            &&& action == (Action::Finish {
                result: if failed {
                    result
                } else {
                    Ok(())
                },
            })
            &&& next.buf == s.buf
            &&& same_exchange(s, next)
            &&& next.exchange.stage is Finished
            &&& !s.exchange.stage->closing || failed ==> nothing_changed(s, next)
            &&& s.exchange.stage->closing && !failed ==> {
                &&& next.manager.holders == s.manager.holders.remove(index)
                &&& next.manager.tables == s.manager.tables
                &&& next.manager.wait_handles == s.manager.wait_handles
                &&& next.exchange.released == s.exchange.released.push(s.manager.holders[index])
            }
        }),
{
    let index = s.exchange.index as int;
    if s.exchange.stage->closing {
        assert(s.exchange.released + seq![s.manager.holders[index]] =~= s.exchange.released.push(
            s.manager.holders[index],
        ));
    }
}

/// A message that could not be received is an error, and nothing changes, unless
/// the session's other end is gone: then the session goes, and that is none.
pub proof fn law_message_is_not_received(s: State, rc: ResultCode)
    requires
        s.valid(),
        s.exchange.stage is Receiving,
    ensures
        ({
            let (next, action) = s.received(Err(rc));
            let index = s.exchange.index as int;
            if rc.value == 0xF601 {
                &&& action == (Action::Finish { result: Ok(()) })
                &&& next.manager.holders == s.manager.holders.remove(index)
                &&& next.manager.tables == s.manager.tables
                &&& next.manager.wait_handles == s.manager.wait_handles
                &&& next.exchange.released == s.exchange.released.push(s.manager.holders[index])
                &&& next.buf == s.buf
            } else {
                &&& action == (Action::Finish { result: Err(rc) })
                &&& nothing_changed(s, next)
            }
        }),
{
    let index = s.exchange.index as int;
    assert(s.exchange.released + seq![s.manager.holders[index]] =~= s.exchange.released.push(
        s.manager.holders[index],
    ));
}

/// A message that is no request, no control message and does not close its
/// session is left: serving ends without an answer, and nothing changes.
pub proof fn law_other_message_is_left(s: State)
    requires
        s.exchange.stage is Receiving,
        type_code(s.buf) != 2,
        type_code(s.buf) < 4 || type_code(s.buf) > 7,
    ensures
        s.received(Ok(())).1 == (Action::Finish { result: Ok(()) }),
        nothing_changed(s, s.received(Ok(())).0),
{
    law_message_in_bytes(s.message().exchange.ctx, s.buf);
}

/// What is known of a message once it is read, before its head: the holder's
/// info and the pointer buffer, and what the bytes say.
pub open spec fn read_context(s: State) -> CommandModel {
    with_command(
        CommandModel::blank(
            s.manager.holders[s.exchange.index as int].info,
            s.exchange.pointer_buffer,
        ),
        s.buf,
    )
}

/// Where the data header of a request stands that came through a session like
/// this.
pub open spec fn request_at(b: Seq<u8>, in_domain: bool) -> int {
    if in_domain {
        data_from(b) + 16
    } else {
        data_from(b)
    }
}

/// How many bytes of data the request has besides a domain header.
pub open spec fn request_size(b: Seq<u8>, in_domain: bool) -> int {
    if in_domain {
        data_bytes(b) - 16
    } else {
        data_bytes(b)
    }
}

/// The data header of a request, where there is one, starts with the input magic.
pub open spec fn well_headed(b: Seq<u8>, in_domain: bool) -> bool {
    request_size(b, in_domain) >= 32 ==> word(b, request_at(b, in_domain)) == input_magic()
}

/// The message is a request.
pub open spec fn is_request(b: Seq<u8>) -> bool {
    type_code(b) == 4 || type_code(b) == 6
}

/// The message is a control message.
pub open spec fn is_control(b: Seq<u8>) -> bool {
    type_code(b) == 5 || type_code(b) == 7
}

proof fn lemma_request_head(s: State)
    requires
        s.valid(),
        s.exchange.stage is Receiving,
        s.can_receive(),
        is_request(s.buf),
    ensures
        ({
            let info = s.manager.holders[s.exchange.index as int].info;
            let in_domain = info.domain_object_id != 0;
            let ctx = read_context(s);
            let head = request_head(ctx, s.buf);
            let at = request_at(s.buf, in_domain);
            &&& s.message().exchange.ctx == ctx
            &&& s.message().exchange.command_type == CommandType::of_code(type_code(s.buf) as u32)
            &&& ctx.object_info == info
            &&& head.valid(s.buf) <==> well_headed(s.buf, in_domain)
            &&& head.request_id(s.buf) == (if request_size(s.buf, in_domain) >= 32 {
                word(s.buf, at + 8)
            } else {
                0
            })
            &&& in_domain ==> {
                &&& head.domain_command_type is SendMessage <==> s.buf[at - 16] == 1
                &&& head.domain_command_type is Close <==> s.buf[at - 16] == 2
                &&& head.domain_object_id == word(s.buf, at - 12)
            }
            &&& !in_domain ==> head.domain_command_type is Invalid && head.domain_object_id == 0
        }),
{
    let info = s.manager.holders[s.exchange.index as int].info;
    let blank = CommandModel::blank(info, s.exchange.pointer_buffer);
    let ctx = read_context(s);
    law_message_in_bytes(blank, s.buf);
    assert(request_header_from(ctx) == request_at(s.buf, info.domain_object_id != 0));
    assert(request_bytes(ctx) == request_size(s.buf, info.domain_object_id != 0));
    law_request_in_bytes(ctx, s.buf);
    law_domain_request_in_bytes(ctx, s.buf);
}

/// A request whose data header does not start with the input magic is an error:
/// it is not answered, and nothing changes.
pub proof fn law_request_with_wrong_header(s: State)
    requires
        s.valid(),
        s.exchange.stage is Receiving,
        s.can_receive(),
        is_request(s.buf),
        !well_headed(
            s.buf,
            s.manager.holders[s.exchange.index as int].info.domain_object_id != 0,
        ),
    ensures
        s.received(Ok(())).1 == (Action::Finish { result: Err(ResultCode { value: 0x1A60A }) }),
        nothing_changed(s, s.received(Ok(())).0),
{
    lemma_request_head(s);
}

/// What is known of a request once its head is read: the whole word of its id,
/// the domain of its session, the object that it names, the message as it came,
/// and what its bytes say. The handle that was signaled and the IPC buffer stay.
pub proof fn law_request_is_read(s: State)
    requires
        s.valid(),
        s.exchange.stage is Receiving,
        s.can_receive(),
        is_request(s.buf),
        well_headed(s.buf, s.manager.holders[s.exchange.index as int].info.domain_object_id != 0),
    ensures
        ({
            let next = s.received(Ok(())).0;
            let holder = s.manager.holders[s.exchange.index as int];
            let in_domain = holder.info.domain_object_id != 0;
            let at = request_at(s.buf, in_domain);
            &&& next.exchange.rq_id == (if request_size(s.buf, in_domain) >= 32 {
                word(s.buf, at + 8)
            } else {
                0
            })
            &&& next.exchange.domain_table == holder.domain_table
            &&& next.exchange.handle == s.exchange.handle
            &&& next.exchange.index == s.exchange.index
            &&& next.exchange.pointer_buffer == s.exchange.pointer_buffer
            &&& next.exchange.backup == s.buf
            &&& next.exchange.command_type == CommandType::of_code(type_code(s.buf) as u32)
            &&& next.exchange.new_sessions.len() == 0
            &&& next.exchange.ctx == (CommandModel {
                object_info: next.exchange.ctx.object_info,
                ..with_request(read_context(s), s.buf)
            })
            &&& !in_domain ==> next.exchange.ctx.object_info == holder.info
            &&& in_domain ==> {
                let named = next.exchange.ctx.object_info;
                &&& named.handle == holder.info.handle
                &&& named.domain_object_id == word(s.buf, at - 12)
                &&& named.owns_handle <==> word(s.buf, at - 12) == holder.info.domain_object_id
            }
            &&& next.buf == s.buf
            &&& next.manager.holders == s.manager.holders
        }),
{
    lemma_request_head(s);
}

/// A request outside of domains is for the object of its session.
pub proof fn law_request_outside_of_domains(s: State)
    requires
        s.valid(),
        s.exchange.stage is Receiving,
        s.can_receive(),
        is_request(s.buf),
        s.manager.holders[s.exchange.index as int].info.domain_object_id == 0,
        well_headed(s.buf, false),
    ensures
        ({
            let (next, action) = s.received(Ok(()));
            let object = s.manager.holders[s.exchange.index as int].server;
            &&& action == (Action::ListCommands { object })
            &&& next.exchange.stage is Listing
            &&& next.exchange.object == object
            &&& nothing_changed(s, next)
        }),
{
    lemma_request_head(s);
}

/// A message in a domain is for the object that it names: for that of the
/// session, where it names none or the session's own id, else for the one that
/// the session's own domain table has under the id. An id that is not there is
/// an error.
pub proof fn law_message_reaches_object_of_its_domain(s: State)
    requires
        s.valid(),
        s.exchange.stage is Receiving,
        s.can_receive(),
        is_request(s.buf),
        s.manager.holders[s.exchange.index as int].info.domain_object_id != 0,
        well_headed(s.buf, true),
        s.buf[data_from(s.buf)] == 1,
    ensures
        ({
            let (next, action) = s.received(Ok(()));
            let holder = s.manager.holders[s.exchange.index as int];
            let id = word(s.buf, data_from(s.buf) + 4);
            let found = if id == 0 || id == holder.info.domain_object_id {
                Ok(holder.server)
            } else {
                s.manager.tables.slots[holder.domain_table as int].unwrap().found(id as u32)
            };
            &&& nothing_changed(s, next)
            &&& next.exchange.domain_table == holder.domain_table
            &&& found matches Ok(object) ==> {
                &&& action == (Action::ListCommands { object })
                &&& next.exchange.stage is Listing
                &&& next.exchange.object == object
            }
            &&& found matches Err(rc) ==> action == (Action::Finish { result: Err(rc) })
        }),
{
    lemma_request_head(s);
}

/// A request in a domain that closes an object takes the object out of the
/// session's own domain table, hands its holder over to be released, and changes
/// no other table; one that closes the session's own object leaves it, and is
/// answered. Where there is no such object, that is an error.
pub proof fn law_object_of_domain_is_closed(s: State)
    requires
        s.valid(),
        s.exchange.stage is Receiving,
        s.can_receive(),
        is_request(s.buf),
        s.manager.holders[s.exchange.index as int].info.domain_object_id != 0,
        well_headed(s.buf, true),
        s.buf[data_from(s.buf)] == 2,
    ensures
        ({
            let (next, action) = s.received(Ok(()));
            let holder = s.manager.holders[s.exchange.index as int];
            let id = word(s.buf, data_from(s.buf) + 4);
            let key = holder.domain_table as int;
            let table = s.manager.tables.slots[key].unwrap();
            &&& next.buf == s.buf
            &&& next.manager.holders == s.manager.holders
            &&& next.manager.wait_handles == s.manager.wait_handles
            &&& id == holder.info.domain_object_id ==> {
                &&& action == (Action::Reply { handle: s.exchange.handle })
                &&& next.exchange.stage == (Stage::Replying { closing: false })
                &&& nothing_changed(s, next)
            }
            &&& id != holder.info.domain_object_id ==> match table.deallocation(id as u32) {
                Ok(object) => {
                    &&& action is Release
                    &&& next.exchange.stage is Releasing
                    &&& next.exchange.released == s.exchange.released.push(object)
                    &&& next.manager.tables.slots == s.manager.tables.slots.update(
                        key,
                        Some(table.deallocated(id as u32)),
                    )
                },
                Err(rc) => {
                    &&& action == (Action::Finish { result: Err(rc) })
                    &&& nothing_changed(s, next)
                },
            }
        }),
{
    lemma_request_head(s);
}

/// A request in a domain that asks neither for the one nor for the other is an
/// error where it names an object: it is not answered, and nothing changes. One
/// that names none is for the object of its session.
pub proof fn law_other_domain_request(s: State)
    requires
        s.valid(),
        s.exchange.stage is Receiving,
        s.can_receive(),
        is_request(s.buf),
        s.manager.holders[s.exchange.index as int].info.domain_object_id != 0,
        well_headed(s.buf, true),
        s.buf[data_from(s.buf)] != 1,
        s.buf[data_from(s.buf)] != 2,
    ensures
        s.received(Ok(())).1 == (if word(s.buf, data_from(s.buf) + 4) != 0 {
            Action::Finish { result: Err(ResultCode { value: 0xD3D }) }
        } else {
            Action::ListCommands { object: s.manager.holders[s.exchange.index as int].server }
        }),
        nothing_changed(s, s.received(Ok(())).0),
{
    lemma_request_head(s);
}

/// A control message is for the session, in a domain or not. Its id is the whole
/// third word of the data header; the five commands are called by their places,
/// and others are answered with the error that there is none. One whose data
/// header does not start with the input magic is an error.
pub proof fn law_control_is_read(s: State)
    requires
        s.valid(),
        s.exchange.stage is Receiving,
        s.can_receive(),
        is_control(s.buf),
    ensures
        ({
            let (next, action) = s.received(Ok(()));
            let at = data_from(s.buf);
            let id = word(s.buf, at + 8);
            let t = CommandType::of_code(type_code(s.buf) as u32);
            if word(s.buf, at) != input_magic() {
                &&& action == (Action::Finish { result: Err(ResultCode { value: 0x1A60A }) })
                &&& nothing_changed(s, next)
            } else {
                &&& next.manager == s.manager
                &&& next.exchange.released == s.exchange.released
                &&& next.exchange.rq_id == id
                &&& next.exchange.command_type == t
                &&& next.exchange.backup == s.buf
                &&& next.exchange.handle == s.exchange.handle
                &&& next.exchange.index == s.exchange.index
                &&& id <= 4 ==> {
                    &&& action == (Action::CallControl {
                        index: s.exchange.index,
                        command: id as usize,
                    })
                    &&& next.exchange.stage is Controlling
                    &&& next.exchange.ctx == with_control(read_context(s))
                    &&& next.buf == s.buf
                }
                &&& id > 4 ==> {
                    &&& action == (Action::Reply { handle: s.exchange.handle })
                    &&& next.exchange.stage == (Stage::Replying { closing: false })
                    &&& next.buf == control_response(
                        with_control(read_context(s)),
                        ResultCode { value: 0x1BA0A },
                        t,
                        s.buf,
                    )
                }
            }
        }),
{
    let blank = CommandModel::blank(
        s.manager.holders[s.exchange.index as int].info,
        s.exchange.pointer_buffer,
    );
    law_message_in_bytes(blank, s.buf);
    law_control_in_bytes(read_context(s), s.buf);
    law_control_commands(word(s.buf, data_from(s.buf) + 8) as u32);
}

/// A message that closes its session is answered with a message of its type and
/// without data; the session stays until the answer is sent.
pub proof fn law_close_is_read(s: State)
    requires
        s.valid(),
        s.exchange.stage is Receiving,
        s.can_receive(),
        type_code(s.buf) == 2,
    ensures
        ({
            let (next, action) = s.received(Ok(()));
            &&& action == (Action::Reply { handle: s.exchange.handle })
            &&& next.exchange.stage == (Stage::Replying { closing: true })
            &&& next.exchange.index == s.exchange.index
            &&& next.manager == s.manager
            &&& next.exchange.released == s.exchange.released
            &&& next.buf == response_outline(read_context(s), CommandType::Close, 0).put(s.buf)
        }),
{
    law_message_in_bytes(
        CommandModel::blank(
            s.manager.holders[s.exchange.index as int].info,
            s.exchange.pointer_buffer,
        ),
        s.buf,
    );
}

/// The command at a place is the first one from a place on with the id.
pub open spec fn is_first(commands: Seq<u32>, rq_id: u32, from: int, at: int) -> bool {
    &&& from <= at < commands.len()
    &&& commands[at] == rq_id
    &&& forall|i: int| from <= i < at ==> commands[i] != rq_id
}

/// No command from a place on has the id.
pub open spec fn is_nowhere(commands: Seq<u32>, rq_id: u32, from: int) -> bool {
    forall|i: int| from <= i < commands.len() ==> commands[i] != rq_id
}

proof fn lemma_found(commands: Seq<u32>, rq_id: u32, from: int, at: int)
    requires
        0 <= from <= commands.len(),
    ensures
        is_first(commands, rq_id, from, at) ==> next_command(commands, rq_id, from) == Some(at),
        is_nowhere(commands, rq_id, from) ==> next_command(commands, rq_id, from) is None,
{
    law_first_command(commands, rq_id, from);
}

/// Once the commands of the object are known, the first one with the id is
/// called, of the object that the request is for. Where there is none, the
/// message is sent on as it came, to where the holder forwards, if it
/// interposes; else the request is answered with the error that there is none.
pub proof fn law_commands_are_listed(s: State, commands: Seq<u32>, at: int)
    requires
        s.valid(),
        s.exchange.stage is Listing,
        commands.len() <= usize::MAX,
    ensures
        ({
            let (next, action) = s.listed(commands);
            let holder = s.manager.holders[s.exchange.index as int];
            &&& next.manager == s.manager
            &&& next.exchange.released == s.exchange.released
            &&& same_exchange(
                State { exchange: ExchangeModel { commands, ..s.exchange }, ..s },
                next,
            )
            &&& next.exchange.new_sessions.len() == 0
            &&& is_first(commands, s.exchange.rq_id, 0, at) ==> {
                &&& action == (Action::CallCommand {
                    object: s.exchange.object,
                    command: at as usize,
                })
                &&& next.exchange.stage == (Stage::Calling { at: at as usize })
                &&& next.exchange.ctx == s.exchange.ctx
                &&& next.buf == s.buf
            }
            &&& is_nowhere(commands, s.exchange.rq_id, 0) && holder.is_mitm_service ==> {
                &&& action == (Action::Forward { handle: holder.forward_handle })
                &&& next.exchange.stage == (Stage::Forwarding { next: commands.len() as usize })
                &&& next.exchange.ctx == s.exchange.ctx
                &&& next.buf == s.exchange.backup
            }
            &&& is_nowhere(commands, s.exchange.rq_id, 0) && !holder.is_mitm_service ==> {
                &&& action == (Action::Reply { handle: s.exchange.handle })
                &&& next.exchange.stage == (Stage::Replying { closing: false })
                &&& next.exchange.ctx == answered_context(s)
                &&& next.buf == request_response(
                    s.exchange.ctx,
                    ResultCode { value: 0x1BA0A },
                    s.exchange.command_type,
                    s.buf,
                )
            }
        }),
{
    lemma_found(commands, s.exchange.rq_id, 0, at);
}

/// The answer is sent once the new sessions of a command are served: all of
/// them, behind the others and in their order. Where there is no room for all,
/// that is an error, and those that found none are handed back.
pub open spec fn settled(s: State, next: State, action: Action) -> bool {
    let there = s.manager.holders.len();
    let made = s.exchange.new_sessions;
    &&& same_exchange(s, next)
    &&& next.manager.tables == s.manager.tables
    &&& next.manager.wait_handles == s.manager.wait_handles
    &&& next.exchange.new_sessions.len() == 0
    &&& there + made.len() <= 64 ==> {
        &&& action == (Action::Reply { handle: s.exchange.handle })
        &&& next.exchange.stage == (Stage::Replying { closing: false })
        &&& next.manager.holders == s.manager.holders + made
        &&& next.exchange.released == s.exchange.released
    }
    &&& there + made.len() > 64 ==> {
        &&& action == (Action::Finish { result: Err(ResultCode { value: 0x12 }) })
        &&& next.manager.holders == s.manager.holders + made.take(64 - there)
        &&& next.exchange.released == s.exchange.released + made.skip(64 - there)
    }
}

proof fn lemma_offers_keep_wait_handles(m: ManagerModel, holders: Seq<ServerHolder>)
    ensures
        offered_all(m, holders).manager.wait_handles == m.wait_handles,
    decreases holders.len(),
{
    if holders.len() > 0 {
        lemma_offers_keep_wait_handles(m.offered(holders[0]).manager, holders.skip(1));
    }
}

proof fn lemma_settled(s: State)
    requires
        s.manager.holders.len() <= 64,
    ensures
        settled(s, s.settle().0, s.settle().1),
        s.settle().0.buf == s.buf,
        s.settle().0.exchange.ctx == s.exchange.ctx,
{
    let (m, made) = (s.manager, s.exchange.new_sessions);
    law_offers_are_taken_in_order(m, made);
    lemma_offers_keep_wait_handles(m, made);
    let offer = offered_all(m, made);
    let there = m.holders.len() as int;
    let kept = offer.manager.holders.take(there);
    let taken = if there + made.len() <= 64 {
        made
    } else {
        made.take(64 - there)
    };
    assert(offer.manager.holders =~= m.holders + taken) by {
        assert forall|i: int| 0 <= i < offer.manager.holders.len() implies offer.manager.holders[i]
            == (m.holders + taken)[i] by {
            if i < there {
                assert(kept[i] == m.holders[i]);
            } else {
                assert(offer.manager.holders[there + (i - there)] == made[i - there]);
            }
        }
    }
    if there + made.len() <= 64 {
        assert(made.skip(made.len() as int) =~= Seq::<ServerHolder>::empty());
        assert(s.exchange.released + Seq::<ServerHolder>::empty() =~= s.exchange.released);
    }
}

/// What a step does that goes on with the commands from a place on: the next one
/// with the id is called, of the same object, and nothing changes; where there
/// is none, the new sessions are served and the answer is sent.
pub open spec fn goes_on(s: State, next: State, action: Action, from: int, at: int) -> bool {
    &&& is_first(s.exchange.commands, s.exchange.rq_id, from, at) ==> {
        &&& action == (Action::CallCommand { object: s.exchange.object, command: at as usize })
        &&& next.exchange.stage == (Stage::Calling { at: at as usize })
        &&& same_exchange(s, next)
        &&& next.exchange.new_sessions == s.exchange.new_sessions
        &&& next.exchange.released == s.exchange.released
        &&& next.manager == s.manager
    }
    &&& is_nowhere(s.exchange.commands, s.exchange.rq_id, from) ==> settled(s, next, action)
}

/// A command that succeeded has written the answer; one that failed is answered
/// with its result. But where the holder interposes, and the result asks for it,
/// the message is sent on as it came, to where the holder forwards.
pub proof fn law_command_was_called(s: State, result: Result<(), ResultCode>, at: int)
    requires
        s.valid(),
        s.exchange.stage is Calling,
        s.exchange.commands.len() <= usize::MAX,
    ensures
        ({
            let (next, action) = s.called(result);
            let holder = s.manager.holders[s.exchange.index as int];
            let from = s.exchange.stage->Calling_at + 1;
            if holder.is_mitm_service && result == Err::<(), ResultCode>(
                ResultCode { value: 0x7D015 },
            ) {
                &&& action == (Action::Forward { handle: holder.forward_handle })
                &&& next.exchange.stage == (Stage::Forwarding { next: from as usize })
                &&& same_exchange(s, next)
                &&& next.exchange.ctx == s.exchange.ctx
                &&& next.exchange.new_sessions == s.exchange.new_sessions
                &&& next.exchange.released == s.exchange.released
                &&& next.manager == s.manager
                &&& next.buf == s.exchange.backup
            } else {
                &&& goes_on(s, next, action, from, at)
                &&& is_first(s.exchange.commands, s.exchange.rq_id, from, at) || is_nowhere(
                    s.exchange.commands,
                    s.exchange.rq_id,
                    from,
                ) ==> next.exchange.ctx == (if result is Ok {
                    s.exchange.ctx
                } else {
                    answered_context(s)
                })
                &&& next.buf == match result {
                    Ok(_) => s.buf,
                    Err(rc) => request_response(
                        s.exchange.ctx,
                        rc,
                        s.exchange.command_type,
                        s.buf,
                    ),
                }
            }
        }),
{
    let from = s.exchange.stage->Calling_at + 1;
    lemma_found(s.exchange.commands, s.exchange.rq_id, from, at);
    lemma_settled(s);
    if let Err(rc) = result {
        lemma_settled(s.answered(rc));
    }
}

/// Where a message was sent on, the answer came with it; where it could not be,
/// the request is answered with the reason.
pub proof fn law_message_was_forwarded(s: State, result: Result<(), ResultCode>, at: int)
    requires
        s.valid(),
        s.exchange.stage is Forwarding,
        s.exchange.commands.len() <= usize::MAX,
    ensures
        ({
            let (next, action) = s.forwarded(result);
            let from = s.exchange.stage->next as int;
            &&& goes_on(s, next, action, from, at)
            &&& is_first(s.exchange.commands, s.exchange.rq_id, from, at) || is_nowhere(
                s.exchange.commands,
                s.exchange.rq_id,
                from,
            ) ==> next.exchange.ctx == (if result is Ok {
                s.exchange.ctx
            } else {
                answered_context(s)
            })
            &&& next.buf == match result {
                Ok(_) => s.buf,
                Err(rc) => request_response(s.exchange.ctx, rc, s.exchange.command_type, s.buf),
            }
        }),
{
    let from = s.exchange.stage->next as int;
    lemma_found(s.exchange.commands, s.exchange.rq_id, from, at);
    lemma_settled(s);
    if let Err(rc) = result {
        lemma_settled(s.answered(rc));
    }
}

/// What a command leaves is its context, the domain tables and the new sessions;
/// nothing else changes.
pub proof fn law_what_a_command_leaves(
    s: State,
    ctx: CommandModel,
    tables: TablesModel,
    new_sessions: Seq<ServerHolder>,
)
    ensures
        ({
            let after = s.commanded(ctx, tables, new_sessions);
            &&& after.exchange == (ExchangeModel { ctx, new_sessions, ..s.exchange })
            &&& after.manager == (ManagerModel { tables, ..s.manager })
            &&& after.buf == s.buf
        }),
{
}

/// The holder of a second session, as the first one's control message asked for:
/// it waits for messages on its own handle.
pub open spec fn is_second_of(
    first: ServerHolder,
    second: ServerHolder,
    handle: Handle,
    forward_handle: Handle,
) -> bool {
    &&& second.server == first.server
    &&& second.info.handle == handle
    &&& second.info.owns_handle == first.info.owns_handle
    &&& second.info.domain_object_id == first.info.domain_object_id
    &&& second.domain_table == first.domain_table
    &&& second.handle_type is Session
    &&& second.new_server_fn == first.new_server_fn
    &&& second.forward_handle == forward_handle
    &&& second.is_mitm_service <==> forward_handle != 0
    &&& second.service_name.value == 0
}

/// A control command that succeeded has written the answer; one that failed is
/// answered with its result. A second session that it made is served behind all
/// others; where there is no room, it is handed back, and that is an error.
pub proof fn law_control_was_called(
    s: State,
    result: Result<(), ResultCode>,
    server_handle: Handle,
    forward_handle: Handle,
)
    requires
        s.valid(),
        s.exchange.stage is Controlling,
    ensures
        ({
            let (next, action) = s.control_called(result, server_handle, forward_handle);
            let holder = s.manager.holders[s.exchange.index as int];
            &&& next.buf == match result {
                Ok(_) => s.buf,
                Err(rc) => control_response(s.exchange.ctx, rc, s.exchange.command_type, s.buf),
            }
            &&& same_exchange(s, next)
            &&& next.exchange.new_sessions == s.exchange.new_sessions
            &&& result is Ok ==> next.exchange.ctx == s.exchange.ctx
            &&& next.manager.tables == s.manager.tables
            &&& next.manager.wait_handles == s.manager.wait_handles
            &&& server_handle == 0 || s.manager.holders.len() < 64 ==> {
                &&& action == (Action::Reply { handle: s.exchange.handle })
                &&& next.exchange.stage == (Stage::Replying { closing: false })
                &&& next.exchange.released == s.exchange.released
            }
            &&& server_handle == 0 ==> next.manager == s.manager
            &&& server_handle != 0 && s.manager.holders.len() < 64 ==> {
                let second = next.manager.holders.last();
                &&& next.manager.holders == s.manager.holders.push(second)
                &&& is_second_of(holder, second, server_handle, forward_handle)
            }
            &&& server_handle != 0 && s.manager.holders.len() >= 64 ==> {
                let second = next.exchange.released.last();
                &&& action == (Action::Finish { result: Err(ResultCode { value: 0x12 }) })
                &&& next.manager == s.manager
                &&& next.exchange.released == s.exchange.released.push(second)
                &&& is_second_of(holder, second, server_handle, forward_handle)
            }
        }),
{
    let (next, action) = s.control_called(result, server_handle, forward_handle);
    if server_handle != 0 && s.manager.holders.len() >= 64 {
        assert(next.exchange.released =~= s.exchange.released.push(next.exchange.released.last()));
    } else {
        assert(s.exchange.released + Seq::<ServerHolder>::empty() =~= s.exchange.released);
    }
}

/// Once a second session is served, a signal on its handle is a message of its:
/// it is received, and no session of it is accepted.
pub proof fn law_second_session_is_received(
    s: State,
    result: Result<(), ResultCode>,
    server_handle: Handle,
    forward_handle: Handle,
    pointer_buffer: u64,
    pointer_buf_size: int,
    buf: Seq<u8>,
)
    requires
        s.valid(),
        s.exchange.stage is Controlling,
        server_handle != 0,
        s.manager.holders.len() < 64,
        forall|i: int|
            0 <= i < s.manager.holders.len() ==> (#[trigger] s.manager.holders[i]).info.handle
                != server_handle,
        buf.len() == 0x100,
        0 <= pointer_buf_size,
    ensures
        ({
            let cloned = s.control_called(result, server_handle, forward_handle).0.manager;
            let signaled = State {
                manager: cloned,
                exchange: ExchangeModel::starting(server_handle, pointer_buffer),
                buf,
            };
            let (next, action) = signaled.started(pointer_buf_size);
            &&& cloned.holders.last().handle_type is Session
            &&& action == (Action::Receive { handle: server_handle })
            &&& next.exchange.index == s.manager.holders.len()
        }),
{
    law_control_was_called(s, result, server_handle, forward_handle);
    let signaled = State {
        manager: s.control_called(result, server_handle, forward_handle).0.manager,
        exchange: ExchangeModel::starting(server_handle, pointer_buffer),
        buf,
    };
    law_signaled_handle_is_served(signaled, s.manager.holders.len() as int, pointer_buf_size);
}

/// Once the holders that were handed over are released, the answer is sent, and
/// nothing changes.
pub proof fn law_holders_were_released(s: State)
    ensures
        s.holders_released().1 == (Action::Reply { handle: s.exchange.handle }),
        s.holders_released().0.exchange == (ExchangeModel {
            stage: Stage::Replying { closing: false },
            ..s.exchange
        }),
        nothing_changed(s, s.holders_released().0),
{
}

/// A message can be served once it lies in the IPC buffer, a request or a control
/// message with its head, and there is room to answer that there is no control
/// command as asked for.
pub proof fn law_when_message_is_served(s: State)
    requires
        s.valid(),
        s.exchange.stage is Receiving,
    ensures
        ({
            let ctx = read_context(s);
            let at = data_from(s.buf);
            s.can_receive() <==> {
                &&& data_words_from(s.buf) + data_bytes(s.buf) + 8 * receive_statics_in(s.buf)
                    <= 0x100
                &&& is_request(s.buf) ==> request_readable(ctx, s.buf)
                &&& is_control(s.buf) ==> {
                    &&& at + 16 <= 0x100
                    &&& word(s.buf, at) == input_magic() ==> {
                        &&& data_bytes(s.buf) >= 32
                        &&& word(s.buf, at + 8) <= 4 || control_response_outline(
                            with_control(ctx),
                            CommandType::of_code(type_code(s.buf) as u32),
                        ).writable()
                    }
                }
            }
        }),
{
    let blank = CommandModel::blank(
        s.manager.holders[s.exchange.index as int].info,
        s.exchange.pointer_buffer,
    );
    law_message_in_bytes(blank, s.buf);
    law_control_in_bytes(read_context(s), s.buf);
    law_control_commands(word(s.buf, data_from(s.buf) + 8) as u32);
}

/// A step goes on whenever it has nothing to write, or there is room for it.
pub proof fn law_when_steps_go_on(s: State, commands: Seq<u32>, rc: ResultCode)
    ensures
        ({
            let holder = s.manager.holders[s.exchange.index as int];
            let room = request_response_outline(
                s.exchange.ctx,
                s.exchange.command_type,
            ).writable();
            let control_room = control_response_outline(
                s.exchange.ctx,
                s.exchange.command_type,
            ).writable();
            &&& s.can_list(commands) <==> commands.contains(s.exchange.rq_id)
                || holder.is_mitm_service || room
            &&& s.can_call(Ok(()))
            &&& s.can_call(Err(rc)) <==> (holder.is_mitm_service && rc.value == 0x7D015) || room
            &&& s.can_forward(Ok(()))
            &&& s.can_forward(Err(rc)) <==> room
            &&& s.can_call_control(Ok(()))
            &&& s.can_call_control(Err(rc)) <==> control_room
        }),
{
    law_first_command(commands, s.exchange.rq_id, 0);
}

/// No holder has the handle.
pub open spec fn serves_not(holders: Seq<ServerHolder>, handle: Handle) -> bool {
    forall|j: int| 0 <= j < holders.len() ==> (#[trigger] holders[j]).info.handle != handle
}

/// A message that was read is for the first holder with the handle that it came
/// through, and for the object that its context names: for one of the domain
/// that the request came through, where it names one that does not own the
/// handle, else for the holder's own. Where no holder has the handle, all that
/// is left is to reply.
pub proof fn law_read_message_finds_its_object(s: State, at: int)
    requires
        s.manager.holders.len() <= 64,
    ensures
        ({
            let (next, action) = s.handle_request(DomainCommandType::SendMessage);
            let info = s.exchange.ctx.object_info;
            &&& info.domain_object_id == 0 ==> (next, action) == s.handle_request(
                DomainCommandType::Invalid,
            )
            &&& info.domain_object_id != 0 ==> {
                let (refused, error) = s.handle_request(DomainCommandType::Invalid);
                &&& error == (Action::Finish { result: Err(ResultCode { value: 0xD3D }) })
                &&& nothing_changed(s, refused)
            }
            &&& nothing_changed(s, next)
            &&& serves_not(s.manager.holders, info.handle) ==> {
                &&& action == (Action::Reply { handle: s.exchange.handle })
                &&& next.exchange.stage == (Stage::Replying { closing: false })
            }
            &&& serves(s.manager.holders, info.handle, at) ==> {
                let found = if info.domain_object_id != 0 && !info.owns_handle {
                    s.manager.tables.slots[s.exchange.domain_table as int].unwrap().found(
                        info.domain_object_id,
                    )
                } else {
                    Ok(s.manager.holders[at].server)
                };
                match found {
                    Ok(object) => {
                        &&& action == (Action::ListCommands { object })
                        &&& next.exchange == (ExchangeModel {
                            index: at as usize,
                            object,
                            new_sessions: Seq::empty(),
                            stage: Stage::Listing,
                            ..s.exchange
                        })
                    },
                    Err(rc) => action == (Action::Finish { result: Err(rc) }),
                }
            }
        }),
{
    law_first_holder(s.manager.holders, s.exchange.ctx.object_info.handle, at);
}

/// A request that was read and closes an object takes it out of the domain that
/// it came through, and no other domain changes; the object that owns the
/// session's handle stays.
pub proof fn law_read_close_takes_its_object(s: State)
    ensures
        ({
            let (next, action) = s.handle_request(DomainCommandType::Close);
            let info = s.exchange.ctx.object_info;
            let key = s.exchange.domain_table as int;
            let table = s.manager.tables.slots[key].unwrap();
            &&& next.buf == s.buf
            &&& next.manager.holders == s.manager.holders
            &&& next.manager.wait_handles == s.manager.wait_handles
            &&& info.owns_handle ==> {
                &&& action == (Action::Reply { handle: s.exchange.handle })
                &&& nothing_changed(s, next)
            }
            &&& !info.owns_handle ==> match table.deallocation(info.domain_object_id) {
                Ok(object) => {
                    &&& action is Release
                    &&& next.exchange.stage is Releasing
                    &&& next.exchange.released == s.exchange.released.push(object)
                    &&& next.manager.tables.slots == s.manager.tables.slots.update(
                        key,
                        Some(table.deallocated(info.domain_object_id)),
                    )
                },
                Err(rc) => {
                    &&& action == (Action::Finish { result: Err(rc) })
                    &&& nothing_changed(s, next)
                },
            }
        }),
{
}

/// A control message that was read is for the first holder with the handle that
/// it came through, also in a domain.
pub proof fn law_read_control_finds_its_command(s: State, at: int)
    requires
        s.manager.holders.len() <= 64,
    ensures
        ({
            let (next, action) = s.handle_control();
            let handle = s.exchange.ctx.object_info.handle;
            &&& next.manager == s.manager
            &&& next.exchange.released == s.exchange.released
            &&& serves_not(s.manager.holders, handle) ==> {
                &&& action == (Action::Reply { handle: s.exchange.handle })
                &&& next.buf == s.buf
            }
            &&& serves(s.manager.holders, handle, at) && s.exchange.rq_id <= 4 ==> {
                &&& action == (Action::CallControl {
                    index: at as usize,
                    command: s.exchange.rq_id as usize,
                })
                &&& next.exchange == (ExchangeModel {
                    index: at as usize,
                    stage: Stage::Controlling,
                    ..s.exchange
                })
                &&& next.buf == s.buf
            }
            &&& serves(s.manager.holders, handle, at) && s.exchange.rq_id > 4 ==> {
                &&& action == (Action::Reply { handle: s.exchange.handle })
                &&& next.exchange.stage == (Stage::Replying { closing: false })
                &&& next.buf == control_response(
                    s.exchange.ctx,
                    ResultCode { value: 0x1BA0A },
                    s.exchange.command_type,
                    s.buf,
                )
            }
        }),
{
    law_first_holder(s.manager.holders, s.exchange.ctx.object_info.handle, at);
    law_control_commands(s.exchange.rq_id);
}

} // verus!
