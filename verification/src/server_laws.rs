//! What holds of serving handles as a whole.

use vstd::prelude::*;

use crate::buffer::IPC_BUFFER_SIZE;
use crate::exchange::{Action, Stage};
use crate::headers::{CommandType, DomainCommandType, DomainObjectId, Handle};
use crate::holder::{ObjectKey, ServerHolder};
use crate::holders::MAX_COUNT;
use crate::results::{
    ResultCode, CMIF_INVALID_COMMAND_REQUEST_ID, OS_SESSION_CLOSED, OS_TIMEOUT,
    SERVER_HOLDERS_FULL, UNKNOWN_SIGNALED_HANDLE,
};
use crate::tables::TableKey;

verus! {

use crate::buffer::u32_at;
use crate::commands::{
    aligned, control_response_outline, request_head, request_response_header_at,
    request_response_outline,
};
use crate::context::{CommandModel, ObjectInfo};
use crate::domain::{
    law_allocated_id_is_fresh, law_allocation_keeps_consistent, law_object_joins_domain,
    law_object_leaves_domain, TableModel,
};
use crate::exchange::{next_command, offered_all, target_info, ExchangeModel, State};
use crate::headers::OUT_DATA_HEADER_MAGIC;
use crate::hipc::control_commands;
use crate::manager::{
    count_where, first_with, handles_of, has_table, holds, lemma_count_none, ManagerModel,
};
use crate::message::outline_of;
use crate::params::{with_domain_object, with_session_object, ContextModel};
use crate::tables::{law_new_table_is_fresh, TablesModel};
use crate::wire_laws::{law_control_response_read_back, law_request_response_read_back};

/// What is reported next is the outcome of this action.
pub open spec fn awaits(stage: Stage, action: Action) -> bool {
    match action {
        Action::Receive { .. } => stage is Receiving,
        Action::AcceptSession { .. } => stage is Accepting,
        Action::AcknowledgeMitm { .. } => stage is Acknowledging,
        Action::CreateObject { .. } => stage is Creating,
        Action::ListCommands { .. } => stage is Listing,
        Action::CallCommand { command, .. } => stage == (Stage::Calling { at: command }),
        Action::CallControl { .. } => stage is Controlling,
        Action::Forward { .. } => stage is Forwarding,
        Action::Release => stage is Releasing,
        Action::Reply { .. } => stage is Replying,
        Action::Finish { .. } => stage is Finished,
    }
}

/// How far serving is from its end: first the phase, then what is left of it.
pub open spec fn distance(exchange: ExchangeModel) -> (nat, nat) {
    match exchange.stage {
        Stage::Receiving => (5, 0),
        Stage::Accepting => (5, 0),
        Stage::Listing => (4, 0),
        Stage::Acknowledging { .. } => (4, 0),
        Stage::Creating { .. } => (3, 0),
        Stage::Controlling => (3, 0),
        Stage::Calling { at } => (3, (2 * (exchange.commands.len() - at) + 1) as nat),
        Stage::Forwarding { next } => (3, (2 * (exchange.commands.len() - next) + 2) as nat),
        Stage::Releasing => (2, 0),
        Stage::Replying { .. } => (1, 0),
        Stage::Finished => (0, 0),
    }
}

pub open spec fn nearer(a: (nat, nat), b: (nat, nat)) -> bool {
    a.0 < b.0 || (a.0 == b.0 && a.1 < b.1)
}

/// What a step from `s` gives: the stage fits the action that is asked for, and
/// the end is nearer.
pub open spec fn is_step(s: State, next: (State, Action)) -> bool {
    awaits(next.0.exchange.stage, next.1) && nearer(
        distance(next.0.exchange),
        distance(s.exchange),
    )
}

proof fn lemma_next_command(commands: Seq<u32>, rq_id: u32, from: int)
    requires
        0 <= from <= commands.len(),
    ensures
        next_command(commands, rq_id, from) matches Some(at) ==> from <= at < commands.len()
            && commands[at] == rq_id,
        next_command(commands, rq_id, from) is None ==> forall|i: int|
            from <= i < commands.len() ==> commands[i] != rq_id,
{
    let rest = commands.skip(from);
    rest.index_of_first_ensures(rq_id);
    if next_command(commands, rq_id, from) is None {
        assert forall|i: int| from <= i < commands.len() implies commands[i] != rq_id by {
            assert(rest[i - from] == commands[i]);
        }
    }
}

/// Starting to serve a handle asks for an action that fits the stage.
pub proof fn law_start_fits(s: State, pointer_buf_size: int)
    requires
        s.exchange.stage is Finished,
    ensures
        awaits(
            s.started(pointer_buf_size).0.exchange.stage,
            s.started(pointer_buf_size).1,
        ),
{
}

/// Every step of accepting a session fits, and brings the end nearer.
pub proof fn law_accepting_advances(s: State, result: Result<Handle, ResultCode>, server: ObjectKey)
    requires
        s.valid(),
    ensures
        s.exchange.stage is Accepting ==> is_step(s, s.accepted(result)),
        s.exchange.stage is Acknowledging ==> is_step(s, s.acknowledged(result)),
        s.exchange.stage is Creating ==> is_step(s, s.created(server)),
{
}

/// Every step of serving a message fits, and brings the end nearer: a handle is
/// served in finitely many steps, whatever is reported.
pub proof fn law_serving_advances(
    s: State,
    result: Result<(), ResultCode>,
    commands: Seq<u32>,
    server_handle: Handle,
    forward_handle: Handle,
)
    requires
        s.valid(),
        commands.len() <= usize::MAX,
        s.exchange.commands.len() <= usize::MAX,
    ensures
        s.exchange.stage is Receiving ==> is_step(s, s.received(result)),
        s.exchange.stage is Listing ==> is_step(s, s.listed(commands)),
        s.exchange.stage is Calling ==> is_step(s, s.called(result)),
        s.exchange.stage is Forwarding ==> is_step(s, s.forwarded(result)),
        s.exchange.stage is Controlling ==> is_step(
            s,
            s.control_called(result, server_handle, forward_handle),
        ),
        s.exchange.stage is Releasing ==> is_step(s, s.holders_released()),
        s.exchange.stage is Replying ==> is_step(s, s.replied(result)),
{
    match s.exchange.stage {
        Stage::Listing => {
            lemma_next_command(commands, s.exchange.rq_id, 0);
        },
        Stage::Calling { at } => {
            lemma_next_command(s.exchange.commands, s.exchange.rq_id, at + 1);
        },
        Stage::Forwarding { next } => {
            lemma_next_command(s.exchange.commands, s.exchange.rq_id, next as int);
        },
        _ => {},
    }
}

/// A handle that is waited for has a holder: once it is signaled, serving it
/// does not end with the error that nobody has it.
pub proof fn law_waited_handle_is_served(s: State, i: int, pointer_buf_size: int)
    requires
        0 <= i < handles_of(s.manager.holders).len(),
        s.exchange.handle == handles_of(s.manager.holders)[i],
    ensures
        s.exchange.handle != 0,
        first_with(s.manager.holders, s.exchange.handle) is Some,
        s.started(pointer_buf_size).1 !is Finish,
{
    let all = s.manager.holders.map_values(|holder: ServerHolder| holder.info.handle);
    lemma_filtered(all, |handle: Handle| handle != 0, i);
    all.index_of_first_ensures(s.exchange.handle);
}

proof fn lemma_filtered<T>(all: Seq<T>, keep: spec_fn(T) -> bool, i: int)
    requires
        0 <= i < all.filter(keep).len(),
    ensures
        keep(all.filter(keep)[i]),
        all.contains(all.filter(keep)[i]),
    decreases all.len(),
{
    reveal(Seq::filter);
    if all.len() > 0 {
        let kept = all.drop_last().filter(keep);
        if i < kept.len() {
            lemma_filtered(all.drop_last(), keep, i);
            let item = all.filter(keep)[i];
            assert(item == kept[i]);
            let j = choose|j: int| 0 <= j < all.drop_last().len() && all.drop_last()[j] == item;
            assert(all[j] == item);
        } else {
            assert(all.filter(keep)[i] == all.last());
            assert(all[all.len() - 1] == all.last());
        }
    }
}

/// A handle that no holder has is refused, and nothing changes.
pub proof fn law_unknown_handle_is_refused(s: State, pointer_buf_size: int)
    requires
        s.exchange.stage is Finished,
        forall|i: int|
            0 <= i < s.manager.holders.len() ==> (#[trigger] s.manager.holders[i]).info.handle
                != s.exchange.handle,
    ensures
        s.started(pointer_buf_size).1 == (Action::Finish {
            result: Err(ResultCode { value: UNKNOWN_SIGNALED_HANDLE }),
        }),
        s.started(pointer_buf_size).0 == s,
{
    let all = s.manager.holders.map_values(|holder: ServerHolder| holder.info.handle);
    all.index_of_first_ensures(s.exchange.handle);
    if let Some(at) = all.index_of_first(s.exchange.handle) {
        assert(s.manager.holders[at].info.handle == s.exchange.handle);
    }
    assert(s.started(pointer_buf_size).0 =~= s);
}

/// The message in `b` answers a request that came in this context: it has the
/// request's type and a data header with this result.
pub open spec fn answers_request(
    b: Seq<u8>,
    ctx: CommandModel,
    request_type: CommandType,
    rc: ResultCode,
) -> bool {
    let at = request_response_header_at(ctx, request_response_outline(ctx, request_type));
    &&& outline_of(b).command_type == request_type
    &&& u32_at(b, at) == OUT_DATA_HEADER_MAGIC
    &&& u32_at(b, at + 8) == rc.value
}

/// The message in `b` answers a control message that came in this context.
pub open spec fn answers_control(
    b: Seq<u8>,
    ctx: CommandModel,
    control_type: CommandType,
    rc: ResultCode,
) -> bool {
    let at = aligned(control_response_outline(ctx, control_type).shape().data_words_at());
    &&& outline_of(b).command_type == control_type
    &&& u32_at(b, at) == OUT_DATA_HEADER_MAGIC
    &&& u32_at(b, at + 8) == rc.value
}

/// A request for a command that an object does not have is answered with the
/// error for that, unless a service behind an interposer is there to answer.
pub proof fn law_missing_command_is_answered(s: State, commands: Seq<u32>)
    requires
        s.valid(),
        s.exchange.stage is Listing,
        s.can_list(commands),
        !commands.contains(s.exchange.rq_id),
        !s.holder().is_mitm_service,
        s.buf.len() == IPC_BUFFER_SIZE,
    ensures
        s.listed(commands).1 == (Action::Reply { handle: s.exchange.handle }),
        answers_request(
            s.listed(commands).0.buf,
            s.exchange.ctx,
            s.exchange.command_type,
            ResultCode { value: CMIF_INVALID_COMMAND_REQUEST_ID },
        ),
        s.listed(commands).0.manager == s.manager,
{
    lemma_next_command(commands, s.exchange.rq_id, 0);
    law_request_response_read_back(
        s.exchange.ctx,
        ResultCode { value: CMIF_INVALID_COMMAND_REQUEST_ID },
        s.exchange.command_type,
        s.buf,
    );
}

/// A request whose command failed is answered with the command's result, unless
/// the service behind an interposer is to answer.
pub proof fn law_failed_command_is_answered(s: State, rc: ResultCode)
    requires
        s.valid(),
        s.exchange.stage is Calling,
        s.can_call(Err(rc)),
        !s.forwards(rc),
        s.buf.len() == IPC_BUFFER_SIZE,
    ensures
        answers_request(s.called(Err(rc)).0.buf, s.exchange.ctx, s.exchange.command_type, rc),
{
    law_request_response_read_back(s.exchange.ctx, rc, s.exchange.command_type, s.buf);
}

/// A request that could not be sent on is answered with the reason.
pub proof fn law_failed_forward_is_answered(s: State, rc: ResultCode)
    requires
        s.valid(),
        s.exchange.stage is Forwarding,
        s.can_forward(Err(rc)),
        s.buf.len() == IPC_BUFFER_SIZE,
    ensures
        answers_request(s.forwarded(Err(rc)).0.buf, s.exchange.ctx, s.exchange.command_type, rc),
{
    law_request_response_read_back(s.exchange.ctx, rc, s.exchange.command_type, s.buf);
}

/// The answer that a successful command has written is what is sent.
pub proof fn law_successful_command_has_answered(s: State)
    requires
        s.valid(),
        s.exchange.stage is Calling,
    ensures
        s.called(Ok(())).0.buf == s.buf,
{
}

/// The control commands have the request ids from zero on.
pub proof fn law_control_commands(rq_id: u32)
    ensures
        next_command(control_commands(), rq_id, 0) == (if rq_id < control_commands().len() {
            Some(rq_id as int)
        } else {
            None
        }),
{
    lemma_next_command(control_commands(), rq_id, 0);
    if rq_id < control_commands().len() {
        assert(control_commands()[rq_id as int] == rq_id);
    }
}

/// A control message for a command that there is not is answered with the error
/// for that.
pub proof fn law_missing_control_is_answered(s: State)
    requires
        s.addressed() is Some,
        s.exchange.rq_id >= control_commands().len(),
        s.can_answer_control(),
        s.buf.len() == IPC_BUFFER_SIZE,
    ensures
        s.handle_control().1 == (Action::Reply { handle: s.exchange.handle }),
        answers_control(
            s.handle_control().0.buf,
            s.exchange.ctx,
            s.exchange.command_type,
            ResultCode { value: CMIF_INVALID_COMMAND_REQUEST_ID },
        ),
{
    law_control_commands(s.exchange.rq_id);
    law_control_response_read_back(
        s.exchange.ctx,
        ResultCode { value: CMIF_INVALID_COMMAND_REQUEST_ID },
        s.exchange.command_type,
        s.buf,
    );
}

/// A message for a handle that no holder has is left: nothing is written, all
/// ports, sessions and domains stay as they are, and there is no error.
pub proof fn law_message_for_no_holder_is_left(s: State)
    requires
        s.addressed() is None,
    ensures
        ({
            let (next, action) = s.handle_control();
            &&& action == (Action::Reply { handle: s.exchange.handle })
            &&& next.manager == s.manager
            &&& next.buf == s.buf
        }),
        ({
            let (next, action) = s.handle_request(DomainCommandType::SendMessage);
            &&& action == (Action::Reply { handle: s.exchange.handle })
            &&& next.manager == s.manager
            &&& next.buf == s.buf
        }),
        !s.exchange.ctx.object_info.in_domain() ==> {
            let (next, action) = s.handle_request(DomainCommandType::Invalid);
            &&& action == (Action::Reply { handle: s.exchange.handle })
            &&& next.manager == s.manager
            &&& next.buf == s.buf
        },
{
}

/// A control message whose command failed is answered with the command's result.
pub proof fn law_failed_control_is_answered(
    s: State,
    rc: ResultCode,
    server_handle: Handle,
    forward_handle: Handle,
)
    requires
        s.valid(),
        s.exchange.stage is Controlling,
        s.can_call_control(Err(rc)),
        s.buf.len() == IPC_BUFFER_SIZE,
    ensures
        answers_control(
            s.control_called(Err(rc), server_handle, forward_handle).0.buf,
            s.exchange.ctx,
            s.exchange.command_type,
            rc,
        ),
{
    law_control_response_read_back(s.exchange.ctx, rc, s.exchange.command_type, s.buf);
}

/// What is sent on to the service behind an interposer is the message as it
/// came, whatever has happened to the IPC buffer since.
pub proof fn law_forwarded_message_is_the_received(
    s: State,
    result: Result<(), ResultCode>,
    commands: Seq<u32>,
)
    requires
        s.valid(),
    ensures
        s.exchange.stage is Receiving && result is Ok ==> s.received(result).0.exchange.backup
            == s.buf,
        s.exchange.stage is Listing ==> {
            let (next, action) = s.listed(commands);
            next.exchange.backup == s.exchange.backup && (action is Forward ==> next.buf
                == s.exchange.backup)
        },
        s.exchange.stage is Calling ==> {
            let (next, action) = s.called(result);
            next.exchange.backup == s.exchange.backup && (action is Forward ==> next.buf
                == s.exchange.backup)
        },
        s.exchange.stage is Forwarding ==> s.forwarded(result).0.exchange.backup
            == s.exchange.backup,
{
}

/// A message that closes its session is answered, and once the answer is sent,
/// or nobody takes it, the session is gone.
pub proof fn law_closed_session_goes(s: State, reply: Result<(), ResultCode>)
    requires
        s.valid(),
        s.exchange.stage is Receiving,
        s.can_receive(),
        outline_of(s.buf).command_type is Close,
        s.buf.len() == IPC_BUFFER_SIZE,
        reply matches Err(rc) ==> rc.value == OS_TIMEOUT || rc.value == OS_SESSION_CLOSED,
    ensures
        ({
            let (answered, action) = s.received(Ok(()));
            let (gone, last_action) = answered.replied(reply);
            &&& action == (Action::Reply { handle: s.exchange.handle })
            &&& outline_of(answered.buf).command_type is Close
            &&& answered.manager == s.manager
            &&& last_action == (Action::Finish { result: Ok(()) })
            &&& gone.manager.holders == s.manager.holders.remove(s.exchange.index as int)
            &&& gone.manager.tables == s.manager.tables
            &&& gone.exchange.released == s.exchange.released.push(s.holder())
        }),
{
    let ctx = s.message().exchange.ctx;
    let o = crate::commands::response_outline(ctx, CommandType::Close, 0);
    crate::exchange::lemma_close_response_fits(s.holder().info, s.exchange.pointer_buffer, s.buf);
    crate::wire_laws::law_outline_response_read_back(ctx, ctx, CommandType::Close, 0, s.buf);
    assert(s.exchange.released + seq![s.holder()] =~= s.exchange.released.push(s.holder()));
}

/// A session whose other end is gone goes, without an answer.
pub proof fn law_lost_session_goes(s: State)
    requires
        s.valid(),
        s.exchange.stage is Receiving,
    ensures
        ({
            let (gone, action) = s.received(Err(ResultCode { value: OS_SESSION_CLOSED }));
            &&& action == (Action::Finish { result: Ok(()) })
            &&& gone.manager.holders == s.manager.holders.remove(s.exchange.index as int)
            &&& gone.manager.tables == s.manager.tables
            &&& gone.exchange.released == s.exchange.released.push(s.holder())
            &&& gone.buf == s.buf
        }),
{
    assert(s.exchange.released + seq![s.holder()] =~= s.exchange.released.push(s.holder()));
}

/// `b` has all holders of `a`, in their places.
pub open spec fn keeps_holders(a: ManagerModel, b: ManagerModel) -> bool {
    a.holders.len() <= b.holders.len() && b.holders.take(a.holders.len() as int) == a.holders
}

/// Holders are taken over in the order in which they are offered, as many as
/// there is room for; the others are refused. Those that were there before stay.
pub proof fn law_offers_are_taken_in_order(m: ManagerModel, holders: Seq<ServerHolder>)
    requires
        m.holders.len() <= MAX_COUNT,
    ensures
        ({
            let offer = offered_all(m, holders);
            let room = MAX_COUNT - m.holders.len();
            let taken = if holders.len() <= room {
                holders.len() as int
            } else {
                room
            };
            &&& keeps_holders(m, offer.manager)
            &&& offer.manager.holders.len() == m.holders.len() + taken
            &&& forall|i: int|
                0 <= i < taken ==> #[trigger] offer.manager.holders[m.holders.len() + i]
                    == holders[i]
            &&& offer.manager.tables == m.tables
            &&& offer.refused == holders.skip(taken)
            &&& offer.result is Ok <==> holders.len() <= room
            &&& offer.result matches Err(rc) ==> rc.value == SERVER_HOLDERS_FULL
        }),
    decreases holders.len(),
{
    if holders.len() > 0 && m.holders.len() < MAX_COUNT {
        let first = m.offered(holders[0]).manager;
        let rest = holders.skip(1);
        law_offers_are_taken_in_order(first, rest);
        let offer = offered_all(m, holders);
        let room = MAX_COUNT - m.holders.len();
        let taken = if holders.len() <= room {
            holders.len() as int
        } else {
            room
        };
        assert(offer.manager.holders.take(m.holders.len() as int) =~= m.holders) by {
            let kept = offer.manager.holders.take(first.holders.len() as int);
            assert(kept == first.holders);
            assert forall|i: int| 0 <= i < m.holders.len() implies offer.manager.holders[i]
                == m.holders[i] by {
                assert(kept[i] == first.holders[i]);
            }
        }
        assert forall|i: int| 0 <= i < taken implies #[trigger] offer.manager.holders[
            m.holders.len() + i
        ] == holders[i] by {
            if i == 0 {
                let kept = offer.manager.holders.take(first.holders.len() as int);
                assert(kept[m.holders.len() as int] == first.holders[m.holders.len() as int]);
            } else {
                assert(offer.manager.holders[first.holders.len() + (i - 1)] == rest[i - 1]);
            }
        }
        assert(rest.skip(taken - 1) =~= holders.skip(taken));
    } else {
        let offer = offered_all(m, holders);
        assert(offer.manager.holders.take(m.holders.len() as int) =~= m.holders);
        if holders.len() > 0 {
            assert(holders.skip(0) =~= holders);
        } else {
            assert(holders.skip(0) =~= Seq::<ServerHolder>::empty());
        }
    }
}

proof fn lemma_offer_keeps(m: ManagerModel, holder: ServerHolder)
    ensures
        keeps_holders(m, m.offered(holder).manager),
{
    let after = m.offered(holder).manager;
    assert(after.holders.take(m.holders.len() as int) =~= m.holders);
}

/// Whatever is reported, serving a handle leaves all ports and sessions in their
/// places, but for the session that is served, which can go.
pub proof fn law_other_holders_stay(
    s: State,
    accepted: Result<Handle, ResultCode>,
    server: ObjectKey,
    result: Result<(), ResultCode>,
    commands: Seq<u32>,
    server_handle: Handle,
    forward_handle: Handle,
)
    requires
        s.valid(),
    ensures
        s.exchange.stage is Accepting ==> keeps_holders(s.manager, s.accepted(accepted).0.manager),
        s.exchange.stage is Acknowledging ==> keeps_holders(
            s.manager,
            s.acknowledged(accepted).0.manager,
        ),
        s.exchange.stage is Creating ==> keeps_holders(s.manager, s.created(server).0.manager),
        s.exchange.stage is Receiving ==> keeps_holders(s.manager, s.received(result).0.manager)
            || s.received(result).0.manager == s.manager.without(s.exchange.index as int),
        s.exchange.stage is Listing ==> keeps_holders(s.manager, s.listed(commands).0.manager),
        s.exchange.stage is Calling ==> keeps_holders(s.manager, s.called(result).0.manager),
        s.exchange.stage is Forwarding ==> keeps_holders(s.manager, s.forwarded(result).0.manager),
        s.exchange.stage is Controlling ==> keeps_holders(
            s.manager,
            s.control_called(result, server_handle, forward_handle).0.manager,
        ),
        s.exchange.stage is Releasing ==> keeps_holders(s.manager, s.holders_released().0.manager),
        s.exchange.stage is Replying ==> keeps_holders(s.manager, s.replied(result).0.manager)
            || s.replied(result).0.manager == s.manager.without(s.exchange.index as int),
{
    assert(s.manager.holders.take(s.manager.holders.len() as int) =~= s.manager.holders);
    law_offers_are_taken_in_order(s.manager, s.exchange.new_sessions);
    if s.exchange.stage is Creating {
        lemma_offer_keeps(
            s.manager.with_new_table(),
            s.holder().accepted(
                s.exchange.stage->Creating_new_handle,
                s.exchange.stage->Creating_forward_handle,
                server,
                s.manager.tables.fresh_key(),
            ),
        );
    }
    lemma_offer_keeps(s.manager, s.holder().cloned(server_handle, forward_handle));
}

/// A second session that a control command made is served with the same object,
/// in the same domain, beside the first.
pub proof fn law_cloned_session_shares(
    s: State,
    result: Result<(), ResultCode>,
    server_handle: Handle,
    forward_handle: Handle,
)
    requires
        s.valid(),
        s.exchange.stage is Controlling,
        server_handle != 0,
        s.manager.holders.len() < MAX_COUNT,
    ensures
        ({
            let (next, action) = s.control_called(result, server_handle, forward_handle);
            let second = next.manager.holders.last();
            &&& action == (Action::Reply { handle: s.exchange.handle })
            &&& next.manager.holders == s.manager.holders.push(second)
            &&& second.info.handle == server_handle
            &&& second.forward_handle == forward_handle
            &&& second.server == s.holder().server
            &&& second.domain_table == s.holder().domain_table
            &&& second.info.domain_object_id == s.holder().info.domain_object_id
            &&& next.manager.tables == s.manager.tables
        }),
{
}

/// A holder that was just made has an empty domain table, which no other holder
/// of the manager has, also once it is taken over.
pub proof fn law_new_session_has_own_domain(m: ManagerModel, holder: ServerHolder)
    requires
        m.wf(),
        m.holders.len() < MAX_COUNT,
        m.tables.slots.len() < usize::MAX,
        holder.domain_table == m.tables.fresh_key(),
    ensures
        ({
            let after = m.with_new_table().offered(holder).manager;
            &&& after.wf()
            &&& after.tables.table(holder.domain_table) == TableModel::empty()
            &&& forall|i: int|
                0 <= i < m.holders.len() ==> (#[trigger] after.holders[i]).domain_table
                    != holder.domain_table
            &&& forall|k: TableKey|
                m.tables.has(k) ==> #[trigger] after.tables.table(k) == m.tables.table(k)
        }),
{
    crate::manager::lemma_new_table_keeps_wf(m);
    law_new_table_is_fresh(m.tables);
    let after = m.with_new_table().offered(holder).manager;
    assert forall|i: int| 0 <= i < m.holders.len() implies (#[trigger] after.holders[i]).domain_table
        != holder.domain_table by {
        assert(m.tables.has(m.holders[i].domain_table));
    }
}

/// A holder brings its domain table along when it is offered, with all that is
/// in it: the id that a session got when it was made a domain stays taken.
pub proof fn law_offered_holder_keeps_its_domain(m: ManagerModel, holder: ServerHolder)
    requires
        m.tables.has(holder.domain_table),
        m.tables.table(holder.domain_table).wf(),
        m.tables.table(holder.domain_table).allocation() is Ok,
    ensures
        m.offered(holder).manager.tables == m.tables,
        ({
            let key = holder.domain_table;
            let table = m.tables.table(key);
            let id = table.allocation()->Ok_0;
            let converted = ServerHolder {
                info: ObjectInfo { domain_object_id: id, ..holder.info },
                ..holder
            };
            let after = (ManagerModel {
                tables: m.tables.with(key, table.allocated()),
                ..m
            }).offered(converted).manager.tables.table(key);
            &&& after == table.allocated()
            &&& after.table.contains(id)
            &&& after.allocation() != Ok::<DomainObjectId, ResultCode>(id)
        }),
{
    let table = m.tables.table(holder.domain_table);
    law_allocated_id_is_fresh(table);
    law_allocated_id_is_fresh(table.allocated());
}

/// A domain table is there as long as some holder has it: letting a released
/// holder go then changes nothing.
pub proof fn law_domain_stays_with_other_sessions(
    m: ManagerModel,
    released: Seq<ServerHolder>,
    at: int,
    elsewhere: nat,
    other: int,
)
    requires
        0 <= at < released.len(),
        0 <= other < m.holders.len(),
        m.holders[other].domain_table == released[at].domain_table,
    ensures
        m.after_release(released, at, elsewhere) == m,
        m.released_after(released, at, elsewhere) == released,
{
    let like = has_table(released[at].domain_table);
    lemma_count_none(m.holders, like);
    assert(like(m.holders[other]));
    lemma_count_rest(released, at, like);
}

/// With the last holder that has a domain table the table goes, its key can be
/// given out again, and its objects are released next. No other table changes.
pub proof fn law_domain_goes_with_last_session(
    m: ManagerModel,
    released: Seq<ServerHolder>,
    at: int,
)
    requires
        0 <= at < released.len(),
        m.tables.has(released[at].domain_table),
        m.total_where(has_table(released[at].domain_table)) == 0,
        forall|later: int|
            at < later < released.len() ==> (#[trigger] released[later]).domain_table
                != released[at].domain_table,
    ensures
        ({
            let key = released[at].domain_table;
            let after = m.after_release(released, at, 0);
            &&& !after.tables.has(key)
            &&& after.holders == m.holders
            &&& forall|k: TableKey|
                k != key && m.tables.has(k) ==> after.tables.has(k) && #[trigger] after.tables.table(
                    k,
                ) == m.tables.table(k)
            &&& m.released_after(released, at, 0) == released.take(at + 1) + m.tables.table(
                key,
            ).domains + released.skip(at + 1)
        }),
{
    let like = has_table(released[at].domain_table);
    lemma_count_rest(released, at, like);
    let later = released.skip(at + 1);
    assert forall|i: int| 0 <= i < later.len() implies !like(#[trigger] later[i]) by {
        assert(released[at + 1 + i].domain_table != released[at].domain_table);
    }
    lemma_count_none(later, like);
}

/// A released holder that is like this counts for one, beside those after it.
pub proof fn lemma_count_rest(
    released: Seq<ServerHolder>,
    at: int,
    like: spec_fn(ServerHolder) -> bool,
)
    requires
        0 <= at < released.len(),
        like(released[at]),
    ensures
        count_where(released.skip(at), like) == 1 + count_where(released.skip(at + 1), like),
{
    let one = seq![released[at]];
    assert(released.skip(at) =~= one + released.skip(at + 1));
    Seq::filter_distributes_over_add(one, released.skip(at + 1), like);
    assert(one.filter(like).len() == 1) by {
        reveal(Seq::filter);
        assert(one.drop_last() =~= Seq::<ServerHolder>::empty());
        assert(Seq::<ServerHolder>::empty().filter(like).len() == 0);
    }
}

/// Of the released holders of an object that nothing else holds, the last one
/// closes what it holds, and no other one does.
pub proof fn law_last_holder_closes(m: ManagerModel, released: Seq<ServerHolder>, at: int)
    requires
        0 <= at < released.len(),
        m.total_where(holds(released[at].server)) == 0,
    ensures
        m.use_count(released, at, 0) == 1 <==> forall|later: int|
            at < later < released.len() ==> (#[trigger] released[later]).server
                != released[at].server,
{
    let object = released[at].server;
    let like = holds(object);
    let later = released.skip(at + 1);
    lemma_count_rest(released, at, like);
    lemma_count_none(later, like);
    if forall|k: int| at < k < released.len() ==> (#[trigger] released[k]).server != object {
        assert forall|i: int| 0 <= i < later.len() implies !like(#[trigger] later[i]) by {
            assert(released[at + 1 + i].server != object);
        }
    }
    if count_where(later, like) == 0 {
        assert forall|k: int| at < k < released.len() implies (#[trigger] released[k]).server
            != object by {
            assert(!like(later[k - at - 1]));
        }
    }
}

/// A holder whose object something else holds closes nothing.
pub proof fn law_shared_object_stays_open(
    m: ManagerModel,
    released: Seq<ServerHolder>,
    at: int,
    elsewhere: nat,
)
    requires
        0 <= at < released.len(),
        m.total_where(holds(released[at].server)) + elsewhere > 0,
    ensures
        released[at].drop_action(m.use_count(released, at, elsewhere) as int) is Done,
{
    lemma_count_rest(released, at, holds(released[at].server));
}

/// An object that a command gives out through the domain of its session is told
/// to the caller by an id, and by this id it is found afterwards. The domain
/// table stays consistent, whether or not there was room, and no other table
/// changes.
pub proof fn law_given_object_is_found(c: ContextModel, object: ObjectKey)
    requires
        c.tables.has(c.domain_table),
        c.tables.slots.len() < usize::MAX,
        c.table().consistent(),
    ensures
        ({
            let (r, after) = with_domain_object(c, object);
            &&& after.tables.has(c.domain_table)
            &&& after.table().consistent()
            &&& forall|k: TableKey|
                k != c.domain_table && c.tables.has(k) ==> #[trigger] after.tables.table(k)
                    == c.tables.table(k)
            &&& r is Ok ==> {
                let id = after.ctx.out_params.objects.last();
                &&& after.ctx.out_params.objects == c.ctx.out_params.objects.push(id)
                &&& after.table().found(id) == Ok::<ObjectKey, ResultCode>(object)
                &&& !c.table().table.contains(id)
                &&& forall|other: u32|
                    other != id ==> #[trigger] after.table().found(other) == c.table().found(other)
            }
        }),
{
    law_allocation_keeps_consistent(c.table());
    law_allocated_id_is_fresh(c.table());
    let taken = c.tables.with(c.domain_table, c.table().allocated());
    law_new_table_is_fresh(taken);
    if let Ok(id) = c.table().allocation() {
        let holder = ServerHolder::session_of(
            ObjectInfo::of_domain_object(0, id),
            object,
            taken.fresh_key(),
        );
        law_object_joins_domain(c.table(), holder);
        assert(taken.has(c.domain_table));
        assert(taken.with_new().table(c.domain_table) == taken.table(c.domain_table));
        let (r, after) = with_domain_object(c, object);
        assert forall|k: TableKey| k != c.domain_table && c.tables.has(
            k,
        ) implies #[trigger] after.tables.table(k) == c.tables.table(k) by {
            assert(taken.has(k));
            assert(taken.with_new().table(k) == taken.table(k));
        }
    }
}

/// A request in a domain reaches the object that it names: the session's own
/// object by the session's own id, or by none, and other objects by theirs. An
/// id that no object has is an error.
pub proof fn law_request_reaches_its_object(s: State, at: int, id: DomainObjectId)
    requires
        s.addressed() == Some(at),
        s.manager.holders[at].info.in_domain(),
        s.exchange.ctx.object_info == target_info(s.manager.holders[at].info, id),
    ensures
        s.handle_request(DomainCommandType::SendMessage) == s.find_target(),
        s.target(at) == if id == 0 || id == s.manager.holders[at].info.domain_object_id {
            Ok::<ObjectKey, ResultCode>(s.manager.holders[at].server)
        } else {
            s.table().found(id)
        },
        s.target(at) matches Ok(object) ==> s.find_target().1 == (Action::ListCommands { object }),
        s.target(at) matches Err(rc) ==> s.find_target().1 == (Action::Finish { result: Err(rc) }),
{
}

/// A request to close an object of a domain takes it out: a later request for it
/// finds nothing. What holds it is released before the answer is sent.
pub proof fn law_closed_object_is_gone(s: State, id: DomainObjectId)
    requires
        s.manager.tables.has(s.exchange.domain_table),
        s.table().distinct_ids(),
        s.table().has_object(id),
        id != 0,
        s.exchange.ctx.object_info.domain_object_id == id,
        !s.exchange.ctx.object_info.owns_handle,
    ensures
        ({
            let (after, action) = s.handle_request(DomainCommandType::Close);
            &&& action is Release
            &&& after.holders_released().1 == (Action::Reply { handle: s.exchange.handle })
            &&& after.table().found(id) is Err
            &&& forall|other: u32|
                other != id ==> #[trigger] after.table().found(other) == s.table().found(other)
            &&& s.table().consistent() ==> after.table().consistent()
            &&& after.exchange.released == s.exchange.released.push(s.table().domains[s.table().object_at(
                id,
            ).unwrap()])
            &&& after.manager.holders == s.manager.holders
        }),
{
    law_object_leaves_domain(s.table(), id);
}

/// A command leaves a valid state valid, as long as it keeps the domain tables
/// and gives its new sessions theirs. It leaves all ports and sessions as they
/// are.
pub proof fn law_command_keeps_valid(
    s: State,
    ctx: CommandModel,
    tables: TablesModel,
    new_sessions: Seq<ServerHolder>,
)
    requires
        s.valid(),
        s.exchange.stage is Calling,
        s.manager.tables.keys_in(tables),
        forall|i: int|
            0 <= i < new_sessions.len() ==> tables.has((#[trigger] new_sessions[i]).domain_table),
    ensures
        s.commanded(ctx, tables, new_sessions).valid(),
        s.commanded(ctx, tables, new_sessions).manager.holders == s.manager.holders,
{
    let after = s.commanded(ctx, tables, new_sessions);
    assert forall|i: int| 0 <= i < after.manager.holders.len() implies tables.has(
        (#[trigger] after.manager.holders[i]).domain_table,
    ) by {
        assert(s.manager.tables.has(s.manager.holders[i].domain_table));
    }
    assert(s.manager.tables.has(s.exchange.domain_table));
}

/// Giving out an object, through a domain or through a session of its own, keeps
/// all domain tables, and the new sessions have theirs.
pub proof fn law_given_object_keeps_tables(
    c: ContextModel,
    object: ObjectKey,
    server_handle: Handle,
    client_handle: Handle,
)
    requires
        c.tables.slots.len() < usize::MAX,
        forall|i: int|
            0 <= i < c.new_sessions.len() ==> c.tables.has(
                (#[trigger] c.new_sessions[i]).domain_table,
            ),
    ensures
        c.tables.has(c.domain_table) ==> c.tables.keys_in(with_domain_object(c, object).1.tables),
        ({
            let after = with_session_object(c, object, server_handle, client_handle).1;
            &&& c.tables.keys_in(after.tables)
            &&& forall|i: int|
                0 <= i < after.new_sessions.len() ==> after.tables.has(
                    (#[trigger] after.new_sessions[i]).domain_table,
                )
        }),
{
    law_new_table_is_fresh(c.tables);
    if c.tables.has(c.domain_table) {
        let taken = c.tables.with(c.domain_table, c.table().allocated());
        law_new_table_is_fresh(taken);
        let after = with_domain_object(c, object).1.tables;
        assert forall|k: TableKey| #[trigger] c.tables.has(k) implies after.has(k) by {
            assert(taken.has(k));
            let made = taken.with_new();
            assert(made.has(k) && k != taken.fresh_key());
            assert(made.without(taken.fresh_key()).has(k));
            assert(taken.has(c.domain_table) && made.has(c.domain_table));
            assert(forall|t: TableModel| #[trigger] made.with(c.domain_table, t).has(k));
        }
    }
    let after = with_session_object(c, object, server_handle, client_handle).1;
    assert forall|k: TableKey| #[trigger] c.tables.has(k) implies after.tables.has(k) by {
        assert(c.tables.with_new().has(k));
    }
    assert forall|i: int| 0 <= i < after.new_sessions.len() implies after.tables.has(
        (#[trigger] after.new_sessions[i]).domain_table,
    ) by {
        if i < c.new_sessions.len() {
            assert(after.new_sessions[i] == c.new_sessions[i]);
            assert(c.tables.has(c.new_sessions[i].domain_table));
        }
    }
}

/// Releasing holders before the answer leaves a valid state valid, as long as the
/// manager stays well-formed.
pub proof fn law_releasing_keeps_valid(s: State, manager: ManagerModel)
    requires
        s.valid(),
        s.exchange.stage is Releasing,
        manager.wf(),
    ensures
        (State {
            manager,
            exchange: ExchangeModel { released: Seq::empty(), ..s.exchange },
            ..s
        }).valid(),
{
}

/// The state after a control command left the session's holder and the domain
/// tables like this.
pub open spec fn controlled(s: State, holder: ServerHolder, tables: TablesModel) -> State {
    State {
        manager: ManagerModel {
            holders: s.manager.holders.update(s.exchange.index as int, holder),
            tables,
            ..s.manager
        },
        ..s
    }
}

/// A control command that keeps the domain tables, and leaves the session with
/// one of them, leaves a valid state valid.
pub proof fn law_control_command_keeps_valid(s: State, holder: ServerHolder, tables: TablesModel)
    requires
        s.valid(),
        s.exchange.stage is Controlling,
        s.manager.tables.keys_in(tables),
        tables.has(holder.domain_table),
    ensures
        controlled(s, holder, tables).valid(),
{
    let after = controlled(s, holder, tables);
    assert forall|i: int| 0 <= i < after.manager.holders.len() implies tables.has(
        (#[trigger] after.manager.holders[i]).domain_table,
    ) by {
        assert(s.manager.tables.has(s.manager.holders[i].domain_table));
    }
    assert forall|i: int| 0 <= i < after.exchange.new_sessions.len() implies tables.has(
        (#[trigger] after.exchange.new_sessions[i]).domain_table,
    ) by {
        assert(s.manager.tables.has(s.exchange.new_sessions[i].domain_table));
    }
}

/// A session that was made a domain is reached by its own id: requests that name
/// it go to the session's object, and the id is given to no other object.
pub proof fn law_converted_session_is_a_domain(s: State)
    requires
        s.valid(),
        s.exchange.stage is Controlling,
        s.manager.tables.table(s.holder().domain_table).consistent(),
        s.manager.tables.table(s.holder().domain_table).allocation() is Ok,
    ensures
        ({
            let key = s.holder().domain_table;
            let table = s.manager.tables.table(key);
            let id = table.allocation()->Ok_0;
            let holder = ServerHolder {
                info: ObjectInfo { domain_object_id: id, ..s.holder().info },
                ..s.holder()
            };
            let after = controlled(s, holder, s.manager.tables.with(key, table.allocated()));
            &&& after.valid()
            &&& holder.info.in_domain()
            &&& after.manager.tables.table(key).consistent()
            &&& after.manager.tables.table(key).table.contains(id)
            &&& after.manager.tables.table(key).allocation() != Ok::<DomainObjectId, ResultCode>(id)
            &&& target_info(holder.info, id).owns_handle
            &&& forall|other: DomainObjectId|
                other != id && other != 0 ==> !(#[trigger] target_info(
                    holder.info,
                    other,
                ).owns_handle)
        }),
{
    let key = s.holder().domain_table;
    let table = s.manager.tables.table(key);
    let id = table.allocation()->Ok_0;
    let holder = ServerHolder {
        info: ObjectInfo { domain_object_id: id, ..s.holder().info },
        ..s.holder()
    };
    assert(s.manager.tables.has(key));
    law_allocation_keeps_consistent(table);
    law_allocated_id_is_fresh(table);
    law_allocated_id_is_fresh(table.allocated());
    law_control_command_keeps_valid(s, holder, s.manager.tables.with(key, table.allocated()));
}

/// Every port and session that has a handle is waited for.
pub proof fn law_served_handle_is_waited_for(m: ManagerModel, i: int)
    requires
        0 <= i < m.holders.len(),
        m.holders[i].info.handle != 0,
    ensures
        handles_of(m.holders).contains(m.holders[i].info.handle),
{
    let all = m.holders.map_values(|holder: ServerHolder| holder.info.handle);
    assert(all[i] == m.holders[i].info.handle);
    all.lemma_filter_contains(|handle: Handle| handle != 0, i);
}

/// A request outside of domains goes to the session's object, with the id that
/// its data header holds.
pub proof fn law_request_goes_to_the_object_of_its_session(s: State)
    requires
        s.valid(),
        s.exchange.stage is Receiving,
        s.can_receive(),
        outline_of(s.buf).command_type.is_request(),
        !s.holder().info.in_domain(),
        request_head(s.message().exchange.ctx, s.buf).valid(s.buf),
    ensures
        ({
            let (next, action) = s.received(Ok(()));
            &&& action == (Action::ListCommands { object: s.holder().server })
            &&& next.exchange.rq_id == request_head(s.message().exchange.ctx, s.buf).request_id(
                s.buf,
            )
            &&& next.manager == s.manager
            &&& next.buf == s.buf
        }),
{
    let head = request_head(s.message().exchange.ctx, s.buf);
    assert(target_info(s.holder().info, head.domain_object_id) == s.holder().info);
}

/// The command that a request asks for is called, where the object has it: the
/// first one with the request id.
pub proof fn law_command_is_called(s: State, commands: Seq<u32>)
    requires
        s.valid(),
        s.exchange.stage is Listing,
        commands.contains(s.exchange.rq_id),
        commands.len() <= usize::MAX,
    ensures
        s.listed(commands).1 matches Action::CallCommand { object, command } && {
            &&& object == s.exchange.object
            &&& command < commands.len()
            &&& commands[command as int] == s.exchange.rq_id
            &&& forall|i: int| 0 <= i < command ==> commands[i] != s.exchange.rq_id
        },
        s.listed(commands).0.buf == s.buf,
{
    lemma_next_command(commands, s.exchange.rq_id, 0);
    let rest = commands.skip(0);
    assert(rest =~= commands);
    rest.index_of_first_ensures(s.exchange.rq_id);
}

/// Closing one of two sessions for an object leaves the other: nothing is
/// closed, and their domain stays.
pub proof fn law_second_session_outlives_the_first(m: ManagerModel, index: int, other: int)
    requires
        0 <= index < m.holders.len(),
        0 <= other < m.holders.len(),
        index != other,
        m.holders[other].server == m.holders[index].server,
        m.holders[other].domain_table == m.holders[index].domain_table,
    ensures
        ({
            let after = m.without(index);
            let released = m.released_by(index);
            &&& after.holders.contains(m.holders[other])
            &&& released == seq![m.holders[index]]
            &&& released[0].drop_action(after.use_count(released, 0, 0) as int) is Done
            &&& after.after_release(released, 0, 0) == after
            &&& after.released_after(released, 0, 0) == released
        }),
{
    let after = m.without(index);
    let released = m.released_by(index);
    let at = if other < index {
        other
    } else {
        other - 1
    };
    assert(after.holders[at] == m.holders[other]);
    let like = holds(released[0].server);
    lemma_count_none(after.holders, like);
    assert(like(after.holders[at]));
    law_shared_object_stays_open(after, released, 0, 0);
    law_domain_stays_with_other_sessions(after, released, 0, 0, at);
}

} // verus!
