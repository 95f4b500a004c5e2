//! What holders, domains and the lists of them are made of, and how each
//! operation on them relates what was there to what is there then.

use vstd::prelude::*;

use crate::context::{ObjectInfo, MAX_CONTEXT_ITEMS};
use crate::headers::{DomainObjectId, Handle, DATA_HEADER_SIZE, DATA_PADDING, DOMAIN_HEADER_SIZE};
use crate::hipc::{
    ControlCommand, CLONE_CURRENT_OBJECT, CLONE_CURRENT_OBJECT_EX, CONVERT_CURRENT_OBJECT_TO_DOMAIN,
    COPY_FROM_CURRENT_DOMAIN, QUERY_POINTER_BUFFER_SIZE, SHOULD_MITM,
};
use crate::holder::{CloseAction, NewServerFn, ObjectKey, ServerHolder};
use crate::holders::MAX_COUNT;
use crate::params::DataWalker;
use crate::release::{ReleaseAction, ReleaseStage};
use crate::results::{
    ResultCode, CMIF_INVALID_COMMAND_REQUEST_ID, CMIF_INVALID_INPUT_HEADER, CONTEXT_FULL,
    COPY_FROM_DOMAIN_UNSUPPORTED, DOMAINS_FULL, DOMAIN_IDS_EXHAUSTED, DOMAIN_ID_NOT_ALLOCATED,
    DOMAIN_NOT_FOUND, DOMAIN_OBJECT_ID_NOT_ALLOCATED, DOMAIN_OBJECT_MISSING, HIPC_SESSION_CLOSED,
    HIPC_UNSUPPORTED_OPERATION, INVALID_DOMAIN_COMMAND, NEW_SESSIONS_FULL, OS_OPERATION_CANCELED,
    OS_SESSION_CLOSED, OS_TIMEOUT, SERVER_HOLDERS_FULL, SM_MITM_SHOULD_FORWARD_TO_SESSION,
    UNKNOWN_SIGNALED_HANDLE,
};
use crate::sm::ServiceName;
use crate::tables::TableKey;

verus! {

use crate::array::WireItem;
use crate::buffer::IPC_BUFFER_SIZE;
use crate::context::{CommandModel, CommandOutModel};
use crate::domain::{
    least_absent, lemma_first_place, lemma_least_absent_exists, lemma_no_place, TableModel,
};
use crate::exchange::{next_command, target_info, ExchangeModel};
use crate::hipc::{control_commands, second_session};
use crate::manager::{
    capped, count_where, first_with, handles_of, has_table, holds, is_name_of, tables_count_where,
    ManagerModel,
};
use crate::sm::{little_endian, name_part};
use crate::params::{
    no_buffer, with_domain_object, with_handle, with_session_object, ContextModel,
};
use crate::release::ReleaseModel;
use crate::server_laws::lemma_count_rest;
use crate::tables::{law_new_table_is_fresh, TablesModel};
use crate::wire_laws::lemma_align_up;
use vstd::string::StringSliceAdditionalSpecFns;

/// The numbers that results travel as.
pub proof fn law_result_codes()
    ensures
        CMIF_INVALID_INPUT_HEADER == 0x1A60A,
        CMIF_INVALID_COMMAND_REQUEST_ID == 0x1BA0A,
        HIPC_UNSUPPORTED_OPERATION == 0x20B,
        HIPC_SESSION_CLOSED == 0x25A0B,
        OS_SESSION_CLOSED == 0xF601,
        OS_TIMEOUT == 0xEA01,
        OS_OPERATION_CANCELED == 0xEC01,
        SM_MITM_SHOULD_FORWARD_TO_SESSION == 0x7D015,
        NEW_SESSIONS_FULL == 23,
        SERVER_HOLDERS_FULL == 0x12,
        UNKNOWN_SIGNALED_HANDLE == 0x123,
        INVALID_DOMAIN_COMMAND == 0xD3D,
        DOMAIN_IDS_EXHAUSTED == 0xBEBA,
        DOMAINS_FULL == 0xBABA,
        DOMAIN_NOT_FOUND == 0xB90B,
        DOMAIN_ID_NOT_ALLOCATED == 0xBEB2,
        DOMAIN_OBJECT_ID_NOT_ALLOCATED == 0xBEB4,
        DOMAIN_OBJECT_MISSING == 0xBAFA,
        COPY_FROM_DOMAIN_UNSUPPORTED == 0xBAD1,
        CONTEXT_FULL == 0xBA0B,
{
}

/// The sizes that everything is measured by.
pub proof fn law_sizes()
    ensures
        IPC_BUFFER_SIZE == 0x100,
        MAX_COUNT == 0x40,
        MAX_CONTEXT_ITEMS == 8,
        DATA_PADDING == 16,
        DATA_HEADER_SIZE == 16,
        DOMAIN_HEADER_SIZE == 16,
{
}

/// The control commands have the request ids from zero to four, and stand in
/// that order; an interposer is asked about a process under an id of its own.
pub proof fn law_control_command_ids(command: ControlCommand)
    ensures
        CONVERT_CURRENT_OBJECT_TO_DOMAIN == 0,
        COPY_FROM_CURRENT_DOMAIN == 1,
        CLONE_CURRENT_OBJECT == 2,
        QUERY_POINTER_BUFFER_SIZE == 3,
        CLONE_CURRENT_OBJECT_EX == 4,
        SHOULD_MITM == 65000,
        control_commands().len() == 5,
        forall|i: int| 0 <= i < 5 ==> #[trigger] control_commands()[i] == i,
        command.rq_id() == (match command {
            ControlCommand::ConvertCurrentObjectToDomain => 0u32,
            ControlCommand::CopyFromCurrentDomain => 1,
            ControlCommand::CloneCurrentObject => 2,
            ControlCommand::QueryPointerBufferSize => 3,
            ControlCommand::CloneCurrentObjectEx => 4,
        }),
{
}

/// An object is in a domain where it has an id there. That of a session of its
/// own has none, and owns the session's handle; one in the domain of a session
/// does not.
pub proof fn law_where_objects_are(info: ObjectInfo, handle: Handle, id: DomainObjectId)
    ensures
        info.in_domain() <==> info.domain_object_id != 0,
        ObjectInfo::of_handle(handle).handle == handle,
        ObjectInfo::of_handle(handle).domain_object_id == 0,
        ObjectInfo::of_handle(handle).owns_handle,
        ObjectInfo::of_domain_object(handle, id).handle == handle,
        ObjectInfo::of_domain_object(handle, id).domain_object_id == id,
        !ObjectInfo::of_domain_object(handle, id).owns_handle,
{
}

/// A request that came through a session of no domain is for the session's own
/// object. In a domain it is for the object with the id that it names; that is
/// the session's own one, whose handle it owns, exactly where the two ids are
/// the same.
pub proof fn law_request_target(info: ObjectInfo, id: DomainObjectId)
    ensures
        info.domain_object_id == 0 ==> target_info(info, id) == info,
        info.domain_object_id != 0 ==> {
            &&& target_info(info, id).handle == info.handle
            &&& target_info(info, id).domain_object_id == id
            &&& target_info(info, id).owns_handle <==> id == info.domain_object_id
        },
{
}

/// The holder of a session that was made for an object waits for messages, has
/// nothing behind it, makes no sessions and has no name.
pub proof fn law_session_holder(info: ObjectInfo, server: ObjectKey, domain_table: TableKey)
    ensures
        ({
            let holder = ServerHolder::session_of(info, server, domain_table);
            &&& holder.server == server
            &&& holder.info == info
            &&& holder.domain_table == domain_table
            &&& holder.handle_type is Session
            &&& holder.new_server_fn is None
            &&& holder.forward_handle == 0
            &&& !holder.is_mitm_service
            &&& holder.service_name.value == 0
        }),
{
}

/// The holder of a port waits for someone who wants a session, and keeps its
/// name and the function that makes the objects of its sessions.
pub proof fn law_port_holder(
    handle: Handle,
    server: ObjectKey,
    new_server_fn: NewServerFn,
    service_name: ServiceName,
    is_mitm_service: bool,
    domain_table: TableKey,
)
    ensures
        ({
            let holder = ServerHolder::port_of(
                handle,
                server,
                new_server_fn,
                service_name,
                is_mitm_service,
                domain_table,
            );
            &&& holder.server == server
            &&& holder.info.handle == handle
            &&& holder.info.owns_handle
            &&& holder.info.domain_object_id == 0
            &&& holder.domain_table == domain_table
            &&& holder.handle_type is Server
            &&& holder.new_server_fn == Some(new_server_fn)
            &&& holder.forward_handle == 0
            &&& holder.is_mitm_service == is_mitm_service
            &&& holder.service_name == service_name
        }),
{
}

/// A session that a port accepted waits for messages on its own handle, which it
/// owns, forwards where it is told to, and is as the port is in whether it
/// interposes and in what makes further sessions. The name stays with the port.
pub proof fn law_accepted_holder(
    port: ServerHolder,
    handle: Handle,
    forward_handle: Handle,
    server: ObjectKey,
    domain_table: TableKey,
)
    ensures
        ({
            let holder = port.accepted(handle, forward_handle, server, domain_table);
            &&& holder.server == server
            &&& holder.info.handle == handle
            &&& holder.info.owns_handle
            &&& holder.info.domain_object_id == 0
            &&& holder.domain_table == domain_table
            &&& holder.handle_type is Session
            &&& holder.new_server_fn == port.new_server_fn
            &&& holder.forward_handle == forward_handle
            &&& holder.is_mitm_service == port.is_mitm_service
            &&& holder.service_name.value == 0
        }),
{
}

/// A second session waits for messages on its own handle, and shares the first
/// one's object, its domain and its id there. It interposes exactly where there
/// is something to forward to, and it has no name.
pub proof fn law_second_holder(first: ServerHolder, handle: Handle, forward_handle: Handle)
    ensures
        ({
            let second = first.cloned(handle, forward_handle);
            &&& second.server == first.server
            &&& second.info.handle == handle
            &&& second.info.owns_handle == first.info.owns_handle
            &&& second.info.domain_object_id == first.info.domain_object_id
            &&& second.domain_table == first.domain_table
            &&& second.handle_type is Session
            &&& second.new_server_fn == first.new_server_fn
            &&& second.forward_handle == forward_handle
            &&& second.is_mitm_service <==> forward_handle != 0
            &&& second.service_name.value == 0
        }),
{
}

/// A holder closes what it holds exactly where it is the only one of its object:
/// first its name, by stopping to interpose on the service or else by giving up
/// the name, then the handle if it owns it.
pub proof fn law_holder_closes(holder: ServerHolder, use_count: int)
    ensures
        use_count != 1 ==> holder.drop_action(use_count) is Done,
        use_count == 1 ==> holder.drop_action(use_count) == holder.close_action(),
        holder.service_name.value != 0 && holder.is_mitm_service ==> holder.close_action() == (
        CloseAction::UninstallMitm { service_name: holder.service_name }),
        holder.service_name.value != 0 && !holder.is_mitm_service ==> holder.close_action() == (
        CloseAction::UnregisterService { service_name: holder.service_name }),
        holder.service_name.value == 0 ==> holder.close_action() == holder.close_handle_action(),
        holder.info.owns_handle ==> holder.close_handle_action() == (CloseAction::CloseHandle {
            handle: holder.info.handle,
        }),
        !holder.info.owns_handle ==> holder.close_handle_action() is Done,
{
}

/// Of a command's context nothing is known at first but the object and the
/// pointer buffer.
pub proof fn law_blank_context(info: ObjectInfo, pointer_buffer: u64)
    ensures
        ({
            let ctx = CommandModel::blank(info, pointer_buffer);
            &&& ctx.object_info == info
            &&& ctx.pointer_buffer == pointer_buffer
            &&& !ctx.in_params.send_process_id
            &&& ctx.in_params.process_id == 0
            &&& ctx.in_params.data_size == 0
            &&& ctx.in_params.data_offset == 0
            &&& ctx.in_params.data_words_offset == 0
            &&& ctx.in_params.copy_handles.len() == 0
            &&& ctx.in_params.move_handles.len() == 0
            &&& ctx.in_params.objects.len() == 0
            &&& !ctx.out_params.send_process_id
            &&& ctx.out_params.data_size == 0
            &&& ctx.out_params.data_offset == 0
            &&& ctx.out_params.data_words_offset == 0
            &&& ctx.out_params.copy_handles.len() == 0
            &&& ctx.out_params.move_handles.len() == 0
            &&& ctx.out_params.objects.len() == 0
            &&& ctx.send_statics.len() == 0
            &&& ctx.receive_statics.len() == 0
            &&& ctx.send_buffers.len() == 0
            &&& ctx.receive_buffers.len() == 0
            &&& ctx.exchange_buffers.len() == 0
        }),
{
}

/// Serving a handle starts with nothing that is made, released or known.
pub proof fn law_starting_exchange(handle: Handle, pointer_buffer: u64)
    ensures
        ({
            let ex = ExchangeModel::starting(handle, pointer_buffer);
            &&& ex.handle == handle
            &&& ex.pointer_buffer == pointer_buffer
            &&& ex.stage is Finished
            &&& ex.new_sessions.len() == 0
            &&& ex.released.len() == 0
            &&& ex.commands.len() == 0
        }),
{
}

/// What comes of asking for a second session: where it could not be made, why
/// not; where the service behind an interposer gave none, why not; else its two
/// ends, and for an interposer the handle that forwards.
pub proof fn law_second_session_ends(
    is_mitm: bool,
    created: Result<(Handle, Handle), ResultCode>,
    forwarded: Result<Handle, ResultCode>,
)
    ensures
        ({
            let r = second_session(is_mitm, created, forwarded);
            &&& created matches Err(rc) ==> r == Err::<(Handle, Handle, Handle), ResultCode>(rc)
            &&& created matches Ok(ends) ==> {
                &&& !is_mitm ==> r == Ok::<(Handle, Handle, Handle), ResultCode>(
                    (ends.0, ends.1, 0),
                )
                &&& is_mitm && forwarded is Err ==> r == Err::<
                    (Handle, Handle, Handle),
                    ResultCode,
                >(forwarded->Err_0)
                &&& is_mitm && forwarded is Ok ==> r == Ok::<(Handle, Handle, Handle), ResultCode>(
                    (ends.0, ends.1, forwarded->Ok_0),
                )
            }
        }),
{
}

/// The command that is called is the first one from a place on that has the id
/// asked for; there is none exactly where no command from there on has it.
pub proof fn law_first_command(commands: Seq<u32>, rq_id: u32, from: int)
    requires
        0 <= from <= commands.len(),
    ensures
        next_command(commands, rq_id, from) matches Some(at) ==> {
            &&& from <= at < commands.len()
            &&& commands[at] == rq_id
            &&& forall|i: int| from <= i < at ==> commands[i] != rq_id
        },
        next_command(commands, rq_id, from) is None <==> forall|i: int|
            from <= i < commands.len() ==> commands[i] != rq_id,
{
    let rest = commands.skip(from);
    rest.index_of_first_ensures(rq_id);
    assert forall|i: int| from <= i < commands.len() implies commands[i] == rest[i - from] by {}
    if let Some(at) = next_command(commands, rq_id, from) {
        assert(commands[at] == rq_id);
        assert forall|i: int| from <= i < at implies commands[i] != rq_id by {
            assert(rest[i - from] != rq_id);
        }
    } else {
        assert forall|i: int| from <= i < commands.len() implies commands[i] != rq_id by {
            assert(rest[i - from] == commands[i]);
        }
    }
}

/// The id that a domain gives out goes into the first free slot. It is the least
/// number from one on that stands in none of the slots before, and all other
/// slots and all objects stay. Where no slot is free, none is given out.
pub proof fn law_id_goes_into_first_free_slot(t: TableModel, slot: int)
    requires
        t.table.len() == MAX_COUNT,
    ensures
        0 <= slot < t.table.len() && t.table[slot] == 0 && (forall|j: int|
            0 <= j < slot ==> t.table[j] != 0) ==> {
            &&& t.allocation() matches Ok(id) && {
                &&& 1 <= id
                &&& forall|j: int| 0 <= j < slot ==> t.table[j] != id
                &&& forall|lower: u32|
                    1 <= lower < id ==> t.table.take(slot).contains(lower)
                &&& t.allocated().table == t.table.update(slot, id)
                &&& t.allocated().domains == t.domains
            }
        },
        (forall|j: int| 0 <= j < t.table.len() ==> t.table[j] != 0) ==> {
            &&& t.allocation() == Err::<DomainObjectId, ResultCode>(ResultCode { value: 0xBEBA })
            &&& t.allocated() == t
        },
{
    if forall|j: int| 0 <= j < t.table.len() ==> t.table[j] != 0 {
        lemma_no_place(t.table, 0);
    }
    if 0 <= slot < t.table.len() && t.table[slot] == 0 && (forall|j: int|
        0 <= j < slot ==> t.table[j] != 0) {
        lemma_first_place(t.table, 0, slot);
        let before = t.table.take(slot);
        lemma_least_absent_exists(before);
        let id = least_absent(before);
        assert forall|j: int| 0 <= j < slot implies t.table[j] != id by {
            assert(before[j] == t.table[j]);
        }
    }
}

/// Taking back an id frees the first slot that holds it, and nothing else. Where
/// no slot holds it, nothing changes.
pub proof fn law_id_leaves_its_slot(t: TableModel, id: DomainObjectId, slot: int)
    ensures
        0 <= slot < t.table.len() && t.table[slot] == id && (forall|j: int|
            0 <= j < slot ==> t.table[j] != id) ==> {
            &&& t.freed(id).table == t.table.update(slot, 0)
            &&& t.freed(id).domains == t.domains
        },
        (forall|j: int| 0 <= j < t.table.len() ==> t.table[j] != id) ==> t.freed(id) == t,
{
    if forall|j: int| 0 <= j < t.table.len() ==> t.table[j] != id {
        lemma_no_place(t.table, id);
    }
    if 0 <= slot < t.table.len() && t.table[slot] == id && (forall|j: int|
        0 <= j < slot ==> t.table[j] != id) {
        lemma_first_place(t.table, id, slot);
    }
}

/// The object at a place is the first one of a domain that has the id.
pub open spec fn first_object(t: TableModel, id: DomainObjectId, at: int) -> bool {
    &&& 0 <= at < t.domains.len()
    &&& t.domains[at].info.domain_object_id == id
    &&& forall|j: int| 0 <= j < at ==> (#[trigger] t.domains[j]).info.domain_object_id != id
}

/// No object of a domain has the id.
pub open spec fn no_object(t: TableModel, id: DomainObjectId) -> bool {
    forall|j: int|
        0 <= j < t.domains.len() ==> (#[trigger] t.domains[j]).info.domain_object_id != id
}

proof fn lemma_object_at(t: TableModel, id: DomainObjectId, at: int)
    ensures
        first_object(t, id, at) ==> t.object_at(id) == Some(at),
        no_object(t, id) ==> t.object_at(id) is None,
{
    let ids = t.object_ids();
    assert(forall|j: int| 0 <= j < ids.len() ==> ids[j] == t.domains[j].info.domain_object_id);
    if first_object(t, id, at) {
        lemma_first_place(ids, id, at);
    }
    if no_object(t, id) {
        lemma_no_place(ids, id);
    }
}

/// By an id the object of the first holder with that id is found; where there is
/// none, that is an error.
pub proof fn law_object_is_found_by_id(t: TableModel, id: DomainObjectId, at: int)
    ensures
        first_object(t, id, at) ==> t.found(id) == Ok::<ObjectKey, ResultCode>(t.domains[at].server),
        no_object(t, id) ==> t.found(id) == Err::<ObjectKey, ResultCode>(
            ResultCode { value: 0xB90B },
        ),
{
    lemma_object_at(t, id, at);
}

/// Taking back an object hands out its holder, frees the first slot with its id,
/// and leaves all other objects in their order. Where the id is not taken, or no
/// object has it, that is an error, and nothing changes.
pub proof fn law_object_is_taken_back(t: TableModel, id: DomainObjectId, at: int, slot: int)
    ensures
        first_object(t, id, at) && 0 <= slot < t.table.len() && t.table[slot] == id && (forall|
            j: int,
        |
            0 <= j < slot ==> t.table[j] != id) ==> {
            &&& t.deallocation(id) == Ok::<ServerHolder, ResultCode>(t.domains[at])
            &&& t.deallocated(id).table == t.table.update(slot, 0)
            &&& t.deallocated(id).domains == t.domains.remove(at)
        },
        !t.table.contains(id) ==> {
            &&& t.deallocation(id) == Err::<ServerHolder, ResultCode>(ResultCode { value: 0xBEB4 })
            &&& t.deallocated(id) == t
        },
        t.table.contains(id) && no_object(t, id) ==> {
            &&& t.deallocation(id) == Err::<ServerHolder, ResultCode>(ResultCode { value: 0xBAFA })
            &&& t.deallocated(id) == t
        },
{
    lemma_object_at(t, id, at);
    law_id_leaves_its_slot(t, id, slot);
    if 0 <= slot < t.table.len() && t.table[slot] == id {
        assert(t.table.contains(id));
    }
}

/// A new domain table has sixty-four free slots and no object.
pub proof fn law_new_domain_is_empty()
    ensures
        TableModel::empty().table.len() == 64,
        forall|i: int| 0 <= i < 64 ==> #[trigger] TableModel::empty().table[i] == 0,
        TableModel::empty().domains.len() == 0,
{
}

/// A new domain table gets the least key that there is no table under. Changing
/// or removing a table leaves all others.
pub proof fn law_tables_under_keys(t: TablesModel, key: TableKey, table: TableModel)
    requires
        t.slots.len() < usize::MAX,
    ensures
        TablesModel::empty().slots.len() == 0,
        t.has(key) <==> key < t.slots.len() && t.slots[key as int] is Some,
        t.has(key) ==> Some(t.table(key)) == t.slots[key as int],
        !t.has(t.fresh_key()),
        forall|lower: TableKey| lower < t.fresh_key() ==> t.has(lower),
        t.with_new().table(t.fresh_key()) == TableModel::empty(),
        t.has(key) ==> {
            &&& t.with(key, table).slots == t.slots.update(key as int, Some(table))
            &&& t.without(key).slots == t.slots.update(key as int, None)
        },
{
    law_new_table_is_fresh(t);
    t.slots.index_of_first_ensures(None);
    assert forall|lower: TableKey| lower < t.fresh_key() implies t.has(lower) by {
        match t.slots.index_of_first(None) {
            Some(i) => {
                assert(t.slots[lower as int] != None::<TableModel>);
            },
            None => {
                assert(t.slots[lower as int] != None::<TableModel>);
            },
        }
    }
}

/// A handle is served by the first holder that has it.
pub proof fn law_first_holder(holders: Seq<ServerHolder>, handle: Handle, at: int)
    ensures
        0 <= at < holders.len() && holders[at].info.handle == handle && (forall|j: int|
            0 <= j < at ==> (#[trigger] holders[j]).info.handle != handle) ==> first_with(
            holders,
            handle,
        ) == Some(at),
        (forall|j: int| 0 <= j < holders.len() ==> (#[trigger] holders[j]).info.handle != handle)
            ==> first_with(holders, handle) is None,
{
    let all = holders.map_values(|holder: ServerHolder| holder.info.handle);
    assert(forall|j: int| 0 <= j < all.len() ==> all[j] == holders[j].info.handle);
    if 0 <= at < holders.len() && holders[at].info.handle == handle && (forall|j: int|
        0 <= j < at ==> (#[trigger] holders[j]).info.handle != handle) {
        lemma_first_place(all, handle, at);
    }
    if forall|j: int| 0 <= j < holders.len() ==> (#[trigger] holders[j]).info.handle != handle {
        lemma_no_place(all, handle);
    }
}

/// The handles that are waited for are those of the holders, one for each that
/// has one, in their order.
pub proof fn law_waited_handles(holders: Seq<ServerHolder>, holder: ServerHolder)
    ensures
        handles_of(Seq::empty()) == Seq::<Handle>::empty(),
        holder.info.handle != 0 ==> handles_of(holders.push(holder)) == handles_of(holders).push(
            holder.info.handle,
        ),
        holder.info.handle == 0 ==> handles_of(holders.push(holder)) == handles_of(holders),
{
    reveal(Seq::filter);
    let all = holders.map_values(|holder: ServerHolder| holder.info.handle);
    let more = holders.push(holder).map_values(|holder: ServerHolder| holder.info.handle);
    assert(more.drop_last() =~= all);
    assert(more.last() == holder.info.handle);
    assert(Seq::<ServerHolder>::empty().map_values(
        |holder: ServerHolder| holder.info.handle,
    ) =~= Seq::<Handle>::empty());
}

/// Holders are counted one by one: another one that is like this counts for one,
/// another one that is not for none, be it a port, a session or an object of a
/// domain.
pub proof fn law_counting_holders(
    m: ManagerModel,
    holder: ServerHolder,
    table: TableModel,
    like: spec_fn(ServerHolder) -> bool,
)
    ensures
        count_where(Seq::empty(), like) == 0,
        count_where(m.holders.push(holder), like) == count_where(m.holders, like) + (if like(
            holder,
        ) {
            1nat
        } else {
            0
        }),
        tables_count_where(Seq::empty(), like) == 0,
        tables_count_where(m.tables.slots.push(None), like) == tables_count_where(
            m.tables.slots,
            like,
        ),
        tables_count_where(m.tables.slots.push(Some(table)), like) == tables_count_where(
            m.tables.slots,
            like,
        ) + count_where(table.domains, like),
        m.total_where(like) == count_where(m.holders, like) + tables_count_where(
            m.tables.slots,
            like,
        ),
        holds(holder.server)(holder),
        has_table(holder.domain_table)(holder),
        forall|other: ObjectKey| other != holder.server ==> !(#[trigger] holds(other)(holder)),
        forall|key: TableKey|
            key != holder.domain_table ==> !(#[trigger] has_table(key)(holder)),
{
    reveal(Seq::filter);
    assert(m.holders.push(holder).drop_last() =~= m.holders);
    assert(m.tables.slots.push(None).drop_last() =~= m.tables.slots);
    assert(m.tables.slots.push(Some(table)).drop_last() =~= m.tables.slots);
}

/// How often the object of a released holder is held: by the holders of the
/// manager, by those that are released from it on, itself among them, and
/// elsewhere. Its domain table is counted in the same way.
pub proof fn law_uses_of_released_holder(
    m: ManagerModel,
    released: Seq<ServerHolder>,
    at: int,
    elsewhere: nat,
    holder: ServerHolder,
)
    requires
        0 <= at < released.len(),
    ensures
        m.use_count(released, at, elsewhere) == m.use_count(released, at, 0) + elsewhere,
        m.table_use_count(released, at, elsewhere) == m.table_use_count(released, at, 0) + elsewhere,
        m.use_count(released, at, elsewhere) >= 1,
        m.table_use_count(released, at, elsewhere) >= 1,
        at + 1 == released.len() ==> {
            &&& m.use_count(released, at, elsewhere) == m.total_where(holds(released[at].server)) + 1
                + elsewhere
            &&& m.table_use_count(released, at, elsewhere) == m.total_where(
                has_table(released[at].domain_table),
            ) + 1 + elsewhere
        },
        ({
            let more = ManagerModel { holders: m.holders.push(holder), ..m };
            &&& more.use_count(released, at, elsewhere) == m.use_count(released, at, elsewhere) + (
            if holder.server == released[at].server {
                1nat
            } else {
                0
            })
            &&& more.table_use_count(released, at, elsewhere) == m.table_use_count(
                released,
                at,
                elsewhere,
            ) + (if holder.domain_table == released[at].domain_table {
                1nat
            } else {
                0
            })
            &&& m.use_count(released.push(holder), at, elsewhere) == more.use_count(
                released,
                at,
                elsewhere,
            )
            &&& m.table_use_count(released.push(holder), at, elsewhere) == more.table_use_count(
                released,
                at,
                elsewhere,
            )
        }),
        m.frees_table(released, at, elsewhere) <==> m.tables.has(released[at].domain_table)
            && m.table_use_count(released, at, elsewhere) == 1,
{
    let (object, key) = (released[at].server, released[at].domain_table);
    lemma_count_rest(released, at, holds(object));
    lemma_count_rest(released, at, has_table(key));
    law_counting_holders(m, holder, TableModel::empty(), holds(object));
    law_counting_holders(m, holder, TableModel::empty(), has_table(key));
    let rest = ManagerModel { holders: released.skip(at), ..m };
    law_counting_holders(rest, holder, TableModel::empty(), holds(object));
    law_counting_holders(rest, holder, TableModel::empty(), has_table(key));
    assert(released.push(holder).skip(at) =~= released.skip(at).push(holder));
    if at + 1 == released.len() {
        assert(released.skip(at + 1) =~= Seq::<ServerHolder>::empty());
    }
}

/// A count is told as far as it can be.
pub proof fn law_told_count(n: nat)
    ensures
        n <= usize::MAX ==> capped(n) == n,
        n > usize::MAX ==> capped(n) == usize::MAX,
{
}

/// A holder that is offered is added behind the others where there are fewer
/// than sixty-four; else it is handed back, and nothing changes. Taking out a
/// holder leaves the others in their order, and hands it out.
pub proof fn law_offering_and_taking_out(m: ManagerModel, holder: ServerHolder, index: int)
    requires
        0 <= index < m.holders.len(),
    ensures
        m.holders.len() < 64 ==> {
            let offer = m.offered(holder);
            &&& offer.result == Ok::<(), ResultCode>(())
            &&& offer.manager == (ManagerModel { holders: m.holders.push(holder), ..m })
            &&& offer.refused.len() == 0
        },
        m.holders.len() >= 64 ==> {
            let offer = m.offered(holder);
            &&& offer.result == Err::<(), ResultCode>(ResultCode { value: 0x12 })
            &&& offer.manager == m
            &&& offer.refused == seq![holder]
        },
        m.without(index) == (ManagerModel { holders: m.holders.remove(index), ..m }),
        m.released_by(index) == seq![m.holders[index]],
        m.with_new_table().holders == m.holders,
        m.with_new_table().wait_handles == m.wait_handles,
        m.with_new_table().tables == m.tables.with_new(),
        forall|rc: ResultCode| #[trigger]
            m.not_offered(rc).result == Err::<(), ResultCode>(rc) && m.not_offered(rc).manager == m
                && m.not_offered(rc).refused.len() == 0,
{
}

/// The digits of a service name are the bytes of its string, the first one
/// lowest, up to eight of them.
pub proof fn law_service_name_digits(bytes: Seq<u8>, first: u8)
    ensures
        bytes.len() == 0 ==> little_endian(bytes) == 0,
        little_endian(seq![first] + bytes) % 0x100 == first,
        little_endian(seq![first] + bytes) / 0x100 == little_endian(bytes),
        bytes.len() <= 8 ==> name_part(bytes) == bytes,
        bytes.len() > 8 ==> name_part(bytes).len() == 8 && forall|i: int|
            0 <= i < 8 ==> #[trigger] name_part(bytes)[i] == bytes[i],
{
    let all = seq![first] + bytes;
    assert(all.skip(1) =~= bytes);
    assert(little_endian(all) == first + 0x100 * little_endian(bytes));
}

/// A handle joins the response as the last one of its kind, unless there are
/// eight of these; nothing else changes.
pub proof fn law_handle_joins_response(c: ContextModel, moved: bool, handle: Handle)
    ensures
        ({
            let (r, after) = with_handle(c, moved, handle);
            let (was, is) = (c.ctx.out_params, after.ctx.out_params);
            let there = if moved {
                was.move_handles.len()
            } else {
                was.copy_handles.len()
            };
            &&& there < 8 ==> {
                &&& r == Ok::<(), ResultCode>(())
                &&& is.move_handles == (if moved {
                    was.move_handles.push(handle)
                } else {
                    was.move_handles
                })
                &&& is.copy_handles == (if moved {
                    was.copy_handles
                } else {
                    was.copy_handles.push(handle)
                })
                &&& is == (CommandOutModel {
                    move_handles: is.move_handles,
                    copy_handles: is.copy_handles,
                    ..was
                })
                &&& after == (ContextModel {
                    ctx: CommandModel { out_params: is, ..c.ctx },
                    ..c
                })
            }
            &&& there >= 8 ==> {
                &&& r == Err::<(), ResultCode>(ResultCode { value: 0xBA0B })
                &&& after == c
            }
        }),
{
}

/// An object that is given out through a session of its own: the client's end is
/// the last handle that is moved with the response, and the last new session is
/// the object's, waits on the server's end, which it owns, and has a new, empty
/// domain. The object forgets where it was reached.
pub proof fn law_object_gets_a_session(
    c: ContextModel,
    object: ObjectKey,
    server_handle: Handle,
    client_handle: Handle,
)
    requires
        c.tables.slots.len() < usize::MAX,
        c.ctx.out_params.move_handles.len() < 8,
        c.new_sessions.len() < 64,
    ensures
        ({
            let (r, after) = with_session_object(c, object, server_handle, client_handle);
            let holder = after.new_sessions.last();
            &&& r == Ok::<(), ResultCode>(())
            &&& after.ctx.out_params.move_handles == c.ctx.out_params.move_handles.push(
                client_handle,
            )
            &&& after.ctx.out_params.copy_handles == c.ctx.out_params.copy_handles
            &&& after.ctx.out_params.objects == c.ctx.out_params.objects
            &&& after.ctx.out_params.data_size == c.ctx.out_params.data_size
            &&& after.ctx.in_params == c.ctx.in_params
            &&& after.ctx.object_info == c.ctx.object_info
            &&& after.new_sessions == c.new_sessions.push(holder)
            &&& holder.server == object
            &&& holder.info.handle == server_handle
            &&& holder.info.owns_handle
            &&& holder.info.domain_object_id == 0
            &&& holder.handle_type is Session
            &&& holder.new_server_fn is None
            &&& holder.forward_handle == 0
            &&& !holder.is_mitm_service
            &&& holder.service_name.value == 0
            &&& !c.tables.has(holder.domain_table)
            &&& after.tables.has(holder.domain_table)
            &&& after.tables.table(holder.domain_table).domains.len() == 0
            &&& forall|key: TableKey|
                c.tables.has(key) ==> #[trigger] after.tables.table(key) == c.tables.table(key)
            &&& after.reset_objects == c.reset_objects.push(object)
            &&& after.walker == c.walker
            &&& after.domain_table == c.domain_table
            &&& after.next_buffer == c.next_buffer
        }),
{
    law_new_table_is_fresh(c.tables);
}

/// Where the response takes no more handles, an object is not given out, and
/// nothing changes; where there are too many new sessions, the client's end is
/// in the response, but there is no session and no domain of the object.
pub proof fn law_object_gets_no_session(
    c: ContextModel,
    object: ObjectKey,
    server_handle: Handle,
    client_handle: Handle,
)
    requires
        c.tables.slots.len() < usize::MAX,
    ensures
        ({
            let (r, after) = with_session_object(c, object, server_handle, client_handle);
            &&& c.ctx.out_params.move_handles.len() >= 8 ==> {
                &&& r == Err::<(), ResultCode>(ResultCode { value: 0xBA0B })
                &&& after == c
            }
            &&& c.ctx.out_params.move_handles.len() < 8 && c.new_sessions.len() >= 64 ==> {
                &&& r == Err::<(), ResultCode>(ResultCode { value: 23 })
                &&& after.ctx.out_params.move_handles == c.ctx.out_params.move_handles.push(
                    client_handle,
                )
                &&& after.new_sessions == c.new_sessions
                &&& after.reset_objects == c.reset_objects.push(object)
                &&& forall|key: TableKey| #[trigger] after.tables.has(key) == c.tables.has(key)
                &&& forall|key: TableKey|
                    c.tables.has(key) ==> #[trigger] after.tables.table(key) == c.tables.table(key)
            }
        }),
{
    law_new_table_is_fresh(c.tables);
    let made = c.tables.with_new();
    let fresh = c.tables.fresh_key();
    let without = made.without(fresh);
    assert forall|key: TableKey| #[trigger] without.has(key) == c.tables.has(key) by {
        assert(key != fresh ==> made.has(key) == c.tables.has(key));
    }
    assert forall|key: TableKey| c.tables.has(key) implies #[trigger] without.table(key)
        == c.tables.table(key) by {
        assert(made.table(key) == c.tables.table(key));
    }
}

/// An object that is given out through the domain of its session: the id that
/// the domain gives out next is the last object that the response tells of, and
/// the last holder of the domain is the object's, has that id and no handle.
/// The object forgets where it was reached. No session is made.
pub proof fn law_object_joins_its_domain(c: ContextModel, object: ObjectKey)
    requires
        c.tables.has(c.domain_table),
        c.tables.slots.len() < usize::MAX,
        c.tables.table(c.domain_table).allocation() is Ok,
        c.ctx.out_params.objects.len() < 8,
        c.tables.table(c.domain_table).domains.len() < 64,
    ensures
        ({
            let (r, after) = with_domain_object(c, object);
            let was = c.tables.table(c.domain_table);
            let is = after.tables.table(c.domain_table);
            let holder = is.domains.last();
            let id = was.allocation()->Ok_0;
            &&& r == Ok::<(), ResultCode>(())
            &&& after.ctx.out_params.objects == c.ctx.out_params.objects.push(id)
            &&& after.ctx.out_params.move_handles == c.ctx.out_params.move_handles
            &&& after.ctx.out_params.copy_handles == c.ctx.out_params.copy_handles
            &&& after.ctx.out_params.data_size == c.ctx.out_params.data_size
            &&& after.ctx.in_params == c.ctx.in_params
            &&& after.ctx.object_info == c.ctx.object_info
            &&& is.table == was.allocated().table
            &&& is.domains == was.domains.push(holder)
            &&& holder.server == object
            &&& holder.info.handle == 0
            &&& !holder.info.owns_handle
            &&& holder.info.domain_object_id == id
            &&& holder.handle_type is Session
            &&& holder.new_server_fn is None
            &&& holder.forward_handle == 0
            &&& !holder.is_mitm_service
            &&& holder.service_name.value == 0
            &&& !c.tables.has(holder.domain_table)
            &&& after.tables.has(holder.domain_table)
            &&& after.tables.table(holder.domain_table).domains.len() == 0
            &&& after.reset_objects == c.reset_objects.push(object)
            &&& after.new_sessions == c.new_sessions
            &&& after.walker == c.walker
            &&& after.domain_table == c.domain_table
            &&& after.next_buffer == c.next_buffer
        }),
{
    let taken = c.tables.with(c.domain_table, c.tables.table(c.domain_table).allocated());
    law_new_table_is_fresh(taken);
    assert(taken.has(c.domain_table));
    let fresh = taken.fresh_key();
    assert(!taken.has(fresh));
    assert(fresh != c.domain_table);
    assert(!c.tables.has(fresh));
    let is = with_domain_object(c, object).1.tables.table(c.domain_table);
    assert(is.domains.last().domain_table == fresh);
}

/// Where a domain has no id left, an object is not given out, and nothing
/// changes. Where the response tells of no more objects, or the domain takes no
/// more, the id stays taken, but no object joins the domain.
pub proof fn law_object_stays_out_of_its_domain(c: ContextModel, object: ObjectKey)
    requires
        c.tables.has(c.domain_table),
        c.tables.slots.len() < usize::MAX,
    ensures
        ({
            let (r, after) = with_domain_object(c, object);
            let was = c.tables.table(c.domain_table);
            &&& was.allocation() matches Err(rc) ==> r == Err::<(), ResultCode>(rc) && after == c
            &&& was.allocation() is Ok && c.ctx.out_params.objects.len() >= 8 ==> {
                &&& r == Err::<(), ResultCode>(ResultCode { value: 0xBA0B })
                &&& after.ctx == c.ctx
                &&& after.reset_objects == c.reset_objects
                &&& after.new_sessions == c.new_sessions
                &&& after.tables.slots == c.tables.slots.update(
                    c.domain_table as int,
                    Some(was.allocated()),
                )
            }
            &&& was.allocation() is Ok && c.ctx.out_params.objects.len() < 8
                && was.domains.len() >= 64 ==> {
                let id = was.allocation()->Ok_0;
                &&& r == Err::<(), ResultCode>(ResultCode { value: 0xBABA })
                &&& after.ctx.out_params.objects == c.ctx.out_params.objects.push(id)
                &&& after.tables.table(c.domain_table) == was.allocated()
                &&& after.reset_objects == c.reset_objects.push(object)
                &&& after.new_sessions == c.new_sessions
                &&& forall|key: TableKey| #[trigger] after.tables.has(key) == c.tables.has(key)
            }
        }),
{
    let was = c.tables.table(c.domain_table);
    let taken = c.tables.with(c.domain_table, was.allocated());
    law_new_table_is_fresh(taken);
    let fresh = taken.fresh_key();
    let made = taken.with_new();
    let without = made.without(fresh);
    assert(taken.has(c.domain_table));
    assert(made.table(c.domain_table) == taken.table(c.domain_table));
    assert forall|key: TableKey| #[trigger] without.has(key) == c.tables.has(key) by {
        assert(taken.has(key) == c.tables.has(key));
        assert(key != fresh ==> made.has(key) == taken.has(key));
    }
}

/// A value stands at the next multiple of its alignment, counted from the start
/// of the data, which is where the walker starts in the IPC buffer; the walker
/// goes on right behind the value.
pub proof fn law_next_value<T: WireItem>(walker: DataWalker)
    requires
        walker.can_count::<T>(),
        walker.base is Some,
    ensures
        ({
            let at = walker.next_at::<T>() - walker.base.unwrap();
            let after = walker.advanced::<T>();
            &&& walker.cur_offset <= at < walker.cur_offset + T::alignment()
            &&& at % T::alignment() as int == 0
            &&& after.cur_offset == at + T::width()
            &&& after.base == walker.base
            &&& walker.in_buffer::<T>() <==> walker.base.unwrap() + at + T::width() <= 0x100
        }),
{
    T::width_bounds();
    lemma_align_up(walker.cur_offset as int, T::alignment() as int);
}

/// Releasing looks at the holders one after the other: it asks for the uses of
/// the object and of the domain table of the next one, or ends.
pub proof fn law_release_looks(r: ReleaseModel)
    requires
        0 <= r.at <= r.released.len(),
    ensures
        r.look().0.released == r.released,
        r.look().0.at == r.at,
        r.at < r.released.len() ==> {
            &&& r.look().0.stage is Counting
            &&& r.look().1 == (ReleaseAction::CountUses {
                object: r.released[r.at].server,
                domain_table: r.released[r.at].domain_table,
            })
        },
        r.at == r.released.len() ==> r.look().0.stage is Finished && r.look().1 is Finish,
{
}

/// Once the uses were told, a holder whose object is held only once closes the
/// first thing that it holds, if there is any. Otherwise it is gone, and the
/// next one is looked at.
pub proof fn law_release_goes_on(
    m: ManagerModel,
    r: ReleaseModel,
    object_elsewhere: usize,
    table_elsewhere: usize,
)
    requires
        r.valid(),
        r.stage is Counting,
    ensures
        ({
            let holder = r.released[r.at];
            let uses = m.use_count(r.released, r.at, object_elsewhere as nat);
            let (after, next, action) = r.counted(m, object_elsewhere, table_elsewhere);
            if uses == 1 && (holder.service_name.value != 0 || holder.info.owns_handle) {
                &&& after == m
                &&& next.released == r.released
                &&& next.at == r.at
                &&& action matches ReleaseAction::Close { action } && {
                    &&& next.stage == (ReleaseStage::Closing { action, table_elsewhere })
                    &&& holder.service_name.value != 0 && holder.is_mitm_service ==> action == (
                    CloseAction::UninstallMitm { service_name: holder.service_name })
                    &&& holder.service_name.value != 0 && !holder.is_mitm_service ==> action == (
                    CloseAction::UnregisterService { service_name: holder.service_name })
                    &&& holder.service_name.value == 0 ==> action == (CloseAction::CloseHandle {
                        handle: holder.info.handle,
                    })
                }
            } else {
                &&& next.at == r.at + 1
                &&& action !is Close
                &&& after.holders == m.holders
            }
        }),
{
}

/// A holder that is gone takes its domain table with it exactly where it was the
/// only one with that table; then the objects of the domain are released next.
pub proof fn law_domain_goes_with_its_only_holder(
    m: ManagerModel,
    r: ReleaseModel,
    table_elsewhere: usize,
)
    requires
        r.valid(),
        r.stage !is Finished,
        m.tables.has(r.released[r.at].domain_table),
    ensures
        ({
            let key = r.released[r.at].domain_table;
            let uses = m.table_use_count(r.released, r.at, table_elsewhere as nat);
            let (after, next, action) = r.gone(m, table_elsewhere);
            &&& next.at == r.at + 1
            &&& after.holders == m.holders
            &&& after.wait_handles == m.wait_handles
            &&& uses == 1 ==> {
                &&& after.tables.slots == m.tables.slots.update(key as int, None)
                &&& next.released == r.released.take(r.at + 1) + m.tables.slots[key as int].unwrap().domains
                    + r.released.skip(r.at + 1)
            }
            &&& uses != 1 ==> after.tables == m.tables && next.released == r.released
            &&& (next, action) == (ReleaseModel { released: next.released, at: next.at, ..r }).look()
        }),
{
}

/// After a name was given up, the handle is closed where the holder owns it, and
/// what was told of the domain table is kept until then; else the holder is
/// gone. After the handle was closed, it is gone too.
pub proof fn law_release_closes_next(m: ManagerModel, r: ReleaseModel)
    requires
        r.valid(),
        r.stage is Closing,
    ensures
        ({
            let holder = r.released[r.at];
            let named = r.stage->action is UninstallMitm || r.stage->action is UnregisterService;
            let elsewhere = r.stage->table_elsewhere;
            let (after, next, action) = r.closed(m);
            if named && holder.info.owns_handle {
                let close = CloseAction::CloseHandle { handle: holder.info.handle };
                &&& after == m
                &&& action == (ReleaseAction::Close { action: close })
                &&& next == (ReleaseModel {
                    stage: ReleaseStage::Closing { action: close, table_elsewhere: elsewhere },
                    ..r
                })
            } else {
                (after, next, action) == r.gone(m, elsewhere)
            }
        }),
{
}

/// Where no buffer was taken from a request, a command that reads one is told
/// that this is not offered.
pub proof fn law_no_buffer_to_take()
    ensures
        no_buffer() == Err::<(u64, u64), ResultCode>(ResultCode { value: 0x20B }),
{
}

/// The name of a service is that of a string where its digits are the string's
/// bytes.
pub proof fn law_name_of_string(service_name: ServiceName, name: &str)
    ensures
        is_name_of(service_name, name) <==> service_name.value == little_endian(
            name_part(name.spec_bytes()),
        ),
{
}

} // verus!
