//! Parameters of commands.

use ipc_server::array::{read_array_from_buffer, write_array_to_buffer};
use ipc_server::context::{CommandContext, ObjectInfo};
use ipc_server::holder::ServerHolder;
use ipc_server::holders::HolderVec;
use ipc_server::params::{CommandParameter, DataWalker, ServerContext, SessionObject};
use ipc_server::results::{
    ResultCode, CONTEXT_FULL, DOMAINS_FULL, DOMAIN_IDS_EXHAUSTED, HIPC_UNSUPPORTED_OPERATION,
    NEW_SESSIONS_FULL,
};
use ipc_server::sf::{Buffer, CopyHandle, MoveHandle, ProcessId};
use ipc_server::sm::MitmProcessInfo;
use ipc_server::tables::DomainTables;

fn one_table() -> DomainTables {
    let mut tables = DomainTables::new();
    assert_eq!(tables.new_table(), 0);
    tables
}

fn unsupported<T>() -> Result<T, ResultCode> {
    Err(ResultCode::new(HIPC_UNSUPPORTED_OPERATION))
}

fn session() -> CommandContext {
    CommandContext::new_server(ObjectInfo::from_handle(7), 0)
}

fn domain() -> CommandContext {
    let mut info = ObjectInfo::from_handle(7);
    info.domain_object_id = 1;
    CommandContext::new_server(info, 0)
}

#[test]
fn walker_aligns_values() {
    let mut walker = DataWalker::empty();
    assert_eq!(walker.advance::<u8>(), 0);
    assert_eq!(walker.advance::<u32>(), 4);
    assert_eq!(walker.advance::<u16>(), 8);
    assert_eq!(walker.advance::<u64>(), 16);
    assert_eq!(walker.get_offset(), 24);
    assert!(!walker.is_in_buffer::<u8>());
}

#[test]
fn walker_knows_the_end_of_the_buffer() {
    let mut walker = DataWalker::new(0xF8);
    assert!(walker.is_in_buffer::<u64>());
    walker.advance::<u32>();
    assert!(walker.is_in_buffer::<u32>());
    assert!(!walker.is_in_buffer::<u64>());
    walker.advance::<u32>();
    assert!(!walker.is_in_buffer::<u8>());
}

#[test]
fn raw_values_travel_both_ways() {
    let (mut ctx, mut tables, mut list) = (session(), one_table(), HolderVec::new());
    let mut buf = [0u8; 0x100];
    let mut c = ServerContext::new(&mut ctx, DataWalker::empty(), 0, &mut tables, &mut list);
    assert_eq!(u8::before_response_write(&1, &mut c), Ok(()));
    assert_eq!(u32::before_response_write(&2, &mut c), Ok(()));
    assert_eq!(c.raw_data_walker.get_offset(), 8);
    c.raw_data_walker = DataWalker::new(32);
    assert_eq!(u8::after_response_write(&0xAB, &mut c, &mut buf), Ok(()));
    assert_eq!(u32::after_response_write(&0x0102_0304, &mut c, &mut buf), Ok(()));
    assert_eq!(buf[32], 0xAB);
    assert_eq!(buf[36..40], [4, 3, 2, 1]);
    c.raw_data_walker = DataWalker::new(32);
    assert_eq!(u8::after_request_read(&mut c, &buf), Ok(0xAB));
    assert_eq!(u32::after_request_read(&mut c, &buf), Ok(0x0102_0304));
}

#[test]
fn arrays_are_read_back() {
    let mut buf = [0u8; 0x100];
    let items: Vec<u16> = vec![1, 0x1234, 3];
    assert_eq!(write_array_to_buffer(&mut buf, 10, &items), 16);
    assert_eq!(buf[12..14], [0x34, 0x12]);
    let mut read: Vec<u16> = vec![9];
    assert_eq!(read_array_from_buffer(&buf, 10, 3, &mut read), 16);
    assert_eq!(read, items);
}

#[test]
fn handles_go_into_responses_only() {
    let (mut ctx, mut tables, mut list) = (session(), one_table(), HolderVec::new());
    let mut buf = [0u8; 0x100];
    let mut c = ServerContext::new(&mut ctx, DataWalker::empty(), 0, &mut tables, &mut list);
    assert_eq!(MoveHandle::after_request_read(&mut c, &buf), unsupported());
    assert_eq!(CopyHandle::after_request_read(&mut c, &buf), unsupported());
    let moved = MoveHandle { handle: 3 };
    let copied = CopyHandle { handle: 4 };
    assert_eq!(MoveHandle::before_response_write(&moved, &mut c), Ok(()));
    assert_eq!(CopyHandle::before_response_write(&copied, &mut c), Ok(()));
    assert_eq!(MoveHandle::after_response_write(&moved, &mut c, &mut buf), Ok(()));
    assert_eq!(c.ctx.out_params.move_handles, vec![3]);
    assert_eq!(c.ctx.out_params.copy_handles, vec![4]);
    for _ in 0..7 {
        assert_eq!(MoveHandle::before_response_write(&moved, &mut c), Ok(()));
    }
    assert_eq!(
        MoveHandle::before_response_write(&moved, &mut c),
        Err(ResultCode::new(CONTEXT_FULL))
    );
}

#[test]
fn process_id_comes_from_the_kernel() {
    let (mut ctx, mut tables, mut list) = (session(), one_table(), HolderVec::new());
    let mut buf = [0u8; 0x100];
    let mut c = ServerContext::new(&mut ctx, DataWalker::new(32), 0, &mut tables, &mut list);
    assert_eq!(ProcessId::after_request_read(&mut c, &buf), unsupported());
    assert_eq!(c.raw_data_walker.get_offset(), 0);
    c.ctx.in_params.send_process_id = true;
    c.ctx.in_params.process_id = 0x55;
    let id = ProcessId { process_id: 0x55 };
    assert_eq!(ProcessId::after_request_read(&mut c, &buf), Ok(id));
    assert_eq!(c.raw_data_walker.get_offset(), 8);
    assert_eq!(ProcessId::before_response_write(&id, &mut c), unsupported());
    assert_eq!(ProcessId::after_response_write(&id, &mut c, &mut buf), unsupported());
}

#[test]
fn buffers_come_with_requests_only() {
    let (mut ctx, mut tables, mut list) = (session(), one_table(), HolderVec::new());
    let mut buf = [0u8; 0x100];
    let mut c = ServerContext::new(&mut ctx, DataWalker::empty(), 0, &mut tables, &mut list);
    assert_eq!(<Buffer<5, 0>>::after_request_read(&mut c, &buf), unsupported());
    c.next_buffer = Ok((0x1000, 0x20));
    let read = <Buffer<5, 0>>::after_request_read(&mut c, &buf).unwrap();
    assert_eq!((read.address, read.size), (0x1000, 0x20));
    assert_eq!(<Buffer<5, 0>>::after_request_read(&mut c, &buf), unsupported());
    assert_eq!(<Buffer<5, 0>>::before_response_write(&read, &mut c), unsupported());
    assert_eq!(
        <Buffer<5, 0>>::after_response_write(&read, &mut c, &mut buf),
        unsupported()
    );
}

#[test]
fn object_is_given_out_through_a_session() {
    let (mut ctx, mut tables, mut list) = (session(), one_table(), HolderVec::new());
    let mut buf = [0u8; 0x100];
    let object = SessionObject { object: 42, session: Ok((20, 21)) };
    {
        let mut c = ServerContext::new(&mut ctx, DataWalker::empty(), 0, &mut tables, &mut list);
        assert_eq!(SessionObject::before_response_write(&object, &mut c), Ok(()));
        assert_eq!(SessionObject::after_response_write(&object, &mut c, &mut buf), Ok(()));
        assert_eq!(c.reset_objects, vec![42]);
    }
    assert_eq!(ctx.out_params.move_handles, vec![21]);
    assert_eq!(list.len(), 1);
    assert_eq!(*list.get(0), ServerHolder::new_session(20, 42, &mut one_table()));
    assert!(tables.has(list.get(0).domain_table));
}

#[test]
fn object_is_given_out_through_a_domain() {
    let (mut ctx, mut tables, mut list) = (domain(), one_table(), HolderVec::new());
    assert_eq!(tables.table_mut(0).allocate_id(), Ok(1));
    let object = SessionObject { object: 42, session: Err(ResultCode::new(9)) };
    {
        let mut c = ServerContext::new(&mut ctx, DataWalker::empty(), 0, &mut tables, &mut list);
        assert_eq!(SessionObject::before_response_write(&object, &mut c), Ok(()));
        assert_eq!(c.reset_objects, vec![42]);
    }
    assert_eq!(ctx.out_params.objects, vec![2]);
    assert_eq!(tables.table(0).find_domain(2), Ok(42));
    assert_eq!(list.len(), 0);
}

#[test]
fn object_without_a_session_is_not_given_out() {
    let (mut ctx, mut tables, mut list) = (session(), one_table(), HolderVec::new());
    let buf = [0u8; 0x100];
    let object = SessionObject { object: 42, session: Err(ResultCode::new(9)) };
    let mut c = ServerContext::new(&mut ctx, DataWalker::empty(), 0, &mut tables, &mut list);
    assert_eq!(
        SessionObject::before_response_write(&object, &mut c),
        Err(ResultCode::new(9))
    );
    assert!(SessionObject::after_request_read(&mut c, &buf).is_err());
    assert!(c.reset_objects.is_empty());
}

#[test]
fn domain_without_room_takes_no_object() {
    let object = SessionObject { object: 42, session: Ok((20, 21)) };
    let (mut ctx, mut tables, mut list) = (domain(), one_table(), HolderVec::new());
    for _ in 0..64 {
        assert!(tables.table_mut(0).allocate_id().is_ok());
    }
    {
        let mut c = ServerContext::new(&mut ctx, DataWalker::empty(), 0, &mut tables, &mut list);
        assert_eq!(
            SessionObject::before_response_write(&object, &mut c),
            Err(ResultCode::new(DOMAIN_IDS_EXHAUSTED))
        );
    }
    let mut tables = one_table();
    for i in 0..64 {
        let holder = ServerHolder::new_domain_session(0, 100 + i, 1, &mut tables);
        assert!(tables.table_mut(0).add_domain(holder).is_ok());
    }
    let mut c = ServerContext::new(&mut ctx, DataWalker::empty(), 0, &mut tables, &mut list);
    assert_eq!(
        SessionObject::before_response_write(&object, &mut c),
        Err(ResultCode::new(DOMAINS_FULL))
    );
    assert!(!tables.has(65));
}

#[test]
fn command_makes_at_most_so_many_sessions() {
    let (mut ctx, mut tables, mut list) = (session(), one_table(), HolderVec::new());
    let mut c = ServerContext::new(&mut ctx, DataWalker::empty(), 0, &mut tables, &mut list);
    for i in 0..64 {
        let holder = ServerHolder::new_session(i, 1, c.tables);
        assert!(c.push_holder(holder).is_ok());
    }
    let holder = ServerHolder::new_session(64, 1, c.tables);
    let refused = c.push_holder(holder).unwrap_err();
    assert_eq!(refused.code, ResultCode::new(23));
    assert_eq!(NEW_SESSIONS_FULL, 23);
    assert_eq!(refused.holder.info.handle, 64);
}

#[test]
fn signed_numbers_and_truth_values_travel() {
    let (mut ctx, mut tables, mut list) = (session(), one_table(), HolderVec::new());
    let mut buf = [0u8; 0x100];
    let mut c = ServerContext::new(&mut ctx, DataWalker::new(32), 0, &mut tables, &mut list);
    assert_eq!(bool::after_response_write(&true, &mut c, &mut buf), Ok(()));
    assert_eq!(i8::after_response_write(&-1, &mut c, &mut buf), Ok(()));
    assert_eq!(i16::after_response_write(&-2, &mut c, &mut buf), Ok(()));
    assert_eq!(i32::after_response_write(&i32::MIN, &mut c, &mut buf), Ok(()));
    assert_eq!(i64::after_response_write(&-3, &mut c, &mut buf), Ok(()));
    assert_eq!(i64::after_response_write(&i64::MAX, &mut c, &mut buf), Ok(()));
    assert_eq!(buf[32..36], [1, 0xFF, 0xFE, 0xFF]);
    assert_eq!(buf[36..40], [0, 0, 0, 0x80]);
    assert_eq!(buf[40..48], (-3i64).to_le_bytes());
    c.raw_data_walker = DataWalker::new(32);
    assert_eq!(bool::after_request_read(&mut c, &buf), Ok(true));
    assert_eq!(i8::after_request_read(&mut c, &buf), Ok(-1));
    assert_eq!(i16::after_request_read(&mut c, &buf), Ok(-2));
    assert_eq!(i32::after_request_read(&mut c, &buf), Ok(i32::MIN));
    assert_eq!(i64::after_request_read(&mut c, &buf), Ok(-3));
    assert_eq!(i64::after_request_read(&mut c, &buf), Ok(i64::MAX));
}

#[test]
fn process_info_is_one_parameter() {
    let (mut ctx, mut tables, mut list) = (session(), one_table(), HolderVec::new());
    let mut buf = [0u8; 0x100];
    let info = MitmProcessInfo {
        process_id: 1,
        program_id: 0x0102_0304_0506_0708,
        keys_held: u64::MAX,
        override_flags: 4,
    };
    let mut c = ServerContext::new(&mut ctx, DataWalker::new(32), 0, &mut tables, &mut list);
    assert_eq!(MitmProcessInfo::after_response_write(&info, &mut c, &mut buf), Ok(()));
    assert_eq!(c.raw_data_walker.get_offset(), 32);
    assert_eq!(buf[40..48], [8, 7, 6, 5, 4, 3, 2, 1]);
    assert_eq!(buf[56], 4);
    c.raw_data_walker = DataWalker::new(32);
    assert_eq!(MitmProcessInfo::after_request_read(&mut c, &buf), Ok(info));
}
