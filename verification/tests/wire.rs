//! Reading messages from the IPC buffer and writing responses to it.

use ipc_server::client::write_command_on_ipc_buffer;
use ipc_server::commands::{
    get_aligned_data_offset, read_command_from_ipc_buffer, read_control_command_from_ipc_buffer,
    read_request_command_from_ipc_buffer, write_close_command_response_on_ipc_buffer,
    write_command_response_on_ipc_buffer, write_control_command_response_on_ipc_buffer,
    write_request_command_response_on_ipc_buffer,
};
use ipc_server::context::{CommandContext, ObjectInfo};
use ipc_server::headers::{
    BufferDescriptor, CommandHeader, CommandSpecialHeader, CommandType, DomainCommandType,
    ReceiveStaticDescriptor, SendStaticDescriptor, IN_DATA_HEADER_MAGIC, OUT_DATA_HEADER_MAGIC,
};
use ipc_server::ready::{
    is_control_in_buffer, is_message_in_buffer, is_request_in_buffer, is_room_for_control_response,
    is_room_for_request_response,
};
use ipc_server::results::{ResultCode, CMIF_INVALID_INPUT_HEADER, CONTEXT_FULL};

fn put(buf: &mut [u8; 0x100], at: usize, word: u32) {
    buf[at..at + 4].copy_from_slice(&word.to_le_bytes());
}

fn get(buf: &[u8; 0x100], at: usize) -> u32 {
    u32::from_le_bytes([buf[at], buf[at + 1], buf[at + 2], buf[at + 3]])
}

/// A message of this type with so many data words and nothing else.
fn plain_message(code: u32, data_words: u32) -> [u8; 0x100] {
    let mut buf = [0u8; 0x100];
    put(&mut buf, 0, code);
    put(&mut buf, 4, data_words);
    buf
}

fn session() -> CommandContext {
    CommandContext::new_server(ObjectInfo::from_handle(7), 0x1000)
}

fn domain() -> CommandContext {
    let mut info = ObjectInfo::from_handle(7);
    info.domain_object_id = 1;
    CommandContext::new_server(info, 0x1000)
}

#[test]
fn command_header_has_its_fields() {
    let header = CommandHeader::new(CommandType::Request, 1, 2, 3, 4, 8, 1, true);
    assert_eq!(header.bits_1, 0x4321_0004);
    assert_eq!(header.bits_2, 0x8000_0C08);
    assert_eq!(header.get_command_type(), CommandType::Request);
    assert_eq!(header.get_send_static_count(), 1);
    assert_eq!(header.get_send_buffer_count(), 2);
    assert_eq!(header.get_receive_buffer_count(), 3);
    assert_eq!(header.get_exchange_buffer_count(), 4);
    assert_eq!(header.get_data_word_count(), 8);
    assert_eq!(header.get_receive_static_count(), 1);
    assert!(header.get_has_special_header());
}

#[test]
fn command_header_without_receive_statics() {
    let header = CommandHeader::new(CommandType::Close, 0, 0, 0, 0, 0, 0, false);
    assert_eq!(header.bits_1, 2);
    assert_eq!(header.bits_2, 0);
    assert_eq!(header.get_receive_static_count(), 0);
}

#[test]
fn special_header_has_its_fields() {
    let header = CommandSpecialHeader::new(true, 2, 3);
    assert_eq!(header.bits, 1 + 2 * 2 + 3 * 32);
    assert!(header.get_send_process_id());
    assert_eq!(header.get_copy_handle_count(), 2);
    assert_eq!(header.get_move_handle_count(), 3);
}

#[test]
fn command_types_and_their_numbers() {
    for code in 0..8u32 {
        assert_eq!(CommandType::from_raw(code).to_raw(), code);
    }
    assert_eq!(CommandType::from_raw(8), CommandType::Invalid);
    assert_eq!(DomainCommandType::from_raw(1), DomainCommandType::SendMessage);
    assert_eq!(DomainCommandType::from_raw(2), DomainCommandType::Close);
    assert_eq!(DomainCommandType::from_raw(3), DomainCommandType::Invalid);
}

#[test]
fn receive_static_descriptor_has_address_and_size() {
    let descriptor = ReceiveStaticDescriptor::new(0x12_3456_7890, 0x400);
    assert_eq!(descriptor.address_low, 0x3456_7890);
    assert_eq!(descriptor.bits, 0x0400_0012);
}

#[test]
fn data_is_aligned() {
    assert_eq!(get_aligned_data_offset(0), 0);
    assert_eq!(get_aligned_data_offset(8), 16);
    assert_eq!(get_aligned_data_offset(16), 16);
    assert_eq!(get_aligned_data_offset(17), 32);
}

#[test]
fn command_with_everything_is_read() {
    let mut buf = [0u8; 0x100];
    put(&mut buf, 0, 0x1111_0004);
    put(&mut buf, 4, 0x8000_0C02);
    put(&mut buf, 8, 1 + 2 + 32);
    put(&mut buf, 12, 0x5566_7788);
    put(&mut buf, 16, 0x1122_3344);
    put(&mut buf, 20, 0xAA);
    put(&mut buf, 24, 0xBB);
    put(&mut buf, 28, 1);
    put(&mut buf, 32, 2);
    for (i, word) in (36..72).step_by(4).enumerate() {
        put(&mut buf, word, 10 + i as u32);
    }
    put(&mut buf, 80, 91);
    put(&mut buf, 84, 92);

    let mut ctx = session();
    assert!(is_message_in_buffer(&buf));
    assert_eq!(read_command_from_ipc_buffer(&mut ctx, &buf), CommandType::Request);
    assert!(ctx.in_params.send_process_id);
    assert_eq!(ctx.in_params.process_id, 0x1122_3344_5566_7788);
    assert_eq!(ctx.in_params.copy_handles, vec![0xAA]);
    assert_eq!(ctx.in_params.move_handles, vec![0xBB]);
    assert_eq!(ctx.send_statics, vec![SendStaticDescriptor { bits: 1, address_low: 2 }]);
    assert_eq!(
        ctx.send_buffers,
        vec![BufferDescriptor { size_low: 10, address_low: 11, bits: 12 }]
    );
    assert_eq!(
        ctx.receive_buffers,
        vec![BufferDescriptor { size_low: 13, address_low: 14, bits: 15 }]
    );
    assert_eq!(
        ctx.exchange_buffers,
        vec![BufferDescriptor { size_low: 16, address_low: 17, bits: 18 }]
    );
    assert_eq!(ctx.in_params.data_words_offset, 72);
    assert_eq!(ctx.in_params.data_size, 8);
    assert_eq!(
        ctx.receive_statics,
        vec![ReceiveStaticDescriptor { address_low: 91, bits: 92 }]
    );
}

#[test]
fn message_beyond_the_buffer_is_seen() {
    assert!(is_message_in_buffer(&plain_message(4, 62)));
    assert!(!is_message_in_buffer(&plain_message(4, 63)));
}

#[test]
fn request_is_read() {
    let mut buf = plain_message(4, 10);
    put(&mut buf, 16, IN_DATA_HEADER_MAGIC);
    put(&mut buf, 24, 5);
    let mut ctx = session();
    read_command_from_ipc_buffer(&mut ctx, &buf);
    assert!(is_request_in_buffer(&ctx, &buf));
    let read = read_request_command_from_ipc_buffer(&mut ctx, &buf);
    assert_eq!(read, Ok((5, DomainCommandType::Invalid, 0)));
    assert_eq!(ctx.in_params.data_offset, 32);
    assert_eq!(ctx.in_params.data_size, 8);
}

#[test]
fn request_without_data_header_has_id_zero() {
    let buf = plain_message(4, 5);
    let mut ctx = session();
    read_command_from_ipc_buffer(&mut ctx, &buf);
    let read = read_request_command_from_ipc_buffer(&mut ctx, &buf);
    assert_eq!(read, Ok((0, DomainCommandType::Invalid, 0)));
    assert_eq!(ctx.in_params.data_offset, 16);
    assert_eq!(ctx.in_params.data_size, 4);
}

#[test]
fn request_with_wrong_magic_is_refused() {
    let mut buf = plain_message(4, 8);
    put(&mut buf, 16, OUT_DATA_HEADER_MAGIC);
    let mut ctx = session();
    read_command_from_ipc_buffer(&mut ctx, &buf);
    assert_eq!(
        read_request_command_from_ipc_buffer(&mut ctx, &buf),
        Err(ResultCode::new(CMIF_INVALID_INPUT_HEADER))
    );
}

/// A domain request with this command, for this object, that brings objects.
fn domain_message(command: u8, id: u32, objects: &[u32]) -> [u8; 0x100] {
    let mut buf = plain_message(4, 12 + objects.len() as u32);
    buf[16] = command;
    buf[17] = objects.len() as u8;
    buf[18] = 16;
    put(&mut buf, 20, id);
    put(&mut buf, 32, IN_DATA_HEADER_MAGIC);
    put(&mut buf, 40, 9);
    for (i, object) in objects.iter().enumerate() {
        put(&mut buf, 48 + 4 * i, *object);
    }
    buf
}

#[test]
fn domain_request_is_read() {
    let buf = domain_message(1, 3, &[77, 78]);
    let mut ctx = domain();
    read_command_from_ipc_buffer(&mut ctx, &buf);
    assert!(is_request_in_buffer(&ctx, &buf));
    let read = read_request_command_from_ipc_buffer(&mut ctx, &buf);
    assert_eq!(read, Ok((9, DomainCommandType::SendMessage, 3)));
    assert_eq!(ctx.in_params.objects, vec![77, 78]);
    assert_eq!(ctx.in_params.data_offset, 48);
    assert_eq!(ctx.in_params.data_size, 8);
}

#[test]
fn domain_request_beyond_the_buffer_is_seen() {
    let mut buf = domain_message(1, 3, &[]);
    buf[18] = 0xFF;
    let mut ctx = domain();
    read_command_from_ipc_buffer(&mut ctx, &buf);
    assert!(!is_request_in_buffer(&ctx, &buf));
    let short = plain_message(4, 3);
    let mut ctx = domain();
    read_command_from_ipc_buffer(&mut ctx, &short);
    assert!(!is_request_in_buffer(&ctx, &short));
}

#[test]
fn control_message_is_read() {
    let mut buf = plain_message(5, 8);
    put(&mut buf, 16, IN_DATA_HEADER_MAGIC);
    put(&mut buf, 24, 3);
    let mut ctx = session();
    assert_eq!(read_command_from_ipc_buffer(&mut ctx, &buf), CommandType::Control);
    assert!(is_control_in_buffer(&ctx, &buf));
    assert_eq!(read_control_command_from_ipc_buffer(&mut ctx, &buf), Ok(3));
    assert_eq!(ctx.in_params.data_offset, 32);
    assert_eq!(ctx.in_params.data_size, 0);
}

#[test]
fn control_message_with_wrong_magic_is_refused() {
    let buf = plain_message(5, 8);
    let mut ctx = session();
    read_command_from_ipc_buffer(&mut ctx, &buf);
    assert_eq!(
        read_control_command_from_ipc_buffer(&mut ctx, &buf),
        Err(ResultCode::new(CMIF_INVALID_INPUT_HEADER))
    );
}

#[test]
fn control_message_without_its_data_is_seen() {
    let mut buf = plain_message(5, 7);
    put(&mut buf, 16, IN_DATA_HEADER_MAGIC);
    let mut ctx = session();
    read_command_from_ipc_buffer(&mut ctx, &buf);
    assert!(!is_control_in_buffer(&ctx, &buf));
}

#[test]
fn request_response_is_written() {
    let mut buf = [0xEEu8; 0x100];
    let mut ctx = session();
    ctx.out_params.data_size = 5;
    assert!(is_room_for_request_response(&ctx, CommandType::Request));
    write_request_command_response_on_ipc_buffer(
        &mut ctx,
        &mut buf,
        ResultCode::new(0x1234),
        CommandType::Request,
    );
    assert_eq!(get(&buf, 0), 4);
    assert_eq!(get(&buf, 4), 10);
    assert_eq!(get(&buf, 16), OUT_DATA_HEADER_MAGIC);
    assert_eq!(get(&buf, 20), 0);
    assert_eq!(get(&buf, 24), 0x1234);
    assert_eq!(get(&buf, 28), 0);
    assert_eq!(buf[32], 0xEE);
    assert_eq!(ctx.out_params.data_words_offset, 8);
    assert_eq!(ctx.out_params.data_offset, 32);
}

#[test]
fn request_response_with_context_has_version_one() {
    let mut buf = [0u8; 0x100];
    let mut ctx = session();
    write_request_command_response_on_ipc_buffer(
        &mut ctx,
        &mut buf,
        ResultCode::new(0),
        CommandType::RequestWithContext,
    );
    assert_eq!(get(&buf, 0), 6);
    assert_eq!(get(&buf, 20), 1);
}

#[test]
fn domain_response_lists_its_objects() {
    let mut buf = [0u8; 0x100];
    let mut ctx = domain();
    ctx.out_params.data_size = 4;
    ctx.out_params.objects = vec![21, 22];
    write_request_command_response_on_ipc_buffer(
        &mut ctx,
        &mut buf,
        ResultCode::new(0),
        CommandType::Request,
    );
    assert_eq!(get(&buf, 4), 15);
    assert_eq!(get(&buf, 16), 2);
    assert_eq!(get(&buf, 32), OUT_DATA_HEADER_MAGIC);
    assert_eq!(get(&buf, 52), 21);
    assert_eq!(get(&buf, 56), 22);
    assert_eq!(ctx.out_params.data_offset, 48);
}

#[test]
fn response_with_handles_has_a_special_header() {
    let mut buf = [0u8; 0x100];
    let mut ctx = session();
    assert_eq!(ctx.out_params.push_copy_handle(0xC0), Ok(()));
    assert_eq!(ctx.out_params.push_move_handle(0xD0), Ok(()));
    write_command_response_on_ipc_buffer(&mut ctx, &mut buf, CommandType::Request, 6);
    assert_eq!(get(&buf, 4), 0x8000_0002);
    assert_eq!(get(&buf, 8), 2 + 32);
    assert_eq!(get(&buf, 12), 0xC0);
    assert_eq!(get(&buf, 16), 0xD0);
    assert_eq!(ctx.out_params.data_words_offset, 20);
}

#[test]
fn control_response_is_written() {
    let mut buf = [0u8; 0x100];
    let mut ctx = session();
    ctx.out_params.data_size = 2;
    assert!(is_room_for_control_response(&ctx, CommandType::ControlWithContext));
    write_control_command_response_on_ipc_buffer(
        &mut ctx,
        &mut buf,
        ResultCode::new(7),
        CommandType::ControlWithContext,
    );
    assert_eq!(get(&buf, 0), 7);
    assert_eq!(get(&buf, 4), 9);
    assert_eq!(get(&buf, 16), OUT_DATA_HEADER_MAGIC);
    assert_eq!(get(&buf, 20), 1);
    assert_eq!(get(&buf, 24), 7);
    assert_eq!(ctx.out_params.data_offset, 32);
}

#[test]
fn close_response_is_written() {
    let mut buf = [0xFFu8; 0x100];
    let mut ctx = session();
    write_close_command_response_on_ipc_buffer(&mut ctx, &mut buf);
    assert_eq!(get(&buf, 0), 2);
    assert_eq!(get(&buf, 4), 0);
    assert_eq!(get(&buf, 8), 0xFFFF_FFFF);
}

#[test]
fn response_without_room_is_seen() {
    let mut ctx = session();
    ctx.out_params.data_size = 0x100 - 8 - 32;
    assert!(is_room_for_request_response(&ctx, CommandType::Request));
    ctx.out_params.data_size += 1;
    assert!(!is_room_for_request_response(&ctx, CommandType::Request));
    assert!(!is_room_for_control_response(&ctx, CommandType::Control));
    let mut ctx = domain();
    ctx.out_params.objects = vec![1; 0x1000];
    assert!(!is_room_for_request_response(&ctx, CommandType::Request));
    let mut ctx = session();
    ctx.out_params.copy_handles = vec![1; 16];
    assert!(!is_room_for_request_response(&ctx, CommandType::Request));
}

#[test]
fn written_command_is_read_back() {
    let mut buf = [0u8; 0x100];
    let mut ctx = CommandContext::new_client(ObjectInfo::from_handle(7));
    let descriptor = ReceiveStaticDescriptor::new(0x2000, 0x80);
    assert_eq!(ctx.add_receive_static(descriptor), Ok(()));
    ctx.in_params.copy_handles = vec![5, 6];
    write_command_on_ipc_buffer(&mut ctx, &mut buf, CommandType::LegacyControl, 7);
    assert_eq!(ctx.in_params.data_words_offset, 20);
    let mut read = session();
    assert_eq!(
        read_command_from_ipc_buffer(&mut read, &buf),
        CommandType::LegacyControl
    );
    assert_eq!(read.in_params.copy_handles, vec![5, 6]);
    assert_eq!(read.in_params.data_size, 8);
    assert_eq!(read.receive_statics, vec![descriptor]);
}

#[test]
fn response_is_not_taken_for_a_request() {
    let mut buf = [0u8; 0x100];
    let mut ctx = session();
    write_request_command_response_on_ipc_buffer(
        &mut ctx,
        &mut buf,
        ResultCode::new(0),
        CommandType::Request,
    );
    let mut reader = session();
    read_command_from_ipc_buffer(&mut reader, &buf);
    assert_eq!(
        read_request_command_from_ipc_buffer(&mut reader, &buf),
        Err(ResultCode::new(CMIF_INVALID_INPUT_HEADER))
    );
}

#[test]
fn contexts_have_limits() {
    let full = Err(ResultCode::new(CONTEXT_FULL));
    let mut ctx = CommandContext::empty();
    for i in 0..8 {
        assert_eq!(ctx.out_params.push_copy_handle(i), Ok(()));
        assert_eq!(ctx.out_params.push_move_handle(i), Ok(()));
        assert_eq!(ctx.out_params.push_domain_object(i), Ok(()));
        assert_eq!(ctx.add_receive_static(ReceiveStaticDescriptor::new(0, 1)), Ok(()));
    }
    assert_eq!(ctx.out_params.push_copy_handle(8), full);
    assert_eq!(ctx.out_params.push_move_handle(8), full);
    assert_eq!(ctx.out_params.push_domain_object(8), full);
    assert_eq!(ctx.add_receive_static(ReceiveStaticDescriptor::new(0, 1)), full);
}

#[test]
fn object_infos() {
    assert!(!ObjectInfo::new().is_domain());
    assert!(ObjectInfo::from_handle(4).owns_handle);
    let info = ObjectInfo::from_domain_object_id(4, 2);
    assert!(info.is_domain());
    assert!(!info.owns_handle);
}
