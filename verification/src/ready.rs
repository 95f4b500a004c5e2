//! Whether a message can be read from the IPC buffer, and whether a response
//! can be written to it.

use vstd::prelude::*;

use crate::buffer::{read_u16, read_u32, read_u8, IPC_BUFFER_SIZE};
use crate::commands::get_aligned_data_offset;
use crate::context::CommandContext;
use crate::headers::{
    CommandHeader, CommandSpecialHeader, DATA_HEADER_SIZE, DATA_PADDING, DOMAIN_HEADER_SIZE,
    IN_DATA_HEADER_MAGIC,
};

verus! {

use crate::commands::{
    control_readable, control_response_outline, request_head, request_readable,
    request_response_outline, request_response_size, response_outline,
};
use crate::headers::CommandType;
use crate::message::{message_fits, shape_of};

/// Whether the message in the IPC buffer does not reach beyond its end.
pub fn is_message_in_buffer(ipc_buf: &[u8; 0x100]) -> (b: bool)
    ensures
        b == message_fits(ipc_buf@),
{
    let header = CommandHeader { bits_1: read_u32(ipc_buf, 0), bits_2: read_u32(ipc_buf, 4) };
    let mut end: u32 = 8;
    if header.get_has_special_header() {
        let special_header = CommandSpecialHeader { bits: read_u32(ipc_buf, 8) };
        end = 12 + 4 * special_header.get_copy_handle_count() + 4
            * special_header.get_move_handle_count();
        if special_header.get_send_process_id() {
            end = end + 8;
        }
    }
    end = end + 8 * header.get_send_static_count() + 12 * header.get_send_buffer_count() + 12
        * header.get_receive_buffer_count() + 12 * header.get_exchange_buffer_count() + 4
        * header.get_data_word_count() + 8 * header.get_receive_static_count();
    assert(end == shape_of(ipc_buf@).end());
    end <= IPC_BUFFER_SIZE as u32
}

/// Whether the head of a request lies in the IPC buffer.
pub fn is_request_in_buffer(ctx: &CommandContext, ipc_buf: &[u8; 0x100]) -> (b: bool)
    ensures
        b == request_readable(ctx@, ipc_buf@),
{
    if ctx.in_params.data_words_offset > IPC_BUFFER_SIZE {
        return false;
    }
    let ghost head = request_head(ctx@, ipc_buf@);
    let mut header_at: usize = get_aligned_data_offset(ctx.in_params.data_words_offset);
    let mut data_size: u32 = ctx.in_params.data_size;
    if ctx.object_info.is_domain() {
        let domain_header_at: usize = header_at;
        header_at = header_at + DOMAIN_HEADER_SIZE as usize;
        if data_size < DOMAIN_HEADER_SIZE || header_at > IPC_BUFFER_SIZE {
            return false;
        }
        data_size = data_size - DOMAIN_HEADER_SIZE;
        let object_count: usize = read_u8(ipc_buf, domain_header_at + 1) as usize;
        let objects_at: usize = header_at + read_u16(ipc_buf, domain_header_at + 2) as usize;
        if objects_at + 4 * object_count > IPC_BUFFER_SIZE {
            return false;
        }
    }
    assert(header_at == head.header_at && data_size == head.data_size);
    data_size < DATA_PADDING + DATA_HEADER_SIZE || header_at + DATA_HEADER_SIZE as usize
        <= IPC_BUFFER_SIZE
}

/// Whether the head of a control message lies in the IPC buffer.
pub fn is_control_in_buffer(ctx: &CommandContext, ipc_buf: &[u8; 0x100]) -> (b: bool)
    ensures
        b == control_readable(ctx@, ipc_buf@),
{
    if ctx.in_params.data_words_offset > IPC_BUFFER_SIZE {
        return false;
    }
    let at: usize = get_aligned_data_offset(ctx.in_params.data_words_offset);
    if at + DATA_HEADER_SIZE as usize > IPC_BUFFER_SIZE {
        return false;
    }
    read_u32(ipc_buf, at) != IN_DATA_HEADER_MAGIC || ctx.in_params.data_size >= DATA_PADDING
        + DATA_HEADER_SIZE
}

/// Whether there is room for a response with so many bytes of data.
fn is_room_for_response(ctx: &CommandContext, data_size: u64) -> (b: bool)
    requires
        data_size <= 0x2_0000_0000,
    ensures
        forall|t: CommandType| #[trigger]
            response_outline(ctx@, t, data_size as int).writable() == b,
{
    let out = &ctx.out_params;
    if out.copy_handles.len() > 15 || out.move_handles.len() > 15 || ctx.send_statics.len() > 15
        || ctx.send_buffers.len() > 15 || ctx.receive_buffers.len() > 15
        || ctx.exchange_buffers.len() > 15 || ctx.receive_statics.len() > 13 {
        return false;
    }
    let handles: u64 = 4 * (out.copy_handles.len() as u64) + 4 * (out.move_handles.len() as u64);
    let mut end: u64 = 8 + handles;
    if out.send_process_id {
        end = end + 12;
    } else if handles > 0 {
        end = end + 4;
    }
    end = end + 8 * (ctx.send_statics.len() as u64) + 12 * (ctx.send_buffers.len() as u64) + 12 * (
    ctx.receive_buffers.len() as u64) + 12 * (ctx.exchange_buffers.len() as u64) + (data_size + 3)
        / 4 * 4 + 8 * (ctx.receive_statics.len() as u64);
    assert forall|t: CommandType| #[trigger]
        response_outline(ctx@, t, data_size as int).shape().end() == end by {}
    end <= IPC_BUFFER_SIZE as u64
}

/// Whether there is room for a response to a request.
pub fn is_room_for_request_response(ctx: &CommandContext, request_type: CommandType) -> (b: bool)
    ensures
        b == request_response_outline(ctx@, request_type).writable(),
{
    let mut data_size: u64 = DATA_PADDING as u64 + DATA_HEADER_SIZE as u64
        + ctx.out_params.data_size as u64;
    if ctx.object_info.is_domain() {
        if ctx.out_params.objects.len() > IPC_BUFFER_SIZE {
            assert(request_response_outline(ctx@, request_type).shape().end() > IPC_BUFFER_SIZE);
            return false;
        }
        data_size = data_size + DOMAIN_HEADER_SIZE as u64 + 4 * (ctx.out_params.objects.len() as u64);
    }
    data_size = (data_size + 1) / 2 * 2;
    assert(data_size == request_response_size(ctx@));
    let b: bool = is_room_for_response(ctx, data_size);
    assert(response_outline(ctx@, request_type, data_size as int).writable() == b);
    b
}

/// Whether there is room for a response to a control message.
pub fn is_room_for_control_response(ctx: &CommandContext, control_type: CommandType) -> (b: bool)
    ensures
        b == control_response_outline(ctx@, control_type).writable(),
{
    let data_size: u64 = (DATA_PADDING as u64 + DATA_HEADER_SIZE as u64
        + ctx.out_params.data_size as u64 + 1) / 2 * 2;
    let b: bool = is_room_for_response(ctx, data_size);
    assert(response_outline(ctx@, control_type, data_size as int).writable() == b);
    b
}

} // verus!
