//! Reading requests from the IPC buffer and writing responses to it.

use vstd::prelude::*;

use crate::array::{read_array_from_buffer, write_array_to_buffer};
use crate::buffer::{read_u16, read_u32, read_u64, read_u8, write_u32, IPC_BUFFER_SIZE};
use crate::context::CommandContext;
use crate::headers::{
    CommandHeader, CommandSpecialHeader, CommandType, DomainCommandType, DomainObjectId,
    DATA_HEADER_SIZE, DATA_PADDING, DOMAIN_HEADER_SIZE, IN_DATA_HEADER_MAGIC,
    OUT_DATA_HEADER_MAGIC,
};
use crate::message::write_outline;
use crate::results::{ResultCode, CMIF_INVALID_INPUT_HEADER};

verus! {

use crate::array::{items_at, put_items};
use crate::buffer::{splice, u16_at, u32_at, u32_bytes, u64_at};
use crate::context::{CommandInModel, CommandModel, CommandOutModel};
use crate::message::{
    lemma_extents, message_fits, outline_for, outline_of, shape_of, Outline,
};

/// The first multiple of the data padding from `offset` on.
pub open spec fn aligned(offset: int) -> int {
    (offset + 15) / 16 * 16
}

/// Where the data of a message starts whose data words start at `offset`.
pub fn get_aligned_data_offset(offset: usize) -> (at: usize)
    requires
        offset <= IPC_BUFFER_SIZE,
    ensures
        at == aligned(offset as int),
        at % 16 == 0,
        offset <= at < offset + 16,
{
    (offset + 15) / 16 * 16
}

/// `ctx` with what the message in `b` holds put into it. The data counts whole
/// words. Without a special header, what was known of the sender's process id
/// and of handles stays.
pub open spec fn with_command(ctx: CommandModel, b: Seq<u8>) -> CommandModel {
    let o = outline_of(b);
    CommandModel {
        in_params: CommandInModel {
            data_size: (4 * o.data_words) as u32,
            send_process_id: if o.has_special_header {
                o.send_process_id
            } else {
                ctx.in_params.send_process_id
            },
            process_id: if o.send_process_id {
                u64_at(b, 12)
            } else {
                ctx.in_params.process_id
            },
            copy_handles: if o.has_special_header {
                o.copy_handles
            } else {
                ctx.in_params.copy_handles
            },
            move_handles: if o.has_special_header {
                o.move_handles
            } else {
                ctx.in_params.move_handles
            },
            data_words_offset: shape_of(b).data_words_at() as usize,
            ..ctx.in_params
        },
        send_statics: o.send_statics,
        send_buffers: o.send_buffers,
        receive_buffers: o.receive_buffers,
        exchange_buffers: o.exchange_buffers,
        receive_statics: o.receive_statics,
        ..ctx
    }
}

/// Reads what the message in the IPC buffer holds, and gives its type.
pub fn read_command_from_ipc_buffer(ctx: &mut CommandContext, ipc_buf: &[u8; 0x100]) -> (t:
    CommandType)
    requires
        message_fits(ipc_buf@),
    ensures
        t == outline_of(ipc_buf@).command_type,
        final(ctx)@ == with_command(old(ctx)@, ipc_buf@),
{
    let ghost shape = shape_of(ipc_buf@);
    proof {
        lemma_extents(shape.copy_handles as int);
        lemma_extents(shape.move_handles as int);
        lemma_extents(shape.send_statics as int);
        lemma_extents(shape.send_buffers as int);
        lemma_extents(shape.receive_buffers as int);
        lemma_extents(shape.exchange_buffers as int);
        lemma_extents(shape.receive_statics as int);
    }
    let command_header = CommandHeader { bits_1: read_u32(ipc_buf, 0), bits_2: read_u32(ipc_buf, 4) };
    let mut pos: usize = 8;

    let command_type = command_header.get_command_type();
    let data_size: u32 = command_header.get_data_word_count() * 4;
    ctx.in_params.data_size = data_size;

    if command_header.get_has_special_header() {
        let special_header = CommandSpecialHeader { bits: read_u32(ipc_buf, pos) };
        pos = 12;

        ctx.in_params.send_process_id = special_header.get_send_process_id();
        if ctx.in_params.send_process_id {
            ctx.in_params.process_id = read_u64(ipc_buf, pos);
            pos = 20;
        }
        let copy_handle_count: u32 = special_header.get_copy_handle_count();
        pos = read_array_from_buffer(ipc_buf, pos, copy_handle_count, &mut ctx.in_params.copy_handles);
        let move_handle_count: u32 = special_header.get_move_handle_count();
        pos = read_array_from_buffer(ipc_buf, pos, move_handle_count, &mut ctx.in_params.move_handles);
    }
    assert(pos == shape.send_statics_at());

    let send_static_count: u32 = command_header.get_send_static_count();
    pos = read_array_from_buffer(ipc_buf, pos, send_static_count, &mut ctx.send_statics);
    let send_buffer_count: u32 = command_header.get_send_buffer_count();
    pos = read_array_from_buffer(ipc_buf, pos, send_buffer_count, &mut ctx.send_buffers);
    let receive_buffer_count: u32 = command_header.get_receive_buffer_count();
    pos = read_array_from_buffer(ipc_buf, pos, receive_buffer_count, &mut ctx.receive_buffers);
    let exchange_buffer_count: u32 = command_header.get_exchange_buffer_count();
    pos = read_array_from_buffer(ipc_buf, pos, exchange_buffer_count, &mut ctx.exchange_buffers);

    ctx.in_params.data_words_offset = pos;
    pos = pos + data_size as usize;

    let receive_static_count: u32 = command_header.get_receive_static_count();
    let _end: usize = read_array_from_buffer(
        ipc_buf,
        pos,
        receive_static_count,
        &mut ctx.receive_statics,
    );
    assert(ctx@ =~= with_command(old(ctx)@, ipc_buf@));
    command_type
}

/// The outline of a response with so many bytes of data.
pub open spec fn response_outline(
    ctx: CommandModel,
    command_type: CommandType,
    data_size: int,
) -> Outline {
    outline_for(
        command_type,
        ctx.out_params.send_process_id,
        ctx.out_params.copy_handles,
        ctx.out_params.move_handles,
        ctx,
        data_size,
    )
}

/// `ctx` with the offset at which the data words of a response of that outline
/// stand.
pub open spec fn with_response_words(ctx: CommandModel, o: Outline) -> CommandModel {
    CommandModel {
        out_params: CommandOutModel {
            data_words_offset: o.shape().data_words_at() as usize,
            ..ctx.out_params
        },
        ..ctx
    }
}

/// Writes the outline of a response: its headers, its handles and the
/// descriptors that the context holds.
pub fn write_command_response_on_ipc_buffer(
    ctx: &mut CommandContext,
    ipc_buf: &mut [u8; 0x100],
    command_type: CommandType,
    data_size: u32,
)
    requires
        response_outline(old(ctx)@, command_type, data_size as int).writable(),
    ensures
        final(ipc_buf)@ == response_outline(old(ctx)@, command_type, data_size as int).put(
            old(ipc_buf)@,
        ),
        final(ctx)@ == with_response_words(
            old(ctx)@,
            response_outline(old(ctx)@, command_type, data_size as int),
        ),
{
    let offset: usize = write_outline(
        ipc_buf,
        command_type,
        ctx.out_params.send_process_id,
        &ctx.out_params.copy_handles,
        &ctx.out_params.move_handles,
        ctx,
        data_size,
    );
    ctx.out_params.data_words_offset = offset;
    assert(ctx@ =~= with_response_words(
        old(ctx)@,
        response_outline(old(ctx)@, command_type, data_size as int),
    ));
}

/// Answers a message that closes its session.
pub fn write_close_command_response_on_ipc_buffer(
    ctx: &mut CommandContext,
    ipc_buf: &mut [u8; 0x100],
)
    requires
        response_outline(old(ctx)@, CommandType::Close, 0).writable(),
    ensures
        final(ipc_buf)@ == response_outline(old(ctx)@, CommandType::Close, 0).put(old(ipc_buf)@),
        final(ctx)@ == with_response_words(
            old(ctx)@,
            response_outline(old(ctx)@, CommandType::Close, 0),
        ),
{
    write_command_response_on_ipc_buffer(ctx, ipc_buf, CommandType::Close, 0);
}

/// What the data of a request says, before the command's own parameters.
pub struct RequestHead {
    /// Where the data header stands, if there is one.
    pub header_at: int,
    /// How many bytes of data there are besides a domain header.
    pub data_size: int,
    pub domain_command_type: DomainCommandType,
    pub domain_object_id: DomainObjectId,
    pub objects_at: int,
    pub object_count: nat,
}

/// The head of the request in `b`. In a domain its data starts with a domain
/// header: a command type, the number of objects that come with the request,
/// how far behind the header these stand, and the id of the object it is for.
pub open spec fn request_head(ctx: CommandModel, b: Seq<u8>) -> RequestHead {
    let at = aligned(ctx.in_params.data_words_offset as int);
    if ctx.object_info.in_domain() {
        RequestHead {
            header_at: at + DOMAIN_HEADER_SIZE,
            data_size: ctx.in_params.data_size - DOMAIN_HEADER_SIZE,
            domain_command_type: DomainCommandType::of_code(b[at]),
            domain_object_id: u32_at(b, at + 4),
            objects_at: at + DOMAIN_HEADER_SIZE + u16_at(b, at + 2),
            object_count: b[at + 1] as nat,
        }
    } else {
        RequestHead {
            header_at: at,
            data_size: ctx.in_params.data_size as int,
            domain_command_type: DomainCommandType::Invalid,
            domain_object_id: 0,
            objects_at: at,
            object_count: 0,
        }
    }
}

impl RequestHead {
    /// There are enough data for the padding and a data header.
    pub open spec fn has_data_header(self) -> bool {
        self.data_size >= DATA_PADDING + DATA_HEADER_SIZE
    }

    /// The data header, if there is one, is that of a request.
    pub open spec fn valid(self, b: Seq<u8>) -> bool {
        self.has_data_header() ==> u32_at(b, self.header_at) == IN_DATA_HEADER_MAGIC
    }

    pub open spec fn request_id(self, b: Seq<u8>) -> u32 {
        if self.has_data_header() {
            u32_at(b, self.header_at + 8)
        } else {
            0
        }
    }

    /// How many bytes of data are left behind the headers.
    pub open spec fn rest(self, b: Seq<u8>) -> int {
        if self.has_data_header() && self.valid(b) {
            self.data_size - DATA_PADDING - DATA_HEADER_SIZE
        } else if self.data_size >= DATA_PADDING {
            self.data_size - DATA_PADDING
        } else {
            self.data_size
        }
    }
}

/// What is read of a request lies in the IPC buffer, and the domain header is
/// counted in the size of the data.
pub open spec fn request_readable(ctx: CommandModel, b: Seq<u8>) -> bool {
    let head = request_head(ctx, b);
    &&& ctx.in_params.data_words_offset <= IPC_BUFFER_SIZE
    &&& ctx.object_info.in_domain() ==> {
        &&& 0 <= head.data_size
        &&& head.header_at <= IPC_BUFFER_SIZE
        &&& head.objects_at + 4 * head.object_count <= IPC_BUFFER_SIZE
    }
    &&& head.has_data_header() ==> head.header_at + DATA_HEADER_SIZE <= IPC_BUFFER_SIZE
}

/// `ctx` with what the head of the request in `b` says put into it. The place of
/// the parameters is known only where the request is valid.
pub open spec fn with_request(ctx: CommandModel, b: Seq<u8>) -> CommandModel {
    let head = request_head(ctx, b);
    CommandModel {
        in_params: CommandInModel {
            data_size: head.rest(b) as u32,
            data_offset: if !head.valid(b) {
                ctx.in_params.data_offset
            } else if head.has_data_header() {
                (head.header_at + DATA_HEADER_SIZE) as usize
            } else {
                head.header_at as usize
            },
            objects: if ctx.object_info.in_domain() {
                items_at(b, head.objects_at, head.object_count)
            } else {
                ctx.in_params.objects
            },
            ..ctx.in_params
        },
        ..ctx
    }
}

/// Reads the head of a request: the id of the command, what is asked of the
/// domain and of which object in it.
pub fn read_request_command_from_ipc_buffer(ctx: &mut CommandContext, ipc_buf: &[u8; 0x100]) -> (r:
    Result<(u32, DomainCommandType, DomainObjectId), ResultCode>)
    requires
        request_readable(old(ctx)@, ipc_buf@),
    ensures
        final(ctx)@ == with_request(old(ctx)@, ipc_buf@),
        ({
            let head = request_head(old(ctx)@, ipc_buf@);
            r == if head.valid(ipc_buf@) {
                Ok((
                    head.request_id(ipc_buf@),
                    head.domain_command_type,
                    head.domain_object_id,
                ))
            } else {
                Err(ResultCode { value: CMIF_INVALID_INPUT_HEADER })
            }
        }),
{
    let ghost head = request_head(ctx@, ipc_buf@);
    let mut domain_command_type = DomainCommandType::Invalid;
    let mut domain_object_id: DomainObjectId = 0;
    let mut data_offset: usize = get_aligned_data_offset(ctx.in_params.data_words_offset);

    if ctx.object_info.is_domain() {
        let domain_header_offset: usize = data_offset;
        data_offset = domain_header_offset + DOMAIN_HEADER_SIZE as usize;
        ctx.in_params.data_size = ctx.in_params.data_size - DOMAIN_HEADER_SIZE;

        domain_command_type = DomainCommandType::from_raw(read_u8(ipc_buf, domain_header_offset));
        let object_count: u8 = read_u8(ipc_buf, domain_header_offset + 1);
        let data_size: u16 = read_u16(ipc_buf, domain_header_offset + 2);
        domain_object_id = read_u32(ipc_buf, domain_header_offset + 4);
        let objects_offset: usize = data_offset + data_size as usize;
        proof {
            lemma_extents(object_count as int);
        }
        let _end: usize = read_array_from_buffer(
            ipc_buf,
            objects_offset,
            object_count as u32,
            &mut ctx.in_params.objects,
        );
    }
    let data_header_offset: usize = data_offset;

    let mut rq_id: u32 = 0;
    if ctx.in_params.data_size >= DATA_PADDING {
        ctx.in_params.data_size = ctx.in_params.data_size - DATA_PADDING;
        if ctx.in_params.data_size >= DATA_HEADER_SIZE {
            if read_u32(ipc_buf, data_header_offset) != IN_DATA_HEADER_MAGIC {
                assert(ctx@ =~= with_request(old(ctx)@, ipc_buf@));
                return Err(ResultCode::new(CMIF_INVALID_INPUT_HEADER));
            }
            rq_id = read_u32(ipc_buf, data_header_offset + 8);
            data_offset = data_header_offset + DATA_HEADER_SIZE as usize;
            ctx.in_params.data_size = ctx.in_params.data_size - DATA_HEADER_SIZE;
        }
    }
    ctx.in_params.data_offset = data_offset;
    assert(ctx@ =~= with_request(old(ctx)@, ipc_buf@));
    Ok((rq_id, domain_command_type, domain_object_id))
}

/// What is read of a control message lies in the IPC buffer, and its data holds
/// at least the padding and the data header.
pub open spec fn control_readable(ctx: CommandModel, b: Seq<u8>) -> bool {
    let at = aligned(ctx.in_params.data_words_offset as int);
    &&& at + DATA_HEADER_SIZE <= IPC_BUFFER_SIZE
    &&& u32_at(b, at) == IN_DATA_HEADER_MAGIC ==> ctx.in_params.data_size >= DATA_PADDING
        + DATA_HEADER_SIZE
}

/// `ctx` with the place and the size of the parameters of a control message.
pub open spec fn with_control(ctx: CommandModel) -> CommandModel {
    CommandModel {
        in_params: CommandInModel {
            data_offset: (aligned(ctx.in_params.data_words_offset as int) + DATA_HEADER_SIZE)
                as usize,
            data_size: (ctx.in_params.data_size - DATA_PADDING - DATA_HEADER_SIZE) as u32,
            ..ctx.in_params
        },
        ..ctx
    }
}

/// Reads the head of a control message: the id of the command.
pub fn read_control_command_from_ipc_buffer(ctx: &mut CommandContext, ipc_buf: &[u8; 0x100]) -> (r:
    Result<u32, ResultCode>)
    requires
        control_readable(old(ctx)@, ipc_buf@),
    ensures
        ({
            let at = aligned(old(ctx)@.in_params.data_words_offset as int);
            if u32_at(ipc_buf@, at) == IN_DATA_HEADER_MAGIC {
                r == Ok::<u32, ResultCode>(u32_at(ipc_buf@, at + 8)) && final(ctx)@ == with_control(
                    old(ctx)@,
                )
            } else {
                r == Err::<u32, ResultCode>(ResultCode { value: CMIF_INVALID_INPUT_HEADER })
                    && final(ctx)@ == old(ctx)@
            }
        }),
{
    let data_header_offset: usize = get_aligned_data_offset(ctx.in_params.data_words_offset);
    if read_u32(ipc_buf, data_header_offset) != IN_DATA_HEADER_MAGIC {
        return Err(ResultCode::new(CMIF_INVALID_INPUT_HEADER));
    }
    let control_rq_id: u32 = read_u32(ipc_buf, data_header_offset + 8);

    ctx.in_params.data_offset = data_header_offset + DATA_HEADER_SIZE as usize;
    ctx.in_params.data_size = ctx.in_params.data_size - (DATA_PADDING + DATA_HEADER_SIZE);
    assert(ctx@ =~= with_control(old(ctx)@));
    Ok(control_rq_id)
}

/// `n` rounded up to an even number.
pub open spec fn round_up_to_even(n: int) -> int {
    (n + 1) / 2 * 2
}

/// How many bytes of data the response to a request has: the padding, the data
/// header and the parameters, and in a domain the domain header and the objects.
pub open spec fn request_response_size(ctx: CommandModel) -> int {
    round_up_to_even(
        DATA_PADDING + DATA_HEADER_SIZE + ctx.out_params.data_size + (
        if ctx.object_info.in_domain() {
            DOMAIN_HEADER_SIZE + 4 * ctx.out_params.objects.len()
        } else {
            0
        }),
    )
}

/// How many bytes of data the response to a control message has.
pub open spec fn control_response_size(ctx: CommandModel) -> int {
    round_up_to_even(DATA_PADDING + DATA_HEADER_SIZE + ctx.out_params.data_size)
}

/// The data header of a response.
pub open spec fn response_header(version: u32, result: ResultCode) -> Seq<u32> {
    seq![OUT_DATA_HEADER_MAGIC, version, result.value, 0]
}

/// The outline of the response to a request.
pub open spec fn request_response_outline(ctx: CommandModel, request_type: CommandType) -> Outline {
    response_outline(ctx, request_type, request_response_size(ctx))
}

/// The outline of the response to a control message.
pub open spec fn control_response_outline(ctx: CommandModel, control_type: CommandType) -> Outline {
    response_outline(ctx, control_type, control_response_size(ctx))
}

/// Where the data header of the response to a request stands.
pub open spec fn request_response_header_at(ctx: CommandModel, o: Outline) -> int {
    aligned(o.shape().data_words_at()) + (if ctx.object_info.in_domain() {
        DOMAIN_HEADER_SIZE as int
    } else {
        0
    })
}

/// `b` with the response to a request written over it. In a domain the objects
/// stand behind the parameters, and the domain header says how many there are.
pub open spec fn request_response(
    ctx: CommandModel,
    result: ResultCode,
    request_type: CommandType,
    b: Seq<u8>,
) -> Seq<u8> {
    let o = request_response_outline(ctx, request_type);
    let header_at = request_response_header_at(ctx, o);
    let framed = o.put(b);
    put_items(
        if ctx.object_info.in_domain() {
            put_items(
                put_items(
                    framed,
                    header_at - DOMAIN_HEADER_SIZE,
                    seq![ctx.out_params.objects.len() as u32, 0u32, 0u32, 0u32],
                ),
                header_at + DATA_HEADER_SIZE + ctx.out_params.data_size,
                ctx.out_params.objects,
            )
        } else {
            framed
        },
        header_at,
        response_header(
            if request_type is RequestWithContext {
                1
            } else {
                0
            },
            result,
        ),
    )
}

/// `b` with the response to a control message written over it.
pub open spec fn control_response(
    ctx: CommandModel,
    result: ResultCode,
    control_type: CommandType,
    b: Seq<u8>,
) -> Seq<u8> {
    let o = control_response_outline(ctx, control_type);
    put_items(
        o.put(b),
        aligned(o.shape().data_words_at()),
        response_header(
            if control_type is ControlWithContext {
                1
            } else {
                0
            },
            result,
        ),
    )
}

/// `ctx` with the places at which the data of a response stand.
pub open spec fn with_response(ctx: CommandModel, o: Outline, header_at: int) -> CommandModel {
    CommandModel {
        out_params: CommandOutModel {
            data_words_offset: o.shape().data_words_at() as usize,
            data_offset: (header_at + DATA_HEADER_SIZE) as usize,
            ..ctx.out_params
        },
        ..ctx
    }
}

/// Writes four words.
fn write_four_words(buf: &mut [u8; 0x100], at: usize, a: u32, b: u32, c: u32, d: u32)
    requires
        at + 16 <= IPC_BUFFER_SIZE,
    ensures
        final(buf)@ == put_items(old(buf)@, at as int, seq![a, b, c, d]),
{
    write_u32(buf, at, a);
    write_u32(buf, at + 4, b);
    write_u32(buf, at + 8, c);
    write_u32(buf, at + 12, d);
    proof {
        lemma_four_words(old(buf)@, at as int, a, b, c, d);
    }
}

/// Four words are written one after the other.
proof fn lemma_four_words(s: Seq<u8>, at: int, a: u32, b: u32, c: u32, d: u32)
    ensures
        put_items(s, at, seq![a, b, c, d]) == splice(
            splice(splice(splice(s, at, u32_bytes(a)), at + 4, u32_bytes(b)), at + 8, u32_bytes(c)),
            at + 12,
            u32_bytes(d),
        ),
{
    lemma_extents(0);
    lemma_extents(1);
    lemma_extents(2);
    lemma_extents(3);
    reveal_with_fuel(put_items, 5);
    let four = seq![a, b, c, d];
    assert(four.drop_last() =~= seq![a, b, c]);
    assert(seq![a, b, c].drop_last() =~= seq![a, b]);
    assert(seq![a, b].drop_last() =~= seq![a]);
    assert(seq![a].drop_last() =~= Seq::<u32>::empty());
}

/// Answers a request with a result. The parameters of the response are to be put
/// at the offset that the context then holds.
pub fn write_request_command_response_on_ipc_buffer(
    ctx: &mut CommandContext,
    ipc_buf: &mut [u8; 0x100],
    result: ResultCode,
    request_type: CommandType,
)
    requires
        request_response_outline(old(ctx)@, request_type).writable(),
    ensures
        final(ipc_buf)@ == request_response(old(ctx)@, result, request_type, old(ipc_buf)@),
        ({
            let o = request_response_outline(old(ctx)@, request_type);
            final(ctx)@ == with_response(old(ctx)@, o, request_response_header_at(old(ctx)@, o))
        }),
{
    let ghost o = request_response_outline(ctx@, request_type);
    let mut data_size: u32 = DATA_PADDING + DATA_HEADER_SIZE + ctx.out_params.data_size;
    if ctx.object_info.is_domain() {
        data_size = data_size + DOMAIN_HEADER_SIZE + 4 * (ctx.out_params.objects.len() as u32);
    }
    data_size = (data_size + 1) / 2 * 2;

    write_command_response_on_ipc_buffer(ctx, ipc_buf, request_type, data_size);
    let mut data_header_offset: usize = get_aligned_data_offset(ctx.out_params.data_words_offset);

    if ctx.object_info.is_domain() {
        let domain_header_offset: usize = data_header_offset;
        data_header_offset = domain_header_offset + DOMAIN_HEADER_SIZE as usize;
        write_four_words(
            ipc_buf,
            domain_header_offset,
            ctx.out_params.objects.len() as u32,
            0,
            0,
            0,
        );
        let objects_offset: usize = data_header_offset + DATA_HEADER_SIZE as usize
            + ctx.out_params.data_size as usize;
        proof {
            lemma_extents(ctx.out_params.objects@.len() as int);
        }
        let _end: usize = write_array_to_buffer(ipc_buf, objects_offset, &ctx.out_params.objects);
    }
    let version: u32 = match request_type {
        CommandType::RequestWithContext => 1,
        _ => 0,
    };
    write_four_words(
        ipc_buf,
        data_header_offset,
        OUT_DATA_HEADER_MAGIC,
        version,
        result.get_value(),
        0,
    );
    ctx.out_params.data_offset = data_header_offset + DATA_HEADER_SIZE as usize;
    assert(ctx@ =~= with_response(old(ctx)@, o, request_response_header_at(old(ctx)@, o)));
}

/// Answers a control message with a result. The parameters of the response are
/// to be put at the offset that the context then holds.
pub fn write_control_command_response_on_ipc_buffer(
    ctx: &mut CommandContext,
    ipc_buf: &mut [u8; 0x100],
    result: ResultCode,
    control_type: CommandType,
)
    requires
        control_response_outline(old(ctx)@, control_type).writable(),
    ensures
        final(ipc_buf)@ == control_response(old(ctx)@, result, control_type, old(ipc_buf)@),
        ({
            let o = control_response_outline(old(ctx)@, control_type);
            final(ctx)@ == with_response(old(ctx)@, o, aligned(o.shape().data_words_at()))
        }),
{
    let ghost o = control_response_outline(ctx@, control_type);
    let mut data_size: u32 = DATA_PADDING + DATA_HEADER_SIZE + ctx.out_params.data_size;
    data_size = (data_size + 1) / 2 * 2;

    write_command_response_on_ipc_buffer(ctx, ipc_buf, control_type, data_size);
    let data_header_offset: usize = get_aligned_data_offset(ctx.out_params.data_words_offset);

    let version: u32 = match control_type {
        CommandType::ControlWithContext => 1,
        _ => 0,
    };
    write_four_words(
        ipc_buf,
        data_header_offset,
        OUT_DATA_HEADER_MAGIC,
        version,
        result.get_value(),
        0,
    );
    ctx.out_params.data_offset = data_header_offset + DATA_HEADER_SIZE as usize;
    assert(ctx@ =~= with_response(old(ctx)@, o, aligned(o.shape().data_words_at())));
}

} // verus!
