//! What holds between what is written to the IPC buffer and what is read from
//! it.

use vstd::prelude::*;

use crate::buffer::IPC_BUFFER_SIZE;
use crate::headers::{
    BufferDescriptor, CommandType, ReceiveStaticDescriptor, SendStaticDescriptor,
    DATA_HEADER_SIZE, DOMAIN_HEADER_SIZE, OUT_DATA_HEADER_MAGIC,
};
use crate::params::DataWalker;
use crate::results::ResultCode;

verus! {

use crate::array::{items_at, lemma_items_local, lemma_put_items, put_items, WireItem};
use crate::buffer::{same_bytes, splice, u32_at};
use crate::client::command_outline;
use crate::commands::{
    aligned, control_response, control_response_outline, request_head, request_response,
    request_response_header_at, request_response_outline, response_header, response_outline,
    with_command,
};
use crate::context::CommandModel;
use crate::message::{
    header_of, lemma_extents, lemma_outline_read_back, message_fits, outline_of, shape_of,
    special_header_of, Outline,
};
use crate::params::align_up;

/// The data of a message is no part of its outline.
proof fn lemma_outline_local(a: Seq<u8>, b: Seq<u8>)
    requires
        same_bytes(a, b, 0, shape_of(a).data_words_at()),
        same_bytes(a, b, shape_of(a).receive_statics_at(), shape_of(a).end()),
    ensures
        outline_of(b) == outline_of(a),
        shape_of(b) == shape_of(a),
        header_of(b) == header_of(a),
        shape_of(a).special ==> special_header_of(b) == special_header_of(a),
{
    let sh = shape_of(a);
    lemma_extents(sh.copy_handles as int);
    lemma_extents(sh.move_handles as int);
    lemma_extents(sh.send_statics as int);
    lemma_extents(sh.send_buffers as int);
    lemma_extents(sh.receive_buffers as int);
    lemma_extents(sh.exchange_buffers as int);
    lemma_extents(sh.receive_statics as int);
    assert(header_of(a) == header_of(b));
    assert(shape_of(b) =~= sh);
    lemma_items_local::<u32>(a, b, sh.copy_handles_at(), sh.copy_handles);
    lemma_items_local::<u32>(a, b, sh.move_handles_at(), sh.move_handles);
    lemma_items_local::<SendStaticDescriptor>(a, b, sh.send_statics_at(), sh.send_statics);
    lemma_items_local::<BufferDescriptor>(a, b, sh.send_buffers_at(), sh.send_buffers);
    lemma_items_local::<BufferDescriptor>(a, b, sh.receive_buffers_at(), sh.receive_buffers);
    lemma_items_local::<BufferDescriptor>(a, b, sh.exchange_buffers_at(), sh.exchange_buffers);
    lemma_items_local::<ReceiveStaticDescriptor>(a, b, sh.receive_statics_at(), sh.receive_statics);
}

/// Data that is put between the data words of a message leaves its outline.
proof fn lemma_data_in_outline(o: Outline, b: Seq<u8>, written: Seq<u8>)
    requires
        o.writable(),
        o.coherent(),
        b.len() == IPC_BUFFER_SIZE,
        same_bytes(o.put(b), written, 0, o.shape().data_words_at()),
        same_bytes(o.put(b), written, o.shape().receive_statics_at(), b.len() as int),
    ensures
        outline_of(written) == o,
        shape_of(written) == o.shape(),
        header_of(written) == o.header(),
        o.has_special_header ==> special_header_of(written) == o.special_header(),
        same_bytes(b, written, o.shape().end(), b.len() as int),
{
    lemma_outline_read_back(o, b);
    lemma_outline_local(o.put(b), written);
}

/// Four words are read back one by one, and change nothing else.
proof fn lemma_header_words(b: Seq<u8>, at: int, words: Seq<u32>)
    requires
        words.len() == 4,
        0 <= at,
        at + 16 <= b.len(),
    ensures
        put_items(b, at, words).len() == b.len(),
        same_bytes(b, put_items(b, at, words), 0, at),
        same_bytes(b, put_items(b, at, words), at + 16, b.len() as int),
        u32_at(put_items(b, at, words), at) == words[0],
        u32_at(put_items(b, at, words), at + 4) == words[1],
        u32_at(put_items(b, at, words), at + 8) == words[2],
        u32_at(put_items(b, at, words), at + 12) == words[3],
{
    lemma_extents(0);
    lemma_extents(1);
    lemma_extents(2);
    lemma_extents(3);
    lemma_extents(4);
    lemma_put_items(b, at, words);
    let read = items_at::<u32>(put_items(b, at, words), at, 4);
    assert(read[0] == words[0] && read[1] == words[1] && read[2] == words[2]
        && read[3] == words[3]);
}

/// The response to a request can be read as what it was made of: its type, its
/// handles and its descriptors are those that were written, its data header
/// holds the result, and in a domain its objects stand behind the parameters.
pub proof fn law_request_response_read_back(
    ctx: CommandModel,
    result: ResultCode,
    request_type: CommandType,
    b: Seq<u8>,
)
    requires
        request_response_outline(ctx, request_type).writable(),
        b.len() == IPC_BUFFER_SIZE,
    ensures
        ({
            let o = request_response_outline(ctx, request_type);
            let at = request_response_header_at(ctx, o);
            let written = request_response(ctx, result, request_type, b);
            &&& outline_of(written) == o
            &&& shape_of(written) == o.shape()
            &&& header_of(written) == o.header()
            &&& o.has_special_header ==> special_header_of(written) == o.special_header()
            &&& written.len() == IPC_BUFFER_SIZE
            &&& at + DATA_HEADER_SIZE <= IPC_BUFFER_SIZE
            &&& u32_at(written, at) == OUT_DATA_HEADER_MAGIC
            &&& u32_at(written, at + 4) == (if request_type is RequestWithContext {
                1u32
            } else {
                0
            })
            &&& u32_at(written, at + 8) == result.value
            &&& u32_at(written, at + 12) == 0
            &&& ctx.object_info.in_domain() ==> {
                &&& u32_at(written, at - DOMAIN_HEADER_SIZE) == ctx.out_params.objects.len()
                &&& u32_at(written, at - 12) == 0
                &&& u32_at(written, at - 8) == 0
                &&& u32_at(written, at - 4) == 0
                &&& items_at::<u32>(
                    written,
                    at + DATA_HEADER_SIZE + ctx.out_params.data_size,
                    ctx.out_params.objects.len(),
                ) == ctx.out_params.objects
            }
            &&& same_bytes(
                b,
                written,
                at + DATA_HEADER_SIZE,
                at + DATA_HEADER_SIZE + ctx.out_params.data_size,
            )
            &&& same_bytes(b, written, o.shape().end(), b.len() as int)
        }),
{
    let o = request_response_outline(ctx, request_type);
    let at = request_response_header_at(ctx, o);
    let framed = o.put(b);
    assert(framed.len() == b.len()) by {
        lemma_outline_read_back(o, b);
    }
    let words = response_header(
        if request_type is RequestWithContext {
            1
        } else {
            0
        },
        result,
    );
    let filled = if ctx.object_info.in_domain() {
        let count = seq![ctx.out_params.objects.len() as u32, 0u32, 0u32, 0u32];
        lemma_header_words(framed, at - DOMAIN_HEADER_SIZE, count);
        let counted = put_items(framed, at - DOMAIN_HEADER_SIZE, count);
        lemma_extents(ctx.out_params.objects.len() as int);
        lemma_put_items(
            counted,
            at + DATA_HEADER_SIZE + ctx.out_params.data_size,
            ctx.out_params.objects,
        );
        put_items(
            counted,
            at + DATA_HEADER_SIZE + ctx.out_params.data_size,
            ctx.out_params.objects,
        )
    } else {
        framed
    };
    lemma_header_words(filled, at, words);
    let written = put_items(filled, at, words);
    if ctx.object_info.in_domain() {
        lemma_items_local::<u32>(
            filled,
            written,
            at + DATA_HEADER_SIZE + ctx.out_params.data_size,
            ctx.out_params.objects.len(),
        );
        assert(same_bytes(
            put_items(
                framed,
                at - DOMAIN_HEADER_SIZE,
                seq![ctx.out_params.objects.len() as u32, 0u32, 0u32, 0u32],
            ),
            written,
            at - DOMAIN_HEADER_SIZE,
            at,
        ));
    }
    assert(written == request_response(ctx, result, request_type, b));
    assert(same_bytes(framed, written, 0, o.shape().data_words_at()));
    assert(same_bytes(framed, written, o.shape().receive_statics_at(), b.len() as int));
    assert(same_bytes(
        framed,
        written,
        at + DATA_HEADER_SIZE,
        at + DATA_HEADER_SIZE + ctx.out_params.data_size,
    ));
    lemma_data_in_outline(o, b, written);
    lemma_outline_read_back(o, b);
}

/// The response to a control message can be read as what it was made of.
pub proof fn law_control_response_read_back(
    ctx: CommandModel,
    result: ResultCode,
    control_type: CommandType,
    b: Seq<u8>,
)
    requires
        control_response_outline(ctx, control_type).writable(),
        b.len() == IPC_BUFFER_SIZE,
    ensures
        ({
            let o = control_response_outline(ctx, control_type);
            let at = aligned(o.shape().data_words_at());
            let written = control_response(ctx, result, control_type, b);
            &&& outline_of(written) == o
            &&& shape_of(written) == o.shape()
            &&& header_of(written) == o.header()
            &&& o.has_special_header ==> special_header_of(written) == o.special_header()
            &&& written.len() == IPC_BUFFER_SIZE
            &&& at + DATA_HEADER_SIZE <= IPC_BUFFER_SIZE
            &&& u32_at(written, at) == OUT_DATA_HEADER_MAGIC
            &&& u32_at(written, at + 4) == (if control_type is ControlWithContext {
                1u32
            } else {
                0
            })
            &&& u32_at(written, at + 8) == result.value
            &&& u32_at(written, at + 12) == 0
            &&& same_bytes(
                b,
                written,
                at + DATA_HEADER_SIZE,
                at + DATA_HEADER_SIZE + ctx.out_params.data_size,
            )
            &&& same_bytes(b, written, o.shape().end(), b.len() as int)
        }),
{
    let o = control_response_outline(ctx, control_type);
    let at = aligned(o.shape().data_words_at());
    let framed = o.put(b);
    assert(framed.len() == b.len()) by {
        lemma_outline_read_back(o, b);
    }
    let words = response_header(
        if control_type is ControlWithContext {
            1
        } else {
            0
        },
        result,
    );
    lemma_header_words(framed, at, words);
    let written = put_items(framed, at, words);
    assert(same_bytes(framed, written, 0, o.shape().data_words_at()));
    assert(same_bytes(framed, written, o.shape().receive_statics_at(), b.len() as int));
    lemma_data_in_outline(o, b, written);
    lemma_outline_read_back(o, b);
}

/// What was written of a response, whatever its data, is read back into any
/// context.
pub proof fn law_outline_response_read_back(
    ctx: CommandModel,
    reader: CommandModel,
    command_type: CommandType,
    data_size: int,
    b: Seq<u8>,
)
    requires
        0 <= data_size,
        response_outline(ctx, command_type, data_size).writable(),
        b.len() == IPC_BUFFER_SIZE,
    ensures
        ({
            let o = response_outline(ctx, command_type, data_size);
            let read = with_command(reader, o.put(b));
            &&& outline_of(o.put(b)).command_type == command_type
            &&& read.send_statics == ctx.send_statics
            &&& read.send_buffers == ctx.send_buffers
            &&& read.receive_buffers == ctx.receive_buffers
            &&& read.exchange_buffers == ctx.exchange_buffers
            &&& read.receive_statics == ctx.receive_statics
            &&& read.in_params.data_size == (data_size + 3) / 4 * 4
            &&& read.in_params.data_words_offset == o.shape().data_words_at()
            &&& o.has_special_header ==> {
                &&& read.in_params.send_process_id == ctx.out_params.send_process_id
                &&& read.in_params.copy_handles == ctx.out_params.copy_handles
                &&& read.in_params.move_handles == ctx.out_params.move_handles
            }
        }),
{
    lemma_outline_read_back(response_outline(ctx, command_type, data_size), b);
}

/// A response is not taken for a request: a server that reads it, in a domain if
/// it was written in one, finds its data header invalid.
pub proof fn law_response_is_no_request(
    ctx: CommandModel,
    result: ResultCode,
    request_type: CommandType,
    b: Seq<u8>,
    reader: CommandModel,
)
    requires
        request_response_outline(ctx, request_type).writable(),
        b.len() == IPC_BUFFER_SIZE,
        reader.object_info.in_domain() == ctx.object_info.in_domain(),
    ensures
        ({
            let written = request_response(ctx, result, request_type, b);
            !request_head(with_command(reader, written), written).valid(written)
        }),
{
    law_request_response_read_back(ctx, result, request_type, b);
}

/// What a client writes of a command, a server reads: the type, the handles, the
/// descriptors, and where the data words stand.
pub proof fn law_command_read_back(
    ctx: CommandModel,
    reader: CommandModel,
    command_type: CommandType,
    data_size: int,
    b: Seq<u8>,
)
    requires
        0 <= data_size,
        command_outline(ctx, command_type, data_size).writable(),
        b.len() == IPC_BUFFER_SIZE,
    ensures
        ({
            let o = command_outline(ctx, command_type, data_size);
            let read = with_command(reader, o.put(b));
            &&& message_fits(o.put(b))
            &&& outline_of(o.put(b)).command_type == command_type
            &&& read.send_statics == ctx.send_statics
            &&& read.send_buffers == ctx.send_buffers
            &&& read.receive_buffers == ctx.receive_buffers
            &&& read.exchange_buffers == ctx.exchange_buffers
            &&& read.receive_statics == ctx.receive_statics
            &&& read.in_params.data_size == (data_size + 3) / 4 * 4
            &&& read.in_params.data_words_offset == o.shape().data_words_at()
            &&& o.has_special_header ==> {
                &&& read.in_params.send_process_id == ctx.in_params.send_process_id
                &&& read.in_params.copy_handles == ctx.in_params.copy_handles
                &&& read.in_params.move_handles == ctx.in_params.move_handles
            }
        }),
{
    lemma_outline_read_back(command_outline(ctx, command_type, data_size), b);
}

/// A parameter that was put into a message is read back from the same place, and
/// the bytes before and behind it stay.
pub proof fn law_parameter_read_back<T: WireItem>(walker: DataWalker, value: T, b: Seq<u8>)
    requires
        walker.in_buffer::<T>(),
        b.len() == IPC_BUFFER_SIZE,
    ensures
        ({
            let at = walker.next_at::<T>();
            let written = splice(b, at, value.encode());
            &&& T::decode(written, at) == value
            &&& same_bytes(b, written, 0, at)
            &&& same_bytes(b, written, at + T::width(), b.len() as int)
        }),
{
    T::width_bounds();
    value.encode_len();
    lemma_align_up(walker.cur_offset as int, T::alignment() as int);
    value.decode_encode(b, walker.next_at::<T>());
}

/// Parameters stand one behind the other, each at a multiple of its alignment,
/// counted from the first, with less than its alignment between them.
pub proof fn law_parameters_in_order<T: WireItem, U: WireItem>(walker: DataWalker)
    requires
        walker.can_count::<T>(),
    ensures
        walker.next_offset::<U>() % U::alignment() as int == 0,
        walker.next_offset::<T>() + T::width() <= walker.advanced::<T>().next_offset::<U>(),
        walker.advanced::<T>().next_offset::<U>() < walker.next_offset::<T>() + T::width()
            + U::alignment(),
{
    T::width_bounds();
    U::width_bounds();
    lemma_align_up(walker.cur_offset as int, T::alignment() as int);
    lemma_align_up(walker.cur_offset as int, U::alignment() as int);
    lemma_align_up(walker.advanced::<T>().cur_offset as int, U::alignment() as int);
}

pub proof fn lemma_align_up(n: int, align: int)
    requires
        0 <= n,
        1 <= align,
    ensures
        n <= align_up(n, align) < n + align,
        align_up(n, align) % align == 0,
{
    vstd::arithmetic::div_mod::lemma_mod_bound(n, align);
    if n % align != 0 {
        vstd::arithmetic::div_mod::lemma_fundamental_div_mod(n, align);
        let q = n / align;
        assert(align_up(n, align) == align * (q + 1)) by (nonlinear_arith)
            requires
                n == align * q + n % align,
                align_up(n, align) == n + align - n % align,
        ;
        vstd::arithmetic::div_mod::lemma_mod_multiples_basic(q + 1, align);
        assert(align * (q + 1) == (q + 1) * align) by (nonlinear_arith);
    }
}

} // verus!
