//! What messages are, byte by byte: where each of their parts stands, and what
//! the server makes of it.

use vstd::prelude::*;

use crate::buffer::IPC_BUFFER_SIZE;
use crate::headers::{
    BufferDescriptor, CommandHeader, CommandSpecialHeader, CommandType, DomainCommandType,
    ReceiveStaticDescriptor, SendStaticDescriptor,
};
use crate::results::ResultCode;
use crate::sm::MitmProcessInfo;

verus! {

use crate::array::{items_at, lemma_put_items, put_items, WireItem};
use crate::buffer::{
    lemma_u32_read_back, same_bytes, splice, u16_at, u16_bytes, u32_at, u32_bytes, u64_at,
    u64_bytes,
};
use crate::client::command_outline;
use crate::commands::{
    aligned, control_readable, control_response, control_response_outline, control_response_size,
    request_head, request_readable, request_response, request_response_header_at,
    request_response_outline, request_response_size, response_outline, with_command, with_control, with_request, with_response, with_response_words,
};
use crate::context::CommandModel;
use crate::headers::OUT_DATA_HEADER_MAGIC;
use crate::message::{
    header_of, lemma_extents, lemma_outline_read_back, message_fits, outline_of, shape_of,
    special_header_of, Outline,
};
use crate::wire_laws::{law_control_response_read_back, law_request_response_read_back};

/// Two bytes as a number, the first one lowest.
pub open spec fn half_word(b: Seq<u8>, at: int) -> int {
    b[at] + 0x100 * b[at + 1]
}

/// Four bytes as a number, the first one lowest.
pub open spec fn word(b: Seq<u8>, at: int) -> int {
    b[at] + 0x100 * b[at + 1] + 0x1_0000 * b[at + 2] + 0x100_0000 * b[at + 3]
}

/// Eight bytes as a number, the first one lowest.
pub open spec fn double_word(b: Seq<u8>, at: int) -> int {
    word(b, at) + 0x1_0000_0000 * word(b, at + 4)
}

/// Numbers are read from the IPC buffer and written to it with all their bytes,
/// the lowest first.
pub proof fn law_numbers_are_little_endian(b: Seq<u8>, at: int, v: u16, w: u32, d: u64)
    ensures
        u16_at(b, at) == half_word(b, at),
        u32_at(b, at) == word(b, at),
        u64_at(b, at) == double_word(b, at),
        u16_bytes(v).len() == 2 && half_word(u16_bytes(v), 0) == v,
        u32_bytes(w).len() == 4 && word(u32_bytes(w), 0) == w,
        u64_bytes(d).len() == 8 && double_word(u64_bytes(d), 0) == d,
{
    let (low, high) = ((d % 0x1_0000_0000) as u32, (d / 0x1_0000_0000) as u32);
    lemma_word_bytes(w);
    lemma_word_bytes(low);
    lemma_word_bytes(high);
    let bytes = u64_bytes(d);
    assert(bytes =~= u32_bytes(low) + u32_bytes(high));
    assert(word(bytes, 0) == word(u32_bytes(low), 0));
    assert(word(bytes, 4) == word(u32_bytes(high), 0));
}

proof fn lemma_word_bytes(w: u32)
    ensures
        u32_bytes(w).len() == 4,
        word(u32_bytes(w), 0) == w,
{
}

/// Writing bytes puts each of them into its place, and leaves all others.
pub proof fn law_written_bytes(b: Seq<u8>, at: int, s: Seq<u8>, i: int)
    requires
        0 <= at,
        at + s.len() <= b.len(),
        0 <= i < b.len(),
    ensures
        splice(b, at, s).len() == b.len(),
        at <= i < at + s.len() ==> splice(b, at, s)[i] == s[i - at],
        i < at || at + s.len() <= i ==> splice(b, at, s)[i] == b[i],
{
}

/// Unsigned numbers take as many bytes as they are wide, and stand at multiples
/// of that.
pub proof fn law_numbers_in_bytes(b: Seq<u8>, at: int)
    ensures
        <u8 as WireItem>::width() == 1 && <u8 as WireItem>::alignment() == 1,
        <u16 as WireItem>::width() == 2 && <u16 as WireItem>::alignment() == 2,
        <u32 as WireItem>::width() == 4 && <u32 as WireItem>::alignment() == 4,
        <u64 as WireItem>::width() == 8 && <u64 as WireItem>::alignment() == 8,
        <u8 as WireItem>::decode(b, at) == b[at],
        <u16 as WireItem>::decode(b, at) == half_word(b, at),
        <u32 as WireItem>::decode(b, at) == word(b, at),
        <u64 as WireItem>::decode(b, at) == double_word(b, at),
{
}

/// Signed numbers stand for themselves where they are not negative; a negative
/// one stands as the unsigned number that is larger by the number of all values.
/// A truth value is one byte, which is zero where it is false.
pub proof fn law_signed_numbers_in_bytes(b: Seq<u8>, at: int)
    ensures
        <i8 as WireItem>::width() == 1 && <i8 as WireItem>::alignment() == 1,
        <i16 as WireItem>::width() == 2 && <i16 as WireItem>::alignment() == 2,
        <i32 as WireItem>::width() == 4 && <i32 as WireItem>::alignment() == 4,
        <i64 as WireItem>::width() == 8 && <i64 as WireItem>::alignment() == 8,
        <bool as WireItem>::width() == 1 && <bool as WireItem>::alignment() == 1,
        ({
            let v = <i8 as WireItem>::decode(b, at);
            b[at] == v || (v < 0 && b[at] == v + 0x100)
        }),
        ({
            let v = <i16 as WireItem>::decode(b, at);
            half_word(b, at) == v || (v < 0 && half_word(b, at) == v + 0x1_0000)
        }),
        ({
            let v = <i32 as WireItem>::decode(b, at);
            word(b, at) == v || (v < 0 && word(b, at) == v + 0x1_0000_0000)
        }),
        ({
            let v = <i64 as WireItem>::decode(b, at);
            double_word(b, at) == v || (v < 0 && double_word(b, at) == v + 0x1_0000_0000_0000_0000)
        }),
        <bool as WireItem>::decode(b, at) <==> b[at] != 0,
        true.encode() == seq![1u8],
        false.encode() == seq![0u8],
{
}

/// The words of the descriptors, and the numbers that tell of a process, stand
/// in this order.
pub proof fn law_descriptors_in_bytes(b: Seq<u8>, at: int)
    ensures
        <SendStaticDescriptor as WireItem>::width() == 8,
        <SendStaticDescriptor as WireItem>::alignment() == 4,
        <ReceiveStaticDescriptor as WireItem>::width() == 8,
        <ReceiveStaticDescriptor as WireItem>::alignment() == 4,
        <BufferDescriptor as WireItem>::width() == 12,
        <BufferDescriptor as WireItem>::alignment() == 4,
        <MitmProcessInfo as WireItem>::width() == 32,
        <MitmProcessInfo as WireItem>::alignment() == 8,
        ({
            let d = <SendStaticDescriptor as WireItem>::decode(b, at);
            d.bits == word(b, at) && d.address_low == word(b, at + 4)
        }),
        ({
            let d = <ReceiveStaticDescriptor as WireItem>::decode(b, at);
            d.address_low == word(b, at) && d.bits == word(b, at + 4)
        }),
        ({
            let d = <BufferDescriptor as WireItem>::decode(b, at);
            &&& d.size_low == word(b, at)
            &&& d.address_low == word(b, at + 4)
            &&& d.bits == word(b, at + 8)
        }),
        ({
            let p = <MitmProcessInfo as WireItem>::decode(b, at);
            &&& p.process_id == double_word(b, at)
            &&& p.program_id == double_word(b, at + 8)
            &&& p.keys_held == double_word(b, at + 16)
            &&& p.override_flags == double_word(b, at + 24)
        }),
{
    law_numbers_are_little_endian(b, at, 0, 0, 0);
    law_numbers_are_little_endian(b, at + 8, 0, 0, 0);
    law_numbers_are_little_endian(b, at + 16, 0, 0, 0);
    law_numbers_are_little_endian(b, at + 24, 0, 0, 0);
}

/// Items stand side by side: each is read from its own place, and written to it,
/// and nothing else is written.
pub proof fn law_items_side_by_side<T: WireItem>(b: Seq<u8>, at: int, items: Seq<T>, i: int)
    requires
        0 <= at,
        at + items.len() * T::width() <= b.len(),
        0 <= i < items.len(),
    ensures
        ({
            let written = put_items(b, at, items);
            &&& items_at::<T>(b, at, items.len()).len() == items.len()
            &&& items_at::<T>(b, at, items.len())[i] == T::decode(b, at + i * T::width())
            &&& written.len() == b.len()
            &&& T::decode(written, at + i * T::width()) == items[i]
            &&& same_bytes(b, written, 0, at)
            &&& same_bytes(b, written, at + items.len() * T::width(), b.len() as int)
        }),
{
    lemma_put_items(b, at, items);
    let read = items_at::<T>(put_items(b, at, items), at, items.len());
    assert(read[i] == items[i]);
}

/// Each type of message has a number of its own; other numbers stand for none.
pub proof fn law_command_type_codes(code: u32, t: CommandType)
    ensures
        CommandType::of_code(1) is LegacyRequest,
        CommandType::of_code(2) is Close,
        CommandType::of_code(3) is LegacyControl,
        CommandType::of_code(4) is Request,
        CommandType::of_code(5) is Control,
        CommandType::of_code(6) is RequestWithContext,
        CommandType::of_code(7) is ControlWithContext,
        code == 0 || code > 7 ==> CommandType::of_code(code) is Invalid,
        CommandType::of_code(t.code()) == t,
        t is Invalid ==> t.code() == 0,
        t.is_request() <==> t.code() == 4 || t.code() == 6,
        t.is_control() <==> t.code() == 5 || t.code() == 7,
{
}

/// Two numbers stand for what is asked of a domain; others stand for nothing.
pub proof fn law_domain_command_codes(code: u8)
    ensures
        DomainCommandType::of_code(code) is SendMessage <==> code == 1,
        DomainCommandType::of_code(code) is Close <==> code == 2,
{
}

/// The fields of a command header fill its bits from the lowest on: all of the
/// first word, and the two ends of the second one.
pub proof fn law_command_header_fields(h: CommandHeader)
    ensures
        h.bits_1 == h.bits_1 % 0x1_0000 + 0x1_0000 * h.send_static_count() + 0x10_0000
            * h.send_buffer_count() + 0x100_0000 * h.receive_buffer_count() + 0x1000_0000
            * h.exchange_buffer_count(),
        h.send_static_count() < 16,
        h.send_buffer_count() < 16,
        h.receive_buffer_count() < 16,
        h.exchange_buffer_count() < 16,
        h.command_type() == CommandType::of_code(h.bits_1 % 0x1_0000),
        h.data_word_count() < 0x400,
        (h.bits_2 - h.data_word_count()) % 0x400 == 0,
        h.receive_static_count() == (if h.bits_2 / 0x400 % 16 <= 2 {
            0
        } else {
            h.bits_2 / 0x400 % 16 - 2
        }),
        h.has_special_header() <==> h.bits_2 >= 0x8000_0000,
{
    let w = h.bits_1;
    assert(w == w % 0x1_0000 + 0x1_0000 * (w / 0x1_0000 % 16) + 0x10_0000 * (w / 0x10_0000 % 16)
        + 0x100_0000 * (w / 0x100_0000 % 16) + 0x1000_0000 * (w / 0x1000_0000)) by (bit_vector);
}

/// The same of a special header.
pub proof fn law_special_header_fields(h: CommandSpecialHeader)
    ensures
        h.send_process_id() <==> h.bits % 2 == 1,
        h.copy_handle_count() < 16,
        h.move_handle_count() < 16,
        h.bits % 0x200 == (if h.send_process_id() {
            1int
        } else {
            0
        }) + 2 * h.copy_handle_count() + 0x20 * h.move_handle_count(),
{
    let w = h.bits;
    assert(w % 0x200 == w % 2 + 2 * (w / 2 % 16) + 0x20 * (w / 32 % 16)) by (bit_vector);
}

/// A descriptor that tells where a buffer is holds the lower 48 bits of its
/// address and the lower 16 of its size.
pub proof fn law_receive_static_tells_place_and_size(address: u64, size: int)
    requires
        0 <= size,
    ensures
        ({
            let d = ReceiveStaticDescriptor::describe(address, size);
            &&& d.address_low + 0x1_0000_0000 * (d.bits % 0x1_0000) == address % 0x1_0000_0000_0000
            &&& d.bits / 0x1_0000 == size % 0x1_0000
        }),
{
    let high = (address / 0x1_0000_0000 % 0x1_0000) as u32;
    let bits = (address / 0x1_0000_0000 % 0x1_0000 + 0x1_0000 * (size % 0x1_0000)) as u32;
    assert(bits == high + 0x1_0000 * (size % 0x1_0000));
    assert(address % 0x1_0000_0000_0000 == address % 0x1_0000_0000 + 0x1_0000_0000 * (address
        / 0x1_0000_0000 % 0x1_0000)) by (bit_vector);
}

/// The number of the message's type.
pub open spec fn type_code(b: Seq<u8>) -> int {
    word(b, 0) % 0x1_0000
}

/// A special header follows the header.
pub open spec fn is_special(b: Seq<u8>) -> bool {
    word(b, 4) >= 0x8000_0000
}

/// A process id follows the special header.
pub open spec fn has_process_id(b: Seq<u8>) -> bool {
    is_special(b) && word(b, 8) % 2 == 1
}

/// How many handles are copied.
pub open spec fn copies(b: Seq<u8>) -> int {
    if is_special(b) {
        word(b, 8) / 2 % 16
    } else {
        0
    }
}

/// How many handles are moved.
pub open spec fn moves(b: Seq<u8>) -> int {
    if is_special(b) {
        word(b, 8) / 32 % 16
    } else {
        0
    }
}

/// Where the handles start.
pub open spec fn handles_from(b: Seq<u8>) -> int {
    if has_process_id(b) {
        20
    } else if is_special(b) {
        12
    } else {
        8
    }
}

/// Where the descriptors start.
pub open spec fn descriptors_from(b: Seq<u8>) -> int {
    handles_from(b) + 4 * copies(b) + 4 * moves(b)
}

/// Where the data words start.
pub open spec fn data_words_from(b: Seq<u8>) -> int {
    descriptors_from(b) + 8 * (word(b, 0) / 0x1_0000 % 16) + 12 * (word(b, 0) / 0x10_0000 % 16) + 12
        * (word(b, 0) / 0x100_0000 % 16) + 12 * (word(b, 0) / 0x1000_0000)
}

/// How many bytes the data words take.
pub open spec fn data_bytes(b: Seq<u8>) -> int {
    4 * (word(b, 4) % 0x400)
}

/// How many descriptors follow the data words.
pub open spec fn receive_statics_in(b: Seq<u8>) -> int {
    if word(b, 4) / 0x400 % 16 > 2 {
        word(b, 4) / 0x400 % 16 - 2
    } else {
        0
    }
}

/// Where the data starts: at the first multiple of sixteen among the data words.
pub open spec fn data_from(b: Seq<u8>) -> int {
    (data_words_from(b) + 15) / 16 * 16
}

/// Buffer descriptors stand in `b` from `at` on.
pub open spec fn buffers_stand(buffers: Seq<BufferDescriptor>, b: Seq<u8>, at: int) -> bool {
    forall|i: int|
        0 <= i < buffers.len() ==> {
            &&& (#[trigger] buffers[i]).size_low == word(b, at + 12 * i)
            &&& buffers[i].address_low == word(b, at + 12 * i + 4)
            &&& buffers[i].bits == word(b, at + 12 * i + 8)
        }
}

proof fn lemma_shape_in_bytes(b: Seq<u8>)
    ensures
        shape_of(b).special == is_special(b),
        shape_of(b).process_id == has_process_id(b),
        shape_of(b).copy_handles == copies(b),
        shape_of(b).move_handles == moves(b),
        shape_of(b).copy_handles_at() == handles_from(b),
        shape_of(b).send_statics_at() == descriptors_from(b),
        shape_of(b).data_words_at() == data_words_from(b),
        shape_of(b).receive_statics_at() == data_words_from(b) + data_bytes(b),
        shape_of(b).receive_statics == receive_statics_in(b),
        outline_of(b).command_type == CommandType::of_code(type_code(b) as u32),
{
}

/// What is read of a message, byte by byte: the header and, where there is one,
/// the special header tell how many of each thing there are, and these stand one
/// behind the other: the process id, the handles that are copied, those that are
/// moved, four kinds of descriptors, the data words, and the descriptors of
/// where buffers are to be put. Where there is no special header, what was known
/// of the sender's process id and of handles stays, and nothing else of the
/// context changes.
pub proof fn law_message_in_bytes(ctx: CommandModel, b: Seq<u8>)
    ensures
        message_fits(b) <==> data_words_from(b) + data_bytes(b) + 8 * receive_statics_in(b) <= 0x100,
        outline_of(b).command_type == CommandType::of_code(type_code(b) as u32),
        ({
            let read = with_command(ctx, b);
            &&& read.in_params.data_size == data_bytes(b)
            &&& read.in_params.data_words_offset == data_words_from(b)
            &&& read.in_params.data_offset == ctx.in_params.data_offset
            &&& read.in_params.objects == ctx.in_params.objects
            &&& read.object_info == ctx.object_info
            &&& read.out_params == ctx.out_params
            &&& read.pointer_buffer == ctx.pointer_buffer
            &&& read.in_params.process_id == (if has_process_id(b) {
                double_word(b, 12)
            } else {
                ctx.in_params.process_id as int
            })
            &&& read.in_params.send_process_id == (if is_special(b) {
                has_process_id(b)
            } else {
                ctx.in_params.send_process_id
            })
        }),
{
    law_numbers_are_little_endian(b, 12, 0, 0, 0);
    lemma_shape_in_bytes(b);
}

/// The handles of a message, byte by byte.
pub proof fn law_handles_in_bytes(ctx: CommandModel, b: Seq<u8>)
    ensures
        ({
            let read = with_command(ctx, b).in_params;
            if is_special(b) {
                &&& read.copy_handles.len() == copies(b)
                &&& read.move_handles.len() == moves(b)
                &&& forall|i: int|
                    0 <= i < copies(b) ==> #[trigger] read.copy_handles[i] == word(
                        b,
                        handles_from(b) + 4 * i,
                    )
                &&& forall|i: int|
                    0 <= i < moves(b) ==> #[trigger] read.move_handles[i] == word(
                        b,
                        handles_from(b) + 4 * copies(b) + 4 * i,
                    )
            } else {
                &&& read.copy_handles == ctx.in_params.copy_handles
                &&& read.move_handles == ctx.in_params.move_handles
            }
        }),
{
    lemma_shape_in_bytes(b);
    let read = with_command(ctx, b).in_params;
    let at = handles_from(b);
    if is_special(b) {
        assert forall|i: int| 0 <= i < copies(b) implies #[trigger] read.copy_handles[i] == word(
            b,
            at + 4 * i,
        ) by {
            lemma_extents(i);
        }
        assert forall|i: int| 0 <= i < moves(b) implies #[trigger] read.move_handles[i] == word(
            b,
            at + 4 * copies(b) + 4 * i,
        ) by {
            lemma_extents(i);
        }
    }
}

/// The descriptors of a message, byte by byte.
pub proof fn law_descriptors_of_message_in_bytes(ctx: CommandModel, b: Seq<u8>)
    ensures
        ({
            let read = with_command(ctx, b);
            let statics = word(b, 0) / 0x1_0000 % 16;
            let sent = word(b, 0) / 0x10_0000 % 16;
            let received = word(b, 0) / 0x100_0000 % 16;
            let exchanged = word(b, 0) / 0x1000_0000;
            let at = descriptors_from(b);
            let end = data_words_from(b) + data_bytes(b);
            &&& read.send_statics.len() == statics
            &&& read.send_buffers.len() == sent
            &&& read.receive_buffers.len() == received
            &&& read.exchange_buffers.len() == exchanged
            &&& read.receive_statics.len() == receive_statics_in(b)
            &&& forall|i: int|
                0 <= i < statics ==> {
                    &&& (#[trigger] read.send_statics[i]).bits == word(b, at + 8 * i)
                    &&& read.send_statics[i].address_low == word(b, at + 8 * i + 4)
                }
            &&& buffers_stand(read.send_buffers, b, at + 8 * statics)
            &&& buffers_stand(read.receive_buffers, b, at + 8 * statics + 12 * sent)
            &&& buffers_stand(
                read.exchange_buffers,
                b,
                at + 8 * statics + 12 * sent + 12 * received,
            )
            &&& forall|i: int|
                0 <= i < receive_statics_in(b) ==> {
                    &&& (#[trigger] read.receive_statics[i]).address_low == word(b, end + 8 * i)
                    &&& read.receive_statics[i].bits == word(b, end + 8 * i + 4)
                }
        }),
{
    lemma_shape_in_bytes(b);
    let read = with_command(ctx, b);
    let sh = shape_of(b);
    assert forall|i: int| 0 <= i < read.send_statics.len() implies {
        &&& (#[trigger] read.send_statics[i]).bits == word(b, descriptors_from(b) + 8 * i)
        &&& read.send_statics[i].address_low == word(b, descriptors_from(b) + 8 * i + 4)
    } by {
        lemma_extents(i);
    }
    lemma_buffers_stand(b, sh.send_buffers_at(), sh.send_buffers);
    lemma_buffers_stand(b, sh.receive_buffers_at(), sh.receive_buffers);
    lemma_buffers_stand(b, sh.exchange_buffers_at(), sh.exchange_buffers);
    let end = data_words_from(b) + data_bytes(b);
    assert forall|i: int| 0 <= i < read.receive_statics.len() implies {
        &&& (#[trigger] read.receive_statics[i]).address_low == word(b, end + 8 * i)
        &&& read.receive_statics[i].bits == word(b, end + 8 * i + 4)
    } by {
        lemma_extents(i);
    }
}

proof fn lemma_buffers_stand(b: Seq<u8>, at: int, n: nat)
    ensures
        buffers_stand(items_at::<BufferDescriptor>(b, at, n), b, at),
{
    let buffers = items_at::<BufferDescriptor>(b, at, n);
    assert forall|i: int| 0 <= i < n implies {
        &&& (#[trigger] buffers[i]).size_low == word(b, at + 12 * i)
        &&& buffers[i].address_low == word(b, at + 12 * i + 4)
        &&& buffers[i].bits == word(b, at + 12 * i + 8)
    } by {
        lemma_extents(i);
    }
}

/// The first word of the data header of a request and of a control message: the
/// letters of `SFCI`, the first one lowest.
pub open spec fn input_magic() -> int {
    0x53int + 0x100 * 0x46 + 0x1_0000 * 0x43 + 0x100_0000 * 0x49
}

/// The first word of the data header of a response: the letters of `SFCO`.
pub open spec fn output_magic() -> int {
    0x53int + 0x100 * 0x46 + 0x1_0000 * 0x43 + 0x100_0000 * 0x4F
}

/// Where the data header of a request stands: in a domain behind the domain
/// header.
pub open spec fn request_header_from(ctx: CommandModel) -> int {
    let at = (ctx.in_params.data_words_offset + 15) / 16 * 16;
    if ctx.object_info.domain_object_id != 0 {
        at + 16
    } else {
        at
    }
}

/// How many bytes of data a request has besides a domain header.
pub open spec fn request_bytes(ctx: CommandModel) -> int {
    if ctx.object_info.domain_object_id != 0 {
        ctx.in_params.data_size - 16
    } else {
        ctx.in_params.data_size as int
    }
}

/// When the head of a request can be read: it lies in the IPC buffer, and so do
/// the objects that come with it.
pub proof fn law_readable_request(ctx: CommandModel, b: Seq<u8>)
    ensures
        request_readable(ctx, b) <==> {
            let at = request_header_from(ctx);
            &&& ctx.in_params.data_words_offset <= 0x100
            &&& ctx.object_info.domain_object_id != 0 ==> {
                &&& ctx.in_params.data_size >= 16
                &&& at <= 0x100
                &&& at + half_word(b, at - 14) + 4 * b[at - 15] <= 0x100
            }
            &&& request_bytes(ctx) >= 32 ==> at + 16 <= 0x100
        },
{
}

/// The head of a request, byte by byte. Where there are at least 32 bytes of
/// data besides a domain header, a data header stands at their start: its first
/// word is the input magic, else the request is invalid, and the whole of its
/// third word is the id of the command. The parameters stand behind it.
pub proof fn law_request_in_bytes(ctx: CommandModel, b: Seq<u8>)
    requires
        request_readable(ctx, b),
    ensures
        ({
            let at = request_header_from(ctx);
            let size = request_bytes(ctx);
            let head = request_head(ctx, b);
            let read = with_request(ctx, b);
            &&& head.valid(b) <==> (size >= 32 ==> word(b, at) == input_magic())
            &&& head.request_id(b) == (if size >= 32 {
                word(b, at + 8)
            } else {
                0
            })
            &&& read.in_params.data_offset == (if size < 32 {
                at
            } else if word(b, at) == input_magic() {
                at + 16
            } else {
                ctx.in_params.data_offset as int
            })
            &&& read.in_params.data_size == (if size < 16 {
                size
            } else if size < 32 || word(b, at) != input_magic() {
                size - 16
            } else {
                size - 32
            })
        }),
{
}

/// The domain header of a request, byte by byte: what is asked of the domain,
/// how many objects come with the request, how far behind the header they stand,
/// and the id of the object that the request is for. Outside of domains there is
/// none of this. Nothing else of the context changes.
pub proof fn law_domain_request_in_bytes(ctx: CommandModel, b: Seq<u8>)
    ensures
        ({
            let at = request_header_from(ctx) - 16;
            let head = request_head(ctx, b);
            let read = with_request(ctx, b);
            if ctx.object_info.domain_object_id != 0 {
                &&& head.domain_command_type is SendMessage <==> b[at] == 1
                &&& head.domain_command_type is Close <==> b[at] == 2
                &&& head.domain_object_id == word(b, at + 4)
                &&& read.in_params.objects.len() == b[at + 1]
                &&& forall|i: int|
                    0 <= i < b[at + 1] ==> #[trigger] read.in_params.objects[i] == word(
                        b,
                        at + 16 + half_word(b, at + 2) + 4 * i,
                    )
            } else {
                &&& head.domain_command_type is Invalid
                &&& head.domain_object_id == 0
                &&& read.in_params.objects == ctx.in_params.objects
            }
        }),
        ({
            let read = with_request(ctx, b);
            &&& read.in_params.send_process_id == ctx.in_params.send_process_id
            &&& read.in_params.process_id == ctx.in_params.process_id
            &&& read.in_params.data_words_offset == ctx.in_params.data_words_offset
            &&& read.in_params.copy_handles == ctx.in_params.copy_handles
            &&& read.in_params.move_handles == ctx.in_params.move_handles
            &&& read == (CommandModel { in_params: read.in_params, ..ctx })
        }),
{
    let at = request_header_from(ctx) - 16;
    let read = with_request(ctx, b);
    if ctx.object_info.domain_object_id != 0 {
        assert forall|i: int| 0 <= i < b[at + 1] implies #[trigger] read.in_params.objects[i]
            == word(b, at + 16 + half_word(b, at + 2) + 4 * i) by {
            lemma_extents(i);
        }
    }
}

/// A request that is written with an id is read with that id, whichever of all
/// numbers it is, and stays as valid as it was.
pub proof fn law_request_id_read_back(ctx: CommandModel, b: Seq<u8>, id: u32)
    requires
        request_readable(ctx, b),
        request_bytes(ctx) >= 32,
        b.len() == IPC_BUFFER_SIZE,
    ensures
        ({
            let written = splice(b, request_header_from(ctx) + 8, u32_bytes(id));
            &&& request_readable(ctx, written)
            &&& request_head(ctx, written).request_id(written) == id
            &&& request_head(ctx, written).valid(written) == request_head(ctx, b).valid(b)
            &&& request_head(ctx, written).domain_object_id == request_head(ctx, b).domain_object_id
            &&& request_head(ctx, written).domain_command_type == request_head(
                ctx,
                b,
            ).domain_command_type
        }),
{
    let at = request_header_from(ctx);
    let written = splice(b, at + 8, u32_bytes(id));
    lemma_u32_read_back(b, at + 8, id);
    assert(same_bytes(b, written, 0, at + 8));
    law_request_in_bytes(ctx, b);
}

/// The head of a control message, byte by byte.
pub proof fn law_control_in_bytes(ctx: CommandModel, b: Seq<u8>)
    ensures
        control_readable(ctx, b) <==> {
            let at = (ctx.in_params.data_words_offset + 15) / 16 * 16;
            &&& at + 16 <= 0x100
            &&& word(b, at) == input_magic() ==> ctx.in_params.data_size >= 32
        },
        control_readable(ctx, b) && word(b, (ctx.in_params.data_words_offset + 15) / 16 * 16)
            == input_magic() ==> {
            let read = with_control(ctx);
            &&& read.in_params.data_offset == (ctx.in_params.data_words_offset + 15) / 16 * 16 + 16
            &&& read.in_params.data_size == ctx.in_params.data_size - 32
            &&& read.in_params.objects == ctx.in_params.objects
            &&& read.in_params.send_process_id == ctx.in_params.send_process_id
            &&& read.in_params.process_id == ctx.in_params.process_id
            &&& read.in_params.data_words_offset == ctx.in_params.data_words_offset
            &&& read.in_params.copy_handles == ctx.in_params.copy_handles
            &&& read.in_params.move_handles == ctx.in_params.move_handles
            &&& read == (CommandModel { in_params: read.in_params, ..ctx })
        },
{
}

/// The header words of a message with these counts stand in `b`.
pub open spec fn headers_stand(
    b: Seq<u8>,
    command_type: CommandType,
    ctx: CommandModel,
    process_id: bool,
    copied: nat,
    moved: nat,
    data_size: int,
) -> bool {
    let special = process_id || copied > 0 || moved > 0;
    &&& word(b, 0) == command_type.code() + 0x1_0000 * ctx.send_statics.len() + 0x10_0000
        * ctx.send_buffers.len() + 0x100_0000 * ctx.receive_buffers.len() + 0x1000_0000
        * ctx.exchange_buffers.len()
    &&& word(b, 4) == (data_size + 3) / 4 + (if ctx.receive_statics.len() > 0 {
        0x400 * (ctx.receive_statics.len() + 2)
    } else {
        0
    }) + (if special {
        0x8000_0000int
    } else {
        0
    })
    &&& special ==> word(b, 8) == (if process_id {
        1int
    } else {
        0
    }) + 2 * copied + 0x20 * moved
}

/// Where the data words of a message with these counts start.
pub open spec fn words_from(
    ctx: CommandModel,
    process_id: bool,
    copied: nat,
    moved: nat,
) -> int {
    8 + (if process_id {
        12int
    } else if copied > 0 || moved > 0 {
        4
    } else {
        0
    }) + 4 * copied + 4 * moved + 8 * ctx.send_statics.len() + 12 * ctx.send_buffers.len() + 12
        * ctx.receive_buffers.len() + 12 * ctx.exchange_buffers.len()
}

/// A message with these counts fits the IPC buffer, and each count its field.
pub open spec fn counts_fit(
    ctx: CommandModel,
    process_id: bool,
    copied: nat,
    moved: nat,
    data_size: int,
) -> bool {
    &&& copied <= 15
    &&& moved <= 15
    &&& ctx.send_statics.len() <= 15
    &&& ctx.send_buffers.len() <= 15
    &&& ctx.receive_buffers.len() <= 15
    &&& ctx.exchange_buffers.len() <= 15
    &&& ctx.receive_statics.len() <= 13
    &&& words_from(ctx, process_id, copied, moved) + (data_size + 3) / 4 * 4 + 8
        * ctx.receive_statics.len() <= 0x100
}

/// The header words of a command that is sent, where its data words stand, and
/// when it fits the IPC buffer.
pub proof fn law_command_in_bytes(
    ctx: CommandModel,
    command_type: CommandType,
    data_size: int,
    b: Seq<u8>,
)
    requires
        0 <= data_size,
        b.len() == IPC_BUFFER_SIZE,
    ensures
        ({
            let o = command_outline(ctx, command_type, data_size);
            let own = ctx.in_params;
            let (copied, moved) = (own.copy_handles.len(), own.move_handles.len());
            &&& o.writable() <==> counts_fit(ctx, own.send_process_id, copied, moved, data_size)
            &&& o.writable() ==> {
                &&& headers_stand(
                    o.put(b),
                    command_type,
                    ctx,
                    own.send_process_id,
                    copied,
                    moved,
                    data_size,
                )
                &&& o.shape().data_words_at() == words_from(
                    ctx,
                    own.send_process_id,
                    copied,
                    moved,
                )
            }
        }),
{
    let o = command_outline(ctx, command_type, data_size);
    if o.writable() {
        lemma_outline_read_back(o, b);
    }
}

/// The header words of a response, where its data words stand, and when it fits
/// the IPC buffer.
pub proof fn law_response_in_bytes(
    ctx: CommandModel,
    command_type: CommandType,
    data_size: int,
    b: Seq<u8>,
)
    requires
        0 <= data_size,
        b.len() == IPC_BUFFER_SIZE,
    ensures
        ({
            let o = response_outline(ctx, command_type, data_size);
            let own = ctx.out_params;
            let (copied, moved) = (own.copy_handles.len(), own.move_handles.len());
            let after = with_response_words(ctx, o);
            &&& o.writable() <==> counts_fit(ctx, own.send_process_id, copied, moved, data_size)
            &&& o.writable() ==> {
                &&& headers_stand(
                    o.put(b),
                    command_type,
                    ctx,
                    own.send_process_id,
                    copied,
                    moved,
                    data_size,
                )
                &&& after.out_params.data_words_offset == words_from(
                    ctx,
                    own.send_process_id,
                    copied,
                    moved,
                )
                &&& after.out_params.data_offset == own.data_offset
                &&& after.out_params.data_size == own.data_size
                &&& after.out_params.send_process_id == own.send_process_id
                &&& after.out_params.copy_handles == own.copy_handles
                &&& after.out_params.move_handles == own.move_handles
                &&& after.out_params.objects == own.objects
                &&& after == (CommandModel { out_params: after.out_params, ..ctx })
            }
        }),
{
    let o = response_outline(ctx, command_type, data_size);
    if o.writable() {
        lemma_outline_read_back(o, b);
    }
}

/// How many bytes of data a response has: sixteen to align them, the data
/// header, the parameters, and in a domain the domain header and a word for each
/// object, made even.
pub open spec fn answer_bytes(ctx: CommandModel, in_domain: bool) -> int {
    let n = 16 + 16 + ctx.out_params.data_size + (if in_domain {
        16 + 4 * ctx.out_params.objects.len()
    } else {
        0
    });
    n + n % 2
}

/// Where the data of a response starts.
pub open spec fn answer_from(ctx: CommandModel) -> int {
    let at = words_from(
        ctx,
        ctx.out_params.send_process_id,
        ctx.out_params.copy_handles.len(),
        ctx.out_params.move_handles.len(),
    );
    (at + 15) / 16 * 16
}

/// The data header of a response stands in `b`.
pub open spec fn answer_header_stands(b: Seq<u8>, at: int, version: int, result: ResultCode) -> bool {
    &&& word(b, at) == output_magic()
    &&& word(b, at + 4) == version
    &&& word(b, at + 8) == result.value
    &&& word(b, at + 12) == 0
}

/// What a response leaves of a context: the place of the parameters, which is
/// behind the data header, and that of the data words are told, and all else
/// stays.
pub open spec fn told_places(ctx: CommandModel, after: CommandModel, header_at: int) -> bool {
    &&& after.out_params.data_offset == header_at + 16
    &&& after.out_params.data_words_offset == words_from(
        ctx,
        ctx.out_params.send_process_id,
        ctx.out_params.copy_handles.len(),
        ctx.out_params.move_handles.len(),
    )
    &&& after.out_params.data_size == ctx.out_params.data_size
    &&& after.out_params.send_process_id == ctx.out_params.send_process_id
    &&& after.out_params.copy_handles == ctx.out_params.copy_handles
    &&& after.out_params.move_handles == ctx.out_params.move_handles
    &&& after.out_params.objects == ctx.out_params.objects
    &&& after == (CommandModel { out_params: after.out_params, ..ctx })
}

/// The header words that an outline was written with are those of its counts.
proof fn lemma_headers_stand(o: Outline, ctx: CommandModel, data_size: int, b: Seq<u8>)
    requires
        0 <= data_size,
        o == response_outline(ctx, o.command_type, data_size),
        o.writable(),
        header_of(b) == o.header(),
        o.has_special_header ==> special_header_of(b) == o.special_header(),
    ensures
        headers_stand(
            b,
            o.command_type,
            ctx,
            ctx.out_params.send_process_id,
            ctx.out_params.copy_handles.len(),
            ctx.out_params.move_handles.len(),
            data_size,
        ),
        o.shape().data_words_at() == words_from(
            ctx,
            ctx.out_params.send_process_id,
            ctx.out_params.copy_handles.len(),
            ctx.out_params.move_handles.len(),
        ),
{
}

proof fn lemma_answer_bytes(ctx: CommandModel)
    ensures
        request_response_size(ctx) == answer_bytes(ctx, ctx.object_info.domain_object_id != 0),
        control_response_size(ctx) == answer_bytes(ctx, false),
{
}

proof fn lemma_told_places(ctx: CommandModel, o: Outline, header_at: int)
    requires
        o.writable(),
        o.shape().data_words_at() == words_from(
            ctx,
            ctx.out_params.send_process_id,
            ctx.out_params.copy_handles.len(),
            ctx.out_params.move_handles.len(),
        ),
        0 <= header_at <= 0x100,
    ensures
        told_places(ctx, with_response(ctx, o, header_at), header_at),
{
}

proof fn lemma_answer_header_stands(b: Seq<u8>, at: int, version: u32, result: ResultCode)
    requires
        u32_at(b, at) == OUT_DATA_HEADER_MAGIC,
        u32_at(b, at + 4) == version,
        u32_at(b, at + 8) == result.value,
        u32_at(b, at + 12) == 0,
    ensures
        answer_header_stands(b, at, version as int, result),
{
}

proof fn lemma_objects_stand(b: Seq<u8>, at: int, objects: Seq<u32>)
    requires
        items_at::<u32>(b, at, objects.len()) == objects,
    ensures
        forall|i: int|
            0 <= i < objects.len() ==> #[trigger] objects[i] == word(b, at + 4 * i),
{
    let read = items_at::<u32>(b, at, objects.len());
    assert forall|i: int| 0 <= i < objects.len() implies #[trigger] objects[i] == word(
        b,
        at + 4 * i,
    ) by {
        lemma_extents(i);
        assert(read[i] == objects[i]);
    }
}

/// The response to a request, byte by byte: the headers, in a domain the domain
/// header with the number of objects, the data header with the result, and
/// sixteen bytes behind its magic the parameters, which are left as they are.
/// The context tells that place.
pub proof fn law_request_response_in_bytes(
    ctx: CommandModel,
    result: ResultCode,
    request_type: CommandType,
    b: Seq<u8>,
)
    requires
        request_response_outline(ctx, request_type).writable(),
        b.len() == IPC_BUFFER_SIZE,
    ensures
        ({
            let o = request_response_outline(ctx, request_type);
            let written = request_response(ctx, result, request_type, b);
            let after = with_response(ctx, o, request_response_header_at(ctx, o));
            let in_domain = ctx.object_info.domain_object_id != 0;
            let domain_at = answer_from(ctx);
            let at = if in_domain {
                domain_at + 16
            } else {
                domain_at
            };
            &&& written.len() == b.len()
            &&& headers_stand(
                written,
                request_type,
                ctx,
                ctx.out_params.send_process_id,
                ctx.out_params.copy_handles.len(),
                ctx.out_params.move_handles.len(),
                answer_bytes(ctx, in_domain),
            )
            &&& answer_header_stands(
                written,
                at,
                if request_type is RequestWithContext {
                    1
                } else {
                    0
                },
                result,
            )
            &&& told_places(ctx, after, at)
            &&& forall|i: int|
                at + 16 <= i < at + 16 + ctx.out_params.data_size ==> #[trigger] written[i] == b[i]
        }),
{
    let o = request_response_outline(ctx, request_type);
    let at = request_response_header_at(ctx, o);
    let written = request_response(ctx, result, request_type, b);
    law_request_response_read_back(ctx, result, request_type, b);
    lemma_headers_stand(o, ctx, request_response_size(ctx), written);
    lemma_answer_bytes(ctx);
    lemma_told_places(ctx, o, at);
    lemma_answer_header_stands(
        written,
        at,
        if request_type is RequestWithContext {
            1
        } else {
            0
        },
        result,
    );
}

/// The response to a request in a domain, byte by byte: before the data header
/// stands the domain header, and the objects stand behind the parameters.
pub proof fn law_domain_response_in_bytes(
    ctx: CommandModel,
    result: ResultCode,
    request_type: CommandType,
    b: Seq<u8>,
)
    requires
        request_response_outline(ctx, request_type).writable(),
        ctx.object_info.domain_object_id != 0,
        b.len() == IPC_BUFFER_SIZE,
    ensures
        ({
            let o = request_response_outline(ctx, request_type);
            let written = request_response(ctx, result, request_type, b);
            let after = with_response(ctx, o, request_response_header_at(ctx, o)).out_params;
            let at = answer_from(ctx);
            &&& word(written, at) == ctx.out_params.objects.len()
            &&& word(written, at + 4) == 0
            &&& word(written, at + 8) == 0
            &&& word(written, at + 12) == 0
            &&& word(written, at + 16) == output_magic()
            &&& after.data_offset == at + 32
            &&& forall|i: int|
                0 <= i < ctx.out_params.objects.len() ==> #[trigger] ctx.out_params.objects[i]
                    == word(written, after.data_offset + after.data_size + 4 * i)
        }),
{
    let o = request_response_outline(ctx, request_type);
    let at = request_response_header_at(ctx, o);
    let written = request_response(ctx, result, request_type, b);
    law_request_response_read_back(ctx, result, request_type, b);
    lemma_headers_stand(o, ctx, request_response_size(ctx), written);
    lemma_objects_stand(written, at + 16 + ctx.out_params.data_size, ctx.out_params.objects);
}

/// The response to a control message, byte by byte. It is never in a domain.
pub proof fn law_control_response_in_bytes(
    ctx: CommandModel,
    result: ResultCode,
    control_type: CommandType,
    b: Seq<u8>,
)
    requires
        control_response_outline(ctx, control_type).writable(),
        b.len() == IPC_BUFFER_SIZE,
    ensures
        ({
            let o = control_response_outline(ctx, control_type);
            let written = control_response(ctx, result, control_type, b);
            let after = with_response(ctx, o, aligned(o.shape().data_words_at()));
            let at = answer_from(ctx);
            &&& written.len() == b.len()
            &&& headers_stand(
                written,
                control_type,
                ctx,
                ctx.out_params.send_process_id,
                ctx.out_params.copy_handles.len(),
                ctx.out_params.move_handles.len(),
                answer_bytes(ctx, false),
            )
            &&& answer_header_stands(
                written,
                at,
                if control_type is ControlWithContext {
                    1
                } else {
                    0
                },
                result,
            )
            &&& told_places(ctx, after, at)
            &&& forall|i: int|
                at + 16 <= i < at + 16 + ctx.out_params.data_size ==> #[trigger] written[i] == b[i]
        }),
{
    let o = control_response_outline(ctx, control_type);
    let at = aligned(o.shape().data_words_at());
    let written = control_response(ctx, result, control_type, b);
    law_control_response_read_back(ctx, result, control_type, b);
    lemma_headers_stand(o, ctx, control_response_size(ctx), written);
    lemma_answer_bytes(ctx);
    lemma_told_places(ctx, o, at);
    lemma_answer_header_stands(
        written,
        at,
        if control_type is ControlWithContext {
            1
        } else {
            0
        },
        result,
    );
}

/// When the responses fit the IPC buffer.
pub proof fn law_responses_fit(ctx: CommandModel, t: CommandType)
    ensures
        ({
            let in_domain = ctx.object_info.domain_object_id != 0;
            let own = ctx.out_params;
            let (copied, moved) = (own.copy_handles.len(), own.move_handles.len());
            &&& request_response_outline(ctx, t).writable() <==> counts_fit(
                ctx,
                own.send_process_id,
                copied,
                moved,
                answer_bytes(ctx, in_domain),
            )
            &&& control_response_outline(ctx, t).writable() <==> counts_fit(
                ctx,
                own.send_process_id,
                copied,
                moved,
                answer_bytes(ctx, false),
            )
        }),
{
}

} // verus!
