//! The outline of a message: its headers, its handles, its descriptors and
//! where its data stands.

use vstd::prelude::*;

use crate::array::write_array_to_buffer;
use crate::buffer::{write_u32, IPC_BUFFER_SIZE};
use crate::context::CommandContext;
use crate::headers::{
    BufferDescriptor, CommandHeader, CommandSpecialHeader, CommandType, Handle,
    ReceiveStaticDescriptor, SendStaticDescriptor,
};

verus! {

use crate::array::{items_at, lemma_items_local, lemma_put_items, put_items, WireItem};
use crate::buffer::{
    lemma_u32_read_back, same_bytes, splice, u32_at, u32_bytes,
};
use crate::context::CommandModel;
use crate::headers::{lemma_pack_header, lemma_pack_special_header};

/// What a message holds, without its data.
#[verifier::ext_equal]
pub struct Outline {
    pub command_type: CommandType,
    pub has_special_header: bool,
    pub send_process_id: bool,
    pub copy_handles: Seq<Handle>,
    pub move_handles: Seq<Handle>,
    pub send_statics: Seq<SendStaticDescriptor>,
    pub send_buffers: Seq<BufferDescriptor>,
    pub receive_buffers: Seq<BufferDescriptor>,
    pub exchange_buffers: Seq<BufferDescriptor>,
    pub data_words: nat,
    pub receive_statics: Seq<ReceiveStaticDescriptor>,
}

/// How many of each thing a message holds; it fixes where each of them stands.
#[verifier::ext_equal]
pub struct Shape {
    pub special: bool,
    pub process_id: bool,
    pub copy_handles: nat,
    pub move_handles: nat,
    pub send_statics: nat,
    pub send_buffers: nat,
    pub receive_buffers: nat,
    pub exchange_buffers: nat,
    pub data_words: nat,
    pub receive_statics: nat,
}

impl Shape {
    pub open spec fn copy_handles_at(self) -> int {
        8 + (if self.special {
            4 + (if self.process_id {
                8int
            } else {
                0
            })
        } else {
            0
        })
    }

    pub open spec fn move_handles_at(self) -> int {
        self.copy_handles_at() + 4 * self.copy_handles
    }

    pub open spec fn send_statics_at(self) -> int {
        self.move_handles_at() + 4 * self.move_handles
    }

    pub open spec fn send_buffers_at(self) -> int {
        self.send_statics_at() + 8 * self.send_statics
    }

    pub open spec fn receive_buffers_at(self) -> int {
        self.send_buffers_at() + 12 * self.send_buffers
    }

    pub open spec fn exchange_buffers_at(self) -> int {
        self.receive_buffers_at() + 12 * self.receive_buffers
    }

    pub open spec fn data_words_at(self) -> int {
        self.exchange_buffers_at() + 12 * self.exchange_buffers
    }

    pub open spec fn receive_statics_at(self) -> int {
        self.data_words_at() + 4 * self.data_words
    }

    pub open spec fn end(self) -> int {
        self.receive_statics_at() + 8 * self.receive_statics
    }
}

pub open spec fn header_of(b: Seq<u8>) -> CommandHeader {
    CommandHeader { bits_1: u32_at(b, 0), bits_2: u32_at(b, 4) }
}

pub open spec fn special_header_of(b: Seq<u8>) -> CommandSpecialHeader {
    CommandSpecialHeader { bits: u32_at(b, 8) }
}

/// The shape of the message in a buffer.
pub open spec fn shape_of(b: Seq<u8>) -> Shape {
    let h = header_of(b);
    let s = special_header_of(b);
    Shape {
        special: h.has_special_header(),
        process_id: h.has_special_header() && s.send_process_id(),
        copy_handles: if h.has_special_header() {
            s.copy_handle_count() as nat
        } else {
            0
        },
        move_handles: if h.has_special_header() {
            s.move_handle_count() as nat
        } else {
            0
        },
        send_statics: h.send_static_count() as nat,
        send_buffers: h.send_buffer_count() as nat,
        receive_buffers: h.receive_buffer_count() as nat,
        exchange_buffers: h.exchange_buffer_count() as nat,
        data_words: h.data_word_count() as nat,
        receive_statics: h.receive_static_count() as nat,
    }
}

/// The outline of the message in a buffer.
pub open spec fn outline_of(b: Seq<u8>) -> Outline {
    let h = header_of(b);
    let shape = shape_of(b);
    Outline {
        command_type: h.command_type(),
        has_special_header: shape.special,
        send_process_id: shape.process_id,
        copy_handles: items_at(b, shape.copy_handles_at(), shape.copy_handles),
        move_handles: items_at(b, shape.move_handles_at(), shape.move_handles),
        send_statics: items_at(b, shape.send_statics_at(), shape.send_statics),
        send_buffers: items_at(b, shape.send_buffers_at(), shape.send_buffers),
        receive_buffers: items_at(b, shape.receive_buffers_at(), shape.receive_buffers),
        exchange_buffers: items_at(b, shape.exchange_buffers_at(), shape.exchange_buffers),
        data_words: shape.data_words,
        receive_statics: items_at(b, shape.receive_statics_at(), shape.receive_statics),
    }
}

/// The message in a buffer does not reach beyond the buffer's end.
pub open spec fn message_fits(b: Seq<u8>) -> bool {
    shape_of(b).end() <= IPC_BUFFER_SIZE
}

impl Outline {
    pub open spec fn shape(self) -> Shape {
        Shape {
            special: self.has_special_header,
            process_id: self.send_process_id,
            copy_handles: self.copy_handles.len(),
            move_handles: self.move_handles.len(),
            send_statics: self.send_statics.len(),
            send_buffers: self.send_buffers.len(),
            receive_buffers: self.receive_buffers.len(),
            exchange_buffers: self.exchange_buffers.len(),
            data_words: self.data_words,
            receive_statics: self.receive_statics.len(),
        }
    }

    /// Each count fits its field, and the message fits the IPC buffer.
    pub open spec fn writable(self) -> bool {
        &&& self.copy_handles.len() <= 15
        &&& self.move_handles.len() <= 15
        &&& self.send_statics.len() <= 15
        &&& self.send_buffers.len() <= 15
        &&& self.receive_buffers.len() <= 15
        &&& self.exchange_buffers.len() <= 15
        &&& self.receive_statics.len() <= 13
        &&& self.shape().end() <= IPC_BUFFER_SIZE
    }

    /// There is a special header where something needs it.
    pub open spec fn coherent(self) -> bool {
        self.has_special_header == (self.send_process_id || self.copy_handles.len() > 0
            || self.move_handles.len() > 0)
    }

    pub open spec fn header(self) -> CommandHeader {
        CommandHeader::pack(
            self.command_type,
            self.send_statics.len() as u32,
            self.send_buffers.len() as u32,
            self.receive_buffers.len() as u32,
            self.exchange_buffers.len() as u32,
            self.data_words as u32,
            self.receive_statics.len() as u32,
            self.has_special_header,
        )
    }

    pub open spec fn special_header(self) -> CommandSpecialHeader {
        CommandSpecialHeader::pack(
            self.send_process_id,
            self.copy_handles.len() as u32,
            self.move_handles.len() as u32,
        )
    }

    pub open spec fn put_headers(self, b: Seq<u8>) -> Seq<u8> {
        let with_header = splice(
            splice(b, 0, u32_bytes(self.header().bits_1)),
            4,
            u32_bytes(self.header().bits_2),
        );
        if self.has_special_header {
            splice(with_header, 8, u32_bytes(self.special_header().bits))
        } else {
            with_header
        }
    }

    pub open spec fn put_handles(self, b: Seq<u8>) -> Seq<u8> {
        put_items(
            put_items(b, self.shape().copy_handles_at(), self.copy_handles),
            self.shape().move_handles_at(),
            self.move_handles,
        )
    }

    pub open spec fn put_descriptors(self, b: Seq<u8>) -> Seq<u8> {
        put_items(
            put_items(
                put_items(
                    put_items(b, self.shape().send_statics_at(), self.send_statics),
                    self.shape().send_buffers_at(),
                    self.send_buffers,
                ),
                self.shape().receive_buffers_at(),
                self.receive_buffers,
            ),
            self.shape().exchange_buffers_at(),
            self.exchange_buffers,
        )
    }

    /// `b` with the message written over it. The bytes of the process id and of
    /// the data stay.
    #[verifier::opaque]
    pub open spec fn put(self, b: Seq<u8>) -> Seq<u8> {
        put_items(
            self.put_descriptors(self.put_handles(self.put_headers(b))),
            self.shape().receive_statics_at(),
            self.receive_statics,
        )
    }
}

/// The outline of a message with these handles, the descriptors of a context
/// and so many bytes of data.
pub open spec fn outline_for(
    command_type: CommandType,
    send_process_id: bool,
    copy_handles: Seq<Handle>,
    move_handles: Seq<Handle>,
    ctx: CommandModel,
    data_size: int,
) -> Outline {
    Outline {
        command_type,
        has_special_header: send_process_id || copy_handles.len() > 0 || move_handles.len() > 0,
        send_process_id,
        copy_handles,
        move_handles,
        send_statics: ctx.send_statics,
        send_buffers: ctx.send_buffers,
        receive_buffers: ctx.receive_buffers,
        exchange_buffers: ctx.exchange_buffers,
        data_words: ((data_size + 3) / 4) as nat,
        receive_statics: ctx.receive_statics,
    }
}

/// How far items reach.
pub proof fn lemma_extents(n: int)
    ensures
        n * <u32 as WireItem>::width() == 4 * n,
        n * <SendStaticDescriptor as WireItem>::width() == 8 * n,
        n * <ReceiveStaticDescriptor as WireItem>::width() == 8 * n,
        n * <BufferDescriptor as WireItem>::width() == 12 * n,
{
    let (a, b, c, d) = (
        <u32 as WireItem>::width() as int,
        <SendStaticDescriptor as WireItem>::width() as int,
        <ReceiveStaticDescriptor as WireItem>::width() as int,
        <BufferDescriptor as WireItem>::width() as int,
    );
    assert(n * a == 4 * n && n * b == 8 * n && n * c == 8 * n && n * d == 12 * n)
        by (nonlinear_arith)
        requires
            a == 4,
            b == 8,
            c == 8,
            d == 12,
    ;
}

/// The headers of a message are read back from a buffer they were written to.
proof fn lemma_headers_read_back(o: Outline, b: Seq<u8>)
    requires
        o.writable(),
        o.coherent(),
        b.len() == IPC_BUFFER_SIZE,
    ensures
        o.put_headers(b).len() == b.len(),
        header_of(o.put_headers(b)) == o.header(),
        o.has_special_header ==> special_header_of(o.put_headers(b)) == o.special_header(),
        header_of(o.put_headers(b)).command_type() == o.command_type,
        shape_of(o.put_headers(b)) == o.shape(),
        same_bytes(b, o.put_headers(b), 12, b.len() as int),
        same_bytes(b, o.put_headers(b), o.shape().copy_handles_at(), b.len() as int),
{
    let h = o.header();
    let s = o.special_header();
    lemma_pack_header(
        o.command_type,
        o.send_statics.len() as u32,
        o.send_buffers.len() as u32,
        o.receive_buffers.len() as u32,
        o.exchange_buffers.len() as u32,
        o.data_words as u32,
        o.receive_statics.len() as u32,
        o.has_special_header,
    );
    lemma_pack_special_header(
        o.send_process_id,
        o.copy_handles.len() as u32,
        o.move_handles.len() as u32,
    );
    let b1 = splice(b, 0, u32_bytes(h.bits_1));
    let b2 = splice(b1, 4, u32_bytes(h.bits_2));
    lemma_u32_read_back(b, 0, h.bits_1);
    lemma_u32_read_back(b1, 4, h.bits_2);
    lemma_u32_read_back(b2, 8, s.bits);
    assert(same_bytes(b1, o.put_headers(b), 0, 4));
    assert(same_bytes(b2, o.put_headers(b), 4, 8));
    assert(header_of(o.put_headers(b)) == h);
    assert(o.has_special_header ==> special_header_of(o.put_headers(b)) == s);
    assert(shape_of(o.put_headers(b)) =~= o.shape());
}

/// What stands behind the headers does not change them.
proof fn lemma_headers_local(a: Seq<u8>, b: Seq<u8>)
    requires
        same_bytes(a, b, 0, shape_of(a).copy_handles_at()),
    ensures
        header_of(b) == header_of(a),
        shape_of(a).special ==> special_header_of(b) == special_header_of(a),
        shape_of(b) == shape_of(a),
{
}

/// The handles of a message are read back from a buffer they were written to.
proof fn lemma_handles_read_back(o: Outline, b: Seq<u8>)
    requires
        o.writable(),
        b.len() == IPC_BUFFER_SIZE,
    ensures
        o.put_handles(b).len() == b.len(),
        same_bytes(b, o.put_handles(b), 0, o.shape().copy_handles_at()),
        same_bytes(b, o.put_handles(b), o.shape().send_statics_at(), b.len() as int),
        items_at::<u32>(
            o.put_handles(b),
            o.shape().copy_handles_at(),
            o.copy_handles.len(),
        ) == o.copy_handles,
        items_at::<u32>(
            o.put_handles(b),
            o.shape().move_handles_at(),
            o.move_handles.len(),
        ) == o.move_handles,
{
    let sh = o.shape();
    lemma_extents(sh.copy_handles as int);
    lemma_extents(sh.move_handles as int);
    lemma_put_items(b, sh.copy_handles_at(), o.copy_handles);
    let b1 = put_items(b, sh.copy_handles_at(), o.copy_handles);
    lemma_put_items(b1, sh.move_handles_at(), o.move_handles);
    lemma_items_local::<u32>(b1, o.put_handles(b), sh.copy_handles_at(), sh.copy_handles);
}

/// The descriptors of a message that stand before its data are read back from a
/// buffer they were written to.
proof fn lemma_descriptors_read_back(o: Outline, b: Seq<u8>)
    requires
        o.writable(),
        b.len() == IPC_BUFFER_SIZE,
    ensures
        o.put_descriptors(b).len() == b.len(),
        same_bytes(b, o.put_descriptors(b), 0, o.shape().send_statics_at()),
        same_bytes(b, o.put_descriptors(b), o.shape().data_words_at(), b.len() as int),
        items_at::<SendStaticDescriptor>(
            o.put_descriptors(b),
            o.shape().send_statics_at(),
            o.send_statics.len(),
        ) == o.send_statics,
        items_at::<BufferDescriptor>(
            o.put_descriptors(b),
            o.shape().send_buffers_at(),
            o.send_buffers.len(),
        ) == o.send_buffers,
        items_at::<BufferDescriptor>(
            o.put_descriptors(b),
            o.shape().receive_buffers_at(),
            o.receive_buffers.len(),
        ) == o.receive_buffers,
        items_at::<BufferDescriptor>(
            o.put_descriptors(b),
            o.shape().exchange_buffers_at(),
            o.exchange_buffers.len(),
        ) == o.exchange_buffers,
{
    let sh = o.shape();
    lemma_extents(sh.send_statics as int);
    lemma_extents(sh.send_buffers as int);
    lemma_extents(sh.receive_buffers as int);
    lemma_extents(sh.exchange_buffers as int);
    lemma_put_items(b, sh.send_statics_at(), o.send_statics);
    let b1 = put_items(b, sh.send_statics_at(), o.send_statics);
    lemma_put_items(b1, sh.send_buffers_at(), o.send_buffers);
    let b2 = put_items(b1, sh.send_buffers_at(), o.send_buffers);
    lemma_put_items(b2, sh.receive_buffers_at(), o.receive_buffers);
    let b3 = put_items(b2, sh.receive_buffers_at(), o.receive_buffers);
    lemma_put_items(b3, sh.exchange_buffers_at(), o.exchange_buffers);
    let b4 = o.put_descriptors(b);
    lemma_items_local::<SendStaticDescriptor>(b1, b4, sh.send_statics_at(), sh.send_statics);
    lemma_items_local::<BufferDescriptor>(b2, b4, sh.send_buffers_at(), sh.send_buffers);
    lemma_items_local::<BufferDescriptor>(b3, b4, sh.receive_buffers_at(), sh.receive_buffers);
}

/// What the steps of writing a message leave as it was, writing it leaves.
proof fn lemma_bytes_after_headers(
    o: Outline,
    b: Seq<u8>,
    b0: Seq<u8>,
    b1: Seq<u8>,
    b2: Seq<u8>,
    b3: Seq<u8>,
)
    requires
        o.writable(),
        same_bytes(b, b0, 12, b.len() as int),
        same_bytes(b, b0, o.shape().copy_handles_at(), b.len() as int),
        same_bytes(b0, b1, 0, o.shape().copy_handles_at()),
        same_bytes(b0, b1, o.shape().send_statics_at(), b.len() as int),
        same_bytes(b1, b2, 0, o.shape().send_statics_at()),
        same_bytes(b1, b2, o.shape().data_words_at(), b.len() as int),
        same_bytes(b2, b3, 0, o.shape().receive_statics_at()),
        same_bytes(b2, b3, o.shape().end(), b.len() as int),
        b.len() == IPC_BUFFER_SIZE,
    ensures
        same_bytes(b0, b3, 0, o.shape().copy_handles_at()),
        same_bytes(b, b3, o.shape().end(), b.len() as int),
        same_bytes(b, b3, o.shape().data_words_at(), o.shape().receive_statics_at()),
        o.has_special_header && o.send_process_id ==> same_bytes(b, b3, 12, 20),
{
}

/// A message is read back from a buffer it was written to, whatever the buffer
/// held; and what stands behind the message, its data and its process id are
/// left as they were.
pub proof fn lemma_outline_read_back(o: Outline, b: Seq<u8>)
    requires
        o.writable(),
        o.coherent(),
        b.len() == IPC_BUFFER_SIZE,
    ensures
        o.put(b).len() == b.len(),
        outline_of(o.put(b)) == o,
        shape_of(o.put(b)) == o.shape(),
        header_of(o.put(b)) == o.header(),
        o.has_special_header ==> special_header_of(o.put(b)) == o.special_header(),
        same_bytes(b, o.put(b), o.shape().end(), b.len() as int),
        same_bytes(b, o.put(b), o.shape().data_words_at(), o.shape().receive_statics_at()),
        o.send_process_id ==> same_bytes(b, o.put(b), 12, 20),
{
    reveal(Outline::put);
    let sh = o.shape();
    lemma_headers_read_back(o, b);
    let b0 = o.put_headers(b);
    lemma_handles_read_back(o, b0);
    let b1 = o.put_handles(b0);
    lemma_descriptors_read_back(o, b1);
    let b2 = o.put_descriptors(b1);
    lemma_extents(sh.copy_handles as int);
    lemma_extents(sh.move_handles as int);
    lemma_extents(sh.send_statics as int);
    lemma_extents(sh.send_buffers as int);
    lemma_extents(sh.receive_buffers as int);
    lemma_extents(sh.exchange_buffers as int);
    lemma_extents(sh.receive_statics as int);
    lemma_put_items(b2, sh.receive_statics_at(), o.receive_statics);
    let b3 = o.put(b);
    assert(same_bytes(b1, b3, 0, sh.send_statics_at()));
    assert(same_bytes(b2, b3, 0, sh.data_words_at()));
    lemma_bytes_after_headers(o, b, b0, b1, b2, b3);
    lemma_headers_local(b0, b3);
    lemma_items_local::<u32>(b1, b3, sh.copy_handles_at(), sh.copy_handles);
    lemma_items_local::<u32>(b1, b3, sh.move_handles_at(), sh.move_handles);
    lemma_items_local::<SendStaticDescriptor>(b2, b3, sh.send_statics_at(), sh.send_statics);
    lemma_items_local::<BufferDescriptor>(b2, b3, sh.send_buffers_at(), sh.send_buffers);
    lemma_items_local::<BufferDescriptor>(b2, b3, sh.receive_buffers_at(), sh.receive_buffers);
    lemma_items_local::<BufferDescriptor>(b2, b3, sh.exchange_buffers_at(), sh.exchange_buffers);
    assert(outline_of(b3) =~= o);
}

/// Writes the outline of a message to the buffer, and gives the offset at which
/// its data stands.
pub fn write_outline(
    buf: &mut [u8; 0x100],
    command_type: CommandType,
    send_process_id: bool,
    copy_handles: &Vec<Handle>,
    move_handles: &Vec<Handle>,
    ctx: &CommandContext,
    data_size: u32,
) -> (data_words_offset: usize)
    requires
        outline_for(
            command_type,
            send_process_id,
            copy_handles@,
            move_handles@,
            ctx@,
            data_size as int,
        ).writable(),
    ensures
        final(buf)@ == outline_for(
            command_type,
            send_process_id,
            copy_handles@,
            move_handles@,
            ctx@,
            data_size as int,
        ).put(old(buf)@),
        data_words_offset == outline_for(
            command_type,
            send_process_id,
            copy_handles@,
            move_handles@,
            ctx@,
            data_size as int,
        ).shape().data_words_at(),
{
    let ghost o = outline_for(
        command_type,
        send_process_id,
        copy_handles@,
        move_handles@,
        ctx@,
        data_size as int,
    );
    proof {
        reveal(Outline::put);
        lemma_extents(o.shape().copy_handles as int);
        lemma_extents(o.shape().move_handles as int);
        lemma_extents(o.shape().send_statics as int);
        lemma_extents(o.shape().send_buffers as int);
        lemma_extents(o.shape().receive_buffers as int);
        lemma_extents(o.shape().exchange_buffers as int);
        lemma_extents(o.shape().receive_statics as int);
    }
    let data_word_count: u32 = (data_size + 3) / 4;
    let has_special_header: bool = send_process_id || copy_handles.len() > 0 || move_handles.len()
        > 0;
    let header = CommandHeader::new(
        command_type,
        ctx.send_statics.len() as u32,
        ctx.send_buffers.len() as u32,
        ctx.receive_buffers.len() as u32,
        ctx.exchange_buffers.len() as u32,
        data_word_count,
        ctx.receive_statics.len() as u32,
        has_special_header,
    );
    write_u32(buf, 0, header.bits_1);
    write_u32(buf, 4, header.bits_2);
    let mut pos: usize = 8;
    if has_special_header {
        let special_header = CommandSpecialHeader::new(
            send_process_id,
            copy_handles.len() as u32,
            move_handles.len() as u32,
        );
        write_u32(buf, 8, special_header.bits);
        pos = 12;
        if send_process_id {
            pos = 20;
        }
    }
    assert(buf@ == o.put_headers(old(buf)@));
    pos = write_array_to_buffer(buf, pos, copy_handles);
    pos = write_array_to_buffer(buf, pos, move_handles);
    assert(buf@ == o.put_handles(o.put_headers(old(buf)@)));
    pos = write_array_to_buffer(buf, pos, &ctx.send_statics);
    pos = write_array_to_buffer(buf, pos, &ctx.send_buffers);
    pos = write_array_to_buffer(buf, pos, &ctx.receive_buffers);
    pos = write_array_to_buffer(buf, pos, &ctx.exchange_buffers);
    let data_words_offset: usize = pos;
    pos = pos + 4 * (data_word_count as usize);
    let _end: usize = write_array_to_buffer(buf, pos, &ctx.receive_statics);
    data_words_offset
}

} // verus!
