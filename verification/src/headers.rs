//! The fixed parts of a message: its headers and its descriptors.

use vstd::prelude::*;

verus! {

/// The first four bytes of the data of a request: `SFCI`.
pub const IN_DATA_HEADER_MAGIC: u32 = 0x49434653;

/// The first four bytes of the data of a response: `SFCO`.
pub const OUT_DATA_HEADER_MAGIC: u32 = 0x4F434653;

/// The data of a message starts at a multiple of this.
pub const DATA_PADDING: u32 = 16;

pub const DATA_HEADER_SIZE: u32 = 16;

pub const DOMAIN_HEADER_SIZE: u32 = 16;

/// A reference to a kernel object.
pub type Handle = u32;

/// Identifies an object within a domain. Zero is none.
pub type DomainObjectId = u32;

/// What a message asks of a session.
#[derive(Copy, Clone, PartialEq, Eq, Structural, Debug)]
pub enum CommandType {
    Invalid,
    LegacyRequest,
    Close,
    LegacyControl,
    Request,
    Control,
    RequestWithContext,
    ControlWithContext,
}

impl CommandType {
    /// The number that stands for the type in a command header.
    pub open spec fn code(self) -> u32 {
        match self {
            CommandType::Invalid => 0,
            CommandType::LegacyRequest => 1,
            CommandType::Close => 2,
            CommandType::LegacyControl => 3,
            CommandType::Request => 4,
            CommandType::Control => 5,
            CommandType::RequestWithContext => 6,
            CommandType::ControlWithContext => 7,
        }
    }

    /// The type that a number stands for: `Invalid` where it stands for none.
    pub open spec fn of_code(code: u32) -> CommandType {
        if code == 1 {
            CommandType::LegacyRequest
        } else if code == 2 {
            CommandType::Close
        } else if code == 3 {
            CommandType::LegacyControl
        } else if code == 4 {
            CommandType::Request
        } else if code == 5 {
            CommandType::Control
        } else if code == 6 {
            CommandType::RequestWithContext
        } else if code == 7 {
            CommandType::ControlWithContext
        } else {
            CommandType::Invalid
        }
    }

    pub fn to_raw(&self) -> (raw: u32)
        ensures
            raw == self.code(),
    {
        match self {
            CommandType::Invalid => 0,
            CommandType::LegacyRequest => 1,
            CommandType::Close => 2,
            CommandType::LegacyControl => 3,
            CommandType::Request => 4,
            CommandType::Control => 5,
            CommandType::RequestWithContext => 6,
            CommandType::ControlWithContext => 7,
        }
    }

    pub fn from_raw(raw: u32) -> (t: Self)
        ensures
            t == CommandType::of_code(raw),
    {
        match raw {
            1 => CommandType::LegacyRequest,
            2 => CommandType::Close,
            3 => CommandType::LegacyControl,
            4 => CommandType::Request,
            5 => CommandType::Control,
            6 => CommandType::RequestWithContext,
            7 => CommandType::ControlWithContext,
            _ => CommandType::Invalid,
        }
    }

    pub open spec fn is_request(self) -> bool {
        self is Request || self is RequestWithContext
    }

    pub open spec fn is_control(self) -> bool {
        self is Control || self is ControlWithContext
    }
}

/// What a message asks of an object in a domain.
#[derive(Copy, Clone, PartialEq, Eq, Structural, Debug)]
pub enum DomainCommandType {
    Invalid,
    SendMessage,
    Close,
}

impl DomainCommandType {
    /// The type that a number stands for: `Invalid` where it stands for none.
    pub open spec fn of_code(code: u8) -> DomainCommandType {
        if code == 1 {
            DomainCommandType::SendMessage
        } else if code == 2 {
            DomainCommandType::Close
        } else {
            DomainCommandType::Invalid
        }
    }

    pub fn from_raw(raw: u8) -> (t: Self)
        ensures
            t == DomainCommandType::of_code(raw),
    {
        match raw {
            1 => DomainCommandType::SendMessage,
            2 => DomainCommandType::Close,
            _ => DomainCommandType::Invalid,
        }
    }
}

/// A buffer sent through the receiver's pointer buffer.
#[derive(Copy, Clone, PartialEq, Eq, Structural, Debug)]
pub struct SendStaticDescriptor {
    pub bits: u32,
    pub address_low: u32,
}

/// A buffer mapped into the receiver.
#[derive(Copy, Clone, PartialEq, Eq, Structural, Debug)]
pub struct BufferDescriptor {
    pub size_low: u32,
    pub address_low: u32,
    pub bits: u32,
}

/// Where buffers sent through a pointer buffer are to be put.
#[derive(Copy, Clone, PartialEq, Eq, Structural, Debug)]
pub struct ReceiveStaticDescriptor {
    pub address_low: u32,
    pub bits: u32,
}

impl ReceiveStaticDescriptor {
    /// The descriptor of `size` bytes at `address`: the lower 32 bits of the
    /// address, then the next 16 of them with the lower 16 bits of the size on
    /// top.
    pub open spec fn describe(address: u64, size: int) -> ReceiveStaticDescriptor {
        ReceiveStaticDescriptor {
            address_low: (address % 0x1_0000_0000) as u32,
            bits: (address / 0x1_0000_0000 % 0x1_0000 + 0x1_0000 * (size % 0x1_0000)) as u32,
        }
    }

    pub fn new(address: u64, size: usize) -> (d: Self)
        ensures
            d == ReceiveStaticDescriptor::describe(address, size as int),
    {
        ReceiveStaticDescriptor {
            address_low: (address % 0x1_0000_0000) as u32,
            bits: (address / 0x1_0000_0000 % 0x1_0000) as u32 + 0x1_0000 * ((size % 0x1_0000)
                as u32),
        }
    }
}

/// The fields of the first word of a command header can be taken apart.
proof fn lemma_first_word(word: u32, t: u32, a: u32, b: u32, c: u32, d: u32)
    by (bit_vector)
    requires
        t <= 7,
        a <= 15,
        b <= 15,
        c <= 15,
        d <= 15,
        word == t + 0x1_0000 * a + 0x10_0000 * b + 0x100_0000 * c + 0x1000_0000 * d,
    ensures
        word % 0x1_0000 == t,
        word / 0x1_0000 % 16 == a,
        word / 0x10_0000 % 16 == b,
        word / 0x100_0000 % 16 == c,
        word / 0x1000_0000 == d,
{
}

/// The fields of the second word of a command header can be taken apart.
proof fn lemma_second_word(word: u32, a: u32, b: u32, c: u32)
    by (bit_vector)
    requires
        a < 0x400,
        b <= 15,
        c <= 1,
        word == a + 0x400 * b + 0x8000_0000 * c,
    ensures
        word % 0x400 == a,
        word / 0x400 % 16 == b,
        word / 0x8000_0000 == c,
{
}

/// The fields of a command header are those it was packed from.
pub proof fn lemma_pack_header(
    command_type: CommandType,
    send_static_count: u32,
    send_buffer_count: u32,
    receive_buffer_count: u32,
    exchange_buffer_count: u32,
    data_word_count: u32,
    receive_static_count: u32,
    has_special_header: bool,
)
    requires
        send_static_count <= 15,
        send_buffer_count <= 15,
        receive_buffer_count <= 15,
        exchange_buffer_count <= 15,
        data_word_count < 0x400,
        receive_static_count <= 13,
    ensures
        ({
            let h = CommandHeader::pack(
                command_type,
                send_static_count,
                send_buffer_count,
                receive_buffer_count,
                exchange_buffer_count,
                data_word_count,
                receive_static_count,
                has_special_header,
            );
            &&& h.command_type() == command_type
            &&& h.send_static_count() == send_static_count
            &&& h.send_buffer_count() == send_buffer_count
            &&& h.receive_buffer_count() == receive_buffer_count
            &&& h.exchange_buffer_count() == exchange_buffer_count
            &&& h.data_word_count() == data_word_count
            &&& h.receive_static_count() == receive_static_count
            &&& h.has_special_header() == has_special_header
        }),
{
    let h = CommandHeader::pack(
        command_type,
        send_static_count,
        send_buffer_count,
        receive_buffer_count,
        exchange_buffer_count,
        data_word_count,
        receive_static_count,
        has_special_header,
    );
    lemma_first_word(
        h.bits_1,
        command_type.code(),
        send_static_count,
        send_buffer_count,
        receive_buffer_count,
        exchange_buffer_count,
    );
    lemma_second_word(
        h.bits_2,
        data_word_count,
        if receive_static_count > 0 {
            (receive_static_count + 2) as u32
        } else {
            0
        },
        if has_special_header {
            1
        } else {
            0
        },
    );
}

/// The fields of a special header are those it was packed from.
pub proof fn lemma_pack_special_header(
    send_process_id: bool,
    copy_handle_count: u32,
    move_handle_count: u32,
)
    requires
        copy_handle_count <= 15,
        move_handle_count <= 15,
    ensures
        ({
            let h = CommandSpecialHeader::pack(
                send_process_id,
                copy_handle_count,
                move_handle_count,
            );
            &&& h.send_process_id() == send_process_id
            &&& h.copy_handle_count() == copy_handle_count
            &&& h.move_handle_count() == move_handle_count
        }),
{
}

/// How many of each thing a message holds.
#[derive(Copy, Clone, PartialEq, Eq, Structural, Debug)]
pub struct CommandHeader {
    pub bits_1: u32,
    pub bits_2: u32,
}

impl CommandHeader {
    pub open spec fn command_type(self) -> CommandType {
        CommandType::of_code(self.bits_1 % 0x1_0000)
    }

    pub open spec fn send_static_count(self) -> u32 {
        self.bits_1 / 0x1_0000 % 16
    }

    pub open spec fn send_buffer_count(self) -> u32 {
        self.bits_1 / 0x10_0000 % 16
    }

    pub open spec fn receive_buffer_count(self) -> u32 {
        self.bits_1 / 0x100_0000 % 16
    }

    pub open spec fn exchange_buffer_count(self) -> u32 {
        self.bits_1 / 0x1000_0000
    }

    pub open spec fn data_word_count(self) -> u32 {
        self.bits_2 % 0x400
    }

    /// The field holds two more than the count; the values 0 to 2 stand for none.
    pub open spec fn receive_static_count(self) -> u32 {
        let raw = self.bits_2 / 0x400 % 16;
        if raw > 2 {
            (raw - 2) as u32
        } else {
            0
        }
    }

    pub open spec fn has_special_header(self) -> bool {
        self.bits_2 / 0x8000_0000 == 1
    }

    pub fn new(
        command_type: CommandType,
        send_static_count: u32,
        send_buffer_count: u32,
        receive_buffer_count: u32,
        exchange_buffer_count: u32,
        data_word_count: u32,
        receive_static_count: u32,
        has_special_header: bool,
    ) -> (h: Self)
        requires
            send_static_count <= 15,
            send_buffer_count <= 15,
            receive_buffer_count <= 15,
            exchange_buffer_count <= 15,
            data_word_count < 0x400,
            receive_static_count <= 13,
        ensures
            h.command_type() == command_type,
            h.send_static_count() == send_static_count,
            h.send_buffer_count() == send_buffer_count,
            h.receive_buffer_count() == receive_buffer_count,
            h.exchange_buffer_count() == exchange_buffer_count,
            h.data_word_count() == data_word_count,
            h.receive_static_count() == receive_static_count,
            h.has_special_header() == has_special_header,
            h == CommandHeader::pack(
                command_type,
                send_static_count,
                send_buffer_count,
                receive_buffer_count,
                exchange_buffer_count,
                data_word_count,
                receive_static_count,
                has_special_header,
            ),
    {
        let raw_type: u32 = command_type.to_raw();
        let receive_static_field: u32 = if receive_static_count > 0 {
            receive_static_count + 2
        } else {
            0
        };
        let special_field: u32 = if has_special_header {
            1
        } else {
            0
        };
        proof {
            lemma_pack_header(
                command_type,
                send_static_count,
                send_buffer_count,
                receive_buffer_count,
                exchange_buffer_count,
                data_word_count,
                receive_static_count,
                has_special_header,
            );
        }
        CommandHeader {
            bits_1: raw_type + 0x1_0000 * send_static_count + 0x10_0000 * send_buffer_count
                + 0x100_0000 * receive_buffer_count + 0x1000_0000 * exchange_buffer_count,
            bits_2: data_word_count + 0x400 * receive_static_field + 0x8000_0000 * special_field,
        }
    }

    /// The header with these fields.
    pub open spec fn pack(
        command_type: CommandType,
        send_static_count: u32,
        send_buffer_count: u32,
        receive_buffer_count: u32,
        exchange_buffer_count: u32,
        data_word_count: u32,
        receive_static_count: u32,
        has_special_header: bool,
    ) -> CommandHeader {
        CommandHeader {
            bits_1: (command_type.code() + 0x1_0000 * send_static_count + 0x10_0000
                * send_buffer_count + 0x100_0000 * receive_buffer_count + 0x1000_0000
                * exchange_buffer_count) as u32,
            bits_2: (data_word_count + 0x400 * (if receive_static_count > 0 {
                receive_static_count + 2
            } else {
                0
            }) + (if has_special_header {
                0x8000_0000int
            } else {
                0
            })) as u32,
        }
    }

    pub fn get_command_type(&self) -> (t: CommandType)
        ensures
            t == self.command_type(),
    {
        CommandType::from_raw(self.bits_1 % 0x1_0000)
    }

    pub fn get_send_static_count(&self) -> (n: u32)
        ensures
            n == self.send_static_count(),
    {
        self.bits_1 / 0x1_0000 % 16
    }

    pub fn get_send_buffer_count(&self) -> (n: u32)
        ensures
            n == self.send_buffer_count(),
    {
        self.bits_1 / 0x10_0000 % 16
    }

    pub fn get_receive_buffer_count(&self) -> (n: u32)
        ensures
            n == self.receive_buffer_count(),
    {
        self.bits_1 / 0x100_0000 % 16
    }

    pub fn get_exchange_buffer_count(&self) -> (n: u32)
        ensures
            n == self.exchange_buffer_count(),
    {
        self.bits_1 / 0x1000_0000
    }

    pub fn get_data_word_count(&self) -> (n: u32)
        ensures
            n == self.data_word_count(),
    {
        self.bits_2 % 0x400
    }

    pub fn get_receive_static_count(&self) -> (n: u32)
        ensures
            n == self.receive_static_count(),
    {
        let raw: u32 = self.bits_2 / 0x400 % 16;
        if raw > 2 {
            raw - 2
        } else {
            0
        }
    }

    pub fn get_has_special_header(&self) -> (b: bool)
        ensures
            b == self.has_special_header(),
    {
        self.bits_2 / 0x8000_0000 == 1
    }
}

/// What a message holds besides buffers and data: a process id and handles.
#[derive(Copy, Clone, PartialEq, Eq, Structural, Debug)]
pub struct CommandSpecialHeader {
    pub bits: u32,
}

impl CommandSpecialHeader {
    pub open spec fn send_process_id(self) -> bool {
        self.bits % 2 == 1
    }

    pub open spec fn copy_handle_count(self) -> u32 {
        self.bits / 2 % 16
    }

    pub open spec fn move_handle_count(self) -> u32 {
        self.bits / 32 % 16
    }

    /// The header with these fields.
    pub open spec fn pack(
        send_process_id: bool,
        copy_handle_count: u32,
        move_handle_count: u32,
    ) -> CommandSpecialHeader {
        CommandSpecialHeader {
            bits: ((if send_process_id {
                1int
            } else {
                0
            }) + 2 * copy_handle_count + 32 * move_handle_count) as u32,
        }
    }

    pub fn new(send_process_id: bool, copy_handle_count: u32, move_handle_count: u32) -> (h: Self)
        requires
            copy_handle_count <= 15,
            move_handle_count <= 15,
        ensures
            h.send_process_id() == send_process_id,
            h.copy_handle_count() == copy_handle_count,
            h.move_handle_count() == move_handle_count,
            h == CommandSpecialHeader::pack(send_process_id, copy_handle_count, move_handle_count),
    {
        let process_id_field: u32 = if send_process_id {
            1
        } else {
            0
        };
        CommandSpecialHeader { bits: process_id_field + 2 * copy_handle_count + 32 * move_handle_count }
    }

    pub fn get_send_process_id(&self) -> (b: bool)
        ensures
            b == self.send_process_id(),
    {
        self.bits % 2 == 1
    }

    pub fn get_copy_handle_count(&self) -> (n: u32)
        ensures
            n == self.copy_handle_count(),
    {
        self.bits / 2 % 16
    }

    pub fn get_move_handle_count(&self) -> (n: u32)
        ensures
            n == self.move_handle_count(),
    {
        self.bits / 32 % 16
    }
}

} // verus!
