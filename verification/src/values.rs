//! Values in the IPC buffer that are made of unsigned numbers: signed numbers,
//! truth values, and what is known of a process.

use vstd::prelude::*;

use crate::array::WireItem;
use crate::buffer::{read_u8, write_u8};
use crate::sm::MitmProcessInfo;

verus! {

use crate::buffer::{lemma_u64_read_back, same_bytes, splice, u64_at, u64_bytes};

/// A truth value is a byte: zero is false.
impl WireItem for bool {
    open spec fn width() -> nat {
        1
    }

    open spec fn alignment() -> nat {
        1
    }

    open spec fn decode(b: Seq<u8>, at: int) -> Self {
        b[at] != 0
    }

    open spec fn encode(self) -> Seq<u8> {
        if self {
            seq![1u8]
        } else {
            seq![0u8]
        }
    }

    proof fn width_bounds() {
    }

    proof fn encode_len(self) {
    }

    proof fn decode_local(a: Seq<u8>, b: Seq<u8>, at: int) {
    }

    proof fn decode_encode(self, b: Seq<u8>, at: int) {
    }

    fn item_size() -> (n: usize) {
        1
    }

    fn item_align() -> (n: usize) {
        1
    }

    fn read_item(buf: &[u8; 0x100], at: usize) -> (v: Self) {
        read_u8(buf, at) != 0
    }

    fn write_item(&self, buf: &mut [u8; 0x100], at: usize) {
        if *self {
            write_u8(buf, at, 1);
        } else {
            write_u8(buf, at, 0);
        }
    }
}

/// The unsigned number with the same bits.
pub open spec fn u8_of(v: i8) -> u8 {
    if v >= 0 {
        v as u8
    } else {
        (v + 0x100) as u8
    }
}

/// The signed number with the same bits.
pub open spec fn i8_of(u: u8) -> i8 {
    if u < 0x80 {
        u as i8
    } else {
        (u - 0x100) as i8
    }
}

impl WireItem for i8 {
    open spec fn width() -> nat {
        1
    }

    open spec fn alignment() -> nat {
        1
    }

    open spec fn decode(b: Seq<u8>, at: int) -> Self {
        i8_of(<u8 as WireItem>::decode(b, at))
    }

    open spec fn encode(self) -> Seq<u8> {
        u8_of(self).encode()
    }

    proof fn width_bounds() {
    }

    proof fn encode_len(self) {
        u8_of(self).encode_len();
    }

    proof fn decode_local(a: Seq<u8>, b: Seq<u8>, at: int) {
        <u8 as WireItem>::decode_local(a, b, at);
    }

    proof fn decode_encode(self, b: Seq<u8>, at: int) {
        u8_of(self).decode_encode(b, at);
    }

    fn item_size() -> (n: usize) {
        1
    }

    fn item_align() -> (n: usize) {
        1
    }

    fn read_item(buf: &[u8; 0x100], at: usize) -> (v: Self) {
        let u: u8 = <u8 as WireItem>::read_item(buf, at);
        if u < 0x80 {
            u as i8
        } else {
            -((u8::MAX - u) as i8) - 1
        }
    }

    fn write_item(&self, buf: &mut [u8; 0x100], at: usize) {
        let u: u8 = if *self >= 0 {
            *self as u8
        } else {
            u8::MAX - (-(*self + 1)) as u8
        };
        u.write_item(buf, at);
    }
}

/// The unsigned number with the same bits.
pub open spec fn u16_of(v: i16) -> u16 {
    if v >= 0 {
        v as u16
    } else {
        (v + 0x10000) as u16
    }
}

/// The signed number with the same bits.
pub open spec fn i16_of(u: u16) -> i16 {
    if u < 0x8000 {
        u as i16
    } else {
        (u - 0x10000) as i16
    }
}

impl WireItem for i16 {
    open spec fn width() -> nat {
        2
    }

    open spec fn alignment() -> nat {
        2
    }

    open spec fn decode(b: Seq<u8>, at: int) -> Self {
        i16_of(<u16 as WireItem>::decode(b, at))
    }

    open spec fn encode(self) -> Seq<u8> {
        u16_of(self).encode()
    }

    proof fn width_bounds() {
    }

    proof fn encode_len(self) {
        u16_of(self).encode_len();
    }

    proof fn decode_local(a: Seq<u8>, b: Seq<u8>, at: int) {
        <u16 as WireItem>::decode_local(a, b, at);
    }

    proof fn decode_encode(self, b: Seq<u8>, at: int) {
        u16_of(self).decode_encode(b, at);
    }

    fn item_size() -> (n: usize) {
        2
    }

    fn item_align() -> (n: usize) {
        2
    }

    fn read_item(buf: &[u8; 0x100], at: usize) -> (v: Self) {
        let u: u16 = <u16 as WireItem>::read_item(buf, at);
        if u < 0x8000 {
            u as i16
        } else {
            -((u16::MAX - u) as i16) - 1
        }
    }

    fn write_item(&self, buf: &mut [u8; 0x100], at: usize) {
        let u: u16 = if *self >= 0 {
            *self as u16
        } else {
            u16::MAX - (-(*self + 1)) as u16
        };
        u.write_item(buf, at);
    }
}

/// The unsigned number with the same bits.
pub open spec fn u32_of(v: i32) -> u32 {
    if v >= 0 {
        v as u32
    } else {
        (v + 0x100000000) as u32
    }
}

/// The signed number with the same bits.
pub open spec fn i32_of(u: u32) -> i32 {
    if u < 0x80000000 {
        u as i32
    } else {
        (u - 0x100000000) as i32
    }
}

impl WireItem for i32 {
    open spec fn width() -> nat {
        4
    }

    open spec fn alignment() -> nat {
        4
    }

    open spec fn decode(b: Seq<u8>, at: int) -> Self {
        i32_of(<u32 as WireItem>::decode(b, at))
    }

    open spec fn encode(self) -> Seq<u8> {
        u32_of(self).encode()
    }

    proof fn width_bounds() {
    }

    proof fn encode_len(self) {
        u32_of(self).encode_len();
    }

    proof fn decode_local(a: Seq<u8>, b: Seq<u8>, at: int) {
        <u32 as WireItem>::decode_local(a, b, at);
    }

    proof fn decode_encode(self, b: Seq<u8>, at: int) {
        u32_of(self).decode_encode(b, at);
    }

    fn item_size() -> (n: usize) {
        4
    }

    fn item_align() -> (n: usize) {
        4
    }

    fn read_item(buf: &[u8; 0x100], at: usize) -> (v: Self) {
        let u: u32 = <u32 as WireItem>::read_item(buf, at);
        if u < 0x80000000 {
            u as i32
        } else {
            -((u32::MAX - u) as i32) - 1
        }
    }

    fn write_item(&self, buf: &mut [u8; 0x100], at: usize) {
        let u: u32 = if *self >= 0 {
            *self as u32
        } else {
            u32::MAX - (-(*self + 1)) as u32
        };
        u.write_item(buf, at);
    }
}

/// The unsigned number with the same bits.
pub open spec fn u64_of(v: i64) -> u64 {
    if v >= 0 {
        v as u64
    } else {
        (v + 0x10000000000000000) as u64
    }
}

/// The signed number with the same bits.
pub open spec fn i64_of(u: u64) -> i64 {
    if u < 0x8000000000000000 {
        u as i64
    } else {
        (u - 0x10000000000000000) as i64
    }
}

impl WireItem for i64 {
    open spec fn width() -> nat {
        8
    }

    open spec fn alignment() -> nat {
        8
    }

    open spec fn decode(b: Seq<u8>, at: int) -> Self {
        i64_of(<u64 as WireItem>::decode(b, at))
    }

    open spec fn encode(self) -> Seq<u8> {
        u64_of(self).encode()
    }

    proof fn width_bounds() {
    }

    proof fn encode_len(self) {
        u64_of(self).encode_len();
    }

    proof fn decode_local(a: Seq<u8>, b: Seq<u8>, at: int) {
        <u64 as WireItem>::decode_local(a, b, at);
    }

    proof fn decode_encode(self, b: Seq<u8>, at: int) {
        u64_of(self).decode_encode(b, at);
    }

    fn item_size() -> (n: usize) {
        8
    }

    fn item_align() -> (n: usize) {
        8
    }

    fn read_item(buf: &[u8; 0x100], at: usize) -> (v: Self) {
        let u: u64 = <u64 as WireItem>::read_item(buf, at);
        if u < 0x8000000000000000 {
            u as i64
        } else {
            -((u64::MAX - u) as i64) - 1
        }
    }

    fn write_item(&self, buf: &mut [u8; 0x100], at: usize) {
        let u: u64 = if *self >= 0 {
            *self as u64
        } else {
            u64::MAX - (-(*self + 1)) as u64
        };
        u.write_item(buf, at);
    }
}

/// The four numbers stand one after the other.
impl WireItem for MitmProcessInfo {
    open spec fn width() -> nat {
        32
    }

    open spec fn alignment() -> nat {
        8
    }

    open spec fn decode(b: Seq<u8>, at: int) -> Self {
        MitmProcessInfo {
            process_id: u64_at(b, at),
            program_id: u64_at(b, at + 8),
            keys_held: u64_at(b, at + 16),
            override_flags: u64_at(b, at + 24),
        }
    }

    open spec fn encode(self) -> Seq<u8> {
        u64_bytes(self.process_id) + u64_bytes(self.program_id) + u64_bytes(self.keys_held)
            + u64_bytes(self.override_flags)
    }

    proof fn width_bounds() {
    }

    proof fn encode_len(self) {
    }

    proof fn decode_local(a: Seq<u8>, b: Seq<u8>, at: int) {
        <u64 as WireItem>::decode_local(a, b, at);
        <u64 as WireItem>::decode_local(a, b, at + 8);
        <u64 as WireItem>::decode_local(a, b, at + 16);
        <u64 as WireItem>::decode_local(a, b, at + 24);
    }

    proof fn decode_encode(self, b: Seq<u8>, at: int) {
        let written = splice(b, at, self.encode());
        let fields = seq![
            self.process_id,
            self.program_id,
            self.keys_held,
            self.override_flags,
        ];
        assert forall|i: int| 0 <= i < 4 implies u64_at(written, at + 8 * i) == #[trigger] fields[i] by {
            let alone = splice(b, at + 8 * i, u64_bytes(fields[i]));
            lemma_u64_read_back(b, at + 8 * i, fields[i]);
            assert(same_bytes(written, alone, at + 8 * i, at + 8 * i + 8));
            <u64 as WireItem>::decode_local(written, alone, at + 8 * i);
        }
        assert(u64_at(written, at + 8 * 0) == fields[0]);
        assert(u64_at(written, at + 8 * 1) == fields[1]);
        assert(u64_at(written, at + 8 * 2) == fields[2]);
        assert(u64_at(written, at + 8 * 3) == fields[3]);
    }

    fn item_size() -> (n: usize) {
        32
    }

    fn item_align() -> (n: usize) {
        8
    }

    fn read_item(buf: &[u8; 0x100], at: usize) -> (v: Self) {
        MitmProcessInfo {
            process_id: <u64 as WireItem>::read_item(buf, at),
            program_id: <u64 as WireItem>::read_item(buf, at + 8),
            keys_held: <u64 as WireItem>::read_item(buf, at + 16),
            override_flags: <u64 as WireItem>::read_item(buf, at + 24),
        }
    }

    fn write_item(&self, buf: &mut [u8; 0x100], at: usize) {
        self.process_id.write_item(buf, at);
        self.program_id.write_item(buf, at + 8);
        self.keys_held.write_item(buf, at + 16);
        self.override_flags.write_item(buf, at + 24);
        assert(buf@ =~= splice(old(buf)@, at as int, (*self).encode()));
    }
}

} // verus!
