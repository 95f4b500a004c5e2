//! The IPC buffer: little-endian numbers and arrays of fixed-size items at
//! byte offsets.

use vstd::prelude::*;

verus! {

/// The size of the buffer a thread exchanges messages through.
pub const IPC_BUFFER_SIZE: usize = 0x100;

pub open spec fn u16_at(b: Seq<u8>, at: int) -> u16 {
    (b[at] + 0x100 * b[at + 1]) as u16
}

pub open spec fn u32_at(b: Seq<u8>, at: int) -> u32 {
    (b[at] + 0x100 * b[at + 1] + 0x1_0000 * b[at + 2] + 0x100_0000 * b[at + 3]) as u32
}

pub open spec fn u64_at(b: Seq<u8>, at: int) -> u64 {
    (u32_at(b, at) + 0x1_0000_0000 * u32_at(b, at + 4)) as u64
}

pub open spec fn u16_bytes(v: u16) -> Seq<u8> {
    seq![(v % 0x100) as u8, (v / 0x100) as u8]
}

pub open spec fn u32_bytes(v: u32) -> Seq<u8> {
    seq![
        (v % 0x100) as u8,
        (v / 0x100 % 0x100) as u8,
        (v / 0x1_0000 % 0x100) as u8,
        (v / 0x100_0000) as u8,
    ]
}

pub open spec fn u64_bytes(v: u64) -> Seq<u8> {
    u32_bytes((v % 0x1_0000_0000) as u32) + u32_bytes((v / 0x1_0000_0000) as u32)
}

/// `b` with `s` written over it from offset `at` on.
pub open spec fn splice(b: Seq<u8>, at: int, s: Seq<u8>) -> Seq<u8> {
    Seq::new(b.len(), |i: int| if at <= i < at + s.len() { s[i - at] } else { b[i] })
}

/// `a` and `b` hold the same bytes from offset `from` up to `to`.
pub open spec fn same_bytes(a: Seq<u8>, b: Seq<u8>, from: int, to: int) -> bool {
    forall|i: int| from <= i < to ==> #[trigger] a[i] == b[i]
}

pub fn read_u8(buf: &[u8; 0x100], at: usize) -> (v: u8)
    requires
        at < IPC_BUFFER_SIZE,
    ensures
        v == buf@[at as int],
{
    buf[at]
}

pub fn read_u16(buf: &[u8; 0x100], at: usize) -> (v: u16)
    requires
        at + 2 <= IPC_BUFFER_SIZE,
    ensures
        v == u16_at(buf@, at as int),
{
    buf[at] as u16 + 0x100 * (buf[at + 1] as u16)
}

pub fn read_u32(buf: &[u8; 0x100], at: usize) -> (v: u32)
    requires
        at + 4 <= IPC_BUFFER_SIZE,
    ensures
        v == u32_at(buf@, at as int),
{
    buf[at] as u32 + 0x100 * (buf[at + 1] as u32) + 0x1_0000 * (buf[at + 2] as u32) + 0x100_0000 * (
    buf[at + 3] as u32)
}

pub fn read_u64(buf: &[u8; 0x100], at: usize) -> (v: u64)
    requires
        at + 8 <= IPC_BUFFER_SIZE,
    ensures
        v == u64_at(buf@, at as int),
{
    read_u32(buf, at) as u64 + 0x1_0000_0000 * (read_u32(buf, at + 4) as u64)
}

pub fn write_u8(buf: &mut [u8; 0x100], at: usize, v: u8)
    requires
        at < IPC_BUFFER_SIZE,
    ensures
        final(buf)@ == splice(old(buf)@, at as int, seq![v]),
{
    buf[at] = v;
    assert(buf@ =~= splice(old(buf)@, at as int, seq![v]));
}

pub fn write_u16(buf: &mut [u8; 0x100], at: usize, v: u16)
    requires
        at + 2 <= IPC_BUFFER_SIZE,
    ensures
        final(buf)@ == splice(old(buf)@, at as int, u16_bytes(v)),
{
    buf[at] = (v % 0x100) as u8;
    buf[at + 1] = (v / 0x100) as u8;
    assert(buf@ =~= splice(old(buf)@, at as int, u16_bytes(v)));
}

pub fn write_u32(buf: &mut [u8; 0x100], at: usize, v: u32)
    requires
        at + 4 <= IPC_BUFFER_SIZE,
    ensures
        final(buf)@ == splice(old(buf)@, at as int, u32_bytes(v)),
{
    buf[at] = (v % 0x100) as u8;
    buf[at + 1] = (v / 0x100 % 0x100) as u8;
    buf[at + 2] = (v / 0x1_0000 % 0x100) as u8;
    buf[at + 3] = (v / 0x100_0000) as u8;
    assert(buf@ =~= splice(old(buf)@, at as int, u32_bytes(v)));
}

pub fn write_u64(buf: &mut [u8; 0x100], at: usize, v: u64)
    requires
        at + 8 <= IPC_BUFFER_SIZE,
    ensures
        final(buf)@ == splice(old(buf)@, at as int, u64_bytes(v)),
{
    write_u32(buf, at, (v % 0x1_0000_0000) as u32);
    write_u32(buf, at + 4, (v / 0x1_0000_0000) as u32);
    assert(buf@ =~= splice(old(buf)@, at as int, u64_bytes(v)));
}

/// A 16-bit number written to a buffer is read back.
pub proof fn lemma_u16_read_back(b: Seq<u8>, at: int, v: u16)
    requires
        0 <= at,
        at + 2 <= b.len(),
    ensures
        u16_at(splice(b, at, u16_bytes(v)), at) == v,
{
}

/// A 32-bit number written to a buffer is read back.
pub proof fn lemma_u32_read_back(b: Seq<u8>, at: int, v: u32)
    requires
        0 <= at,
        at + 4 <= b.len(),
    ensures
        u32_at(splice(b, at, u32_bytes(v)), at) == v,
{
}

/// A 64-bit number written to a buffer is read back.
pub proof fn lemma_u64_read_back(b: Seq<u8>, at: int, v: u64)
    requires
        0 <= at,
        at + 8 <= b.len(),
    ensures
        u64_at(splice(b, at, u64_bytes(v)), at) == v,
{
    let low = (v % 0x1_0000_0000) as u32;
    let high = (v / 0x1_0000_0000) as u32;
    let half = splice(b, at, u32_bytes(low));
    let whole = splice(half, at + 4, u32_bytes(high));
    assert(whole =~= splice(b, at, u64_bytes(v)));
    lemma_u32_read_back(b, at, low);
    lemma_u32_read_back(half, at + 4, high);
    assert(same_bytes(half, whole, at, at + 4));
}

} // verus!
