//! Arrays of fixed-size items in the IPC buffer.

use vstd::prelude::*;

use crate::buffer::{
    read_u16, read_u32, read_u64, read_u8, write_u16, write_u32, write_u64, write_u8,
    IPC_BUFFER_SIZE,
};
use crate::headers::{BufferDescriptor, ReceiveStaticDescriptor, SendStaticDescriptor};

verus! {

use crate::buffer::{
    lemma_u16_read_back, lemma_u32_read_back, lemma_u64_read_back, same_bytes, splice, u16_at,
    u16_bytes, u32_at, u32_bytes, u64_at, u64_bytes,
};

/// A value that takes a fixed number of bytes in the IPC buffer.
pub trait WireItem: Sized {
    /// How many bytes the value takes.
    spec fn width() -> nat;

    /// The value stands at multiples of this.
    spec fn alignment() -> nat;

    /// The value that the bytes of `b` from `at` on stand for.
    spec fn decode(b: Seq<u8>, at: int) -> Self;

    /// The bytes that stand for the value.
    spec fn encode(self) -> Seq<u8>;

    proof fn width_bounds()
        ensures
            1 <= Self::width() <= IPC_BUFFER_SIZE,
            1 <= Self::alignment() <= 16,
    ;

    proof fn encode_len(self)
        ensures
            self.encode().len() == Self::width(),
    ;

    /// Decoding looks at the value's own bytes only.
    proof fn decode_local(a: Seq<u8>, b: Seq<u8>, at: int)
        requires
            same_bytes(a, b, at, at + Self::width()),
        ensures
            Self::decode(a, at) == Self::decode(b, at),
    ;

    /// What was written is read back.
    proof fn decode_encode(self, b: Seq<u8>, at: int)
        requires
            0 <= at,
            at + Self::width() <= b.len(),
        ensures
            Self::decode(splice(b, at, self.encode()), at) == self,
    ;

    fn item_size() -> (n: usize)
        ensures
            n == Self::width(),
    ;

    fn item_align() -> (n: usize)
        ensures
            n == Self::alignment(),
    ;

    fn read_item(buf: &[u8; 0x100], at: usize) -> (v: Self)
        requires
            at + Self::width() <= IPC_BUFFER_SIZE,
        ensures
            v == Self::decode(buf@, at as int),
    ;

    fn write_item(&self, buf: &mut [u8; 0x100], at: usize)
        requires
            at + Self::width() <= IPC_BUFFER_SIZE,
        ensures
            final(buf)@ == splice(old(buf)@, at as int, (*self).encode()),
    ;
}

/// The `n` items that stand in `b` one after the other from `at` on.
pub open spec fn items_at<T: WireItem>(b: Seq<u8>, at: int, n: nat) -> Seq<T> {
    Seq::new(n, |i: int| T::decode(b, at + i * T::width()))
}

/// `b` with `items` written over it one after the other from `at` on.
pub open spec fn put_items<T: WireItem>(b: Seq<u8>, at: int, items: Seq<T>) -> Seq<u8>
    decreases items.len(),
{
    if items.len() == 0 {
        b
    } else {
        splice(
            put_items(b, at, items.drop_last()),
            at + (items.len() - 1) * T::width(),
            items.last().encode(),
        )
    }
}

/// Writing items changes their own bytes only, and they are read back.
pub proof fn lemma_put_items<T: WireItem>(b: Seq<u8>, at: int, items: Seq<T>)
    requires
        0 <= at,
        at + items.len() * T::width() <= b.len(),
    ensures
        put_items(b, at, items).len() == b.len(),
        same_bytes(b, put_items(b, at, items), 0, at),
        same_bytes(b, put_items(b, at, items), at + items.len() * T::width(), b.len() as int),
        items_at::<T>(put_items(b, at, items), at, items.len()) == items,
    decreases items.len(),
{
    T::width_bounds();
    let w = T::width() as int;
    if items.len() == 0 {
        assert(items_at::<T>(b, at, 0) =~= items);
    } else {
        let n = items.len() - 1;
        assert((n + 1) * w == n * w + w) by (nonlinear_arith);
        assert(0 <= n * w) by (nonlinear_arith)
            requires
                0 <= n,
                0 <= w,
        ;
        lemma_put_items(b, at, items.drop_last());
        let half = put_items(b, at, items.drop_last());
        let whole = put_items(b, at, items);
        items.last().encode_len();
        items.last().decode_encode(half, at + n * w);
        assert forall|i: int| 0 <= i < items.len() implies #[trigger] T::decode(whole, at + i * w)
            == items[i] by {
            if i < n {
                assert(0 <= i * w && i * w + w <= n * w) by (nonlinear_arith)
                    requires
                        0 <= i < n,
                        0 <= w,
                ;
                T::decode_local(half, whole, at + i * w);
                assert(items_at::<T>(half, at, n as nat)[i] == items.drop_last()[i]);
            }
        }
        assert(items_at::<T>(whole, at, items.len()) =~= items);
    }
}

/// Items look at their own bytes only.
pub proof fn lemma_items_local<T: WireItem>(a: Seq<u8>, b: Seq<u8>, at: int, n: nat)
    requires
        same_bytes(a, b, at, at + n * T::width()),
    ensures
        items_at::<T>(a, at, n) == items_at::<T>(b, at, n),
{
    T::width_bounds();
    let w = T::width() as int;
    assert forall|i: int| 0 <= i < n implies #[trigger] T::decode(a, at + i * w) == T::decode(
        b,
        at + i * w,
    ) by {
        assert(0 <= i * w && i * w + w <= n * w) by (nonlinear_arith)
            requires
                0 <= i < n,
                0 <= w,
        ;
        T::decode_local(a, b, at + i * w);
    }
    assert(items_at::<T>(a, at, n) =~= items_at::<T>(b, at, n));
}

/// Replaces the contents of `array` by the `count` items that stand in the
/// buffer from `at` on, and gives the offset behind them.
pub fn read_array_from_buffer<T: WireItem>(
    buf: &[u8; 0x100],
    at: usize,
    count: u32,
    array: &mut Vec<T>,
) -> (end: usize)
    requires
        at + count * T::width() <= IPC_BUFFER_SIZE,
    ensures
        final(array)@ == items_at::<T>(buf@, at as int, count as nat),
        end == at + count * T::width(),
{
    proof {
        T::width_bounds();
    }
    let size: usize = T::item_size();
    array.clear();
    let mut pos: usize = at;
    let mut i: u32 = 0;
    while i < count
        invariant
            i <= count,
            size == T::width(),
            1 <= size <= IPC_BUFFER_SIZE,
            pos == at + i * size,
            at + count * size <= IPC_BUFFER_SIZE,
            array@ == items_at::<T>(buf@, at as int, i as nat),
        decreases count - i,
    {
        assert(i * size + size <= count * size && (i + 1) * size == i * size + size)
            by (nonlinear_arith)
            requires
                i < count,
        ;
        let item = T::read_item(buf, pos);
        array.push(item);
        pos = pos + size;
        i = i + 1;
        assert(array@ =~= items_at::<T>(buf@, at as int, i as nat));
    }
    pos
}

/// Writes the items of `array` to the buffer from `at` on, and gives the
/// offset behind them.
pub fn write_array_to_buffer<T: WireItem>(
    buf: &mut [u8; 0x100],
    at: usize,
    array: &Vec<T>,
) -> (end: usize)
    requires
        at + array@.len() * T::width() <= IPC_BUFFER_SIZE,
    ensures
        final(buf)@ == put_items(old(buf)@, at as int, array@),
        end == at + array@.len() * T::width(),
{
    proof {
        T::width_bounds();
    }
    let size: usize = T::item_size();
    let mut pos: usize = at;
    let mut i: usize = 0;
    while i < array.len()
        invariant
            i <= array@.len(),
            size == T::width(),
            1 <= size <= IPC_BUFFER_SIZE,
            pos == at + i * size,
            at + array@.len() * size <= IPC_BUFFER_SIZE,
            buf@ == put_items(old(buf)@, at as int, array@.take(i as int)),
        decreases array@.len() - i,
    {
        assert(i * size + size <= array@.len() * size && (i + 1) * size == i * size + size)
            by (nonlinear_arith)
            requires
                i < array@.len(),
        ;
        array[i].write_item(buf, pos);
        pos = pos + size;
        assert(array@.take(i as int + 1).drop_last() =~= array@.take(i as int));
        i = i + 1;
    }
    assert(array@.take(i as int) =~= array@);
    pos
}

impl WireItem for u32 {
    open spec fn width() -> nat {
        4
    }

    open spec fn alignment() -> nat {
        4
    }

    open spec fn decode(b: Seq<u8>, at: int) -> Self {
        u32_at(b, at)
    }

    open spec fn encode(self) -> Seq<u8> {
        u32_bytes(self)
    }

    proof fn width_bounds() {
    }

    proof fn encode_len(self) {
    }

    proof fn decode_local(a: Seq<u8>, b: Seq<u8>, at: int) {
    }

    proof fn decode_encode(self, b: Seq<u8>, at: int) {
        lemma_u32_read_back(b, at, self);
    }

    fn item_size() -> (n: usize) {
        4
    }

    fn item_align() -> (n: usize) {
        4
    }

    fn read_item(buf: &[u8; 0x100], at: usize) -> (v: Self) {
        read_u32(buf, at)
    }

    fn write_item(&self, buf: &mut [u8; 0x100], at: usize) {
        write_u32(buf, at, *self);
    }
}

impl WireItem for u8 {
    open spec fn width() -> nat {
        1
    }

    open spec fn alignment() -> nat {
        1
    }

    open spec fn decode(b: Seq<u8>, at: int) -> Self {
        b[at]
    }

    open spec fn encode(self) -> Seq<u8> {
        seq![self]
    }

    proof fn width_bounds() {
    }

    proof fn encode_len(self) {
    }

    proof fn decode_local(a: Seq<u8>, b: Seq<u8>, at: int) {
    }

    proof fn decode_encode(self, b: Seq<u8>, at: int) {
    }

    fn item_size() -> (n: usize) {
        1
    }

    fn item_align() -> (n: usize) {
        1
    }

    fn read_item(buf: &[u8; 0x100], at: usize) -> (v: Self) {
        read_u8(buf, at)
    }

    fn write_item(&self, buf: &mut [u8; 0x100], at: usize) {
        write_u8(buf, at, *self);
    }
}

impl WireItem for u16 {
    open spec fn width() -> nat {
        2
    }

    open spec fn alignment() -> nat {
        2
    }

    open spec fn decode(b: Seq<u8>, at: int) -> Self {
        u16_at(b, at)
    }

    open spec fn encode(self) -> Seq<u8> {
        u16_bytes(self)
    }

    proof fn width_bounds() {
    }

    proof fn encode_len(self) {
    }

    proof fn decode_local(a: Seq<u8>, b: Seq<u8>, at: int) {
    }

    proof fn decode_encode(self, b: Seq<u8>, at: int) {
        lemma_u16_read_back(b, at, self);
    }

    fn item_size() -> (n: usize) {
        2
    }

    fn item_align() -> (n: usize) {
        2
    }

    fn read_item(buf: &[u8; 0x100], at: usize) -> (v: Self) {
        read_u16(buf, at)
    }

    fn write_item(&self, buf: &mut [u8; 0x100], at: usize) {
        write_u16(buf, at, *self);
    }
}

impl WireItem for u64 {
    open spec fn width() -> nat {
        8
    }

    open spec fn alignment() -> nat {
        8
    }

    open spec fn decode(b: Seq<u8>, at: int) -> Self {
        u64_at(b, at)
    }

    open spec fn encode(self) -> Seq<u8> {
        u64_bytes(self)
    }

    proof fn width_bounds() {
    }

    proof fn encode_len(self) {
    }

    proof fn decode_local(a: Seq<u8>, b: Seq<u8>, at: int) {
    }

    proof fn decode_encode(self, b: Seq<u8>, at: int) {
        lemma_u64_read_back(b, at, self);
    }

    fn item_size() -> (n: usize) {
        8
    }

    fn item_align() -> (n: usize) {
        8
    }

    fn read_item(buf: &[u8; 0x100], at: usize) -> (v: Self) {
        read_u64(buf, at)
    }

    fn write_item(&self, buf: &mut [u8; 0x100], at: usize) {
        write_u64(buf, at, *self);
    }
}

/// Two words, one after the other.
proof fn lemma_two_words_read_back(b: Seq<u8>, at: int, first: u32, second: u32)
    requires
        0 <= at,
        at + 8 <= b.len(),
    ensures
        u32_at(splice(b, at, u32_bytes(first) + u32_bytes(second)), at) == first,
        u32_at(splice(b, at, u32_bytes(first) + u32_bytes(second)), at + 4) == second,
        splice(b, at, u32_bytes(first) + u32_bytes(second)) == splice(
            splice(b, at, u32_bytes(first)),
            at + 4,
            u32_bytes(second),
        ),
{
    let half = splice(b, at, u32_bytes(first));
    let whole = splice(half, at + 4, u32_bytes(second));
    assert(whole =~= splice(b, at, u32_bytes(first) + u32_bytes(second)));
    lemma_u32_read_back(b, at, first);
    lemma_u32_read_back(half, at + 4, second);
    assert(same_bytes(half, whole, at, at + 4));
}

impl WireItem for SendStaticDescriptor {
    open spec fn width() -> nat {
        8
    }

    open spec fn alignment() -> nat {
        4
    }

    open spec fn decode(b: Seq<u8>, at: int) -> Self {
        SendStaticDescriptor { bits: u32_at(b, at), address_low: u32_at(b, at + 4) }
    }

    open spec fn encode(self) -> Seq<u8> {
        u32_bytes(self.bits) + u32_bytes(self.address_low)
    }

    proof fn width_bounds() {
    }

    proof fn encode_len(self) {
    }

    proof fn decode_local(a: Seq<u8>, b: Seq<u8>, at: int) {
    }

    proof fn decode_encode(self, b: Seq<u8>, at: int) {
        lemma_two_words_read_back(b, at, self.bits, self.address_low);
    }

    fn item_size() -> (n: usize) {
        8
    }

    fn item_align() -> (n: usize) {
        4
    }

    fn read_item(buf: &[u8; 0x100], at: usize) -> (v: Self) {
        SendStaticDescriptor { bits: read_u32(buf, at), address_low: read_u32(buf, at + 4) }
    }

    fn write_item(&self, buf: &mut [u8; 0x100], at: usize) {
        proof {
            lemma_two_words_read_back(buf@, at as int, self.bits, self.address_low);
        }
        write_u32(buf, at, self.bits);
        write_u32(buf, at + 4, self.address_low);
    }
}

impl WireItem for ReceiveStaticDescriptor {
    open spec fn width() -> nat {
        8
    }

    open spec fn alignment() -> nat {
        4
    }

    open spec fn decode(b: Seq<u8>, at: int) -> Self {
        ReceiveStaticDescriptor { address_low: u32_at(b, at), bits: u32_at(b, at + 4) }
    }

    open spec fn encode(self) -> Seq<u8> {
        u32_bytes(self.address_low) + u32_bytes(self.bits)
    }

    proof fn width_bounds() {
    }

    proof fn encode_len(self) {
    }

    proof fn decode_local(a: Seq<u8>, b: Seq<u8>, at: int) {
    }

    proof fn decode_encode(self, b: Seq<u8>, at: int) {
        lemma_two_words_read_back(b, at, self.address_low, self.bits);
    }

    fn item_size() -> (n: usize) {
        8
    }

    fn item_align() -> (n: usize) {
        4
    }

    fn read_item(buf: &[u8; 0x100], at: usize) -> (v: Self) {
        ReceiveStaticDescriptor { address_low: read_u32(buf, at), bits: read_u32(buf, at + 4) }
    }

    fn write_item(&self, buf: &mut [u8; 0x100], at: usize) {
        proof {
            lemma_two_words_read_back(buf@, at as int, self.address_low, self.bits);
        }
        write_u32(buf, at, self.address_low);
        write_u32(buf, at + 4, self.bits);
    }
}

impl WireItem for BufferDescriptor {
    open spec fn width() -> nat {
        12
    }

    open spec fn alignment() -> nat {
        4
    }

    open spec fn decode(b: Seq<u8>, at: int) -> Self {
        BufferDescriptor {
            size_low: u32_at(b, at),
            address_low: u32_at(b, at + 4),
            bits: u32_at(b, at + 8),
        }
    }

    open spec fn encode(self) -> Seq<u8> {
        u32_bytes(self.size_low) + u32_bytes(self.address_low) + u32_bytes(self.bits)
    }

    proof fn width_bounds() {
    }

    proof fn encode_len(self) {
    }

    proof fn decode_local(a: Seq<u8>, b: Seq<u8>, at: int) {
    }

    proof fn decode_encode(self, b: Seq<u8>, at: int) {
        let two = splice(b, at, u32_bytes(self.size_low) + u32_bytes(self.address_low));
        let whole = splice(two, at + 8, u32_bytes(self.bits));
        assert(whole =~= splice(b, at, self.encode()));
        lemma_two_words_read_back(b, at, self.size_low, self.address_low);
        lemma_u32_read_back(two, at + 8, self.bits);
        assert(same_bytes(two, whole, at, at + 8));
    }

    fn item_size() -> (n: usize) {
        12
    }

    fn item_align() -> (n: usize) {
        4
    }

    fn read_item(buf: &[u8; 0x100], at: usize) -> (v: Self) {
        BufferDescriptor {
            size_low: read_u32(buf, at),
            address_low: read_u32(buf, at + 4),
            bits: read_u32(buf, at + 8),
        }
    }

    fn write_item(&self, buf: &mut [u8; 0x100], at: usize) {
        write_u32(buf, at, self.size_low);
        write_u32(buf, at + 4, self.address_low);
        write_u32(buf, at + 8, self.bits);
        assert(buf@ =~= splice(old(buf)@, at as int, self.encode()));
    }
}

} // verus!
