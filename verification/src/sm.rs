//! Names under which services are registered.

use vstd::prelude::*;
use vstd::string::StringSliceAdditionalSpecFns;

verus! {

/// The name of a service: up to eight bytes, the first one lowest. Zero is the
/// empty name.
#[derive(Copy, Clone, PartialEq, Eq, Structural, Debug)]
pub struct ServiceName {
    pub value: u64,
}

/// A process that opens a session of a service.
#[derive(Copy, Clone, PartialEq, Eq, Structural, Debug)]
pub struct MitmProcessInfo {
    pub process_id: u64,
    pub program_id: u64,
    pub keys_held: u64,
    pub override_flags: u64,
}

/// The number whose base-256 digits, lowest first, are the bytes.
pub open spec fn little_endian(bytes: Seq<u8>) -> nat
    decreases bytes.len(),
{
    if bytes.len() == 0 {
        0
    } else {
        bytes[0] as nat + 0x100 * little_endian(bytes.skip(1))
    }
}

/// The first eight of the bytes, or all of them.
pub open spec fn name_part(bytes: Seq<u8>) -> Seq<u8> {
    if bytes.len() <= 8 {
        bytes
    } else {
        bytes.take(8)
    }
}

/// A bound on a number of so many digits.
pub open spec fn digit_limit(n: nat) -> nat
    decreases n,
{
    if n == 0 {
        1
    } else {
        0x100 * digit_limit((n - 1) as nat)
    }
}

proof fn lemma_digit_limit(bytes: Seq<u8>)
    ensures
        little_endian(bytes) < digit_limit(bytes.len()),
    decreases bytes.len(),
{
    if bytes.len() > 0 {
        lemma_digit_limit(bytes.skip(1));
    }
}

proof fn lemma_digit_limit_monotonic(m: nat, n: nat)
    requires
        m <= n,
    ensures
        1 <= digit_limit(m) <= digit_limit(n),
    decreases n,
{
    if m < n {
        lemma_digit_limit_monotonic(m, (n - 1) as nat);
    } else if m > 0 {
        lemma_digit_limit_monotonic((m - 1) as nat, (n - 1) as nat);
    }
}

impl ServiceName {
    /// The name that starts with these characters; what is behind the eighth
    /// byte is left out.
    pub fn new(name: &str) -> (n: Self)
        ensures
            n.value as nat == little_endian(name_part(name.spec_bytes())),
    {
        let bytes = name.as_bytes();
        let len: usize = if bytes.len() <= 8 {
            bytes.len()
        } else {
            8
        };
        let ghost part = name_part(bytes@);
        assert(part.len() == len);
        let mut value: u64 = 0;
        let mut i: usize = len;
        assert(part.skip(len as int) =~= Seq::<u8>::empty());
        while i > 0
            invariant
                i <= len <= 8,
                len <= bytes@.len(),
                part == name_part(bytes@),
                part.len() == len,
                value as nat == little_endian(part.skip(i as int)),
            decreases i,
        {
            i = i - 1;
            proof {
                assert(part.skip(i as int).skip(1) =~= part.skip(i + 1));
                lemma_digit_limit(part.skip(i + 1));
                lemma_digit_limit_monotonic(part.skip(i + 1).len(), 7);
                reveal_with_fuel(digit_limit, 8);
            }
            value = bytes[i] as u64 + 0x100 * value;
        }
        assert(part.skip(0) =~= part);
        ServiceName { value }
    }

    pub fn empty() -> (n: Self)
        ensures
            n.value == 0,
    {
        ServiceName { value: 0 }
    }

    pub fn is_empty(&self) -> (b: bool)
        ensures
            b == (self.value == 0),
    {
        self.value == 0
    }
}

} // verus!
