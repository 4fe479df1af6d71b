//! ACPI: checking the Root System Description Pointer.
use vstd::prelude::*;

verus! {

use crate::error::{Error, ErrorKind, Result};

/// Size of a version 2 RSDP in bytes.
pub const RSDP_SIZE: usize = 36;

/// The signature an RSDP starts with: `"RSD PTR "`.
pub const RSDP_SIGNATURE: [u8; 8] = [0x52, 0x53, 0x44, 0x20, 0x50, 0x54, 0x52, 0x20];

/// The sum, modulo 256, of `s`.
pub open spec fn byte_sum(s: Seq<u8>) -> nat
    decreases s.len(),
{
    if s.len() == 0 {
        0
    } else {
        ((byte_sum(s.drop_last()) + s.last()) % 256) as nat
    }
}

/// The sum, modulo 256, of the first `n` bytes of `data`.
pub fn sum_bytes(data: &[u8], n: usize) -> (r: u8)
    requires
        n <= data@.len(),
    ensures
        r == byte_sum(data@.subrange(0, n as int)),
{
    let mut sum: u8 = 0;
    let mut i: usize = 0;
    while i < n
        invariant
            i <= n <= data@.len(),
            sum == byte_sum(data@.subrange(0, i as int)),
        decreases n - i,
    {
        let ghost t = data@.subrange(0, i as int + 1);
        assert(t.drop_last() == data@.subrange(0, i as int));
        sum = sum.wrapping_add(data[i]);
        i = i + 1;
    }
    sum
}

/// The Root System Description Pointer, kept as its 36 bytes.
pub struct Rsdp {
    bytes: Vec<u8>,
}

impl Rsdp {
    /// The bytes.
    pub closed spec fn spec_bytes(&self) -> Seq<u8> {
        self.bytes@
    }

    /// The RSDP in the first 36 bytes of `data`; `None` when there are
    /// fewer.
    pub fn from_bytes(data: &[u8]) -> (r: Option<Rsdp>)
        ensures
            data@.len() >= RSDP_SIZE ==> (r matches Some(p) && p.spec_bytes() == data@.subrange(0, 36)),
            data@.len() < RSDP_SIZE ==> r is None,
    {
        if data.len() < RSDP_SIZE {
            return None;
        }
        let mut bytes: Vec<u8> = Vec::new();
        let mut i: usize = 0;
        while i < RSDP_SIZE
            invariant
                i <= RSDP_SIZE <= data@.len(),
                bytes@ == data@.subrange(0, i as int),
            decreases RSDP_SIZE - i,
        {
            bytes.push(data[i]);
            i = i + 1;
        }
        Some(Rsdp { bytes })
    }

    /// Whether the RSDP is valid: the signature `"RSD PTR "`, revision 2
    /// (byte 15), and both the first 20 and all 36 bytes summing to zero.
    pub open spec fn spec_is_valid(&self) -> bool {
        &&& self.spec_bytes().subrange(0, 8) == RSDP_SIGNATURE@
        &&& self.spec_bytes()[15] == 2
        &&& byte_sum(self.spec_bytes().subrange(0, 20)) == 0
        &&& byte_sum(self.spec_bytes().subrange(0, 36)) == 0
    }

    /// Whether the RSDP is valid (see `spec_is_valid`).
    pub fn is_valid(&self) -> (r: bool)
        requires
            self.spec_bytes().len() == RSDP_SIZE,
        ensures
            r == self.spec_is_valid(),
    {
        let mut i: usize = 0;
        while i < 8
            invariant
                i <= 8,
                self.spec_bytes().len() == RSDP_SIZE,
                forall|j: int| 0 <= j < i ==> self.spec_bytes()[j] == RSDP_SIGNATURE@[j],
            decreases 8 - i,
        {
            if self.bytes[i] != RSDP_SIGNATURE[i] {
                assert(self.spec_bytes().subrange(0, 8)[i as int] != RSDP_SIGNATURE@[i as int]);
                return false;
            }
            i = i + 1;
        }
        assert(self.spec_bytes().subrange(0, 8) =~= RSDP_SIGNATURE@);
        if self.bytes[15] != 2 {
            return false;
        }
        if sum_bytes(self.bytes.as_slice(), 20) != 0 {
            return false;
        }
        if sum_bytes(self.bytes.as_slice(), 36) != 0 {
            return false;
        }
        true
    }
}

/// Checks the RSDP: it is returned when valid, an `InvalidRsdp` error
/// otherwise.
pub fn check_rsdp(rsdp: Rsdp) -> (r: Result<Rsdp>)
    requires
        rsdp.spec_bytes().len() == RSDP_SIZE,
    ensures
        rsdp.spec_is_valid() ==> (r matches Ok(p) && p.spec_bytes() == rsdp.spec_bytes()),
        !rsdp.spec_is_valid() ==> r == Err::<Rsdp, Error>(Error { kind: ErrorKind::InvalidRsdp }),
{
    if !rsdp.is_valid() {
        return Err(Error::new(ErrorKind::InvalidRsdp));
    }
    Ok(rsdp)
}

} // verus!
