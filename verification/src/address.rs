//! Opaque 32-byte identities: calling principals and code identities.

use vstd::prelude::*;

verus! {

/// Number of bytes in an [`Address`] and in a [`CodeHash`].
pub const IDENTITY_LEN: usize = 32;

/// The identity of a calling principal.
///
/// Two addresses are the same principal exactly when their bytes agree;
/// nothing else is ever asked of an address.
#[derive(Clone, Copy, Debug, Eq)]
pub struct Address {
    pub bytes: [u8; 32],
}

impl View for Address {
    type V = Seq<u8>;

    open spec fn view(&self) -> Seq<u8> {
        self.bytes@
    }
}

/// Byte-wise comparison of two 32-byte identities.
fn same_bytes(a: &[u8; 32], b: &[u8; 32]) -> (r: bool)
    ensures
        r == (a@ == b@),
        r == (*a == *b),
{
    let mut i: usize = 0;
    while i < IDENTITY_LEN
        invariant
            i <= IDENTITY_LEN,
            forall|k: int| 0 <= k < i ==> a@[k] == b@[k],
        decreases IDENTITY_LEN - i,
    {
        if a[i] != b[i] {
            return false;
        }
        i += 1;
    }
    proof {
        assert(a@ =~= b@);
        assert(*a =~= *b);
    }
    true
}

impl Address {
    /// The address made of the given bytes.
    pub fn new(bytes: [u8; 32]) -> (r: Address)
        ensures
            r.bytes == bytes,
            r@ == bytes@,
    {
        Address { bytes }
    }

    /// Addresses are determined by their bytes.
    pub proof fn lemma_view_injective(a: Address, b: Address)
        ensures
            (a@ == b@) <==> (a == b),
    {
        if a@ == b@ {
            assert(a.bytes =~= b.bytes);
        }
    }
}

impl PartialEq for Address {
    fn eq(&self, other: &Address) -> (r: bool) {
        same_bytes(&self.bytes, &other.bytes)
    }
}

impl vstd::std_specs::cmp::PartialEqSpecImpl for Address {
    open spec fn obeys_eq_spec() -> bool {
        true
    }

    open spec fn eq_spec(&self, other: &Address) -> bool {
        *self == *other
    }
}

/// The identity of a piece of deployed code, from which the host can make a
/// new instance.
#[derive(Clone, Copy, Debug, Eq)]
pub struct CodeHash {
    pub bytes: [u8; 32],
}

impl View for CodeHash {
    type V = Seq<u8>;

    open spec fn view(&self) -> Seq<u8> {
        self.bytes@
    }
}

impl CodeHash {
    /// The code identity made of the given bytes.
    pub fn new(bytes: [u8; 32]) -> (r: CodeHash)
        ensures
            r.bytes == bytes,
            r@ == bytes@,
    {
        CodeHash { bytes }
    }
}

impl PartialEq for CodeHash {
    fn eq(&self, other: &CodeHash) -> (r: bool) {
        same_bytes(&self.bytes, &other.bytes)
    }
}

impl vstd::std_specs::cmp::PartialEqSpecImpl for CodeHash {
    open spec fn obeys_eq_spec() -> bool {
        true
    }

    open spec fn eq_spec(&self, other: &CodeHash) -> bool {
        *self == *other
    }
}

} // verus!
