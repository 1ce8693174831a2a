use vstd::prelude::*;

verus! {

/// The 32 bytes of the mint that stands for the ledger's native currency
/// (`So11111111111111111111111111111111111111112`).
pub const NATIVE_SOL_MINT_BYTES: [u8; 32] = [
    6, 155, 136, 87, 254, 171, 129, 132, 251, 104, 127, 99, 70, 24, 192, 53,
    218, 196, 57, 220, 26, 235, 59, 85, 152, 160, 240, 0, 0, 0, 0, 1,
];

/// A 32-byte account identity: a party, a mint or a custody address.
#[derive(Clone, Copy, Debug, PartialEq, Eq, Hash)]
pub struct Address {
    pub bytes: [u8; 32],
}

/// The identity reserved for payment in the native currency.
pub open spec fn native_sol_mint() -> Address {
    Address { bytes: NATIVE_SOL_MINT_BYTES }
}

impl Address {
    pub fn new(bytes: [u8; 32]) -> (r: Address)
        ensures
            r.bytes == bytes,
    {
        Address { bytes }
    }

    /// Whether this mint denotes the native currency rather than a token.
    pub fn is_native_mint(&self) -> (r: bool)
        ensures
            r == (*self == native_sol_mint()),
    {
        let native = Address { bytes: NATIVE_SOL_MINT_BYTES };
        self.same_as(&native)
    }

    /// Byte-wise equality of two identities.
    pub fn same_as(&self, other: &Address) -> (r: bool)
        ensures
            r == (*self == *other),
    {
        let mut i: usize = 0;
        while i < 32
            invariant
                i <= 32,
                forall|j: int| 0 <= j < i ==> self.bytes[j] == other.bytes[j],
            decreases 32 - i,
        {
            if self.bytes[i] != other.bytes[i] {
                return false;
            }
            i = i + 1;
        }
        proof {
            assert(self.bytes =~= other.bytes);
        }
        true
    }
}

} // verus!
