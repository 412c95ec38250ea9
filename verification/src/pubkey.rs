//! Identities of principals, token mints and vaults.

use vstd::prelude::*;

verus! {

/// A 32-byte identity, as the host hands it out for principals, mints,
/// vaults and stake accounts. Two identities are the same exactly when all
/// their bytes agree.
#[derive(Clone, Copy, Debug, Eq)]
pub struct Pubkey {
    pub bytes: [u8; 32],
}

impl PartialEq for Pubkey {
    fn eq(&self, other: &Self) -> (r: bool) {
        let mut i: usize = 0;
        while i < 32
            invariant
                0 <= i <= 32,
                forall|j: int| 0 <= j < i ==> self.bytes[j] == other.bytes[j],
            decreases 32 - i,
        {
            if self.bytes[i] != other.bytes[i] {
                return false;
            }
            i += 1;
        }
        proof {
            assert(self.bytes =~= other.bytes);
        }
        true
    }
}

impl vstd::std_specs::cmp::PartialEqSpecImpl for Pubkey {
    open spec fn obeys_eq_spec() -> bool {
        true
    }

    open spec fn eq_spec(&self, other: &Self) -> bool {
        *self == *other
    }
}

impl Default for Pubkey {
    /// The all-zero identity, which stands for "not set yet".
    fn default() -> (r: Self)
        ensures
            r.is_unset(),
    {
        Pubkey { bytes: [0u8; 32] }
    }
}

impl Pubkey {
    /// Whether every byte is zero.
    pub open spec fn is_unset(&self) -> bool {
        forall|i: int| 0 <= i < 32 ==> self.bytes[i] == 0u8
    }
}

} // verus!
