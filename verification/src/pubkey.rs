use vstd::prelude::*;

verus! {

/// A 32-byte account address.
#[derive(Clone, Copy, Debug)]
pub struct Pubkey(pub [u8; 32]);

impl Pubkey {
    /// The key made of the given bytes.
    pub fn new_from_array(bytes: [u8; 32]) -> (r: Pubkey)
        ensures
            r.0 == bytes,
    {
        Pubkey(bytes)
    }

    /// The bytes of the key.
    pub fn to_bytes(&self) -> (r: [u8; 32])
        ensures
            r == self.0,
    {
        self.0
    }

    /// Whether two keys hold the same bytes.
    pub fn equals(&self, other: &Pubkey) -> (r: bool)
        ensures
            r == (*self == *other),
    {
        let mut i: usize = 0;
        while i < 32
            invariant
                i <= 32,
                forall|k: int| 0 <= k < i ==> self.0[k] == other.0[k],
            decreases 32 - i,
        {
            if self.0[i] != other.0[i] {
                return false;
            }
            i += 1;
        }
        assert(self.0 =~= other.0);
        true
    }
}

impl Default for Pubkey {
    /// The all-zero key.
    fn default() -> (r: Pubkey)
        ensures
            forall|k: int| 0 <= k < 32 ==> r.0[k] == 0,
    {
        Pubkey([0u8; 32])
    }
}

} // verus!
