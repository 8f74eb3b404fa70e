use vstd::bytes::{spec_u64_to_le_bytes, u64_to_le_bytes};
use vstd::prelude::*;

use crate::errors::AmmError;

verus! {

/// A 32-byte account identity, as the custody host names accounts and
/// authorities.
pub struct Pubkey {
    pub bytes: Vec<u8>,
}

impl Pubkey {
    /// An identity is exactly 32 bytes long.
    pub open spec fn wf(self) -> bool {
        self.bytes@.len() == 32
    }

    /// Byte-for-byte comparison of two identities.
    pub fn eq_key(&self, other: &Pubkey) -> (r: bool)
        ensures
            r <==> self.bytes@ == other.bytes@,
    {
        if self.bytes.len() != other.bytes.len() {
            return false;
        }
        let mut i: usize = 0;
        while i < self.bytes.len()
            invariant
                i <= self.bytes@.len(),
                self.bytes@.len() == other.bytes@.len(),
                forall|j: int| 0 <= j < i ==> self.bytes@[j] == other.bytes@[j],
            decreases self.bytes@.len() - i,
        {
            if self.bytes[i] != other.bytes[i] {
                return false;
            }
            i += 1;
        }
        proof {
            assert(self.bytes@ =~= other.bytes@);
        }
        true
    }
}

/// The structural tag that prefixes the pool's seed material: the ASCII
/// bytes of the word `config`.
pub open spec fn spec_config_tag() -> Seq<u8> {
    seq![99u8, 111u8, 110u8, 102u8, 105u8, 103u8]
}

/// The seed material from which the pool's own signing identity is derived:
/// the structural tag, the pool seed in little-endian bytes, and the
/// derivation nonce recorded at pool creation. Reproduced fresh for every
/// outbound transfer and never persisted.
pub fn signer_seeds(seed: u64, config_bump: u8) -> (r: Vec<Vec<u8>>)
    ensures
        r@.len() == 3,
        r@[0]@ == spec_config_tag(),
        r@[1]@ == spec_u64_to_le_bytes(seed),
        r@[2]@ == seq![config_bump],
{
    let tag: Vec<u8> = vec![99u8, 111u8, 110u8, 102u8, 105u8, 103u8];
    proof {
        assert(tag@ =~= spec_config_tag());
    }
    let seed_bytes: Vec<u8> = u64_to_le_bytes(seed);
    let nonce: Vec<u8> = vec![config_bump];
    proof {
        assert(nonce@ =~= seq![config_bump]);
    }
    let mut r: Vec<Vec<u8>> = Vec::new();
    r.push(tag);
    r.push(seed_bytes);
    r.push(nonce);
    r
}

/// Hold a freshly derived signing identity against the authority recorded
/// on a custody account: a mismatch means the configuration has drifted and
/// no outbound transfer may be authorized.
pub fn check_authority(derived: &Pubkey, recorded: &Pubkey) -> (r: Result<(), AmmError>)
    ensures
        derived.bytes@ == recorded.bytes@ ==> r == Ok::<(), AmmError>(()),
        derived.bytes@ != recorded.bytes@ ==> r == Err::<(), AmmError>(AmmError::InvalidAuthority),
{
    if derived.eq_key(recorded) {
        Ok(())
    } else {
        Err(AmmError::InvalidAuthority)
    }
}

} // verus!
