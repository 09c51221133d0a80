//! Identifiers of identities, documents and contracts, and the hash that names a wallet.

use vstd::prelude::*;

verus! {

/// Hash of a wallet's seed: the name under which the wallet is stored.
pub type WalletSeedHash = [u8; 32];

/// The 32 bytes that identify an identity, a document or a contract.
#[derive(Clone, Copy, Debug, PartialEq, Eq)]
pub struct Identifier {
    pub bytes: [u8; 32],
}

impl View for Identifier {
    type V = Seq<u8>;

    open spec fn view(&self) -> Seq<u8> {
        self.bytes@
    }
}

/// Two arrays with the same bytes are equal.
pub proof fn lemma_array_ext(a: [u8; 32], b: [u8; 32])
    requires
        a@ == b@,
    ensures
        a == b,
{
}

/// Copies 32 bytes into an array.
pub(crate) fn to_array_32(bytes: &[u8]) -> (r: [u8; 32])
    requires
        bytes@.len() == 32,
    ensures
        r@ == bytes@,
{
    let mut out: [u8; 32] = [0u8; 32];
    let mut i: usize = 0;
    while i < 32
        invariant
            i <= 32,
            bytes@.len() == 32,
            forall|j: int| 0 <= j < i ==> out@[j] == bytes@[j],
        decreases 32 - i,
    {
        out[i] = bytes[i];
        i = i + 1;
    }
    assert(out@ =~= bytes@);
    out
}

impl Identifier {
    /// Reads an identifier: any 32 bytes are one, any other number of bytes is none.
    pub fn from_bytes(bytes: &[u8]) -> (r: Option<Identifier>)
        ensures
            r is Some <==> bytes@.len() == 32,
            r matches Some(id) ==> id@ == bytes@,
    {
        if bytes.len() != 32 {
            return None;
        }
        Some(Identifier { bytes: to_array_32(bytes) })
    }

    /// The bytes of the identifier.
    pub fn to_buffer(&self) -> (r: [u8; 32])
        ensures
            r@ == self@,
            r == self.bytes,
    {
        self.bytes
    }

    /// Whether two identifiers are the same.
    pub fn same(&self, other: &Identifier) -> (r: bool)
        ensures
            r == (*self == *other),
            r == (self@ == other@),
    {
        let mut i: usize = 0;
        while i < 32
            invariant
                i <= 32,
                forall|j: int| 0 <= j < i ==> self.bytes@[j] == other.bytes@[j],
            decreases 32 - i,
        {
            if self.bytes[i] != other.bytes[i] {
                assert(self.bytes@[i as int] != other.bytes@[i as int]);
                return false;
            }
            i = i + 1;
        }
        assert(self.bytes@ =~= other.bytes@);
        proof {
            lemma_array_ext(self.bytes, other.bytes);
        }
        true
    }
}

} // verus!
