//! Identities of contributors, creators and collaborating services.

use vstd::prelude::*;

verus! {

/// An identity, held as the significant bytes of a principal.
#[derive(Clone, Debug, PartialEq, Eq, Hash)]
pub struct Identity {
    pub bytes: Vec<u8>,
}

impl View for Identity {
    type V = Seq<u8>;

    open spec fn view(&self) -> Seq<u8> {
        self.bytes@
    }
}

/// The bytes of the anonymous principal: the single tag byte 4.
pub open spec fn anonymous_bytes() -> Seq<u8> {
    seq![4u8]
}

/// Calls `candid::Principal::anonymous` and copies out its significant bytes
/// with `Principal::as_slice`. The contract claims that these are exactly the
/// one byte 4, the tag that the principal's constructor writes with length 1.
#[verifier::external_body]
fn anonymous_principal_bytes() -> (bytes: Vec<u8>)
    ensures
        bytes@ == anonymous_bytes(),
{
    candid::Principal::anonymous().as_slice().to_vec()
}

impl Identity {
    /// The identity with the given bytes.
    pub fn from_bytes(bytes: Vec<u8>) -> (id: Identity)
        ensures
            id@ == bytes@,
    {
        Identity { bytes }
    }

    /// The anonymous identity.
    pub fn anonymous() -> (id: Identity)
        ensures
            id@ == anonymous_bytes(),
    {
        Identity { bytes: anonymous_principal_bytes() }
    }

    /// Whether two identities have the same bytes.
    pub fn same(&self, other: &Identity) -> (eq: bool)
        ensures
            eq == (self@ == other@),
    {
        if self.bytes.len() != other.bytes.len() {
            return false;
        }
        let mut i: usize = 0;
        while i < self.bytes.len()
            invariant
                self.bytes.len() == other.bytes.len(),
                i <= self.bytes.len(),
                forall|j: int| 0 <= j < i ==> self.bytes@[j] == other.bytes@[j],
            decreases self.bytes.len() - i,
        {
            if self.bytes[i] != other.bytes[i] {
                return false;
            }
            i += 1;
        }
        assert(self@ =~= other@);
        true
    }

    /// A copy of this identity.
    pub fn duplicate(&self) -> (id: Identity)
        ensures
            id@ == self@,
    {
        let bytes = self.bytes.clone();
        assert(bytes@ =~= self.bytes@);
        Identity { bytes }
    }
}

} // verus!
