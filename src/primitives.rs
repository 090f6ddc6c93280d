//! Fixed-size byte values: content hashes, origin addresses and signatures.

use vstd::prelude::*;

verus! {

/// A 256-bit content hash.
#[derive(Clone, Copy, Debug)]
pub struct H256(pub [u8; 32]);

/// The 20-byte address that identifies an origin.
#[derive(Clone, Copy, Debug)]
pub struct Address(pub [u8; 20]);

/// A 65-byte recoverable signature.
#[derive(Clone, Copy, Debug)]
pub struct Signature(pub [u8; 65]);

/// Compares two byte arrays element by element.
pub fn bytes_eq<const N: usize>(a: &[u8; N], b: &[u8; N]) -> (r: bool)
    ensures
        r == (*a == *b),
{
    let mut i: usize = 0;
    while i < N
        invariant
            0 <= i <= N,
            a@.len() == N,
            b@.len() == N,
            forall|j: int| 0 <= j < i ==> a@[j] == b@[j],
        decreases N - i,
    {
        if a[i] != b[i] {
            return false;
        }
        i = i + 1;
    }
    proof {
        assert(a@ =~= b@);
        broadcast use vstd::array::axiom_array_ext_equal;
        assert(*a =~= *b);
    }
    true
}

impl PartialEq for H256 {
    fn eq(&self, other: &H256) -> (r: bool) {
        bytes_eq(&self.0, &other.0)
    }
}

impl vstd::std_specs::cmp::PartialEqSpecImpl for H256 {
    open spec fn obeys_eq_spec() -> bool {
        true
    }

    open spec fn eq_spec(&self, other: &H256) -> bool {
        *self == *other
    }
}

impl Eq for H256 {}

impl PartialEq for Address {
    fn eq(&self, other: &Address) -> (r: bool) {
        bytes_eq(&self.0, &other.0)
    }
}

impl vstd::std_specs::cmp::PartialEqSpecImpl for Address {
    open spec fn obeys_eq_spec() -> bool {
        true
    }

    open spec fn eq_spec(&self, other: &Address) -> bool {
        *self == *other
    }
}

impl Eq for Address {}

impl PartialEq for Signature {
    fn eq(&self, other: &Signature) -> (r: bool) {
        bytes_eq(&self.0, &other.0)
    }
}

impl vstd::std_specs::cmp::PartialEqSpecImpl for Signature {
    open spec fn obeys_eq_spec() -> bool {
        true
    }

    open spec fn eq_spec(&self, other: &Signature) -> bool {
        *self == *other
    }
}

impl Eq for Signature {}

/// What Keccak-256 yields for the given input bytes.
pub uninterp spec fn keccak256_of(data: Seq<u8>) -> [u8; 32];

/// Relies on sha3::Keccak256: the 32-byte digest is a function of the input bytes.
#[verifier::external_body]
pub(crate) fn keccak256(data: &Vec<u8>) -> (r: H256)
    ensures
        r.0 == keccak256_of(data@),
{
    H256(<sha3::Keccak256 as sha3::Digest>::digest(data.as_slice()).into())
}

} // verus!
