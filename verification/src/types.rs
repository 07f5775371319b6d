//! The fixed-width byte values that transactions are made of: identities,
//! replay tokens and signatures. Each is compared byte by byte.

use vstd::prelude::*;
use vstd::std_specs::cmp::PartialEqSpecImpl;

verus! {

/// Whether two byte slices hold the same bytes.
pub fn bytes_equal(a: &[u8], b: &[u8]) -> (r: bool)
    ensures
        r == (a@ == b@),
{
    if a.len() != b.len() {
        return false;
    }
    let mut i: usize = 0;
    while i < a.len()
        invariant
            a@.len() == b@.len(),
            i <= a@.len(),
            forall|k: int| 0 <= k < i ==> a@[k] == b@[k],
        decreases a@.len() - i,
    {
        if a[i] != b[i] {
            return false;
        }
        i += 1;
    }
    assert(a@ =~= b@);
    true
}

/// The identity of a party or of an account.
#[derive(Debug, Clone, Copy, Hash)]
pub struct Identity {
    pub bytes: [u8; 32],
}

impl PartialEq for Identity {
    fn eq(&self, other: &Self) -> (r: bool) {
        proof {
            broadcast use vstd::array::axiom_array_ext_equal;

            assert(self.bytes@ == other.bytes@ ==> self.bytes =~= other.bytes);
        }
        bytes_equal(self.bytes.as_slice(), other.bytes.as_slice())
    }
}

impl PartialEqSpecImpl for Identity {
    open spec fn obeys_eq_spec() -> bool {
        true
    }

    open spec fn eq_spec(&self, other: &Self) -> bool {
        *self == *other
    }
}

impl Eq for Identity {

}

/// The value that a transaction embeds so that the same bytes cannot be
/// executed twice.
#[derive(Debug, Clone, Copy, Hash)]
pub struct Token {
    pub bytes: [u8; 32],
}

impl PartialEq for Token {
    fn eq(&self, other: &Self) -> (r: bool) {
        proof {
            broadcast use vstd::array::axiom_array_ext_equal;

            assert(self.bytes@ == other.bytes@ ==> self.bytes =~= other.bytes);
        }
        bytes_equal(self.bytes.as_slice(), other.bytes.as_slice())
    }
}

impl PartialEqSpecImpl for Token {
    open spec fn obeys_eq_spec() -> bool {
        true
    }

    open spec fn eq_spec(&self, other: &Self) -> bool {
        *self == *other
    }
}

impl Eq for Token {

}

/// A signature over a message.
#[derive(Debug, Clone, Copy, Hash)]
pub struct Signature {
    pub bytes: [u8; 64],
}

impl PartialEq for Signature {
    fn eq(&self, other: &Self) -> (r: bool) {
        proof {
            broadcast use vstd::array::axiom_array_ext_equal;

            assert(self.bytes@ == other.bytes@ ==> self.bytes =~= other.bytes);
        }
        bytes_equal(self.bytes.as_slice(), other.bytes.as_slice())
    }
}

impl PartialEqSpecImpl for Signature {
    open spec fn obeys_eq_spec() -> bool {
        true
    }

    open spec fn eq_spec(&self, other: &Self) -> bool {
        *self == *other
    }
}

impl Eq for Signature {

}

} // verus!
