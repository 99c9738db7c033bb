//! Fixed-size opaque domain values.

use vstd::prelude::*;

verus! {

/// An opaque 32-byte value of the proof scheme's domain: a commitment, a
/// replica identifier, or the all-zero value that a start seed carries.
#[derive(Clone, Copy, Debug)]
pub struct Domain {
    pub bytes: [u8; 32],
}

impl View for Domain {
    type V = Seq<u8>;

    open spec fn view(&self) -> Seq<u8> {
        self.bytes@
    }
}

impl PartialEq for Domain {
    fn eq(&self, other: &Domain) -> (same: bool) {
        let mut i: usize = 0;
        while i < 32
            invariant
                i <= 32,
                forall|j: int| 0 <= j < i ==> self.bytes@[j] == other.bytes@[j],
            decreases 32 - i,
        {
            if self.bytes[i] != other.bytes[i] {
                return false;
            }
            i += 1;
        }
        assert(self.bytes@ =~= other.bytes@);
        true
    }
}

impl vstd::std_specs::cmp::PartialEqSpecImpl for Domain {
    open spec fn obeys_eq_spec() -> bool {
        true
    }

    open spec fn eq_spec(&self, other: &Domain) -> bool {
        self@ == other@
    }
}

impl Eq for Domain {

}

impl Domain {
    /// The all-zero value.
    pub fn zero() -> (d: Domain)
        ensures
            d@ == Seq::new(32, |i: int| 0u8),
    {
        let d = Domain { bytes: [0u8; 32] };
        assert(d@ =~= Seq::new(32, |i: int| 0u8));
        d
    }

    /// Two values with the same bytes are the same value.
    pub proof fn lemma_same_bytes(a: Domain, b: Domain)
        ensures
            a@ == b@ <==> a == b,
    {
        if a@ == b@ {
            assert(a.bytes =~= b.bytes);
        }
    }

    /// The bytes of the value.
    pub fn as_bytes(&self) -> (bytes: &[u8])
        ensures
            bytes@ == self@,
    {
        self.bytes.as_slice()
    }
}

} // verus!
