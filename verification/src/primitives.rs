//! Plain values that cross the trust boundary: addresses, digests,
//! signatures, and helpers on byte strings.

use vstd::prelude::*;
use vstd::std_specs::cmp::PartialEqSpecImpl;

verus! {

/// A 20-byte account address.
#[derive(Debug, Clone, Copy)]
pub struct Address(pub [u8; 20]);

/// A 32-byte hash.
#[derive(Debug, Clone, Copy)]
pub struct Digest(pub [u8; 32]);

/// An ECDSA signature over secp256k1: the scalars `r` and `s`, big-endian,
/// and the parity of the curve point's `y`.
#[derive(Debug, Clone, Copy)]
pub struct Signature {
    pub r: [u8; 32],
    pub s: [u8; 32],
    pub y_parity: bool,
}

impl View for Address {
    type V = Seq<u8>;

    open spec fn view(&self) -> Seq<u8> {
        self.0@
    }
}

impl View for Digest {
    type V = Seq<u8>;

    open spec fn view(&self) -> Seq<u8> {
        self.0@
    }
}

/// Whether two byte strings are the same.
pub fn bytes_equal(a: &[u8], b: &[u8]) -> (same: bool)
    ensures
        same == (a@ == b@),
{
    if a.len() != b.len() {
        return false;
    }
    let mut i: usize = 0;
    while i < a.len()
        invariant
            0 <= i <= a.len(),
            a.len() == b.len(),
            forall|j: int| 0 <= j < i ==> a@[j] == b@[j],
        decreases a.len() - i,
    {
        if a[i] != b[i] {
            return false;
        }
        i = i + 1;
    }
    assert(a@ =~= b@);
    true
}

/// Appends `src` to `out`.
pub fn append_bytes(out: &mut Vec<u8>, src: &[u8])
    ensures
        final(out)@ == old(out)@ + src@,
{
    let mut i: usize = 0;
    while i < src.len()
        invariant
            0 <= i <= src.len(),
            out@ == old(out)@ + src@.take(i as int),
        decreases src.len() - i,
    {
        out.push(src[i]);
        i = i + 1;
        assert(out@ =~= old(out)@ + src@.take(i as int));
    }
    assert(src@.take(src.len() as int) == src@);
}

impl PartialEq for Address {
    fn eq(&self, other: &Self) -> (same: bool) {
        bytes_equal(self.0.as_slice(), other.0.as_slice())
    }
}

impl PartialEqSpecImpl for Address {
    open spec fn obeys_eq_spec() -> bool {
        true
    }

    open spec fn eq_spec(&self, other: &Self) -> bool {
        self@ == other@
    }
}

impl Eq for Address {

}

impl PartialEq for Digest {
    fn eq(&self, other: &Self) -> (same: bool) {
        bytes_equal(self.0.as_slice(), other.0.as_slice())
    }
}

impl PartialEqSpecImpl for Digest {
    open spec fn obeys_eq_spec() -> bool {
        true
    }

    open spec fn eq_spec(&self, other: &Self) -> bool {
        self@ == other@
    }
}

impl Eq for Digest {

}

/// Two addresses with the same bytes are the same address, and likewise for
/// digests.
pub proof fn lemma_view_determines(a: Address, b: Address, d: Digest, e: Digest)
    ensures
        a@ == b@ <==> a == b,
        d@ == e@ <==> d == e,
{
    broadcast use vstd::array::axiom_array_ext_equal;

    if a@ == b@ {
        assert(a.0 =~= b.0);
    }
    if d@ == e@ {
        assert(d.0 =~= e.0);
    }
}

} // verus!
