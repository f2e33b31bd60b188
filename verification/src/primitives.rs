//! The primitive values that the other modules share.

use vstd::prelude::*;
use vstd::std_specs::cmp::PartialEqSpecImpl;

verus! {

/// A 256-bit block hash.
#[derive(Clone, Copy, Debug)]
pub struct H256 {
    pub bytes: [u8; 32],
}

/// A 256-bit session key of an authority.
#[derive(Clone, Copy, Debug)]
pub struct SessionKey {
    pub bytes: [u8; 32],
}

impl View for H256 {
    type V = Seq<u8>;

    open spec fn view(&self) -> Seq<u8> {
        self.bytes@
    }
}

/// Whether two arrays of 32 bytes hold the same bytes.
fn same_bytes(a: &[u8; 32], b: &[u8; 32]) -> (same: bool)
    ensures
        same == (*a == *b),
{
    let mut i: usize = 0;
    while i < 32
        invariant
            i <= 32,
            a@.take(i as int) =~= b@.take(i as int),
        decreases 32 - i,
    {
        if a[i] != b[i] {
            return false;
        }
        i += 1;
    }
    assert(a@.take(32) =~= a@);
    assert(b@.take(32) =~= b@);
    assert(*a =~= *b);
    true
}

impl PartialEq for H256 {
    fn eq(&self, other: &Self) -> (same: bool) {
        same_bytes(&self.bytes, &other.bytes)
    }
}

impl Eq for H256 {

}

impl PartialEqSpecImpl for H256 {
    open spec fn obeys_eq_spec() -> bool {
        true
    }

    open spec fn eq_spec(&self, other: &Self) -> bool {
        *self == *other
    }
}

impl Default for H256 {
    /// The hash whose bytes are all zero.
    fn default() -> (hash: H256)
        ensures
            hash@ == Seq::new(32, |i: int| 0u8),
            forall|i: int| 0 <= i < 32 ==> hash.bytes@[i] == 0,
    {
        let hash = H256 { bytes: [0; 32] };
        assert(hash@ =~= Seq::new(32, |i: int| 0u8));
        hash
    }
}

/// Two hashes compare as equal exactly if they agree in each of their 32 bytes; then, and only then, they
/// are the same value.
pub proof fn law_hashes_are_equal_byte_by_byte(a: H256, b: H256)
    ensures
        vstd::std_specs::cmp::PartialEqSpec::eq_spec(&a, &b) <==> forall|i: int| 0 <= i < 32 ==> a.bytes@[i] == b.bytes@[i],
        a == b <==> a.bytes@ == b.bytes@,
        a@ == a.bytes@,
{
    if forall|i: int| 0 <= i < 32 ==> a.bytes@[i] == b.bytes@[i] {
        assert(a.bytes@ =~= b.bytes@);
        assert(a.bytes =~= b.bytes);
    }
    if a.bytes@ == b.bytes@ {
        assert(a.bytes =~= b.bytes);
    }
}

} // verus!
