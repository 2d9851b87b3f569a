use vstd::prelude::*;

verus! {

/// Identity of an asset, as the asset graph hands it out.
#[derive(Clone, Copy, Debug, PartialEq, Eq, Structural, Hash)]
pub struct AssetId(pub u64);

/// Identity of a chunk produced by a chunking strategy.
#[derive(Clone, Copy, Debug, PartialEq, Eq, Structural, Hash)]
pub struct ChunkId(pub u64);

/// Copies a sequence of asset identities element by element.
pub fn copy_ids(v: &Vec<AssetId>) -> (r: Vec<AssetId>)
    ensures
        r@ == v@,
{
    let mut r: Vec<AssetId> = Vec::with_capacity(v.len());
    let mut i: usize = 0;
    while i < v.len()
        invariant
            i <= v@.len(),
            r@ == v@.subrange(0, i as int),
        decreases v@.len() - i,
    {
        r.push(v[i]);
        i = i + 1;
        assert(r@ =~= v@.subrange(0, i as int));
    }
    assert(r@ =~= v@);
    r
}

/// Tells whether two sequences of asset identities are equal.
pub fn ids_equal(a: &Vec<AssetId>, b: &Vec<AssetId>) -> (r: bool)
    ensures
        r == (a@ == b@),
{
    if a.len() != b.len() {
        return false;
    }
    let mut i: usize = 0;
    while i < a.len()
        invariant
            i <= a@.len(),
            a@.len() == b@.len(),
            forall|k: int| 0 <= k < i ==> a@[k] == b@[k],
        decreases a@.len() - i,
    {
        if a[i].0 != b[i].0 {
            return false;
        }
        i = i + 1;
    }
    assert(a@ =~= b@);
    true
}

/// Tells whether a sequence of asset identities holds `x`.
pub fn ids_contain(v: &Vec<AssetId>, x: AssetId) -> (r: bool)
    ensures
        r == v@.contains(x),
{
    let mut i: usize = 0;
    while i < v.len()
        invariant
            i <= v@.len(),
            forall|k: int| 0 <= k < i ==> v@[k] != x,
        decreases v@.len() - i,
    {
        if v[i].0 == x.0 {
            assert(v@[i as int] == x);
            return true;
        }
        i = i + 1;
    }
    false
}

} // verus!
