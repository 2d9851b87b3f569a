use vstd::prelude::*;
use crate::ids::AssetId;

verus! {

/// `s` is strictly increasing by key: sorted, with no identity twice.
pub open spec fn strictly_sorted(s: Seq<AssetId>) -> bool {
    forall|i: int, j: int| 0 <= i < j < s.len() ==> s[i].0 < s[j].0
}

/// Two strictly sorted sequences with the same members are the same sequence,
/// so the sorted form of a pool depends on its members alone.
pub proof fn lemma_sorted_form_unique(a: Seq<AssetId>, b: Seq<AssetId>)
    requires
        strictly_sorted(a),
        strictly_sorted(b),
        a.to_set() == b.to_set(),
    ensures
        a == b,
    decreases a.len() + b.len(),
{
    if a.len() == 0 || b.len() == 0 {
        if a.len() > 0 {
            assert(a.to_set().contains(a[0]));
        }
        if b.len() > 0 {
            assert(b.to_set().contains(b[0]));
        }
        assert(a =~= b);
    } else {
        assert(a.to_set().contains(a[0]));
        assert(b.to_set().contains(b[0]));
        let i = choose|i: int| 0 <= i < b.len() && b[i] == a[0];
        let j = choose|j: int| 0 <= j < a.len() && a[j] == b[0];
        if i > 0 {
            assert(b[0].0 < b[i].0);
        }
        if j > 0 {
            assert(a[0].0 < a[j].0);
        }
        assert(a[0] == b[0]);
        let a1 = a.drop_first();
        let b1 = b.drop_first();
        assert forall|x: AssetId| a1.to_set().contains(x) implies b1.to_set().contains(x) by {
            let k = choose|k: int| 0 <= k < a1.len() && a1[k] == x;
            assert(a[k + 1] == x);
            assert(a.to_set().contains(x));
            assert(b.contains(x));
            let m = choose|m: int| 0 <= m < b.len() && b[m] == x;
            assert(m != 0);
            assert(b1[m - 1] == x);
        }
        assert forall|x: AssetId| b1.to_set().contains(x) implies a1.to_set().contains(x) by {
            let k = choose|k: int| 0 <= k < b1.len() && b1[k] == x;
            assert(b[k + 1] == x);
            assert(b.to_set().contains(x));
            assert(a.contains(x));
            let m = choose|m: int| 0 <= m < a.len() && a[m] == x;
            assert(m != 0);
            assert(a1[m - 1] == x);
        }
        assert(a1.to_set() =~= b1.to_set());
        lemma_sorted_form_unique(a1, b1);
        assert forall|k: int| 0 < k < a.len() implies a[k] == b[k] by {
            assert(a[k] == a1[k - 1]);
            assert(b[k] == b1[k - 1]);
        }
        assert(a =~= b);
    }
}

/// Adds `x` to the strictly sorted `v`, where it is not there yet.
fn insert_sorted(v: &mut Vec<AssetId>, x: AssetId)
    requires
        strictly_sorted(old(v)@),
    ensures
        strictly_sorted(final(v)@),
        final(v)@.to_set() == old(v)@.to_set().insert(x),
{
    let mut i: usize = 0;
    while i < v.len() && v[i].0 < x.0
        invariant
            i <= v@.len(),
            forall|k: int| 0 <= k < i ==> v@[k].0 < x.0,
        decreases v@.len() - i,
    {
        i = i + 1;
    }
    let ghost s = v@;
    if i < v.len() && v[i].0 == x.0 {
        assert(s[i as int] == x);
        assert(s.to_set().insert(x) =~= s.to_set());
        return;
    }
    v.insert(i, x);
    assert(v@ =~= s.subrange(0, i as int).push(x) + s.subrange(i as int, s.len() as int));
    assert forall|y: AssetId| v@.to_set().contains(y) <==> s.to_set().insert(x).contains(y) by {
        if v@.contains(y) {
            let k = choose|k: int| 0 <= k < v@.len() && v@[k] == y;
            if k < i {
                assert(s[k] == y);
            } else if k > i {
                assert(s[k - 1] == y);
            }
        }
        if s.contains(y) {
            let k = choose|k: int| 0 <= k < s.len() && s[k] == y;
            if k < i {
                assert(v@[k] == y);
            } else {
                assert(v@[k + 1] == y);
            }
        }
        if y == x {
            assert(v@[i as int] == y);
        }
    }
    assert(v@.to_set() =~= s.to_set().insert(x));
}

/// The sorted form of a pool of assets: its members, each once, ordered by key.
/// Pools with the same members, in any order and with any repeats, have the
/// same sorted form.
pub fn sorted_pool(pool: &Vec<AssetId>) -> (r: Vec<AssetId>)
    ensures
        strictly_sorted(r@),
        r@.to_set() == pool@.to_set(),
{
    let mut r: Vec<AssetId> = Vec::new();
    let mut i: usize = 0;
    while i < pool.len()
        invariant
            i <= pool@.len(),
            strictly_sorted(r@),
            r@.to_set() == pool@.subrange(0, i as int).to_set(),
        decreases pool@.len() - i,
    {
        insert_sorted(&mut r, pool[i]);
        let ghost before = pool@.subrange(0, i as int);
        i = i + 1;
        assert(pool@.subrange(0, i as int) =~= before.push(pool@[i - 1]));
        proof {
            before.lemma_push_to_set_commute(pool@[i - 1]);
        }
    }
    assert(pool@.subrange(0, i as int) =~= pool@);
    r
}

} // verus!
