use vstd::prelude::*;
use crate::entries::EvaluatedEntries;
use crate::error::EvaluateError;
use crate::evaluate::{EvaluateChunkingContext, EvaluationAsset, ident_of, ident_reads};
use crate::ids::{AssetId, ChunkId};

verus! {

/// The result stored last under `key` among `slots`, if any.
pub open spec fn lookup(slots: Seq<EvaluationAsset>, key: (ChunkId, Seq<AssetId>, Set<AssetId>)) -> Option<
    EvaluationAsset,
>
    decreases slots.len(),
{
    if slots.len() == 0 {
        None
    } else if slots.last().ident() == key {
        Some(slots.last())
    } else {
        lookup(slots.drop_last(), key)
    }
}

/// The results among `slots` that do not read `asset`, in their order.
pub open spec fn kept(slots: Seq<EvaluationAsset>, asset: AssetId) -> Seq<EvaluationAsset>
    decreases slots.len(),
{
    if slots.len() == 0 {
        Seq::empty()
    } else if ident_reads(slots.last().ident(), asset) {
        kept(slots.drop_last(), asset)
    } else {
        kept(slots.drop_last(), asset).push(slots.last())
    }
}

proof fn lemma_lookup_kept(slots: Seq<EvaluationAsset>, asset: AssetId, key: (ChunkId, Seq<AssetId>, Set<AssetId>))
    ensures
        lookup(kept(slots, asset), key) == if ident_reads(key, asset) {
            None
        } else {
            lookup(slots, key)
        },
    decreases slots.len(),
{
    if slots.len() > 0 {
        lemma_lookup_kept(slots.drop_last(), asset, key);
        if !ident_reads(slots.last().ident(), asset) {
            assert(kept(slots, asset).drop_last() =~= kept(slots.drop_last(), asset));
        }
    }
}

proof fn lemma_kept_step(slots: Seq<EvaluationAsset>, j: int, asset: AssetId)
    requires
        0 <= j < slots.len(),
    ensures
        kept(slots.subrange(0, j + 1), asset) == if ident_reads(slots[j].ident(), asset) {
            kept(slots.subrange(0, j), asset)
        } else {
            kept(slots.subrange(0, j), asset).push(slots[j])
        },
{
    assert(slots.subrange(0, j + 1).drop_last() =~= slots.subrange(0, j));
}

proof fn lemma_lookup_found(slots: Seq<EvaluationAsset>, key: (ChunkId, Seq<AssetId>, Set<AssetId>))
    requires
        forall|i: int| 0 <= i < slots.len() ==> (#[trigger] slots[i]).wf(),
    ensures
        lookup(slots, key) matches Some(v) ==> v.ident() == key && v.wf(),
    decreases slots.len(),
{
    if slots.len() > 0 {
        assert(slots.last() == slots[slots.len() - 1]);
        lemma_lookup_found(slots.drop_last(), key);
    }
}

/// What a memoized evaluation gave, and whether the context had to compute it.
pub struct MemoOutcome {
    pub result: Result<EvaluationAsset, EvaluateError>,
    pub computed: bool,
}

/// A memo of evaluation chunks, keyed by their identity.
///
/// One identity is computed at most once as long as its result stays in the
/// memo; invalidating an asset drops exactly the results that read it.
pub struct EvaluateMemo {
    slots: Vec<EvaluationAsset>,
}

impl EvaluateMemo {
    /// The result held for `key`, if any.
    pub closed spec fn cached(&self, key: (ChunkId, Seq<AssetId>, Set<AssetId>)) -> Option<EvaluationAsset> {
        lookup(self.slots@, key)
    }

    /// The number of held results.
    pub closed spec fn spec_len(&self) -> nat {
        self.slots@.len()
    }

    /// Every held result is well formed.
    pub closed spec fn wf(&self) -> bool {
        forall|i: int| 0 <= i < self.slots@.len() ==> (#[trigger] self.slots@[i]).wf()
    }

    /// A held result has the identity that it is held under.
    pub proof fn lemma_cached_matches_key(&self, key: (ChunkId, Seq<AssetId>, Set<AssetId>))
        requires
            self.wf(),
        ensures
            self.cached(key) matches Some(v) ==> v.ident() == key && v.wf(),
    {
        lemma_lookup_found(self.slots@, key);
    }

    /// The memo that holds nothing.
    pub fn new() -> (r: EvaluateMemo)
        ensures
            r.wf(),
            forall|key: (ChunkId, Seq<AssetId>, Set<AssetId>)| r.cached(key) is None,
    {
        EvaluateMemo { slots: Vec::new() }
    }

    /// The number of held results.
    pub fn len(&self) -> (r: usize)
        ensures
            r == self.spec_len(),
    {
        self.slots.len()
    }

    /// The held result of the identity that `probe` has, as a copy.
    fn find(&self, probe: &EvaluationAsset) -> (r: Option<EvaluationAsset>)
        requires
            self.wf(),
            probe.wf(),
        ensures
            r is Some <==> self.cached(probe.ident()) is Some,
            r matches Some(v) ==> v.wf() && v.ident() == probe.ident(),
    {
        let mut i: usize = self.slots.len();
        assert(self.slots@.subrange(0, i as int) =~= self.slots@);
        while i > 0
            invariant
                i <= self.slots@.len(),
                self.wf(),
                probe.wf(),
                lookup(self.slots@.subrange(0, i as int), probe.ident()) == self.cached(probe.ident()),
            decreases i,
        {
            let ghost prefix = self.slots@.subrange(0, i as int);
            assert(prefix.last() == self.slots@[i - 1]);
            if self.slots[i - 1].same_identity(probe) {
                return Some(self.slots[i - 1].duplicate());
            }
            assert(prefix.drop_last() =~= self.slots@.subrange(0, i - 1));
            i = i - 1;
        }
        None
    }

    /// Evaluates through `ctx`, unless the memo already holds the result of
    /// this identity: then that result comes back and `ctx` is not called.
    /// A result that `ctx` computes is held; a failure is not.
    pub fn evaluate_chunk<C: EvaluateChunkingContext>(
        &mut self,
        ctx: &C,
        entry_chunk: ChunkId,
        other_assets: &Vec<AssetId>,
        evaluated_entries: &EvaluatedEntries,
    ) -> (r: MemoOutcome)
        requires
            old(self).wf(),
        ensures
            final(self).wf(),
            ({
                let key = ident_of(entry_chunk, evaluated_entries@, other_assets@);
                &&& r.result matches Ok(v) ==> v.wf() && v.ident() == key
                &&& old(self).cached(key) is Some ==> {
                    &&& !r.computed
                    &&& r.result is Ok
                    &&& forall|k: (ChunkId, Seq<AssetId>, Set<AssetId>)| #[trigger] final(self).cached(k) == old(self).cached(k)
                }
                &&& old(self).cached(key) is None ==> {
                    &&& r.computed
                    &&& r.result is Ok ==> final(self).cached(key) is Some
                    &&& r.result is Err ==> final(self).cached(key) is None
                    &&& forall|k: (ChunkId, Seq<AssetId>, Set<AssetId>)|
                        k != key ==> #[trigger] final(self).cached(k) == old(self).cached(k)
                }
            }),
    {
        let probe = EvaluationAsset::new(entry_chunk, other_assets, evaluated_entries);
        match self.find(&probe) {
            Some(v) => MemoOutcome { result: Ok(v), computed: false },
            None => {
                let result = ctx.evaluate_chunk(entry_chunk, other_assets, evaluated_entries);
                match result {
                    Ok(v) => {
                        let held = v.duplicate();
                        let ghost before = self.slots@;
                        self.slots.push(held);
                        proof {
                            assert(self.slots@.drop_last() =~= before);
                            assert(self.slots@.last() == held);
                        }
                        MemoOutcome { result: Ok(v), computed: true }
                    },
                    Err(e) => MemoOutcome { result: Err(e), computed: true },
                }
            },
        }
    }

    /// Drops every held result that reads `asset`, as an entry or as a
    /// supporting asset, and keeps every other one.
    pub fn invalidate_asset(&mut self, asset: AssetId)
        requires
            old(self).wf(),
        ensures
            final(self).wf(),
            forall|k: (ChunkId, Seq<AssetId>, Set<AssetId>)| #[trigger]
                final(self).cached(k) == if ident_reads(k, asset) {
                    None
                } else {
                    old(self).cached(k)
                },
    {
        let ghost orig = self.slots@;
        assert(orig.len() == self.slots.len());
        let mut i: usize = 0;
        let mut j: usize = 0;
        assert(orig.subrange(0, 0) =~= Seq::<EvaluationAsset>::empty());
        assert(orig.subrange(0, orig.len() as int) =~= orig);
        while i < self.slots.len()
            invariant
                j <= orig.len(),
                orig.len() <= usize::MAX,
                i <= self.slots@.len(),
                i == kept(orig.subrange(0, j as int), asset).len(),
                self.slots@ == kept(orig.subrange(0, j as int), asset) + orig.subrange(j as int, orig.len() as int),
                forall|x: int| 0 <= x < orig.len() ==> (#[trigger] orig[x]).wf(),
                forall|x: int| 0 <= x < self.slots@.len() ==> (#[trigger] self.slots@[x]).wf(),
            decreases self.slots@.len() - i,
        {
            assert(j < orig.len()) by {
                if j >= orig.len() {
                    assert(orig.subrange(j as int, orig.len() as int).len() == 0);
                }
            }
            proof {
                lemma_kept_step(orig, j as int, asset);
            }
            assert(self.slots@[i as int] == orig[j as int]);
            if self.slots[i].reads(asset) {
                let ghost before = self.slots@;
                let _dropped = self.slots.remove(i);
                assert forall|x: int| 0 <= x < self.slots@.len() implies (#[trigger] self.slots@[x]).wf() by {
                    if x < i {
                        assert(self.slots@[x] == before[x]);
                    } else {
                        assert(self.slots@[x] == before[x + 1]);
                    }
                }
                assert(self.slots@ =~= kept(orig.subrange(0, j + 1), asset) + orig.subrange(j + 1, orig.len() as int));
            } else {
                assert(self.slots@ =~= kept(orig.subrange(0, j + 1), asset) + orig.subrange(j + 1, orig.len() as int));
                i = i + 1;
            }
            j = j + 1;
        }
        assert(j == orig.len()) by {
            if j < orig.len() {
                assert(self.slots@.len() > i);
            }
        }
        assert(self.slots@ =~= kept(orig, asset));
        assert forall|k: (ChunkId, Seq<AssetId>, Set<AssetId>)| #[trigger]
            lookup(self.slots@, k) == if ident_reads(k, asset) {
                None
            } else {
                lookup(orig, k)
            } by {
            lemma_lookup_kept(orig, asset, k);
        }
    }
}

} // verus!
