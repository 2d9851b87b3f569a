use vstd::prelude::*;
use crate::capability::{AssetCatalog, resolves_to_asset, resolves_to_entry};
use crate::entries::EvaluatedEntries;
use crate::error::EvaluateError;
use crate::ids::{AssetId, ChunkId, copy_ids, ids_contain, ids_equal};
use crate::pool::{lemma_sorted_form_unique, sorted_pool, strictly_sorted};

verus! {

/// The identity of an evaluation chunk: the entry chunk, the entries in their
/// execution order, and the set of supporting assets, whose order plays no part.
pub open spec fn ident_of(entry_chunk: ChunkId, entries: Seq<AssetId>, pool: Seq<AssetId>) -> (
    ChunkId,
    Seq<AssetId>,
    Set<AssetId>,
) {
    (entry_chunk, entries, pool.to_set())
}

/// A chunk of that identity reads `asset`: as an entry or as a supporting asset.
pub open spec fn ident_reads(ident: (ChunkId, Seq<AssetId>, Set<AssetId>), asset: AssetId) -> bool {
    ident.1.contains(asset) || ident.2.contains(asset)
}

/// The executable asset that evaluates a list of entries.
///
/// It holds the entry chunk, the entries in the order in which they execute,
/// and every supporting asset, once each and sorted by key, so that two
/// evaluation assets of one identity are equal field by field.
pub struct EvaluationAsset {
    entry_chunk: ChunkId,
    execution_order: Vec<AssetId>,
    assets: Vec<AssetId>,
}

impl EvaluationAsset {
    /// The entry chunk that the asset bundles.
    pub closed spec fn spec_entry_chunk(&self) -> ChunkId {
        self.entry_chunk
    }

    /// The entries, in the order in which they execute.
    pub closed spec fn spec_execution_order(&self) -> Seq<AssetId> {
        self.execution_order@
    }

    /// The supporting assets, sorted by key.
    pub closed spec fn spec_assets(&self) -> Seq<AssetId> {
        self.assets@
    }

    /// The supporting assets are held once each, in key order.
    pub open spec fn wf(&self) -> bool {
        strictly_sorted(self.spec_assets())
    }

    /// The identity of the asset.
    pub open spec fn ident(&self) -> (ChunkId, Seq<AssetId>, Set<AssetId>) {
        ident_of(self.spec_entry_chunk(), self.spec_execution_order(), self.spec_assets())
    }

    /// The evaluation asset for `entry_chunk`, the entries of
    /// `evaluated_entries` in their order, and the supporting `other_assets`.
    pub fn new(entry_chunk: ChunkId, other_assets: &Vec<AssetId>, evaluated_entries: &EvaluatedEntries) -> (r: EvaluationAsset)
        ensures
            r.wf(),
            r.ident() == ident_of(entry_chunk, evaluated_entries@, other_assets@),
    {
        EvaluationAsset {
            entry_chunk,
            execution_order: evaluated_entries.to_vec(),
            assets: sorted_pool(other_assets),
        }
    }

    /// A copy of the asset, field by field.
    pub fn duplicate(&self) -> (r: EvaluationAsset)
        ensures
            r.spec_entry_chunk() == self.spec_entry_chunk(),
            r.spec_execution_order() == self.spec_execution_order(),
            r.spec_assets() == self.spec_assets(),
    {
        EvaluationAsset {
            entry_chunk: self.entry_chunk,
            execution_order: copy_ids(&self.execution_order),
            assets: copy_ids(&self.assets),
        }
    }

    /// The entry chunk that the asset bundles.
    pub fn entry_chunk(&self) -> (r: ChunkId)
        ensures
            r == self.spec_entry_chunk(),
    {
        self.entry_chunk
    }

    /// The entries, in the order in which they execute.
    pub fn execution_order(&self) -> (r: Vec<AssetId>)
        ensures
            r@ == self.spec_execution_order(),
    {
        copy_ids(&self.execution_order)
    }

    /// The supporting assets, each once, sorted by key.
    pub fn assets(&self) -> (r: Vec<AssetId>)
        ensures
            r@ == self.spec_assets(),
    {
        copy_ids(&self.assets)
    }

    /// Tells whether two evaluation assets have the same identity.
    pub fn same_identity(&self, other: &EvaluationAsset) -> (r: bool)
        requires
            self.wf(),
            other.wf(),
        ensures
            r == (self.ident() == other.ident()),
    {
        let same_assets = ids_equal(&self.assets, &other.assets);
        proof {
            if self.spec_assets().to_set() == other.spec_assets().to_set() {
                lemma_sorted_form_unique(self.spec_assets(), other.spec_assets());
            }
        }
        self.entry_chunk.0 == other.entry_chunk.0 && ids_equal(&self.execution_order, &other.execution_order)
            && same_assets
    }

    /// Tells whether the asset reads `asset`, as an entry or as a supporting asset.
    pub fn reads(&self, asset: AssetId) -> (r: bool)
        ensures
            r == ident_reads(self.ident(), asset),
    {
        ids_contain(&self.execution_order, asset) || ids_contain(&self.assets, asset)
    }
}

/// Two well-formed evaluation assets of one identity hold the same chunk, the
/// same execution order and the same sorted supporting assets.
pub proof fn lemma_identity_determines_asset(a: EvaluationAsset, b: EvaluationAsset)
    requires
        a.wf(),
        b.wf(),
        a.ident() == b.ident(),
    ensures
        a.spec_entry_chunk() == b.spec_entry_chunk(),
        a.spec_execution_order() == b.spec_execution_order(),
        a.spec_assets() == b.spec_assets(),
{
    lemma_sorted_form_unique(a.spec_assets(), b.spec_assets());
}

/// The identity of an evaluation chunk does not change when the supporting
/// assets are listed in another order, and does change when the entries are.
pub proof fn lemma_pool_order_free_entry_order_matters(
    entry_chunk: ChunkId,
    entries: Seq<AssetId>,
    reordered_entries: Seq<AssetId>,
    pool: Seq<AssetId>,
    reordered_pool: Seq<AssetId>,
)
    requires
        pool.to_multiset() == reordered_pool.to_multiset(),
        entries.to_multiset() == reordered_entries.to_multiset(),
    ensures
        ident_of(entry_chunk, entries, pool) == ident_of(entry_chunk, entries, reordered_pool),
        entries != reordered_entries ==> ident_of(entry_chunk, entries, pool) != ident_of(
            entry_chunk,
            reordered_entries,
            pool,
        ),
{
    assert forall|x: AssetId| pool.to_set().contains(x) <==> reordered_pool.to_set().contains(x) by {
        pool.to_multiset_ensures();
        reordered_pool.to_multiset_ensures();
        assert(pool.contains(x) <==> pool.to_multiset().count(x) > 0);
        assert(reordered_pool.contains(x) <==> reordered_pool.to_multiset().count(x) > 0);
    }
    assert(pool.to_set() =~= reordered_pool.to_set());
}

/// A chunking context that can also produce the executable asset that
/// evaluates a list of entries.
pub trait EvaluateChunkingContext {
    /// Produces the asset that, once loaded, runs every entry of
    /// `evaluated_entries` in its order, bundles `entry_chunk` and reaches every
    /// asset of `other_assets`. Its identity depends on the entry chunk, the
    /// entries in order, and the set of supporting assets.
    fn evaluate_chunk(
        &self,
        entry_chunk: ChunkId,
        other_assets: &Vec<AssetId>,
        evaluated_entries: &EvaluatedEntries,
    ) -> (r: Result<EvaluationAsset, EvaluateError>)
        ensures
            r matches Ok(a) ==> a.wf() && a.ident() == ident_of(
                entry_chunk,
                evaluated_entries@,
                other_assets@,
            ),
    ;
}

/// A chunking context that resolves entries and supporting assets against a
/// catalog of the concrete assets that references resolved to.
pub struct CatalogChunkingContext {
    pub catalog: AssetCatalog,
}

impl CatalogChunkingContext {
    /// The index of the first entry that does not resolve to an evaluated
    /// entry, if any.
    pub fn find_unresolved(&self, evaluated_entries: &EvaluatedEntries) -> (r: Option<usize>)
        ensures
            r matches Some(i) ==> i < evaluated_entries@.len() && !resolves_to_entry(
                self.catalog@,
                evaluated_entries@[i as int],
            ) && forall|k: int| 0 <= k < i ==> resolves_to_entry(self.catalog@, #[trigger] evaluated_entries@[k]),
            r is None ==> forall|k: int|
                0 <= k < evaluated_entries@.len() ==> resolves_to_entry(
                    self.catalog@,
                    #[trigger] evaluated_entries@[k],
                ),
    {
        let n = evaluated_entries.len();
        let mut i: usize = 0;
        while i < n
            invariant
                i <= n,
                n == evaluated_entries@.len(),
                forall|k: int| 0 <= k < i ==> resolves_to_entry(self.catalog@, #[trigger] evaluated_entries@[k]),
            decreases n - i,
        {
            if !self.catalog.is_entry(evaluated_entries.get(i)) {
                return Some(i);
            }
            i = i + 1;
        }
        None
    }

    /// The first supporting asset, in the order given, that does not resolve
    /// to a concrete asset, if any.
    pub fn find_unplaceable(&self, other_assets: &Vec<AssetId>) -> (r: Option<AssetId>)
        ensures
            r matches Some(a) ==> other_assets@.contains(a) && !resolves_to_asset(self.catalog@, a),
            r is None ==> forall|k: int|
                0 <= k < other_assets@.len() ==> resolves_to_asset(self.catalog@, #[trigger] other_assets@[k]),
    {
        let mut i: usize = 0;
        while i < other_assets.len()
            invariant
                i <= other_assets@.len(),
                forall|k: int| 0 <= k < i ==> resolves_to_asset(self.catalog@, #[trigger] other_assets@[k]),
            decreases other_assets@.len() - i,
        {
            if !self.catalog.is_asset(other_assets[i]) {
                assert(other_assets@[i as int] == other_assets[i as int]);
                return Some(other_assets[i]);
            }
            i = i + 1;
        }
        None
    }
}

impl CatalogChunkingContext {
    /// Produces the evaluation asset, after resolving every entry and every
    /// supporting asset against the catalog.
    ///
    /// Fails with `UnresolvedEntry` at the first entry that does not resolve to
    /// an evaluated entry; otherwise with `ChunkConstruction` where a supporting
    /// asset does not resolve to an asset; otherwise succeeds.
    pub fn evaluate(
        &self,
        entry_chunk: ChunkId,
        other_assets: &Vec<AssetId>,
        evaluated_entries: &EvaluatedEntries,
    ) -> (r: Result<EvaluationAsset, EvaluateError>)
        ensures
            r is Ok <==> (forall|k: int|
                0 <= k < evaluated_entries@.len() ==> resolves_to_entry(
                    self.catalog@,
                    #[trigger] evaluated_entries@[k],
                )) && (forall|k: int|
                0 <= k < other_assets@.len() ==> resolves_to_asset(self.catalog@, #[trigger] other_assets@[k])),
            r matches Ok(a) ==> a.wf() && a.ident() == ident_of(entry_chunk, evaluated_entries@, other_assets@),
            r matches Err(EvaluateError::UnresolvedEntry { index, asset }) ==> index < evaluated_entries@.len()
                && asset == evaluated_entries@[index as int] && !resolves_to_entry(self.catalog@, asset) && forall|
                k: int,
            | 0 <= k < index ==> resolves_to_entry(self.catalog@, #[trigger] evaluated_entries@[k]),
            r matches Err(EvaluateError::ChunkConstruction { asset }) ==> (forall|k: int|
                0 <= k < evaluated_entries@.len() ==> resolves_to_entry(
                    self.catalog@,
                    #[trigger] evaluated_entries@[k],
                )) && other_assets@.contains(asset) && !resolves_to_asset(self.catalog@, asset),
            !(r matches Err(EvaluateError::Resolution { .. })),
    {
        match self.find_unresolved(evaluated_entries) {
            Some(i) => Err(EvaluateError::UnresolvedEntry { index: i, asset: evaluated_entries.get(i) }),
            None => match self.find_unplaceable(other_assets) {
                Some(a) => Err(EvaluateError::ChunkConstruction { asset: a }),
                None => Ok(EvaluationAsset::new(entry_chunk, other_assets, evaluated_entries)),
            },
        }
    }
}

impl EvaluateChunkingContext for CatalogChunkingContext {
    fn evaluate_chunk(
        &self,
        entry_chunk: ChunkId,
        other_assets: &Vec<AssetId>,
        evaluated_entries: &EvaluatedEntries,
    ) -> (r: Result<EvaluationAsset, EvaluateError>) {
        self.evaluate(entry_chunk, other_assets, evaluated_entries)
    }
}

} // verus!
