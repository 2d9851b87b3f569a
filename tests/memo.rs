use std::cell::Cell;

use evaluated_entries::capability::{AssetCatalog, Capabilities, ResolvedAsset};
use evaluated_entries::entries::EvaluatedEntries;
use evaluated_entries::error::EvaluateError;
use evaluated_entries::evaluate::{CatalogChunkingContext, EvaluateChunkingContext, EvaluationAsset};
use evaluated_entries::ids::{AssetId, ChunkId};
use evaluated_entries::memo::EvaluateMemo;

fn ids(keys: &[u64]) -> Vec<AssetId> {
    keys.iter().map(|k| AssetId(*k)).collect()
}

struct Counting {
    inner: CatalogChunkingContext,
    calls: Cell<u32>,
}

impl EvaluateChunkingContext for Counting {
    fn evaluate_chunk(
        &self,
        entry_chunk: ChunkId,
        other_assets: &Vec<AssetId>,
        evaluated_entries: &EvaluatedEntries,
    ) -> Result<EvaluationAsset, EvaluateError> {
        self.calls.set(self.calls.get() + 1);
        self.inner.evaluate_chunk(entry_chunk, other_assets, evaluated_entries)
    }
}

fn counting(entries: &[u64], plain_assets: &[u64]) -> Counting {
    let mut known = Vec::new();
    for k in entries {
        known.push(ResolvedAsset { id: AssetId(*k), caps: Capabilities { is_asset: true, is_chunkable: true } });
    }
    for k in plain_assets {
        known.push(ResolvedAsset { id: AssetId(*k), caps: Capabilities { is_asset: true, is_chunkable: false } });
    }
    Counting { inner: CatalogChunkingContext { catalog: AssetCatalog::new(known) }, calls: Cell::new(0) }
}

#[test]
fn second_identical_call_is_a_hit() {
    let ctx = counting(&[1, 2], &[7, 8]);
    let mut memo = EvaluateMemo::new();
    let entries = EvaluatedEntries::from_entries(&ids(&[1, 2]));
    let first = memo.evaluate_chunk(&ctx, ChunkId(5), &ids(&[7, 8]), &entries);
    assert!(first.computed);
    let second = memo.evaluate_chunk(&ctx, ChunkId(5), &ids(&[8, 7]), &entries);
    assert!(!second.computed);
    assert_eq!(ctx.calls.get(), 1);
    let a = first.result.unwrap();
    let b = second.result.unwrap();
    assert!(a.same_identity(&b));
    assert_eq!(a.execution_order(), b.execution_order());
    assert_eq!(a.assets(), b.assets());
    assert_eq!(memo.len(), 1);
}

#[test]
fn other_entry_order_is_a_miss() {
    let ctx = counting(&[1, 2], &[]);
    let mut memo = EvaluateMemo::new();
    let a = memo.evaluate_chunk(&ctx, ChunkId(5), &ids(&[]), &EvaluatedEntries::from_entries(&ids(&[1, 2])));
    let b = memo.evaluate_chunk(&ctx, ChunkId(5), &ids(&[]), &EvaluatedEntries::from_entries(&ids(&[2, 1])));
    assert!(a.computed && b.computed);
    assert_eq!(ctx.calls.get(), 2);
    assert_eq!(memo.len(), 2);
}

#[test]
fn failure_is_not_held() {
    let ctx = counting(&[], &[3]);
    let mut memo = EvaluateMemo::new();
    let entries = EvaluatedEntries::one(AssetId(3));
    let a = memo.evaluate_chunk(&ctx, ChunkId(1), &ids(&[]), &entries);
    assert!(matches!(a.result, Err(EvaluateError::UnresolvedEntry { index: 0, asset: AssetId(3) })));
    let b = memo.evaluate_chunk(&ctx, ChunkId(1), &ids(&[]), &entries);
    assert!(b.computed);
    assert_eq!(ctx.calls.get(), 2);
    assert_eq!(memo.len(), 0);
}

#[test]
fn invalidating_a_supporting_asset_drops_only_chunks_that_read_it() {
    let ctx = counting(&[1, 2], &[7, 8]);
    let mut memo = EvaluateMemo::new();
    let entries = EvaluatedEntries::one(AssetId(1));
    let other_entries = EvaluatedEntries::one(AssetId(2));
    memo.evaluate_chunk(&ctx, ChunkId(1), &ids(&[7]), &entries);
    memo.evaluate_chunk(&ctx, ChunkId(2), &ids(&[8]), &other_entries);
    assert_eq!(ctx.calls.get(), 2);
    memo.invalidate_asset(AssetId(7));
    assert_eq!(memo.len(), 1);
    let again = memo.evaluate_chunk(&ctx, ChunkId(1), &ids(&[7]), &entries);
    assert!(again.computed);
    let kept = memo.evaluate_chunk(&ctx, ChunkId(2), &ids(&[8]), &other_entries);
    assert!(!kept.computed);
    assert_eq!(ctx.calls.get(), 3);
}

#[test]
fn invalidating_an_entry_drops_chunks_that_run_it() {
    let ctx = counting(&[1, 2], &[]);
    let mut memo = EvaluateMemo::new();
    memo.evaluate_chunk(&ctx, ChunkId(1), &ids(&[]), &EvaluatedEntries::one(AssetId(1)));
    memo.evaluate_chunk(&ctx, ChunkId(1), &ids(&[]), &EvaluatedEntries::one(AssetId(2)));
    memo.invalidate_asset(AssetId(2));
    assert_eq!(memo.len(), 1);
    memo.invalidate_asset(AssetId(99));
    assert_eq!(memo.len(), 1);
    memo.invalidate_asset(AssetId(1));
    assert_eq!(memo.len(), 0);
}
