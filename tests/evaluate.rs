use evaluated_entries::capability::{AssetCatalog, Capabilities, ResolvedAsset};
use evaluated_entries::entries::EvaluatedEntries;
use evaluated_entries::error::EvaluateError;
use evaluated_entries::evaluate::{CatalogChunkingContext, EvaluateChunkingContext, EvaluationAsset};
use evaluated_entries::ids::{AssetId, ChunkId};
use evaluated_entries::pool::sorted_pool;

fn ids(keys: &[u64]) -> Vec<AssetId> {
    keys.iter().map(|k| AssetId(*k)).collect()
}

fn context(entries: &[u64], plain_assets: &[u64]) -> CatalogChunkingContext {
    let mut known = Vec::new();
    for k in entries {
        known.push(ResolvedAsset { id: AssetId(*k), caps: Capabilities { is_asset: true, is_chunkable: true } });
    }
    for k in plain_assets {
        known.push(ResolvedAsset { id: AssetId(*k), caps: Capabilities { is_asset: true, is_chunkable: false } });
    }
    CatalogChunkingContext { catalog: AssetCatalog::new(known) }
}

#[test]
fn sorted_pool_drops_order_and_repeats() {
    assert_eq!(sorted_pool(&ids(&[9, 2, 5, 2, 9])), ids(&[2, 5, 9]));
    assert_eq!(sorted_pool(&ids(&[])), ids(&[]));
    assert_eq!(sorted_pool(&ids(&[u64::MAX, 0])), ids(&[0, u64::MAX]));
}

#[test]
fn entries_execute_in_appended_order() {
    let ctx = context(&[10, 20], &[]);
    let entries = EvaluatedEntries::empty().with_entry(AssetId(10)).with_entry(AssetId(20));
    let asset = ctx.evaluate_chunk(ChunkId(1), &ids(&[]), &entries).unwrap();
    assert_eq!(asset.execution_order(), ids(&[10, 20]));
    assert_eq!(asset.entry_chunk(), ChunkId(1));
    assert_eq!(asset.assets(), ids(&[]));
}

#[test]
fn every_supporting_asset_is_reached() {
    let ctx = context(&[1], &[30, 4, 17]);
    let asset = ctx.evaluate(ChunkId(2), &ids(&[30, 4, 17, 4]), &EvaluatedEntries::one(AssetId(1))).unwrap();
    assert_eq!(asset.assets(), ids(&[4, 17, 30]));
    assert!(asset.reads(AssetId(17)));
    assert!(asset.reads(AssetId(1)));
    assert!(!asset.reads(AssetId(2)));
}

#[test]
fn pool_order_does_not_change_identity() {
    let ctx = context(&[1, 2], &[7, 8, 9]);
    let entries = EvaluatedEntries::from_entries(&ids(&[1, 2]));
    let a = ctx.evaluate(ChunkId(3), &ids(&[7, 8, 9]), &entries).unwrap();
    let b = ctx.evaluate(ChunkId(3), &ids(&[9, 7, 8]), &entries).unwrap();
    assert!(a.same_identity(&b));
    assert_eq!(a.assets(), b.assets());
}

#[test]
fn entry_order_changes_identity() {
    let ctx = context(&[1, 2], &[7]);
    let a = ctx.evaluate(ChunkId(3), &ids(&[7]), &EvaluatedEntries::from_entries(&ids(&[1, 2]))).unwrap();
    let b = ctx.evaluate(ChunkId(3), &ids(&[7]), &EvaluatedEntries::from_entries(&ids(&[2, 1]))).unwrap();
    assert!(!a.same_identity(&b));
}

#[test]
fn pool_membership_and_chunk_change_identity() {
    let entries = EvaluatedEntries::one(AssetId(1));
    let a = EvaluationAsset::new(ChunkId(3), &ids(&[7]), &entries);
    let b = EvaluationAsset::new(ChunkId(3), &ids(&[7, 8]), &entries);
    let c = EvaluationAsset::new(ChunkId(4), &ids(&[7]), &entries);
    assert!(!a.same_identity(&b));
    assert!(!a.same_identity(&c));
    assert!(a.same_identity(&a.duplicate()));
}

#[test]
fn entry_without_chunkable_is_unresolved_entry() {
    let ctx = context(&[1], &[2]);
    let entries = EvaluatedEntries::from_entries(&ids(&[1, 2]));
    let r = ctx.evaluate_chunk(ChunkId(0), &ids(&[]), &entries);
    assert!(matches!(r, Err(EvaluateError::UnresolvedEntry { index: 1, asset: AssetId(2) })));
}

#[test]
fn first_unresolved_entry_is_reported() {
    let ctx = context(&[1], &[]);
    let entries = EvaluatedEntries::from_entries(&ids(&[1, 5, 6]));
    let r = ctx.evaluate(ChunkId(0), &ids(&[]), &entries);
    assert!(matches!(r, Err(EvaluateError::UnresolvedEntry { index: 1, asset: AssetId(5) })));
}

#[test]
fn unplaceable_supporting_asset_is_chunk_construction_error() {
    let ctx = context(&[1], &[2]);
    let r = ctx.evaluate(ChunkId(0), &ids(&[2, 40]), &EvaluatedEntries::one(AssetId(1)));
    assert!(matches!(r, Err(EvaluateError::ChunkConstruction { asset: AssetId(40) })));
}

#[test]
fn unresolved_entry_comes_before_chunk_construction() {
    let ctx = context(&[], &[]);
    let r = ctx.evaluate(ChunkId(0), &ids(&[40]), &EvaluatedEntries::one(AssetId(1)));
    assert!(matches!(r, Err(EvaluateError::UnresolvedEntry { index: 0, asset: AssetId(1) })));
}

#[test]
fn empty_entries_still_produce_asset() {
    let ctx = context(&[], &[]);
    let asset = ctx.evaluate(ChunkId(9), &ids(&[]), &EvaluatedEntries::empty()).unwrap();
    assert_eq!(asset.execution_order(), ids(&[]));
    assert_eq!(asset.entry_chunk(), ChunkId(9));
}
