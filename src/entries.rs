use vstd::prelude::*;
use crate::ids::{AssetId, copy_ids};

verus! {

/// An ordered, immutable collection of evaluated entries.
///
/// The order is the order in which the entries execute at runtime. Appending
/// builds a new collection and leaves the one it started from as it was.
/// Duplicates are kept: keeping entries unique is the caller's concern.
pub struct EvaluatedEntries {
    entries: Vec<AssetId>,
}

impl View for EvaluatedEntries {
    type V = Seq<AssetId>;

    open spec fn view(&self) -> Seq<AssetId> {
        self.spec_entries()
    }
}

impl EvaluatedEntries {
    /// The entries, in execution order.
    pub closed spec fn spec_entries(&self) -> Seq<AssetId> {
        self.entries@
    }

    /// The collection with no entries.
    pub fn empty() -> (r: EvaluatedEntries)
        ensures
            r@ == Seq::<AssetId>::empty(),
    {
        let r = EvaluatedEntries { entries: Vec::new() };
        assert(r@ =~= Seq::<AssetId>::empty());
        r
    }

    /// The collection that holds `entry` alone.
    pub fn one(entry: AssetId) -> (r: EvaluatedEntries)
        ensures
            r@ == seq![entry],
    {
        let mut v: Vec<AssetId> = Vec::new();
        v.push(entry);
        let r = EvaluatedEntries { entries: v };
        assert(r@ =~= seq![entry]);
        r
    }

    /// A new collection: the entries of `self`, in their order, then `entry`.
    pub fn with_entry(&self, entry: AssetId) -> (r: EvaluatedEntries)
        ensures
            r@ == self@.push(entry),
    {
        let mut v = copy_ids(&self.entries);
        v.push(entry);
        EvaluatedEntries { entries: v }
    }

    /// The collection built by appending `entries` one by one to the empty
    /// collection: it holds them in the order given.
    pub fn from_entries(entries: &Vec<AssetId>) -> (r: EvaluatedEntries)
        ensures
            r@ == entries@,
    {
        let mut r = EvaluatedEntries::empty();
        let mut i: usize = 0;
        while i < entries.len()
            invariant
                i <= entries@.len(),
                r@ == entries@.subrange(0, i as int),
            decreases entries@.len() - i,
        {
            r = r.with_entry(entries[i]);
            i = i + 1;
            assert(r@ =~= entries@.subrange(0, i as int));
        }
        assert(r@ =~= entries@);
        r
    }

    /// The number of entries.
    pub fn len(&self) -> (r: usize)
        ensures
            r == self@.len(),
    {
        self.entries.len()
    }

    /// Tells whether the collection has no entries.
    pub fn is_empty(&self) -> (r: bool)
        ensures
            r == (self@.len() == 0),
    {
        self.entries.len() == 0
    }

    /// The entry at position `i` of the execution order.
    pub fn get(&self, i: usize) -> (r: AssetId)
        requires
            i < self@.len(),
        ensures
            r == self@[i as int],
    {
        self.entries[i]
    }

    /// The entries, in execution order, as a vector of their own.
    pub fn to_vec(&self) -> (r: Vec<AssetId>)
        ensures
            r@ == self@,
    {
        copy_ids(&self.entries)
    }
}

/// The sequence that repeated appending builds: starting from the empty
/// collection, each of `es` is appended in turn.
pub open spec fn appended(es: Seq<AssetId>) -> Seq<AssetId>
    decreases es.len(),
{
    if es.len() == 0 {
        Seq::empty()
    } else {
        appended(es.drop_last()).push(es.last())
    }
}

/// The sequence that appending `later` to a collection that holds `start` builds.
pub open spec fn appended_to(start: Seq<AssetId>, later: Seq<AssetId>) -> Seq<AssetId>
    decreases later.len(),
{
    if later.len() == 0 {
        start
    } else {
        appended_to(start, later.drop_last()).push(later.last())
    }
}

/// Appending entries one by one to the empty collection yields exactly those
/// entries, in the order in which they were appended.
pub proof fn lemma_appends_keep_order(es: Seq<AssetId>)
    ensures
        appended(es) == es,
    decreases es.len(),
{
    if es.len() > 0 {
        lemma_appends_keep_order(es.drop_last());
        assert(es.drop_last().push(es.last()) =~= es);
    }
}

/// The collection of one entry is the empty collection with that entry appended.
pub proof fn lemma_one_is_append_to_empty(e: AssetId)
    ensures
        seq![e] == Seq::<AssetId>::empty().push(e),
{
    assert(seq![e] =~= Seq::<AssetId>::empty().push(e));
}

/// Appending never changes a collection built earlier: whatever is appended
/// after it, the earlier collection still holds its own shorter sequence, and
/// that sequence stays the start of every later one.
pub proof fn lemma_earlier_collection_unchanged(start: Seq<AssetId>, later: Seq<AssetId>)
    ensures
        appended_to(start, later).len() == start.len() + later.len(),
        appended_to(start, later).subrange(0, start.len() as int) == start,
        appended_to(start, later) == start + later,
    decreases later.len(),
{
    if later.len() > 0 {
        lemma_earlier_collection_unchanged(start, later.drop_last());
        assert(start + later.drop_last().push(later.last()) =~= start + later);
    } else {
        assert(start + later =~= start);
    }
    assert(appended_to(start, later).subrange(0, start.len() as int) =~= start);
}

} // verus!
