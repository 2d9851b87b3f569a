use vstd::prelude::*;
use crate::entries::EvaluatedEntries;
use crate::error::EvaluateError;
use crate::ids::AssetId;

verus! {

/// The capabilities that a concrete asset structurally has.
#[derive(Clone, Copy, Debug, PartialEq, Eq, Structural)]
pub struct Capabilities {
    /// It is an output asset.
    pub is_asset: bool,
    /// It can take part in chunk construction.
    pub is_chunkable: bool,
}

/// An asset may stand as an evaluated entry exactly when it is both an asset
/// and chunkable.
pub open spec fn spec_is_evaluated_entry(c: Capabilities) -> bool {
    c.is_asset && c.is_chunkable
}

impl Capabilities {
    /// Tells whether these capabilities make an evaluated entry.
    pub fn is_evaluated_entry(&self) -> (r: bool)
        ensures
            r == spec_is_evaluated_entry(*self),
    {
        self.is_asset && self.is_chunkable
    }
}

/// A reference that resolved to a concrete asset, with that asset's capabilities.
#[derive(Clone, Copy, Debug, PartialEq, Eq, Structural)]
pub struct ResolvedAsset {
    pub id: AssetId,
    pub caps: Capabilities,
}

/// What `id` resolves to in `known`: the capabilities of its first record, or
/// nothing where it has none.
pub open spec fn resolve_in(known: Seq<ResolvedAsset>, id: AssetId) -> Option<Capabilities>
    decreases known.len(),
{
    if known.len() == 0 {
        None
    } else if known[0].id == id {
        Some(known[0].caps)
    } else {
        resolve_in(known.drop_first(), id)
    }
}

/// `id` resolves to a concrete evaluated entry.
pub open spec fn resolves_to_entry(known: Seq<ResolvedAsset>, id: AssetId) -> bool {
    match resolve_in(known, id) {
        Some(c) => spec_is_evaluated_entry(c),
        None => false,
    }
}

/// `id` resolves to a concrete asset, which a chunk can then hold.
pub open spec fn resolves_to_asset(known: Seq<ResolvedAsset>, id: AssetId) -> bool {
    match resolve_in(known, id) {
        Some(c) => c.is_asset,
        None => false,
    }
}

/// The concrete assets that references have resolved to.
pub struct AssetCatalog {
    known: Vec<ResolvedAsset>,
}

impl View for AssetCatalog {
    type V = Seq<ResolvedAsset>;

    closed spec fn view(&self) -> Seq<ResolvedAsset> {
        self.known@
    }
}

impl AssetCatalog {
    /// A catalog of the given resolutions; where one identity has several, the
    /// first counts.
    pub fn new(known: Vec<ResolvedAsset>) -> (r: AssetCatalog)
        ensures
            r@ == known@,
    {
        AssetCatalog { known }
    }

    /// What `id` resolves to, if anything.
    pub fn resolve(&self, id: AssetId) -> (r: Option<Capabilities>)
        ensures
            r == resolve_in(self@, id),
    {
        let mut i: usize = 0;
        assert(self@.subrange(0, self@.len() as int) =~= self@);
        while i < self.known.len()
            invariant
                i <= self@.len(),
                resolve_in(self@.subrange(i as int, self@.len() as int), id) == resolve_in(self@, id),
            decreases self@.len() - i,
        {
            let ghost rest = self@.subrange(i as int, self@.len() as int);
            assert(rest[0] == self@[i as int]);
            if self.known[i].id.0 == id.0 {
                return Some(self.known[i].caps);
            }
            assert(rest.drop_first() =~= self@.subrange(i + 1, self@.len() as int));
            i = i + 1;
        }
        None
    }

    /// Tells whether `id` resolves to a concrete evaluated entry.
    pub fn is_entry(&self, id: AssetId) -> (r: bool)
        ensures
            r == resolves_to_entry(self@, id),
    {
        match self.resolve(id) {
            Some(c) => c.is_evaluated_entry(),
            None => false,
        }
    }

    /// Tells whether `id` resolves to a concrete asset.
    pub fn is_asset(&self, id: AssetId) -> (r: bool)
        ensures
            r == resolves_to_asset(self@, id),
    {
        match self.resolve(id) {
            Some(c) => c.is_asset,
            None => false,
        }
    }

    /// Accepts `candidate` into `entries`, checking its capabilities first.
    ///
    /// Succeeds, with `candidate` appended, exactly when it resolves to an
    /// asset that is also chunkable; otherwise fails with a resolution error
    /// that names it, and nothing is appended.
    pub fn accept_entry(&self, entries: &EvaluatedEntries, candidate: AssetId) -> (r: Result<EvaluatedEntries, EvaluateError>)
        ensures
            r is Ok <==> resolves_to_entry(self@, candidate),
            r matches Ok(n) ==> n@ == entries@.push(candidate),
            r matches Err(e) ==> e == (EvaluateError::Resolution { asset: candidate }),
    {
        if self.is_entry(candidate) {
            Ok(entries.with_entry(candidate))
        } else {
            Err(EvaluateError::Resolution { asset: candidate })
        }
    }
}

} // verus!
