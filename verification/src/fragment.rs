//! The catalogue of renderable pieces a tile may contain. The shapes
//! themselves are external; the planner only tests membership of these tags
//! in a tile's fragment set.

use vstd::prelude::*;

verus! {

/// Tag of one renderable tile piece.
#[derive(Clone, Copy, Debug, PartialEq, Eq, Structural)]
pub enum TileFragment {
    TriangleXFore,
    TriangleXRear,
    TriangleYFore,
    TriangleYRear,
    TriangleZForeLeft,
    TriangleZForeRight,
    TriangleZSideLeft,
    TriangleZSideRight,
    TriangleZRearLeft,
    TriangleZRearRight,
    LadderMajorFace,
    LadderMajorBulkSide,
    LadderMajorCompSide,
    LadderMinorFace,
    LadderMinorBulkSide,
    LadderMinorCompSide,
    ArchMajorFace,
    ArchMajorBulkSide,
    ArchMajorCompSide,
    ArchMinorFace,
    ArchMinorBulkSide,
    ArchMinorCompSide,
}

/// Whether every fragment of `req` occurs in `have`.
pub open spec fn spec_fragments_subset(req: Seq<TileFragment>, have: Seq<TileFragment>) -> bool {
    forall|i: int| 0 <= i < req.len() ==> have.contains(#[trigger] req[i])
}

/// Whether the fragment `f` occurs in `have`.
pub fn fragments_contain(have: &Vec<TileFragment>, f: TileFragment) -> (r: bool)
    ensures
        r == have@.contains(f),
{
    let mut i: usize = 0;
    while i < have.len()
        invariant
            i <= have@.len(),
            forall|k: int| 0 <= k < i ==> have@[k] != f,
        decreases have@.len() - i,
    {
        if have[i] == f {
            return true;
        }
        i = i + 1;
    }
    false
}

/// Whether every fragment of `req` occurs in `have`.
pub fn fragments_subset(req: &Vec<TileFragment>, have: &Vec<TileFragment>) -> (r: bool)
    ensures
        r == spec_fragments_subset(req@, have@),
{
    let mut i: usize = 0;
    while i < req.len()
        invariant
            i <= req@.len(),
            forall|k: int| 0 <= k < i ==> have@.contains(#[trigger] req@[k]),
        decreases req@.len() - i,
    {
        if !fragments_contain(have, req[i]) {
            return false;
        }
        i = i + 1;
    }
    true
}

/// An identical copy of a fragment list.
pub fn clone_fragments(v: &Vec<TileFragment>) -> (r: Vec<TileFragment>)
    ensures
        r@ == v@,
{
    let mut r: Vec<TileFragment> = Vec::new();
    let mut i: usize = 0;
    while i < v.len()
        invariant
            i <= v@.len(),
            r@ =~= v@.take(i as int),
        decreases v@.len() - i,
    {
        r.push(v[i]);
        i = i + 1;
    }
    proof {
        assert(r@ =~= v@);
    }
    r
}

} // verus!
