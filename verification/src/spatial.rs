//! The r-tree that holds the boxes by position.
//!
//! The tree is `rstar`'s. Its entries are rectangles over integer corner
//! keys (see `accel_tree::coord_key`), each tagged with the refno of the
//! element it belongs to. The tree is opaque to the verifier: what it holds
//! is named by `tree_entries`, and every operation that the library uses is
//! a small trusted method whose contract states, over that name, what
//! `rstar`'s source does.

use vstd::prelude::*;
use vstd::multiset::Multiset;
use rstar::RTree;
use rstar::AABB;
use rstar::primitives::GeomWithData;
use rstar::primitives::Rectangle;

verus! {

/// The corners of a box: lower x, y, z, then upper x, y, z.
pub type Corners = (i128, i128, i128, i128, i128, i128);

/// One entry of the tree: the corners of its rectangle and its refno.
pub type TreeEntry = (Corners, u64);

/// Whether the lower corner lies below the upper corner on every axis.
pub open spec fn ordered(c: Corners) -> bool {
    c.0 <= c.3 && c.1 <= c.4 && c.2 <= c.5
}

/// The largest magnitude of a corner key that the tree takes: far beyond
/// the keys of single-precision numbers, and small enough that the sums and
/// products of keys that `rstar` forms while inserting fit in an `i128`.
pub const KEY_BOUND: i128 = 0x1_0000_0000;

/// Whether every corner key lies within `KEY_BOUND`.
pub open spec fn bounded(c: Corners) -> bool {
    &&& -KEY_BOUND <= c.0 <= KEY_BOUND && -KEY_BOUND <= c.1 <= KEY_BOUND && -KEY_BOUND <= c.2 <= KEY_BOUND
    &&& -KEY_BOUND <= c.3 <= KEY_BOUND && -KEY_BOUND <= c.4 <= KEY_BOUND && -KEY_BOUND <= c.5 <= KEY_BOUND
}

/// Whether two boxes meet (touching counts): on every axis the lower side
/// of each lies at or below the upper side of the other.
pub open spec fn meets(a: Corners, b: Corners) -> bool {
    &&& a.0 <= b.3 && a.1 <= b.4 && a.2 <= b.5
    &&& a.3 >= b.0 && a.4 >= b.1 && a.5 >= b.2
}

/// Whether box `inner` lies within box `outer` (boundaries included).
pub open spec fn encloses(outer: Corners, inner: Corners) -> bool {
    &&& outer.0 <= inner.0 && outer.1 <= inner.1 && outer.2 <= inner.2
    &&& outer.3 >= inner.3 && outer.4 >= inner.4 && outer.5 >= inner.5
}

/// An `rstar::RTree` of rectangles over corner keys, each tagged with a
/// refno.
#[verifier::external_body]
pub struct BoxTree {
    tree: RTree<GeomWithData<Rectangle<[i128; 3]>, u64>>,
}

/// The entries that a tree holds, with their multiplicity.
pub uninterp spec fn tree_entries(tree: BoxTree) -> Multiset<TreeEntry>;

impl BoxTree {
    /// `RTree::new`: an empty tree.
    #[verifier::external_body]
    pub(crate) fn new() -> (t: Self)
        ensures
            tree_entries(t) == Multiset::<TreeEntry>::empty(),
    {
        BoxTree { tree: RTree::new() }
    }

    /// `RTree::bulk_load`: a tree that holds exactly the given entries.
    /// `Rectangle::from_corners` orders the corners of a rectangle on each
    /// axis, which leaves corners that are already ordered as they are.
    #[verifier::external_body]
    pub(crate) fn bulk_load(entries: Vec<TreeEntry>) -> (t: Self)
        requires
            forall|i: int| 0 <= i < entries@.len() ==> ordered(#[trigger] entries@[i].0),
        ensures
            tree_entries(t) == entries@.to_multiset(),
    {
        let items: Vec<GeomWithData<Rectangle<[i128; 3]>, u64>> = entries.into_iter().map(
            |(c, r): TreeEntry| GeomWithData::new(Rectangle::from_corners([c.0, c.1, c.2], [c.3, c.4, c.5]), r),
        ).collect();
        BoxTree { tree: RTree::bulk_load(items) }
    }

    /// `RTree::size`: the number of entries.
    #[verifier::external_body]
    pub(crate) fn size(&self) -> (r: usize)
        ensures
            r == tree_entries(*self).len(),
    {
        self.tree.size()
    }

    /// `RTree::insert`: the tree holds the entry once more. The tree counts
    /// its entries in a `usize`; the R* insertion forms centres, extents and
    /// areas of the keys of the new entry and of those already in the tree,
    /// which the bound on all of them keeps within `i128`.
    #[verifier::external_body]
    pub(crate) fn insert(&mut self, entry: TreeEntry)
        requires
            ordered(entry.0),
            bounded(entry.0),
            forall|e: TreeEntry| #[trigger] tree_entries(*old(self)).count(e) > 0 ==> bounded(e.0),
            tree_entries(*old(self)).len() < usize::MAX,
        ensures
            tree_entries(*final(self)) == tree_entries(*old(self)).insert(entry),
    {
        let (c, r) = entry;
        self.tree.insert(GeomWithData::new(Rectangle::from_corners([c.0, c.1, c.2], [c.3, c.4, c.5]), r));
    }

    /// `RTree::remove`: one entry equal to the given one leaves the tree, if
    /// there is one; the result says whether there was. Equal entries have
    /// equal rectangles, hence equal envelopes, which `remove` relies on.
    #[verifier::external_body]
    pub(crate) fn remove(&mut self, entry: TreeEntry) -> (found: bool)
        requires
            ordered(entry.0),
        ensures
            found == tree_entries(*old(self)).contains(entry),
            tree_entries(*final(self)) == tree_entries(*old(self)).remove(entry),
    {
        let (c, r) = entry;
        let item = GeomWithData::new(Rectangle::from_corners([c.0, c.1, c.2], [c.3, c.4, c.5]), r);
        self.tree.remove(&item).is_some()
    }

    /// `RTree::iter`: every entry, in an order that `rstar` leaves open.
    #[verifier::external_body]
    pub(crate) fn entries(&self) -> (r: Vec<TreeEntry>)
        ensures
            r@.to_multiset() == tree_entries(*self),
    {
        self.tree.iter().map(|e| {
            let (lo, hi) = (e.geom().lower(), e.geom().upper());
            ((lo[0], lo[1], lo[2], hi[0], hi[1], hi[2]), e.data)
        }).collect()
    }

    /// `RTree::locate_in_envelope_intersecting`: the entries whose rectangle
    /// meets the query box, in an order that `rstar` leaves open.
    #[verifier::external_body]
    pub(crate) fn meeting(&self, query: Corners) -> (r: Vec<TreeEntry>)
        requires
            ordered(query),
        ensures
            r@.to_multiset() == tree_entries(*self).filter(|e: TreeEntry| meets(e.0, query)),
    {
        let q = AABB::from_corners([query.0, query.1, query.2], [query.3, query.4, query.5]);
        self.tree.locate_in_envelope_intersecting(q).map(|e| {
            let (lo, hi) = (e.geom().lower(), e.geom().upper());
            ((lo[0], lo[1], lo[2], hi[0], hi[1], hi[2]), e.data)
        }).collect()
    }

    /// `RTree::locate_in_envelope`: the entries whose rectangle lies within
    /// the query box, in an order that `rstar` leaves open.
    #[verifier::external_body]
    pub(crate) fn within(&self, query: Corners) -> (r: Vec<TreeEntry>)
        requires
            ordered(query),
        ensures
            r@.to_multiset() == tree_entries(*self).filter(|e: TreeEntry| encloses(query, e.0)),
    {
        let q = AABB::from_corners([query.0, query.1, query.2], [query.3, query.4, query.5]);
        self.tree.locate_in_envelope(q).map(|e| {
            let (lo, hi) = (e.geom().lower(), e.geom().upper());
            ((lo[0], lo[1], lo[2], hi[0], hi[1], hi[2]), e.data)
        }).collect()
    }
}

} // verus!
