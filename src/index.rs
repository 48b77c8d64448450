use vstd::multiset::Multiset;
use vstd::prelude::*;

verus! {

/// One index entry: the order keys of a point's coordinates and the
/// position of the record it stands for.
pub type Entry = (i64, i64, usize);

/// A bulk-loaded R-tree over points with integer coordinates, each paired
/// with a record position. The tree is held in a private field: Verus does
/// not take a declaration of `rstar::RTree`, whose parameters are bound by
/// rstar's own traits.
#[verifier::external_body]
pub struct PointIndex {
    tree: rstar::RTree<rstar::primitives::GeomWithData<[i64; 2], usize>>,
}

/// The entries that an index holds.
pub uninterp spec fn index_entries(t: PointIndex) -> Multiset<Entry>;

/// Whether an entry's point lies in the closed box `[lo_x, hi_x] x [lo_y, hi_y]`.
pub open spec fn entry_in_box(e: Entry, lo_x: i64, lo_y: i64, hi_x: i64, hi_y: i64) -> bool {
    lo_x <= e.0 && e.0 <= hi_x && lo_y <= e.1 && e.1 <= hi_y
}

impl PointIndex {
    /// Relies on rstar::RTree::bulk_load: the tree holds exactly the given
    /// elements.
    #[verifier::external_body]
    pub fn bulk_load(entries: Vec<Entry>) -> (r: PointIndex)
        ensures
            index_entries(r) == entries@.to_multiset(),
    {
        let items = entries.into_iter().map(
            |(x, y, i)| rstar::primitives::GeomWithData::new([x, y], i),
        ).collect();
        PointIndex { tree: rstar::RTree::bulk_load(items) }
    }

    /// Relies on rstar::AABB::from_bounds, which asserts that the lower
    /// corner is at or below the upper one, and on
    /// rstar::RTree::locate_in_envelope: it yields each element whose
    /// envelope lies inside the given box, as often as the tree holds it.
    #[verifier::external_body]
    pub fn locate_in_box(&self, lo_x: i64, lo_y: i64, hi_x: i64, hi_y: i64) -> (r: Vec<Entry>)
        requires
            lo_x <= hi_x,
            lo_y <= hi_y,
        ensures
            forall|e: Entry|
                #[trigger] r@.to_multiset().count(e) == if entry_in_box(e, lo_x, lo_y, hi_x, hi_y) {
                    index_entries(*self).count(e)
                } else {
                    0
                },
    {
        let bounds = rstar::AABB::from_bounds([lo_x, lo_y], [hi_x, hi_y]);
        self.tree.locate_in_envelope(bounds).map(|g| (g.geom()[0], g.geom()[1], g.data)).collect()
    }
}

} // verus!
