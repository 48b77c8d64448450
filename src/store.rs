use crate::event::{
    event_from, event_of, is_malformed, is_point, views, EventRecord, EventView,
    RawFeature,
};
use crate::index::{entry_in_box, index_entries, Entry, PointIndex};
use crate::number::{in_range, key_of, lemma_order_key_bounds, nan, order_key, within};
use vstd::prelude::*;

verus! {

broadcast use vstd::seq_lib::group_to_multiset_ensures;

/// Why a load was refused.
pub enum LoadError {
    Malformed { reason: String },
}

/// A closed box, its bounds given as the bit patterns of doubles.
pub struct BoundingBox {
    pub min_x: u64,
    pub min_y: u64,
    pub max_x: u64,
    pub max_y: u64,
}

/// Whether an event's location lies in a box (IEEE comparisons).
pub open spec fn point_in_box(e: EventView, b: BoundingBox) -> bool {
    in_range(e.x, b.min_x, b.max_x) && in_range(e.y, b.min_y, b.max_y)
}

/// The events that a sequence of decoded features yields: one per point
/// feature, in input order; other geometries are skipped.
pub open spec fn events_of(fs: Seq<RawFeature>) -> Seq<EventView>
    decreases fs.len(),
{
    if fs.len() == 0 {
        Seq::empty()
    } else {
        let prev = events_of(fs.drop_last());
        if is_point(fs.last()) {
            prev.push(event_of(fs.last()))
        } else {
            prev
        }
    }
}

/// Whether some feature is a point that cannot be placed.
pub open spec fn any_malformed(fs: Seq<RawFeature>) -> bool {
    exists|i: int| 0 <= i < fs.len() && #[trigger] is_malformed(fs[i])
}

/// The number of point features.
pub open spec fn point_count(fs: Seq<RawFeature>) -> nat
    decreases fs.len(),
{
    if fs.len() == 0 {
        0
    } else {
        point_count(fs.drop_last()) + if is_point(fs.last()) {
            1nat
        } else {
            0nat
        }
    }
}

/// The index entry of each event: its location's order keys and its position.
pub open spec fn entries_of(evs: Seq<EventView>) -> Seq<Entry> {
    Seq::new(
        evs.len(),
        |i: int| (order_key(evs[i].x) as i64, order_key(evs[i].y) as i64, i as usize),
    )
}

/// The positions below `n` whose flag is set, in increasing order.
pub open spec fn positions_upto(keep: Seq<bool>, n: int) -> Seq<usize>
    decreases n,
{
    if n <= 0 {
        Seq::empty()
    } else if keep[n - 1] {
        positions_upto(keep, n - 1).push((n - 1) as usize)
    } else {
        positions_upto(keep, n - 1)
    }
}

/// The positions of the events whose location lies in the box, in store order.
pub open spec fn box_result(evs: Seq<EventView>, b: BoundingBox) -> Seq<usize> {
    positions_upto(Seq::new(evs.len(), |i: int| point_in_box(evs[i], b)), evs.len() as int)
}

/// A filter request: an optional organisation, inclusive date and sentiment
/// ranges, and an optional box that the location must lie in.
pub struct FilterRequest {
    pub org: Option<String>,
    pub date_range: (u64, u64),
    pub sentiment_range: (u64, u64),
    pub bounding_box: Option<BoundingBox>,
}

/// Whether an event satisfies every predicate of a request.
pub open spec fn satisfies(e: EventView, req: FilterRequest) -> bool {
    (match req.org {
        Some(o) => e.org == o@,
        None => true,
    }) && in_range(e.date, req.date_range.0, req.date_range.1) && in_range(
        e.sentiment,
        req.sentiment_range.0,
        req.sentiment_range.1,
    ) && (match req.bounding_box {
        Some(b) => point_in_box(e, b),
        None => true,
    })
}

/// The positions of the events that match a request, in store order.
pub open spec fn filter_result(evs: Seq<EventView>, req: FilterRequest) -> Seq<usize> {
    positions_upto(Seq::new(evs.len(), |i: int| satisfies(evs[i], req)), evs.len() as int)
}

/// The event store: the events in input order and a spatial index over
/// their locations, rebuilt together on each load.
pub struct GeoProcessor {
    events: Vec<EventRecord>,
    spatial_index: PointIndex,
}

impl View for GeoProcessor {
    type V = Seq<EventView>;

    closed spec fn view(&self) -> Seq<EventView> {
        views(self.events@)
    }
}

impl GeoProcessor {
    /// The index holds one entry per event, placed at the event's location
    /// and pointing back at it.
    pub closed spec fn wf(&self) -> bool {
        index_entries(self.spatial_index) == entries_of(self@).to_multiset()
    }

    /// An empty store.
    pub fn new() -> (r: GeoProcessor)
        ensures
            r.wf(),
            r@ == Seq::<EventView>::empty(),
    {
        let events: Vec<EventRecord> = Vec::new();
        let entries: Vec<Entry> = Vec::new();
        let spatial_index = PointIndex::bulk_load(entries);
        let r = GeoProcessor { events, spatial_index };
        assert(entries_of(r@) =~= entries@);
        r
    }

    /// Replaces the store with the events of the decoded features. A decode
    /// failure, or a point feature with fewer than two coordinates, leaves
    /// the store as it was and is reported as malformed input.
    pub fn load_data(&mut self, decoded: Result<Vec<RawFeature>, String>) -> (r: Result<
        (),
        LoadError,
    >)
        requires
            old(self).wf(),
        ensures
            final(self).wf(),
            match decoded {
                Err(m) => r == Err::<(), LoadError>(LoadError::Malformed { reason: m })
                    && *final(self) == *old(self),
                Ok(fs) => if any_malformed(fs@) {
                    r is Err && *final(self) == *old(self)
                } else {
                    r is Ok && final(self)@ == events_of(fs@)
                },
            },
    {
        let ghost input = decoded;
        let features = match decoded {
            Err(m) => {
                return Err(LoadError::Malformed { reason: m });
            },
            Ok(fs) => fs,
        };
        let n = features.len();
        let mut events: Vec<EventRecord> = Vec::new();
        let mut entries: Vec<Entry> = Vec::new();
        let mut i: usize = 0;
        while i < n
            invariant
                i <= n,
                n == features@.len(),
                input == Ok::<Vec<RawFeature>, String>(features),
                input == decoded,
                *self == *old(self),
                self.wf(),
                views(events@) == events_of(features@.take(i as int)),
                entries@ == entries_of(views(events@)),
                forall|j: int| 0 <= j < i ==> !#[trigger] is_malformed(features@[j]),
            decreases n - i,
        {
            assert(features@.take(i + 1).drop_last() =~= features@.take(i as int));
            let f = &features[i];
            if let crate::event::RawGeometry::Point(_) = &f.geometry {
                match event_from(f) {
                    Err(reason) => {
                        assert(is_malformed(features@[i as int]));
                        return Err(LoadError::Malformed { reason });
                    },
                    Ok(e) => {
                        let x = key_of(e.x);
                        let y = key_of(e.y);
                        let pos = events.len();
                        proof {
                            lemma_order_key_bounds(e.x);
                            lemma_order_key_bounds(e.y);
                        }
                        let ghost before = events@;
                        events.push(e);
                        entries.push((x, y, pos));
                        assert(views(events@) =~= views(before).push(e@));
                        assert(entries_of(views(events@)) =~= entries_of(views(before)).push(
                            (x, y, pos),
                        ));
                    },
                }
            }
            i = i + 1;
        }
        assert(features@.take(n as int) =~= features@);
        let spatial_index = PointIndex::bulk_load(entries);
        self.events = events;
        self.spatial_index = spatial_index;
        Ok(())
    }

    /// For each event, whether its location lies in the box. Only the
    /// candidates that the spatial index returns are checked exactly; every
    /// other flag stays false.
    fn box_flags(&self, b: &BoundingBox) -> (r: Vec<bool>)
        requires
            self.wf(),
        ensures
            r@.len() == self@.len(),
            forall|i: int| 0 <= i < r@.len() ==> #[trigger] r@[i] == point_in_box(self@[i], *b),
    {
        let n = self.events.len();
        let mut hit: Vec<bool> = Vec::new();
        let mut i: usize = 0;
        while i < n
            invariant
                i <= n,
                hit@.len() == i,
                forall|j: int| 0 <= j < i ==> !#[trigger] hit@[j],
            decreases n - i,
        {
            hit.push(false);
            i = i + 1;
        }
        if nan(b.min_x) || nan(b.min_y) || nan(b.max_x) || nan(b.max_y) {
            assert forall|j: int| 0 <= j < hit@.len() implies #[trigger] hit@[j] == point_in_box(
                self@[j],
                *b,
            ) by {}
            return hit;
        }
        let lo_x = key_of(b.min_x);
        let lo_y = key_of(b.min_y);
        let hi_x = key_of(b.max_x);
        let hi_y = key_of(b.max_y);
        if lo_x > hi_x || lo_y > hi_y {
            assert forall|j: int| 0 <= j < hit@.len() implies #[trigger] hit@[j] == point_in_box(
                self@[j],
                *b,
            ) by {}
            return hit;
        }
        let cands = self.spatial_index.locate_in_box(lo_x, lo_y, hi_x, hi_y);
        let m = cands.len();
        let mut k: usize = 0;
        while k < m
            invariant
                k <= m,
                m == cands@.len(),
                hit@.len() == n,
                n == self@.len(),
                n == self.events@.len(),
                forall|j: int|
                    0 <= j < n ==> (#[trigger] hit@[j] <==> (point_in_box(self@[j], *b) && exists|
                        c: int,
                    |
                        0 <= c < k && cands@[c].2 as int == j)),
            decreases m - k,
        {
            let pos = cands[k].2;
            if pos < n {
                let e = &self.events[pos];
                if within(e.x, b.min_x, b.max_x) && within(e.y, b.min_y, b.max_y) {
                    hit.set(pos, true);
                }
            }
            proof {
                assert forall|j: int| 0 <= j < n implies (#[trigger] hit@[j] <==> (point_in_box(
                    self@[j],
                    *b,
                ) && exists|c: int| 0 <= c < k + 1 && cands@[c].2 as int == j)) by {
                    if exists|c: int| 0 <= c < k + 1 && cands@[c].2 as int == j {
                        if !(exists|c: int| 0 <= c < k && cands@[c].2 as int == j) {
                            assert(cands@[k as int].2 as int == j);
                        }
                    }
                    if exists|c: int| 0 <= c < k && cands@[c].2 as int == j {
                        let c = choose|c: int| 0 <= c < k && cands@[c].2 as int == j;
                        assert(0 <= c < k + 1 && cands@[c].2 as int == j);
                    }
                    if j == pos as int {
                        assert(0 <= k < k + 1 && cands@[k as int].2 as int == j);
                    }
                }
            }
            k = k + 1;
        }
        assert forall|j: int| 0 <= j < n implies #[trigger] hit@[j] == point_in_box(
            self@[j],
            *b,
        ) by {
            if point_in_box(self@[j], *b) {
                let ents = entries_of(self@);
                let en = ents[j];
                lemma_order_key_bounds(self@[j].x);
                lemma_order_key_bounds(self@[j].y);
                assert(ents.contains(en));
                assert(index_entries(self.spatial_index).count(en) > 0);
                assert(entry_in_box(en, lo_x, lo_y, hi_x, hi_y));
                assert(cands@.to_multiset().count(en) > 0);
                assert(cands@.contains(en));
                let c = choose|c: int| 0 <= c < m && cands@[c] == en;
                assert(cands@[c].2 as int == j);
            }
        }
        hit
    }

    /// Collects the positions whose flag is set, in increasing order.
    fn positions(keep: &Vec<bool>) -> (r: Vec<usize>)
        ensures
            r@ == positions_upto(keep@, keep@.len() as int),
    {
        let n = keep.len();
        let mut r: Vec<usize> = Vec::new();
        let mut i: usize = 0;
        while i < n
            invariant
                i <= n,
                n == keep@.len(),
                r@ == positions_upto(keep@, i as int),
            decreases n - i,
        {
            if keep[i] {
                r.push(i);
            }
            i = i + 1;
        }
        r
    }

    /// The positions of the events whose location lies in the box, in store
    /// order, found through the spatial index.
    pub fn query_box(&self, b: &BoundingBox) -> (r: Vec<usize>)
        requires
            self.wf(),
        ensures
            r@ == box_result(self@, *b),
    {
        let flags = self.box_flags(b);
        assert(flags@ =~= Seq::new(self@.len(), |i: int| point_in_box(self@[i], *b)));
        Self::positions(&flags)
    }

    /// The positions of the events that satisfy every predicate of the
    /// request, in store order. A box, when given, is resolved through the
    /// spatial index before the attributes are compared.
    pub fn apply_filters(&self, req: &FilterRequest) -> (r: Vec<usize>)
        requires
            self.wf(),
        ensures
            r@ == filter_result(self@, *req),
    {
        let n = self.events.len();
        let in_box: Option<Vec<bool>> = match &req.bounding_box {
            Some(b) => Some(self.box_flags(b)),
            None => None,
        };
        let mut keep: Vec<bool> = Vec::new();
        let mut i: usize = 0;
        while i < n
            invariant
                i <= n,
                n == self@.len(),
                n == self.events@.len(),
                keep@.len() == i,
                match in_box {
                    Some(f) => req.bounding_box is Some && f@.len() == n && forall|j: int|
                        0 <= j < n ==> #[trigger] f@[j] == point_in_box(
                            self@[j],
                            req.bounding_box->Some_0,
                        ),
                    None => req.bounding_box is None,
                },
                forall|j: int| 0 <= j < i ==> #[trigger] keep@[j] == satisfies(self@[j], *req),
            decreases n - i,
        {
            let e = &self.events[i];
            let spatial = match &in_box {
                Some(f) => f[i],
                None => true,
            };
            let org_ok = match &req.org {
                Some(o) => e.org == *o,
                None => true,
            };
            let ok = spatial && org_ok && within(e.date, req.date_range.0, req.date_range.1)
                && within(e.sentiment, req.sentiment_range.0, req.sentiment_range.1);
            keep.push(ok);
            i = i + 1;
        }
        assert(keep@ =~= Seq::new(self@.len(), |i: int| satisfies(self@[i], *req)));
        Self::positions(&keep)
    }

    /// An estimate of the bytes that the event sequence occupies: the number
    /// of events times the fixed size of one record, saturating at `u64::MAX`.
    /// It leaves out the index and the text that the records own.
    pub fn memory_footprint(&self) -> (r: u64)
        ensures
            r as int == if self@.len() * vstd::layout::size_of::<EventRecord>() <= u64::MAX {
                (self@.len() * vstd::layout::size_of::<EventRecord>()) as int
            } else {
                u64::MAX as int
            },
    {
        let per = core::mem::size_of::<EventRecord>();
        let count = self.events.len();
        assert((count as int) * (per as int) < 0x1_0000_0000_0000_0000_0000_0000_0000_0000)
            by (nonlinear_arith)
            requires
                count <= usize::MAX,
                per <= usize::MAX,
                usize::MAX < 0x1_0000_0000_0000_0000,
        ;
        let total: u128 = (count as u128) * (per as u128);
        if total > u64::MAX as u128 {
            u64::MAX
        } else {
            total as u64
        }
    }

    /// The events, in input order.
    pub fn records(&self) -> (r: &Vec<EventRecord>)
        ensures
            views(r@) == self@,
    {
        &self.events
    }

    /// The number of events.
    pub fn len(&self) -> (r: usize)
        ensures
            r == self@.len(),
    {
        self.events.len()
    }
}

} // verus!
