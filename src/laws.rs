use crate::event::{has_location, EventView, RawFeature};
use crate::export::{header_row, row_of, table_of, view_valid, CellView};
use crate::number::{
    is_nan, lemma_infinite_range_admits_all, order_key, INFINITY_BITS, NEG_INFINITY_BITS,
};
use crate::store::{
    box_result, events_of, filter_result, point_count, point_in_box, positions_upto, satisfies,
    BoundingBox, FilterRequest,
};
use vstd::prelude::*;

verus! {

/// A position appears among the selected positions iff it is below the
/// bound and its flag is set.
pub proof fn lemma_positions_upto(keep: Seq<bool>, n: int, i: usize)
    requires
        0 <= n <= keep.len(),
        n <= usize::MAX + 1,
    ensures
        positions_upto(keep, n).contains(i) <==> (i < n && keep[i as int]),
        forall|k: int|
            0 <= k < positions_upto(keep, n).len() ==> #[trigger] positions_upto(keep, n)[k] < n,
    decreases n,
{
    if n > 0 {
        lemma_positions_upto(keep, n - 1, i);
        let p = positions_upto(keep, n - 1);
        if keep[n - 1] {
            let q = p.push((n - 1) as usize);
            assert forall|k: int| 0 <= k < q.len() implies #[trigger] q[k] < n by {
                if k < p.len() {
                    assert(q[k] == p[k]);
                }
            }
            if q.contains(i) {
                let k = choose|k: int| 0 <= k < q.len() && #[trigger] q[k] == i;
                if k < p.len() {
                    assert(p[k] == q[k]);
                    assert(p.contains(i));
                }
            }
            if i < n && keep[i as int] {
                if i < n - 1 {
                    let k = choose|k: int| 0 <= k < p.len() && #[trigger] p[k] == i;
                    assert(q[k] == p[k]);
                    assert(q.contains(i));
                } else {
                    assert(q[p.len() as int] == i);
                    assert(q.contains(i));
                }
            }
        }
    }
}

/// Loading keeps one event per point feature: the number of events equals
/// the number of point features, whatever other geometries are mixed in.
pub proof fn lemma_point_only(fs: Seq<RawFeature>)
    ensures
        events_of(fs).len() == point_count(fs),
    decreases fs.len(),
{
    if fs.len() > 0 {
        lemma_point_only(fs.drop_last());
    }
}

/// The box that holds exactly one event's location.
pub open spec fn point_box(e: EventView) -> BoundingBox {
    BoundingBox { min_x: e.x, min_y: e.y, max_x: e.x, max_y: e.y }
}

/// A box query on exactly an event's location finds that event.
pub proof fn lemma_index_fidelity(evs: Seq<EventView>, i: usize)
    requires
        i < evs.len(),
        evs.len() <= usize::MAX,
        has_location(evs[i as int]),
    ensures
        box_result(evs, point_box(evs[i as int])).contains(i),
{
    let b = point_box(evs[i as int]);
    let keep = Seq::new(evs.len(), |j: int| point_in_box(evs[j], b));
    assert(keep[i as int]);
    lemma_positions_upto(keep, evs.len() as int, i);
}

/// The request that admits every organisation and every number, and keeps
/// only the box that holds exactly one event's location.
pub open spec fn point_request(e: EventView) -> FilterRequest {
    FilterRequest {
        org: None,
        date_range: (NEG_INFINITY_BITS, INFINITY_BITS),
        sentiment_range: (NEG_INFINITY_BITS, INFINITY_BITS),
        bounding_box: Some(point_box(e)),
    }
}

/// Filtering with the box of exactly an event's location, and no other
/// restriction, finds that event.
pub proof fn lemma_point_filter_finds_record(evs: Seq<EventView>, i: usize)
    requires
        i < evs.len(),
        evs.len() <= usize::MAX,
        has_location(evs[i as int]),
        !is_nan(evs[i as int].date),
        !is_nan(evs[i as int].sentiment),
    ensures
        filter_result(evs, point_request(evs[i as int])).contains(i),
{
    let e = evs[i as int];
    lemma_infinite_range_admits_all(e.date);
    lemma_infinite_range_admits_all(e.sentiment);
    lemma_filter_conjunction(evs, point_request(e), i);
}

/// An event is in a filter's result iff it satisfies every predicate of
/// the request.
pub proof fn lemma_filter_conjunction(evs: Seq<EventView>, req: FilterRequest, i: usize)
    requires
        evs.len() <= usize::MAX,
    ensures
        filter_result(evs, req).contains(i) <==> (i < evs.len() && satisfies(evs[i as int], req)),
{
    let keep = Seq::new(evs.len(), |j: int| satisfies(evs[j], req));
    lemma_positions_upto(keep, evs.len() as int, i);
}

/// Whether a range is relaxed to all numbers, or left as it was.
pub open spec fn range_relaxed(r: (u64, u64), orig: (u64, u64)) -> bool {
    r == orig || r == (NEG_INFINITY_BITS, INFINITY_BITS)
}

/// Whether `relaxed` is `req` with some predicates dropped: the organisation
/// or the box left out, or a range widened to all numbers.
pub open spec fn relaxes(relaxed: FilterRequest, req: FilterRequest) -> bool {
    (relaxed.org is None || relaxed.org == req.org) && range_relaxed(
        relaxed.date_range,
        req.date_range,
    ) && range_relaxed(relaxed.sentiment_range, req.sentiment_range) && (
    relaxed.bounding_box is None || relaxed.bounding_box == req.bounding_box)
}

/// Relaxing predicates never shrinks a filter's result.
pub proof fn lemma_relaxing_never_shrinks(
    evs: Seq<EventView>,
    req: FilterRequest,
    relaxed: FilterRequest,
    i: usize,
)
    requires
        evs.len() <= usize::MAX,
        relaxes(relaxed, req),
        filter_result(evs, req).contains(i),
    ensures
        filter_result(evs, relaxed).contains(i),
{
    lemma_filter_conjunction(evs, req, i);
    lemma_filter_conjunction(evs, relaxed, i);
    let e = evs[i as int];
    lemma_infinite_range_admits_all(e.date);
    lemma_infinite_range_admits_all(e.sentiment);
}

/// A sentiment range whose lower end exceeds its upper end matches nothing.
pub proof fn lemma_inverted_sentiment_range(evs: Seq<EventView>, req: FilterRequest)
    requires
        evs.len() <= usize::MAX,
        order_key(req.sentiment_range.0) > order_key(req.sentiment_range.1),
    ensures
        filter_result(evs, req).len() == 0,
{
    let r = filter_result(evs, req);
    if r.len() > 0 {
        let keep = Seq::new(evs.len(), |j: int| satisfies(evs[j], req));
        lemma_positions_upto(keep, evs.len() as int, 0);
        let p = r[0];
        assert(r.contains(p));
        lemma_filter_conjunction(evs, req, p);
    }
}

/// The export of a view of `n` events has `n + 1` rows: the header, then
/// each event's id, org, date, sentiment, momentum and location, in order.
pub proof fn lemma_export_rows(evs: Seq<EventView>, view: Seq<usize>)
    requires
        view_valid(evs, view),
    ensures
        table_of(evs, view).len() == view.len() + 1,
        table_of(evs, view)[0] == header_row(),
        forall|k: int|
            0 <= k < view.len() ==> {
                let row = #[trigger] table_of(evs, view)[k + 1];
                let e = evs[view[k] as int];
                row[0] == CellView::Text(e.id) && row[1] == CellView::Text(e.org) && row[2]
                    == CellView::Number(e.date) && row[3] == CellView::Number(e.sentiment)
                    && row[4] == CellView::Number(e.momentum) && row[5] == CellView::Point(
                    e.x,
                    e.y,
                )
            },
{
    assert forall|k: int| 0 <= k < view.len() implies #[trigger] table_of(evs, view)[k + 1]
        == row_of(evs[view[k] as int]) by {}
}

} // verus!
