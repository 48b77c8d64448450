use crate::event::EventView;
use crate::store::GeoProcessor;
use vstd::prelude::*;

verus! {

/// One field of a delimited-text row: text, a double (as its bit pattern),
/// or a location that renders as its two coordinates.
pub enum Cell {
    Text(String),
    Number(u64),
    Point(u64, u64),
}

/// The mathematical value of a field.
pub enum CellView {
    Text(Seq<char>),
    Number(u64),
    Point(u64, u64),
}

impl View for Cell {
    type V = CellView;

    open spec fn view(&self) -> CellView {
        match self {
            Cell::Text(s) => CellView::Text(s@),
            Cell::Number(b) => CellView::Number(*b),
            Cell::Point(x, y) => CellView::Point(*x, *y),
        }
    }
}

/// The value of a table.
pub open spec fn table_view(t: Seq<Vec<Cell>>) -> Seq<Seq<CellView>> {
    t.map_values(|row: Vec<Cell>| row@.map_values(|c: Cell| c@))
}

/// The header row.
pub open spec fn header_row() -> Seq<CellView> {
    seq![
        CellView::Text("id"@),
        CellView::Text("org"@),
        CellView::Text("date"@),
        CellView::Text("sentiment"@),
        CellView::Text("momentum"@),
        CellView::Text("geometry"@),
    ]
}

/// The row of one event.
pub open spec fn row_of(e: EventView) -> Seq<CellView> {
    seq![
        CellView::Text(e.id),
        CellView::Text(e.org),
        CellView::Number(e.date),
        CellView::Number(e.sentiment),
        CellView::Number(e.momentum),
        CellView::Point(e.x, e.y),
    ]
}

/// The table of a view: the header, then one row per position, in order.
pub open spec fn table_of(evs: Seq<EventView>, view: Seq<usize>) -> Seq<Seq<CellView>> {
    seq![header_row()] + Seq::new(view.len(), |k: int| row_of(evs[view[k] as int]))
}

/// Whether every position of a view names an event.
pub open spec fn view_valid(evs: Seq<EventView>, view: Seq<usize>) -> bool {
    forall|k: int| 0 <= k < view.len() ==> #[trigger] view[k] < evs.len()
}

fn text(s: &str) -> (r: Cell)
    ensures
        r@ == CellView::Text(s@),
{
    Cell::Text(s.to_owned())
}

impl GeoProcessor {
    /// Lays out a filtered view as a delimited-text table with the columns
    /// `id, org, date, sentiment, momentum, geometry`.
    pub fn export_csv(&self, view: &Vec<usize>) -> (r: Vec<Vec<Cell>>)
        requires
            view_valid(self@, view@),
        ensures
            table_view(r@) == table_of(self@, view@),
    {
        let events = self.records();
        let mut header: Vec<Cell> = Vec::new();
        header.push(text("id"));
        header.push(text("org"));
        header.push(text("date"));
        header.push(text("sentiment"));
        header.push(text("momentum"));
        header.push(text("geometry"));
        assert(header@.map_values(|c: Cell| c@) =~= header_row());
        let mut rows: Vec<Vec<Cell>> = Vec::new();
        rows.push(header);
        assert(table_view(rows@) =~= table_of(self@, view@.take(0)));
        let n = view.len();
        let mut k: usize = 0;
        while k < n
            invariant
                k <= n,
                n == view@.len(),
                view_valid(self@, view@),
                crate::event::views(events@) == self@,
                table_view(rows@) == table_of(self@, view@.take(k as int)),
            decreases n - k,
        {
            let e = &events[view[k]];
            let mut row: Vec<Cell> = Vec::new();
            row.push(Cell::Text(e.id.clone()));
            row.push(Cell::Text(e.org.clone()));
            row.push(Cell::Number(e.date));
            row.push(Cell::Number(e.sentiment));
            row.push(Cell::Number(e.momentum));
            row.push(Cell::Point(e.x, e.y));
            assert(row@.map_values(|c: Cell| c@) =~= row_of(self@[view@[k as int] as int]));
            let ghost before = rows@;
            rows.push(row);
            assert(table_view(rows@) =~= table_view(before).push(
                row_of(self@[view@[k as int] as int]),
            ));
            assert(table_of(self@, view@.take(k + 1)) =~= table_of(self@, view@.take(k as int)).push(
                row_of(self@[view@[k as int] as int]),
            ));
            k = k + 1;
        }
        assert(view@.take(n as int) =~= view@);
        rows
    }
}

} // verus!
