//! Rows of the catalog's virtual tables: named cells.
use vstd::prelude::*;
use crate::text;

verus! {

#[derive(Debug)]
pub enum Cell {
    Null,
    Int(i64),
    Text(String),
}

#[verifier::ext_equal]
pub enum CellView {
    Null,
    Int(i64),
    Text(Seq<char>),
}

impl View for Cell {
    type V = CellView;

    open spec fn view(&self) -> CellView {
        match *self {
            Cell::Null => CellView::Null,
            Cell::Int(n) => CellView::Int(n),
            Cell::Text(t) => CellView::Text(t@),
        }
    }
}

/// A row: its cells under the names of their columns, no name twice.
#[derive(Debug)]
pub struct CatalogRow {
    pub cells: Vec<(String, Cell)>,
}

pub open spec fn cell_views(v: Seq<(String, Cell)>) -> Seq<(Seq<char>, CellView)> {
    v.map_values(|p: (String, Cell)| (p.0@, p.1@))
}

impl View for CatalogRow {
    type V = Seq<(Seq<char>, CellView)>;

    open spec fn view(&self) -> Seq<(Seq<char>, CellView)> {
        cell_views(self.cells@)
    }
}

pub open spec fn row_views(v: Seq<CatalogRow>) -> Seq<Seq<(Seq<char>, CellView)>> {
    v.map_values(|r: CatalogRow| r@)
}

/// The cell under a name, searched from there on.
pub open spec fn cell_named(
    row: Seq<(Seq<char>, CellView)>,
    name: Seq<char>,
    from: int,
) -> Option<CellView>
    decreases row.len() - from,
{
    if from < 0 || from >= row.len() {
        None
    } else if row[from].0 == name {
        Some(row[from].1)
    } else {
        cell_named(row, name, from + 1)
    }
}

/// A text, or null where there is none.
pub open spec fn text_or_null(t: Option<Seq<char>>) -> CellView {
    match t {
        Some(s) => CellView::Text(s),
        None => CellView::Null,
    }
}

/// A number, or null where there is none.
pub open spec fn int_or_null(n: Option<i64>) -> CellView {
    match n {
        Some(n) => CellView::Int(n),
        None => CellView::Null,
    }
}

impl CatalogRow {
    pub fn new() -> (r: CatalogRow)
        ensures
            r@ == Seq::<(Seq<char>, CellView)>::empty(),
    {
        let r = CatalogRow { cells: Vec::new() };
        assert(r@ =~= Seq::<(Seq<char>, CellView)>::empty());
        r
    }

    pub fn put(&mut self, name: &str, cell: Cell)
        ensures
            final(self)@ == old(self)@.push((name@, cell@)),
    {
        let ghost prior = self.cells@;
        let ghost shown = cell@;
        self.cells.push((name.to_owned(), cell));
        assert(self@ =~= cell_views(prior).push((name@, shown)));
    }

    pub fn put_text(&mut self, name: &str, value: &str)
        ensures
            final(self)@ == old(self)@.push((name@, CellView::Text(value@))),
    {
        self.put(name, Cell::Text(value.to_owned()));
    }

    pub fn put_null(&mut self, name: &str)
        ensures
            final(self)@ == old(self)@.push((name@, CellView::Null)),
    {
        self.put(name, Cell::Null);
    }

    pub fn put_int(&mut self, name: &str, value: i64)
        ensures
            final(self)@ == old(self)@.push((name@, CellView::Int(value))),
    {
        self.put(name, Cell::Int(value));
    }

    pub fn put_optional(&mut self, name: &str, value: Option<&str>)
        ensures
            final(self)@ == old(self)@.push((name@, text_or_null(text::view_str(value)))),
    {
        match value {
            Some(t) => self.put_text(name, t),
            None => self.put_null(name),
        }
    }

    pub fn put_optional_int(&mut self, name: &str, value: Option<i64>)
        ensures
            final(self)@ == old(self)@.push((name@, int_or_null(value))),
    {
        match value {
            Some(n) => self.put_int(name, n),
            None => self.put_null(name),
        }
    }

    /// Whether the row has a cell under that name.
    pub fn has(&self, name: &str) -> (r: bool)
        ensures
            r == (cell_named(self@, name@, 0) is Some),
    {
        let mut i: usize = 0;
        while i < self.cells.len()
            invariant
                i <= self.cells.len(),
                cell_named(self@, name@, 0) == cell_named(self@, name@, i as int),
            decreases self.cells.len() - i,
        {
            assert(self@[i as int].0 == self.cells@[i as int].0@);
            if text::text_eq(self.cells[i].0.as_str(), name) {
                return true;
            }
            i = i + 1;
        }
        false
    }
}

/// A string as text that can be absent.
pub fn borrowed(s: &Option<String>) -> (r: Option<&str>)
    ensures
        text::view_str(r) == (match *s {
            Some(t) => Some(t@),
            None => None,
        }),
{
    match s {
        Some(t) => Some(t.as_str()),
        None => None,
    }
}

/// Rows with a further row.
pub fn push_row(rows: &mut Vec<CatalogRow>, row: CatalogRow)
    ensures
        row_views(final(rows)@) == row_views(old(rows)@).push(row@),
{
    let ghost prior = rows@;
    let ghost shown = row@;
    rows.push(row);
    assert(row_views(rows@) =~= row_views(prior).push(shown));
}

/// The rows, each with the number of its table unless it has one.
pub open spec fn with_table_oid(
    rows: Seq<Seq<(Seq<char>, CellView)>>,
    oid: Option<i64>,
) -> Seq<Seq<(Seq<char>, CellView)>> {
    match oid {
        None => rows,
        Some(oid) => rows.map_values(
            |row: Seq<(Seq<char>, CellView)>|
                if cell_named(row, "tableoid"@, 0) is Some {
                    row
                } else {
                    row.push(("tableoid"@, CellView::Int(oid)))
                },
        ),
    }
}

proof fn lemma_last_cell(row: Seq<(Seq<char>, CellView)>, name: Seq<char>, value: CellView, from: int)
    requires
        0 <= from <= row.len(),
    ensures
        cell_named(row.push((name, value)), name, from) is Some,
    decreases row.len() - from,
{
    let longer = row.push((name, value));
    if from < row.len() && longer[from].0 != name {
        lemma_last_cell(row, name, value, from + 1);
    }
}

/// Each row has the number of its table.
pub proof fn lemma_each_has_table_oid(rows: Seq<Seq<(Seq<char>, CellView)>>, oid: i64)
    ensures
        forall|k: int|
            0 <= k < rows.len() ==> cell_named(
                #[trigger] with_table_oid(rows, Some(oid))[k],
                "tableoid"@,
                0,
            ) is Some,
        with_table_oid(rows, Some(oid)).len() == rows.len(),
{
    assert forall|k: int| 0 <= k < rows.len() implies cell_named(
        #[trigger] with_table_oid(rows, Some(oid))[k],
        "tableoid"@,
        0,
    ) is Some by {
        lemma_last_cell(rows[k], "tableoid"@, CellView::Int(oid), 0);
    }
}

/// The rows, each with the number of its table unless it has one.
pub fn fill_table_oid(rows: Vec<CatalogRow>, oid: Option<i64>) -> (r: Vec<CatalogRow>)
    ensures
        row_views(r@) == with_table_oid(row_views(rows@), oid),
{
    let oid = match oid {
        Some(oid) => oid,
        None => {
            return rows;
        },
    };
    let ghost all = with_table_oid(row_views(rows@), Some(oid));
    let mut rows = rows;
    let ghost given = row_views(rows@);
    let mut out: Vec<CatalogRow> = Vec::new();
    let ghost mut done: int = 0;
    assert(row_views(out@) =~= all.take(0));
    assert(given.skip(0) =~= given);
    while rows.len() > 0
        invariant
            0 <= done <= given.len(),
            all == with_table_oid(given, Some(oid)),
            row_views(rows@) == given.skip(done),
            row_views(out@) == all.take(done),
        decreases rows.len(),
    {
        let ghost before = rows@;
        let mut row = rows.remove(0);
        proof {
            assert(given.skip(done).len() == before.len());
            assert(given.skip(done)[0] == row_views(before)[0]);
            assert(given[done] == row@);
            assert forall|k: int| 0 <= k < rows@.len() implies row_views(rows@)[k] == given.skip(
                done + 1,
            )[k] by {
                assert(rows@[k] == before[k + 1]);
                assert(row_views(before)[k + 1] == given.skip(done)[k + 1]);
            }
            assert(row_views(rows@) =~= given.skip(done + 1));
        }
        if !row.has("tableoid") {
            row.put_int("tableoid", oid);
        }
        assert(row@ == all[done]);
        push_row(&mut out, row);
        proof {
            assert(all.take(done + 1) =~= all.take(done).push(all[done]));
            done = done + 1;
        }
    }
    assert(given.skip(done).len() == 0);
    assert(all.take(all.len() as int) =~= all);
    out
}

} // verus!
