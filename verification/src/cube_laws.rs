//! What the rows of a cube say under each of their columns, what its measures ask for,
//! and how far its dimensions are rolled up.
use vstd::prelude::*;
use crate::clauses;
use crate::cubes;
use crate::cubes::{AggregateCell, CellValueView, MeasureState, MeasureView, RollupSpec, SketchKind,
    SketchState, SketchView};
use crate::text;

verus! {

/// The cell that stands under a column is that one.
pub open spec fn stands_under(
    columns: Seq<Seq<char>>,
    row: Seq<CellValueView>,
    at: int,
    name: Seq<char>,
    cell: CellValueView,
) -> bool {
    0 <= at < columns.len() && at < row.len() && columns[at] == name && row[at] == cell
}

proof fn lemma_measure_count(names: Seq<Seq<char>>, states: Seq<MeasureState>)
    ensures
        cubes::measure_columns(names).len() == 2 * names.len(),
        cubes::measure_cells(states).len() == 2 * states.len(),
    decreases names.len() + states.len(),
{
    if names.len() > 0 {
        lemma_measure_count(names.drop_last(), states);
    }
    if states.len() > 0 {
        lemma_measure_count(names, states.drop_last());
    }
}

proof fn lemma_measures(names: Seq<Seq<char>>, states: Seq<MeasureState>, k: int)
    requires
        names.len() == states.len(),
        0 <= k < names.len(),
    ensures
        cubes::measure_columns(names)[2 * k] == "sum_"@ + names[k],
        cubes::measure_columns(names)[2 * k + 1] == "avg_"@ + names[k],
        cubes::measure_cells(states)[2 * k] == CellValueView::Float(states[k].sum),
        cubes::measure_cells(states)[2 * k + 1] == (match states[k].avg {
            Some(bits) => CellValueView::Float(bits),
            None => CellValueView::Null,
        }),
    decreases names.len(),
{
    lemma_measure_count(names.drop_last(), states.drop_last());
    if k < names.len() - 1 {
        lemma_measures(names.drop_last(), states.drop_last(), k);
    }
}

/// The row of a cell has the values of its dimensions first, each under its own, then
/// the count, and of each measure the sum under `sum_` and the average under `avg_`
/// with its name.
pub proof fn law_cells_under_columns(
    dimensions: Seq<Seq<char>>,
    measures: Seq<Seq<char>>,
    specs: Seq<SketchView>,
    c: AggregateCell,
    k: int,
)
    requires
        c.key@.len() == dimensions.len(),
        c.measures@.len() == measures.len(),
    ensures
        ({
            let columns = cubes::cell_columns(dimensions, measures, specs);
            let row = cubes::cell_row(specs, c);
            let d = dimensions.len() as int;
            &&& 0 <= k < d ==> stands_under(
                columns,
                row,
                k,
                dimensions[k],
                cubes::dimension_cell(c.key@[k]@),
            )
            &&& stands_under(columns, row, d, "count"@, CellValueView::Int(c.count))
            &&& 0 <= k < measures.len() ==> stands_under(
                columns,
                row,
                d + 1 + 2 * k,
                "sum_"@ + measures[k],
                CellValueView::Float(c.measures@[k].sum),
            )
            &&& 0 <= k < measures.len() ==> stands_under(
                columns,
                row,
                d + 2 + 2 * k,
                "avg_"@ + measures[k],
                match c.measures@[k].avg {
                    Some(bits) => CellValueView::Float(bits),
                    None => CellValueView::Null,
                },
            )
        }),
{
    lemma_measure_count(measures, c.measures@);
    if 0 <= k < measures.len() {
        lemma_measures(measures, c.measures@, k);
    }
}

proof fn lemma_sketches(specs: Seq<SketchView>, states: Seq<SketchState>, i: int) -> (at: int)
    requires
        0 <= i < specs.len(),
        specs.len() == states.len(),
    ensures
        cubes::sketch_columns(specs).len() == cubes::sketch_cells(specs, states).len(),
        shows_sketch(
            cubes::sketch_columns(specs),
            cubes::sketch_cells(specs, states),
            at,
            specs[i],
            states[i],
        ),
    decreases specs.len(),
{
    let rest = specs.drop_last();
    lemma_sketch_count(specs, states);
    lemma_sketch_count(rest, states);
    if i < rest.len() {
        let at = lemma_sketches_before(rest, states, i);
        at
    } else {
        cubes::sketch_columns(rest).len() as int
    }
}

proof fn lemma_sketch_count(specs: Seq<SketchView>, states: Seq<SketchState>)
    ensures
        cubes::sketch_columns(specs).len() == cubes::sketch_cells(specs, states).len(),
    decreases specs.len(),
{
    if specs.len() > 0 {
        lemma_sketch_count(specs.drop_last(), states);
    }
}

proof fn lemma_sketches_before(specs: Seq<SketchView>, states: Seq<SketchState>, i: int) -> (at: int)
    requires
        0 <= i < specs.len() <= states.len(),
    ensures
        shows_sketch(
            cubes::sketch_columns(specs),
            cubes::sketch_cells(specs, states),
            at,
            specs[i],
            states[i],
        ),
    decreases specs.len(),
{
    let rest = specs.drop_last();
    lemma_sketch_count(specs, states);
    lemma_sketch_count(rest, states);
    if i < rest.len() {
        lemma_sketches_before(rest, states, i)
    } else {
        cubes::sketch_columns(rest).len() as int
    }
}

/// What a sketch answers stands under its columns from a place on: the number of
/// distinct values under `distinct_`, the median under `p50_` and the upper quantile
/// under `p95_`.
pub open spec fn shows_sketch(
    columns: Seq<Seq<char>>,
    cells: Seq<CellValueView>,
    at: int,
    spec: SketchView,
    state: SketchState,
) -> bool {
    match spec.kind {
        SketchKind::DistinctCount => stands_under(
            columns,
            cells,
            at,
            "distinct_"@ + spec.name,
            match state.distinct {
                Some(n) => CellValueView::Int(n),
                None => CellValueView::Null,
            },
        ),
        SketchKind::Quantile => stands_under(
            columns,
            cells,
            at,
            "p50_"@ + spec.name,
            match state.p50 {
                Some(bits) => CellValueView::Float(bits),
                None => CellValueView::Null,
            },
        ) && stands_under(
            columns,
            cells,
            at + 1,
            "p95_"@ + spec.name,
            match state.p95 {
                Some(bits) => CellValueView::Float(bits),
                None => CellValueView::Null,
            },
        ),
    }
}

/// What each sketch of a cell answers stands under the columns of that sketch, behind
/// those of the measures.
pub proof fn law_sketches_under_columns(
    dimensions: Seq<Seq<char>>,
    measures: Seq<Seq<char>>,
    specs: Seq<SketchView>,
    c: AggregateCell,
    i: int,
) -> (at: int)
    requires
        c.key@.len() == dimensions.len(),
        c.measures@.len() == measures.len(),
        c.sketches@.len() == specs.len(),
        0 <= i < specs.len(),
    ensures
        at >= dimensions.len() + 1 + 2 * measures.len(),
        shows_sketch(
            cubes::cell_columns(dimensions, measures, specs),
            cubes::cell_row(specs, c),
            at,
            specs[i],
            c.sketches@[i],
        ),
{
    lemma_measure_count(measures, c.measures@);
    let at = lemma_sketches(specs, c.sketches@, i);
    dimensions.len() + 1 + 2 * measures.len() + at
}

/// A dimension that no clause names is kept as it is; one that the last clause names
/// has the level that this clause says, and the others what they had before it.
pub proof fn law_levels(clause_list: Seq<Seq<char>>, dimensions: Seq<Seq<char>>, d: int)
    requires
        0 <= d < dimensions.len(),
        cubes::levels_after(clause_list, dimensions) is Ok,
    ensures
        cubes::levels_after(clause_list, dimensions)->Ok_0.len() == dimensions.len(),
        clause_list.len() == 0 ==> cubes::levels_after(clause_list, dimensions)->Ok_0[d]
            == RollupSpec::Keep,
        clause_list.len() > 0 ==> ({
            let before = cubes::levels_after(clause_list.drop_last(), dimensions);
            let own = cubes::clause_level(clause_list.last(), dimensions);
            &&& before is Ok
            &&& own is Ok
            &&& own->Ok_0.0 == d ==> cubes::levels_after(clause_list, dimensions)->Ok_0[d]
                == own->Ok_0.1
            &&& own->Ok_0.0 != d ==> cubes::levels_after(clause_list, dimensions)->Ok_0[d]
                == before->Ok_0[d]
        }),
    decreases clause_list.len(),
{
    if clause_list.len() > 0 {
        law_levels(clause_list.drop_last(), dimensions, d);
        let words = clauses::words(clause_list.last());
        lemma_dimension_place(dimensions, text::strip(words[0], '"'), 0);
    }
}

proof fn lemma_dimension_place(dimensions: Seq<Seq<char>>, name: Seq<char>, from: int)
    ensures
        cubes::dimension_place(dimensions, name, from) matches Some(at) ==> from <= at
            < dimensions.len() && text::lower(dimensions[at]) == text::lower(name),
    decreases dimensions.len() - from,
{
    if 0 <= from < dimensions.len() {
        lemma_dimension_place(dimensions, name, from + 1);
    }
}

proof fn lemma_level_names()
    ensures
        "KEEP"@.len() == 4,
        "WHOLE"@.len() == 5,
        "ALL"@.len() == 3,
        "PREFIX"@.len() == 6 && "PREFIX"@[0] == 'P',
        "BUCKET"@.len() == 6 && "BUCKET"@[0] == 'B',
        "SEGMENT"@.len() == 7,
        "H3"@.len() == 2,
{
    reveal_strlit("KEEP");
    reveal_strlit("WHOLE");
    reveal_strlit("ALL");
    reveal_strlit("PREFIX");
    reveal_strlit("BUCKET");
    reveal_strlit("SEGMENT");
    reveal_strlit("H3");
}

/// A level is what its word says, in any case: KEEP keeps a dimension, WHOLE and ALL
/// leave it out, PREFIX, BUCKET, SEGMENT and H3 coarsen it by their number. A number
/// of characters or segments is not less than zero, and a resolution is one that
/// there is.
pub proof fn law_level(clause: Seq<char>, words: Seq<Seq<char>>)
    requires
        words.len() >= 2,
    ensures
        ({
            let name = text::upper(words[1]);
            let said = cubes::argument(clause, words, 2);
            match cubes::level(clause, words) {
                Ok(RollupSpec::Keep) => name == "KEEP"@,
                Ok(RollupSpec::Whole) => name == "WHOLE"@ || name == "ALL"@,
                Ok(RollupSpec::Prefix(n)) => name == "PREFIX"@ && said is Ok && n == (if said->Ok_0
                    > 0 {
                    said->Ok_0 as int
                } else {
                    0
                }),
                Ok(RollupSpec::Bucket(n)) => name == "BUCKET"@ && said is Ok && n == said->Ok_0,
                Ok(RollupSpec::Segment { separator, depth }) => name == "SEGMENT"@ && words.len()
                    > 2 && separator == text::strip(words[2], '\'')[0],
                Ok(RollupSpec::H3(n)) => name == "H3"@ && said is Ok && n <= 15 && (0 <= said->Ok_0
                    <= 15 ==> n == said->Ok_0),
                Err(_) => name != "KEEP"@ && name != "WHOLE"@ && name != "ALL"@,
            }
        }),
{
    lemma_level_names();
}

proof fn lemma_starts_apart(s: Seq<char>, a: Seq<char>, b: Seq<char>, at: int)
    requires
        text::starts_with(s, a),
        0 <= at < a.len(),
        at < b.len(),
        a[at] != b[at],
    ensures
        !text::starts_with(s, b),
{
    assert(s.take(a.len() as int)[at] == s[at]);
    if text::starts_with(s, b) {
        assert(s.take(b.len() as int)[at] == s[at]);
    }
}

/// A measure is told by the word that it begins with, in any case: distinct values are
/// counted, quantiles are sketched, and what is summed or averaged is kept as a sum.
pub proof fn law_measure(item: Seq<char>)
    ensures
        text::starts_with(text::upper(item), "COUNT(DISTINCT"@) ==> (cubes::measure(
            item,
        ) matches MeasureView::Sketch(s) && s.kind == SketchKind::DistinctCount),
        text::starts_with(text::upper(item), "PERCENTILES"@) || text::starts_with(
            text::upper(item),
            "QUANTILES"@,
        ) ==> (cubes::measure(item) matches MeasureView::Sketch(s) && s.kind
            == SketchKind::Quantile && s.path == cubes::inside(item)),
        text::starts_with(text::upper(item), "SUM"@) || text::starts_with(
            text::upper(item),
            "AVG"@,
        ) ==> cubes::measure(item) == MeasureView::Sum(cubes::inside(item)),
        cubes::measure(item) matches MeasureView::Sketch(s) ==> s.name == s.path,
{
    reveal_strlit("COUNT(DISTINCT");
    reveal_strlit("COUNT (DISTINCT");
    reveal_strlit("PERCENTILES");
    reveal_strlit("QUANTILES");
    reveal_strlit("SUM");
    reveal_strlit("AVG");
    let u = text::upper(item);
    let count = "COUNT(DISTINCT"@;
    let spaced = "COUNT (DISTINCT"@;
    let percentiles = "PERCENTILES"@;
    let quantiles = "QUANTILES"@;
    if text::starts_with(u, percentiles) {
        lemma_starts_apart(u, percentiles, count, 0);
        lemma_starts_apart(u, percentiles, spaced, 0);
    }
    if text::starts_with(u, quantiles) {
        lemma_starts_apart(u, quantiles, count, 0);
        lemma_starts_apart(u, quantiles, spaced, 0);
    }
    if text::starts_with(u, "SUM"@) {
        lemma_starts_apart(u, "SUM"@, count, 0);
        lemma_starts_apart(u, "SUM"@, spaced, 0);
        lemma_starts_apart(u, "SUM"@, percentiles, 0);
        lemma_starts_apart(u, "SUM"@, quantiles, 0);
    }
    if text::starts_with(u, "AVG"@) {
        lemma_starts_apart(u, "AVG"@, count, 0);
        lemma_starts_apart(u, "AVG"@, spaced, 0);
        lemma_starts_apart(u, "AVG"@, percentiles, 0);
        lemma_starts_apart(u, "AVG"@, quantiles, 0);
    }
}

} // verus!
