//! Cubes: their definitions, the levels they are rolled up to, and their cells as
//! results.
use vstd::prelude::*;
use crate::clauses;
use crate::error;
use crate::error::SqlError;
use crate::json;
use crate::text;

verus! {

/// Whether `char::is_alphabetic` holds of a character.
pub uninterp spec fn std_alphabetic(c: char) -> bool;

/// `char::is_alphabetic`. Claims that the answer depends on the character alone.
#[verifier::external_body]
fn alphabetic(c: char) -> (r: bool)
    ensures
        r == std_alphabetic(c),
{
    c.is_alphabetic()
}

/// What a sketch answers.
#[derive(Clone, Copy, Debug, PartialEq, Eq, Structural)]
pub enum SketchKind {
    DistinctCount,
    Quantile,
}

/// A sketch: its name, the field it is about, and what it answers.
#[derive(Debug)]
pub struct SketchSpec {
    pub name: String,
    pub path: String,
    pub kind: SketchKind,
}

pub struct SketchView {
    pub name: Seq<char>,
    pub path: Seq<char>,
    pub kind: SketchKind,
}

impl View for SketchSpec {
    type V = SketchView;

    open spec fn view(&self) -> SketchView {
        SketchView { name: self.name@, path: self.path@, kind: self.kind }
    }
}

pub open spec fn sketch_views(v: Seq<SketchSpec>) -> Seq<SketchView> {
    v.map_values(|s: SketchSpec| s@)
}

/// A cube: its name, the table it aggregates, its dimensions, the fields that are
/// summed, its sketches, and whether it is made though something stands against it.
#[derive(Debug)]
pub struct CubeDefinition {
    pub name: String,
    pub collection: String,
    pub dimensions: Vec<String>,
    pub measures: Vec<String>,
    pub sketches: Vec<SketchSpec>,
    pub force: bool,
}

pub struct CubeView {
    pub name: Seq<char>,
    pub collection: Seq<char>,
    pub dimensions: Seq<Seq<char>>,
    pub measures: Seq<Seq<char>>,
    pub sketches: Seq<SketchView>,
    pub force: bool,
}

impl View for CubeDefinition {
    type V = CubeView;

    open spec fn view(&self) -> CubeView {
        CubeView {
            name: self.name@,
            collection: self.collection@,
            dimensions: text::views(self.dimensions@),
            measures: text::views(self.measures@),
            sketches: sketch_views(self.sketches@),
            force: self.force,
        }
    }
}

/// What stands in the brackets of a measure, without quotes.
pub open spec fn inside(item: Seq<char>) -> Seq<char> {
    let from = match text::find_from(item, "("@, 0) {
        Some(at) => at + 1,
        None => 0,
    };
    text::strip(text::trim(text::strip_end(item.skip(from), ')')), '"')
}

fn inside_of(item: &str) -> (r: String)
    ensures
        r@ == inside(item@),
{
    proof {
        reveal_strlit("(");
    }
    let from: usize = match clauses::find_text(item, "(") {
        Some(at) => {
            let chars = text::chars_of(item);
            let total = chars.len();
            assert(at + 1 <= total);
            at + 1
        },
        None => 0,
    };
    let rest = clauses::tail(item, from);
    let closed = clauses::stripped_end(rest.as_str(), ')');
    let bare = text::trimmed(closed.as_str());
    text::stripped(bare.as_str(), '"')
}

/// A text without the letters and spaces that it begins with.
pub open spec fn after_letters(s: Seq<char>) -> Seq<char>
    decreases s.len(),
{
    if s.len() == 0 || !(std_alphabetic(s[0]) || text::is_space(s[0])) {
        s
    } else {
        after_letters(s.skip(1))
    }
}

fn past_letters(s: &str) -> (r: String)
    ensures
        r@ == after_letters(s@),
{
    let chars = text::chars_of(s);
    let mut a: usize = 0;
    assert(s@.skip(0) =~= s@);
    while a < chars.len()
        invariant
            a <= chars.len(),
            chars@ == s@,
            after_letters(s@) == after_letters(s@.skip(a as int)),
        decreases chars.len() - a,
    {
        assert(s@.skip(a as int)[0] == s@[a as int]);
        assert(s@.skip(a as int).skip(1) =~= s@.skip(a + 1));
        if !alphabetic(chars[a]) && !text::space(chars[a]) {
            return clauses::tail(s, a);
        }
        a = a + 1;
    }
    clauses::tail(s, a)
}

/// What stands behind the word DISTINCT, without quotes.
pub open spec fn behind_distinct(inner: Seq<char>) -> Seq<char> {
    text::strip(text::trim(inner.skip("DISTINCT"@.len() as int)), '"')
}

/// The field whose distinct values are counted: the last word where there are only
/// letters and spaces, and otherwise whatever stands behind the word DISTINCT.
pub open spec fn distinct_path(item: Seq<char>) -> Seq<char> {
    let inner = inside(item);
    if after_letters(inner).len() > 0 && inner.len() >= "DISTINCT"@.len() {
        behind_distinct(inner)
    } else {
        let words = clauses::words(inner);
        if words.len() > 0 {
            words.last()
        } else {
            Seq::empty()
        }
    }
}

fn distinct_path_of(item: &str) -> (r: String)
    ensures
        r@ == distinct_path(item@),
{
    proof {
        reveal_strlit("DISTINCT");
    }
    let inner = inside_of(item);
    let rest = past_letters(inner.as_str());
    if rest.as_str().unicode_len() > 0 && inner.as_str().unicode_len() >= 8 {
        let behind = clauses::tail(inner.as_str(), 8);
        let bare = text::trimmed(behind.as_str());
        return text::stripped(bare.as_str(), '"');
    }
    let words = clauses::split_words(inner.as_str());
    let ghost all = text::views(words@);
    assert(all.len() == words@.len());
    if words.len() > 0 {
        assert(all.last() == words@[words@.len() - 1]@);
        return words[words.len() - 1].clone();
    }
    let none = String::new();
    assert(none@ =~= Seq::empty());
    none
}

/// What an item of MEASURES asks for: a field that is summed, or a sketch.
pub enum MeasureView {
    Sum(Seq<char>),
    Sketch(SketchView),
}

pub open spec fn measure(item: Seq<char>) -> MeasureView {
    let upper = text::upper(item);
    if text::starts_with(upper, "COUNT(DISTINCT"@) || text::starts_with(
        upper,
        "COUNT (DISTINCT"@,
    ) {
        let path = distinct_path(item);
        MeasureView::Sketch(SketchView { name: path, path, kind: SketchKind::DistinctCount })
    } else if text::starts_with(upper, "PERCENTILES"@) || text::starts_with(upper, "QUANTILES"@) {
        let path = inside(item);
        MeasureView::Sketch(SketchView { name: path, path, kind: SketchKind::Quantile })
    } else if text::starts_with(upper, "SUM"@) || text::starts_with(upper, "AVG"@) {
        MeasureView::Sum(inside(item))
    } else {
        MeasureView::Sum(text::strip(item, '"'))
    }
}

enum Measure {
    Sum(String),
    Sketch(SketchSpec),
}

fn measure_of(item: &str) -> (r: Measure)
    ensures
        match (r, measure(item@)) {
            (Measure::Sum(s), MeasureView::Sum(view)) => s@ == view,
            (Measure::Sketch(s), MeasureView::Sketch(view)) => s@ == view,
            _ => false,
        },
{
    let upper = text::to_upper(item);
    let u = upper.as_str();
    if text::has_prefix(u, "COUNT(DISTINCT") || text::has_prefix(u, "COUNT (DISTINCT") {
        let path = distinct_path_of(item);
        Measure::Sketch(SketchSpec { name: path.clone(), path, kind: SketchKind::DistinctCount })
    } else if text::has_prefix(u, "PERCENTILES") || text::has_prefix(u, "QUANTILES") {
        let path = inside_of(item);
        Measure::Sketch(SketchSpec { name: path.clone(), path, kind: SketchKind::Quantile })
    } else if text::has_prefix(u, "SUM") || text::has_prefix(u, "AVG") {
        Measure::Sum(inside_of(item))
    } else {
        Measure::Sum(text::stripped(item, '"'))
    }
}

/// The fields that items of MEASURES sum.
pub open spec fn sums(items: Seq<Seq<char>>) -> Seq<Seq<char>>
    decreases items.len(),
{
    if items.len() == 0 {
        Seq::empty()
    } else {
        match measure(items.last()) {
            MeasureView::Sum(field) => sums(items.drop_last()).push(field),
            MeasureView::Sketch(_) => sums(items.drop_last()),
        }
    }
}

/// The sketches that items of MEASURES ask for.
pub open spec fn sketches(items: Seq<Seq<char>>) -> Seq<SketchView>
    decreases items.len(),
{
    if items.len() == 0 {
        Seq::empty()
    } else {
        match measure(items.last()) {
            MeasureView::Sum(_) => sketches(items.drop_last()),
            MeasureView::Sketch(s) => sketches(items.drop_last()).push(s),
        }
    }
}

/// The dimensions that items say: without quotes, and without empty ones.
pub open spec fn named_dimensions(items: Seq<Seq<char>>) -> Seq<Seq<char>>
    decreases items.len(),
{
    if items.len() == 0 {
        Seq::empty()
    } else {
        let before = named_dimensions(items.drop_last());
        let name = text::strip(items.last(), '"');
        if name.len() == 0 {
            before
        } else {
            before.push(name)
        }
    }
}

pub open spec fn clause_items(body: Seq<char>, keyword: Seq<char>) -> Seq<Seq<char>> {
    match clauses::clause(body, keyword) {
        Some(list) => clauses::top_level(list, 0, 0, 0),
        None => Seq::empty(),
    }
}

fn items_of(body: &str, keyword: &str) -> (r: Vec<String>)
    ensures
        text::views(r@) == clause_items(body@, keyword@),
{
    match clauses::clause_list(body, keyword) {
        Some(list) => clauses::split_top_level(list.as_str()),
        None => {
            let none: Vec<String> = Vec::new();
            assert(text::views(none@) =~= Seq::empty());
            none
        },
    }
}

pub open spec fn cube_error(what: Seq<char>) -> error::ErrorView {
    error::invalid_sql_error("CREATE CUBE requires "@ + what)
}

/// The cube that the text behind its ON says.
pub open spec fn cube_body(name: Seq<char>, body: Seq<char>) -> Result<CubeView, error::ErrorView> {
    let upper = text::upper(body);
    match text::find_from(upper, "DIMENSIONS"@, 0) {
        None => Err(cube_error("DIMENSIONS (...)"@)),
        Some(end) => {
            let collection = text::strip(text::trim(body.take(end)), '"');
            let dimensions = named_dimensions(clause_items(body, "DIMENSIONS"@));
            let items = clause_items(body, "MEASURES"@);
            if collection.len() == 0 {
                Err(cube_error("a table to aggregate"@))
            } else if dimensions.len() == 0 {
                Err(cube_error("at least one dimension"@))
            } else {
                Ok(
                    CubeView {
                        name,
                        collection,
                        dimensions,
                        measures: sums(items),
                        sketches: sketches(items),
                        force: text::find_from(upper, "WITH FORCE"@, 0) is Some,
                    },
                )
            }
        },
    }
}

/// A statement without the spaces and semicolons at its end.
pub open spec fn bare_statement(sql: Seq<char>) -> Seq<char> {
    text::trim(text::strip_end(text::trim(sql), ';'))
}

/// The cube that CREATE CUBE asks for. Another statement asks for none.
pub open spec fn cube(sql: Seq<char>) -> Result<Option<CubeView>, error::ErrorView> {
    let s = bare_statement(sql);
    if !text::starts_with(text::upper(s), "CREATE CUBE"@) {
        Ok(None)
    } else {
        let rest = s.skip("CREATE CUBE"@.len() as int);
        match text::find_from(text::upper(rest), " ON "@, 0) {
            None => Err(cube_error("`ON <table>`"@)),
            Some(at) => {
                let name = text::strip(text::trim(rest.take(at)), '"');
                if name.len() == 0 {
                    Err(cube_error("a cube name"@))
                } else {
                    match cube_body(name, rest.skip(at + " ON "@.len())) {
                        Ok(c) => Ok(Some(c)),
                        Err(e) => Err(e),
                    }
                }
            },
        }
    }
}

fn requires_error(what: &str) -> (e: SqlError)
    ensures
        e@ == cube_error(what@),
{
    SqlError::invalid_sql(text::concat("CREATE CUBE requires ", what))
}

fn dimensions_of(items: &Vec<String>) -> (r: Vec<String>)
    ensures
        text::views(r@) == named_dimensions(text::views(items@)),
{
    let ghost all = text::views(items@);
    let mut out: Vec<String> = Vec::new();
    assert(text::views(out@) =~= Seq::empty());
    let mut i: usize = 0;
    while i < items.len()
        invariant
            i <= items.len(),
            all == text::views(items@),
            text::views(out@) == named_dimensions(all.take(i as int)),
        decreases items.len() - i,
    {
        assert(all.take(i + 1).drop_last() =~= all.take(i as int));
        assert(all.take(i + 1).last() == items@[i as int]@);
        let ghost prior = out@;
        let name = text::stripped(items[i].as_str(), '"');
        if name.as_str().unicode_len() > 0 {
            let ghost view = name@;
            out.push(name);
            assert(text::views(out@) =~= text::views(prior).push(view));
        }
        i = i + 1;
    }
    assert(all.take(all.len() as int) =~= all);
    out
}

fn measures_of(items: &Vec<String>) -> (r: (Vec<String>, Vec<SketchSpec>))
    ensures
        text::views((r.0)@) == sums(text::views(items@)),
        sketch_views((r.1)@) == sketches(text::views(items@)),
{
    let ghost all = text::views(items@);
    let mut fields: Vec<String> = Vec::new();
    let mut specs: Vec<SketchSpec> = Vec::new();
    assert(text::views(fields@) =~= Seq::empty());
    assert(sketch_views(specs@) =~= Seq::empty());
    let mut i: usize = 0;
    while i < items.len()
        invariant
            i <= items.len(),
            all == text::views(items@),
            text::views(fields@) == sums(all.take(i as int)),
            sketch_views(specs@) == sketches(all.take(i as int)),
        decreases items.len() - i,
    {
        assert(all.take(i + 1).drop_last() =~= all.take(i as int));
        assert(all.take(i + 1).last() == items@[i as int]@);
        let ghost prior = fields@;
        let ghost before = specs@;
        match measure_of(items[i].as_str()) {
            Measure::Sum(field) => {
                let ghost view = field@;
                fields.push(field);
                assert(text::views(fields@) =~= text::views(prior).push(view));
            },
            Measure::Sketch(s) => {
                let ghost view = s@;
                specs.push(s);
                assert(sketch_views(specs@) =~= sketch_views(before).push(view));
            },
        }
        i = i + 1;
    }
    assert(all.take(all.len() as int) =~= all);
    (fields, specs)
}

fn cube_from_body(name: String, body: &str) -> (r: Result<CubeDefinition, SqlError>)
    ensures
        match (r, cube_body(name@, body@)) {
            (Ok(c), Ok(view)) => c@ == view,
            (Err(e), Err(view)) => e@ == view,
            _ => false,
        },
{
    let upper = text::to_upper(body);
    let end = match clauses::find_text(upper.as_str(), "DIMENSIONS") {
        Some(end) => end,
        None => {
            return Err(requires_error("DIMENSIONS (...)"));
        },
    };
    let table = clauses::head(body, end);
    let bare = text::trimmed(table.as_str());
    let collection = text::stripped(bare.as_str(), '"');
    if collection.as_str().unicode_len() == 0 {
        return Err(requires_error("a table to aggregate"));
    }
    let listed = items_of(body, "DIMENSIONS");
    let dimensions = dimensions_of(&listed);
    assert(text::views(dimensions@).len() == dimensions@.len());
    if dimensions.len() == 0 {
        return Err(requires_error("at least one dimension"));
    }
    let items = items_of(body, "MEASURES");
    let (measures, specs) = measures_of(&items);
    let force = clauses::find_text(upper.as_str(), "WITH FORCE").is_some();
    Ok(CubeDefinition { name, collection, dimensions, measures, sketches: specs, force })
}

/// The cube that CREATE CUBE asks for. Another statement asks for none.
pub fn parse_create_cube(sql: &str) -> (r: Result<Option<CubeDefinition>, SqlError>)
    ensures
        match (r, cube(sql@)) {
            (Ok(Some(c)), Ok(Some(view))) => c@ == view,
            (Ok(None), Ok(None)) => true,
            (Err(e), Err(view)) => e@ == view,
            _ => false,
        },
{
    let spaced = text::trimmed(sql);
    let ended = clauses::stripped_end(spaced.as_str(), ';');
    let s = text::trimmed(ended.as_str());
    let upper = text::to_upper(s.as_str());
    if !text::has_prefix(upper.as_str(), "CREATE CUBE") {
        return Ok(None);
    }
    proof {
        reveal_strlit("CREATE CUBE");
        reveal_strlit(" ON ");
    }
    let rest = clauses::tail(s.as_str(), 11);
    let upper_rest = text::to_upper(rest.as_str());
    let at = match clauses::find_text(upper_rest.as_str(), " ON ") {
        Some(at) => at,
        None => {
            return Err(requires_error("`ON <table>`"));
        },
    };
    let before = clauses::head(rest.as_str(), at);
    let bare = text::trimmed(before.as_str());
    let name = text::stripped(bare.as_str(), '"');
    if name.as_str().unicode_len() == 0 {
        return Err(requires_error("a cube name"));
    }
    let all = text::chars_of(rest.as_str());
    let total = all.len();
    assert(at + 4 <= total);
    let body = clauses::tail(rest.as_str(), at + 4);
    match cube_from_body(name, body.as_str()) {
        Ok(c) => Ok(Some(c)),
        Err(e) => Err(e),
    }
}

/// Every cube has a name, a table and a dimension.
pub proof fn law_cube(sql: Seq<char>)
    requires
        cube(sql) is Ok,
    ensures
        cube(sql)->Ok_0 matches Some(c) ==> c.name.len() > 0 && c.collection.len() > 0
            && c.dimensions.len() > 0,
{
}

/// A value of a dimension.
#[derive(Debug)]
pub enum DimensionValue {
    Text(String),
    Int(i64),
    Bool(bool),
    Missing,
}

pub enum DimensionView {
    Text(Seq<char>),
    Int(i64),
    Bool(bool),
    Missing,
}

impl View for DimensionValue {
    type V = DimensionView;

    open spec fn view(&self) -> DimensionView {
        match *self {
            DimensionValue::Text(s) => DimensionView::Text(s@),
            DimensionValue::Int(n) => DimensionView::Int(n),
            DimensionValue::Bool(b) => DimensionView::Bool(b),
            DimensionValue::Missing => DimensionView::Missing,
        }
    }
}

impl DimensionValue {
    pub fn copied(&self) -> (r: DimensionValue)
        ensures
            r@ == self@,
    {
        match self {
            DimensionValue::Text(s) => DimensionValue::Text(s.clone()),
            DimensionValue::Int(n) => DimensionValue::Int(*n),
            DimensionValue::Bool(b) => DimensionValue::Bool(*b),
            DimensionValue::Missing => DimensionValue::Missing,
        }
    }
}

/// The number of the cell that a text is, by `h3o::CellIndex`'s `FromStr`.
pub uninterp spec fn h3_cell_of_text(s: Seq<char>) -> Option<u64>;

/// `<h3o::CellIndex as FromStr>::from_str`. Claims that whether a text is a cell, and
/// its number, depend on the text alone.
#[verifier::external_body]
fn cell_of_text(s: &str) -> (r: Option<u64>)
    ensures
        r == h3_cell_of_text(s@),
{
    match s.parse::<h3o::CellIndex>() {
        Ok(cell) => Some(u64::from(cell)),
        Err(_) => None,
    }
}

/// Whether a number is that of a cell, by `h3o::CellIndex`'s `TryFrom<u64>`.
pub uninterp spec fn h3_is_cell(n: u64) -> bool;

/// `<h3o::CellIndex as TryFrom<u64>>::try_from`. Claims that whether a number is that of
/// a cell depends on the number alone, and that the cell has that number.
#[verifier::external_body]
fn cell_of_number(n: u64) -> (r: Option<u64>)
    ensures
        r == (if h3_is_cell(n) {
            Some(n)
        } else {
            None
        }),
{
    match h3o::CellIndex::try_from(n) {
        Ok(cell) => Some(u64::from(cell)),
        Err(_) => None,
    }
}

/// The cell that `h3o::CellIndex::parent` gives of a cell at a resolution; none where
/// the number is that of no cell or the resolution is none.
pub uninterp spec fn h3_parent_cell(cell: u64, resolution: u8) -> Option<u64>;

/// `h3o::CellIndex::parent`. Claims that the cell above depends on the cell and the
/// resolution alone.
#[verifier::external_body]
fn parent_cell(cell: u64, resolution: u8) -> (r: Option<u64>)
    ensures
        r == h3_parent_cell(cell, resolution),
{
    match (h3o::CellIndex::try_from(cell), h3o::Resolution::try_from(resolution)) {
        (Ok(cell), Ok(target)) => cell.parent(target).map(u64::from),
        _ => None,
    }
}

/// A number in the hexadecimal system, in lower case and without leading zeros.
pub open spec fn hex_text(n: nat) -> Seq<char>
    decreases n,
{
    if n < 16 {
        seq![json::hex_digit(n)]
    } else {
        hex_text(n / 16).push(json::hex_digit(n % 16))
    }
}

/// The text of a cell: its number in the hexadecimal system; none where the number is
/// that of no cell.
pub open spec fn h3_cell_text(cell: u64) -> Option<Seq<char>> {
    if h3_is_cell(cell) {
        Some(hex_text(cell as nat))
    } else {
        None
    }
}

/// `<h3o::CellIndex as Display>`. Claims that a cell is written as its number in the
/// hexadecimal system.
#[verifier::external_body]
fn cell_text(cell: u64) -> (r: Option<String>)
    ensures
        error::view_option(r) == h3_cell_text(cell),
{
    match h3o::CellIndex::try_from(cell) {
        Ok(cell) => Some(cell.to_string()),
        Err(_) => None,
    }
}

/// The cell that a value is.
pub open spec fn value_cell(v: DimensionView) -> Option<u64> {
    match v {
        DimensionView::Text(s) => h3_cell_of_text(s),
        DimensionView::Int(n) => if h3_is_cell(n as u64) {
            Some(n as u64)
        } else {
            None
        },
        _ => None,
    }
}

/// A value coarsened to the cell above it: the text of that cell where there is one,
/// and the value itself otherwise.
pub open spec fn coarsened(v: DimensionView, above: Option<Seq<char>>) -> DimensionView {
    match above {
        Some(s) => DimensionView::Text(s),
        None => v,
    }
}

/// The text of the cell above a value at a resolution.
pub open spec fn cell_above(v: DimensionView, resolution: u8) -> Option<Seq<char>> {
    match value_cell(v) {
        None => None,
        Some(cell) => match h3_parent_cell(cell, resolution) {
            None => None,
            Some(parent) => h3_cell_text(parent),
        },
    }
}

/// A value coarsened to the cell above it, whose text is given.
pub fn coarsen(value: &DimensionValue, above: Option<String>) -> (r: DimensionValue)
    ensures
        r@ == coarsened(value@, error::view_option(above)),
{
    match above {
        Some(s) => DimensionValue::Text(s),
        None => value.copied(),
    }
}

/// A cell coarsened to the one above it at a resolution. A value that is no cell, or
/// has none above it there, stays as it is.
pub fn h3_parent(value: &DimensionValue, resolution: u8) -> (r: DimensionValue)
    ensures
        r@ == coarsened(value@, cell_above(value@, resolution)),
{
    let cell = match value {
        DimensionValue::Text(s) => cell_of_text(s.as_str()),
        DimensionValue::Int(n) => cell_of_number(*n as u64),
        _ => None,
    };
    let above = match cell {
        None => None,
        Some(cell) => match parent_cell(cell, resolution) {
            None => None,
            Some(parent) => cell_text(parent),
        },
    };
    coarsen(value, above)
}

/// A value that is no cell stays as it is.
pub proof fn law_no_cell(v: DimensionView, resolution: u8)
    requires
        value_cell(v) is None,
    ensures
        coarsened(v, cell_above(v, resolution)) == v,
{
}

/// How far a dimension is rolled up.
#[derive(Clone, Copy, Debug, PartialEq, Eq, Structural)]
pub enum RollupSpec {
    Keep,
    Whole,
    Prefix(u64),
    Bucket(i64),
    Segment { separator: char, depth: u64 },
    H3(u8),
}

pub open spec fn is_bracket(c: char) -> bool {
    c == '(' || c == ')'
}

/// A text without the brackets that it begins and ends with.
pub open spec fn without_brackets(s: Seq<char>) -> Seq<char>
    decreases s.len(),
{
    if s.len() == 0 {
        s
    } else if is_bracket(s[0]) {
        without_brackets(s.skip(1))
    } else if is_bracket(s.last()) {
        without_brackets(s.drop_last())
    } else {
        s
    }
}

fn strip_brackets(s: &str) -> (r: String)
    ensures
        r@ == without_brackets(s@),
{
    let chars = text::chars_of(s);
    let mut a: usize = 0;
    let mut b: usize = chars.len();
    assert(s@.subrange(0, b as int) =~= s@);
    while a < b && (chars[a] == '(' || chars[a] == ')')
        invariant
            a <= b,
            b == chars.len(),
            chars@ == s@,
            without_brackets(s@) == without_brackets(s@.subrange(a as int, b as int)),
        decreases b - a,
    {
        assert(s@.subrange(a as int, b as int)[0] == s@[a as int]);
        assert(s@.subrange(a as int, b as int).skip(1) =~= s@.subrange(a + 1, b as int));
        a = a + 1;
    }
    while a < b && (chars[b - 1] == '(' || chars[b - 1] == ')')
        invariant
            a <= b <= chars.len(),
            chars@ == s@,
            a < b ==> !is_bracket(s@[a as int]),
            without_brackets(s@) == without_brackets(s@.subrange(a as int, b as int)),
        decreases b - a,
    {
        assert(s@.subrange(a as int, b as int)[0] == s@[a as int]);
        assert(s@.subrange(a as int, b as int).last() == s@[b - 1]);
        assert(s@.subrange(a as int, b as int).drop_last() =~= s@.subrange(a as int, b - 1));
        b = b - 1;
    }
    proof {
        if a < b {
            assert(s@.subrange(a as int, b as int)[0] == s@[a as int]);
            assert(s@.subrange(a as int, b as int).last() == s@[b - 1]);
        }
    }
    text::string_range(chars.as_slice(), a, b)
}

pub open spec fn argument_error(clause: Seq<char>) -> error::ErrorView {
    error::invalid_sql_error(
        "rollup level `"@ + text::trim(clause) + "` needs a numeric argument"@,
    )
}

/// The number at a place among the words of a level.
pub open spec fn argument(clause: Seq<char>, words: Seq<Seq<char>>, at: int) -> Result<
    i64,
    error::ErrorView,
> {
    if at >= words.len() {
        Err(argument_error(clause))
    } else {
        match text::signed_value(without_brackets(words[at])) {
            Some(n) if i64::MIN <= n <= i64::MAX => Ok(n as i64),
            _ => Err(argument_error(clause)),
        }
    }
}

fn argument_of(clause: &str, words: &Vec<String>, at: usize) -> (r: Result<i64, SqlError>)
    ensures
        match (r, argument(clause@, text::views(words@), at as int)) {
            (Ok(a), Ok(b)) => a == b,
            (Err(e), Err(view)) => e@ == view,
            _ => false,
        },
{
    assert(text::views(words@).len() == words@.len());
    if at < words.len() {
        assert(text::views(words@)[at as int] == words@[at as int]@);
        let bare = strip_brackets(words[at].as_str());
        match text::parse_signed(bare.as_str()) {
            Some(n) => {
                return Ok(n);
            },
            None => {},
        }
    }
    let trimmed = text::trimmed(clause);
    Err(
        SqlError::invalid_sql(
            text::concat3("rollup level `", trimmed.as_str(), "` needs a numeric argument"),
        ),
    )
}

pub open spec fn at_least_zero(n: i64) -> u64 {
    if n < 0 {
        0
    } else {
        n as u64
    }
}

pub open spec fn clamped_resolution(n: i64) -> u8 {
    if n < 0 {
        0
    } else if n > 15 {
        15
    } else {
        n as u8
    }
}

/// The level that the words of a clause say.
pub open spec fn level(clause: Seq<char>, words: Seq<Seq<char>>) -> Result<
    RollupSpec,
    error::ErrorView,
> {
    let name = text::upper(words[1]);
    if name == "KEEP"@ {
        Ok(RollupSpec::Keep)
    } else if name == "WHOLE"@ || name == "ALL"@ {
        Ok(RollupSpec::Whole)
    } else if name == "PREFIX"@ {
        match argument(clause, words, 2) {
            Ok(n) => Ok(RollupSpec::Prefix(at_least_zero(n))),
            Err(e) => Err(e),
        }
    } else if name == "BUCKET"@ {
        match argument(clause, words, 2) {
            Ok(n) => Ok(RollupSpec::Bucket(n)),
            Err(e) => Err(e),
        }
    } else if name == "SEGMENT"@ {
        if words.len() <= 2 || text::strip(words[2], '\'').len() == 0 {
            Err(error::invalid_sql_error("SEGMENT needs a separator"@))
        } else {
            match argument(clause, words, 3) {
                Ok(n) => Ok(
                    RollupSpec::Segment {
                        separator: text::strip(words[2], '\'')[0],
                        depth: at_least_zero(n),
                    },
                ),
                Err(e) => Err(e),
            }
        }
    } else if name == "H3"@ {
        match argument(clause, words, 2) {
            Ok(n) => Ok(RollupSpec::H3(clamped_resolution(n))),
            Err(e) => Err(e),
        }
    } else {
        Err(
            error::invalid_sql_error(
                "unknown rollup level `"@ + name
                    + "`; expected KEEP, WHOLE, PREFIX, SEGMENT, BUCKET or H3"@,
            ),
        )
    }
}

fn not_negative(n: i64) -> (r: u64)
    ensures
        r == at_least_zero(n),
{
    if n < 0 {
        0
    } else {
        n as u64
    }
}

fn level_of(clause: &str, words: &Vec<String>) -> (r: Result<RollupSpec, SqlError>)
    requires
        words@.len() >= 2,
    ensures
        match (r, level(clause@, text::views(words@))) {
            (Ok(a), Ok(b)) => a == b,
            (Err(e), Err(view)) => e@ == view,
            _ => false,
        },
{
    let ghost all = text::views(words@);
    assert(all.len() == words@.len());
    assert(all[1] == words@[1]@);
    let name = text::to_upper(words[1].as_str());
    let word = name.as_str();
    if text::text_eq(word, "KEEP") {
        Ok(RollupSpec::Keep)
    } else if text::text_eq(word, "WHOLE") || text::text_eq(word, "ALL") {
        Ok(RollupSpec::Whole)
    } else if text::text_eq(word, "PREFIX") {
        match argument_of(clause, words, 2) {
            Ok(n) => Ok(RollupSpec::Prefix(not_negative(n))),
            Err(e) => Err(e),
        }
    } else if text::text_eq(word, "BUCKET") {
        match argument_of(clause, words, 2) {
            Ok(n) => Ok(RollupSpec::Bucket(n)),
            Err(e) => Err(e),
        }
    } else if text::text_eq(word, "SEGMENT") {
        if words.len() > 2 {
            assert(all[2] == words@[2]@);
            let bare = text::stripped(words[2].as_str(), '\'');
            let chars = text::chars_of(bare.as_str());
            if chars.len() > 0 {
                return match argument_of(clause, words, 3) {
                    Ok(n) => Ok(
                        RollupSpec::Segment { separator: chars[0], depth: not_negative(n) },
                    ),
                    Err(e) => Err(e),
                };
            }
        }
        Err(SqlError::invalid_sql("SEGMENT needs a separator".to_owned()))
    } else if text::text_eq(word, "H3") {
        match argument_of(clause, words, 2) {
            Ok(n) => {
                let resolution: u8 = if n < 0 {
                    0
                } else if n > 15 {
                    15
                } else {
                    n as u8
                };
                Ok(RollupSpec::H3(resolution))
            },
            Err(e) => Err(e),
        }
    } else {
        Err(
            SqlError::invalid_sql(
                text::concat3(
                    "unknown rollup level `",
                    word,
                    "`; expected KEEP, WHOLE, PREFIX, SEGMENT, BUCKET or H3",
                ),
            ),
        )
    }
}

/// The place of a dimension, whatever the case of its letters, from a place on.
pub open spec fn dimension_place(
    dimensions: Seq<Seq<char>>,
    name: Seq<char>,
    from: int,
) -> Option<int>
    decreases dimensions.len() - from,
{
    if from < 0 || from >= dimensions.len() {
        None
    } else if text::same_ignoring_case(dimensions[from], name) {
        Some(from)
    } else {
        dimension_place(dimensions, name, from + 1)
    }
}

fn find_dimension(dimensions: &Vec<String>, name: &str) -> (r: Option<usize>)
    ensures
        match (r, dimension_place(text::views(dimensions@), name@, 0)) {
            (Some(i), Some(view)) => i == view && i < dimensions@.len(),
            (None, None) => true,
            _ => false,
        },
{
    let ghost all = text::views(dimensions@);
    let mut i: usize = 0;
    while i < dimensions.len()
        invariant
            i <= dimensions.len(),
            all == text::views(dimensions@),
            dimension_place(all, name@, 0) == dimension_place(all, name@, i as int),
        decreases dimensions.len() - i,
    {
        assert(all[i as int] == dimensions@[i as int]@);
        if text::eq_ignore_case(dimensions[i].as_str(), name) {
            return Some(i);
        }
        i = i + 1;
    }
    None
}

/// What a clause asks for: which dimension, and how far.
pub open spec fn clause_level(clause: Seq<char>, dimensions: Seq<Seq<char>>) -> Result<
    (int, RollupSpec),
    error::ErrorView,
> {
    let words = clauses::words(clause);
    if words.len() < 2 {
        Err(
            error::invalid_sql_error(
                "rollup level `"@ + text::trim(clause) + "` must be `<dimension> <level>`"@,
            ),
        )
    } else {
        let name = text::strip(words[0], '"');
        match dimension_place(dimensions, name, 0) {
            None => Err(
                error::invalid_sql_error(
                    "`"@ + name + "` is not a dimension of this materialized aggregate"@,
                ),
            ),
            Some(at) => match level(clause, words) {
                Ok(l) => Ok((at, l)),
                Err(e) => Err(e),
            },
        }
    }
}

fn clause_level_of(clause: &str, dimensions: &Vec<String>) -> (r: Result<
    (usize, RollupSpec),
    SqlError,
>)
    ensures
        match (r, clause_level(clause@, text::views(dimensions@))) {
            (Ok((i, a)), Ok((at, b))) => i == at && a == b && i < dimensions@.len(),
            (Err(e), Err(view)) => e@ == view,
            _ => false,
        },
{
    let words = clauses::split_words(clause);
    assert(text::views(words@).len() == words@.len());
    if words.len() < 2 {
        let trimmed = text::trimmed(clause);
        return Err(
            SqlError::invalid_sql(
                text::concat3(
                    "rollup level `",
                    trimmed.as_str(),
                    "` must be `<dimension> <level>`",
                ),
            ),
        );
    }
    assert(text::views(words@)[0] == words@[0]@);
    let name = text::stripped(words[0].as_str(), '"');
    match find_dimension(dimensions, name.as_str()) {
        None => Err(
            SqlError::invalid_sql(
                text::concat3(
                    "`",
                    name.as_str(),
                    "` is not a dimension of this materialized aggregate",
                ),
            ),
        ),
        Some(at) => match level_of(clause, &words) {
            Ok(l) => Ok((at, l)),
            Err(e) => Err(e),
        },
    }
}

/// The levels after clauses, each in its turn. A dimension that is named twice has the
/// last one.
pub open spec fn levels_after(clause_list: Seq<Seq<char>>, dimensions: Seq<Seq<char>>) -> Result<
    Seq<RollupSpec>,
    error::ErrorView,
>
    decreases clause_list.len(),
{
    if clause_list.len() == 0 {
        Ok(Seq::new(dimensions.len(), |i: int| RollupSpec::Keep))
    } else {
        match levels_after(clause_list.drop_last(), dimensions) {
            Err(e) => Err(e),
            Ok(before) => match clause_level(clause_list.last(), dimensions) {
                Err(e) => Err(e),
                Ok((at, l)) => Ok(before.update(at, l)),
            },
        }
    }
}

proof fn lemma_level_error_stays(clause_list: Seq<Seq<char>>, dimensions: Seq<Seq<char>>, i: int)
    requires
        0 <= i <= clause_list.len(),
        levels_after(clause_list.take(i), dimensions) is Err,
    ensures
        levels_after(clause_list, dimensions) == levels_after(clause_list.take(i), dimensions),
    decreases clause_list.len(),
{
    if i == clause_list.len() {
        assert(clause_list.take(i) =~= clause_list);
    } else {
        assert(clause_list.drop_last().take(i) =~= clause_list.take(i));
        lemma_level_error_stays(clause_list.drop_last(), dimensions, i);
    }
}

/// What stands in the brackets of a list of levels.
pub open spec fn level_list(spec: Seq<char>) -> Seq<char> {
    text::trim(text::strip_end(text::strip_start(text::trim(spec), '('), ')'))
}

/// The levels that a list says: one for each dimension.
pub open spec fn rollup_levels(spec: Seq<char>, dimensions: Seq<Seq<char>>) -> Result<
    Seq<RollupSpec>,
    error::ErrorView,
> {
    let list = level_list(spec);
    if list.len() == 0 {
        Ok(Seq::new(dimensions.len(), |i: int| RollupSpec::Keep))
    } else {
        levels_after(text::pieces(list, ','), dimensions)
    }
}

/// How far each dimension is rolled up. One that is not named is kept.
pub fn parse_rollup_levels(spec: &str, dimensions: &Vec<String>) -> (r: Result<
    Vec<RollupSpec>,
    SqlError,
>)
    ensures
        match (r, rollup_levels(spec@, text::views(dimensions@))) {
            (Ok(levels), Ok(view)) => levels@ == view,
            (Err(e), Err(view)) => e@ == view,
            _ => false,
        },
{
    let ghost names = text::views(dimensions@);
    let mut levels: Vec<RollupSpec> = Vec::new();
    let mut k: usize = 0;
    while k < dimensions.len()
        invariant
            k <= dimensions.len(),
            levels@.len() == k,
            forall|i: int| 0 <= i < k ==> #[trigger] levels@[i] == RollupSpec::Keep,
        decreases dimensions.len() - k,
    {
        levels.push(RollupSpec::Keep);
        k = k + 1;
    }
    assert(levels@ =~= Seq::new(names.len(), |i: int| RollupSpec::Keep));
    let spaced = text::trimmed(spec);
    let opened = clauses::stripped_start(spaced.as_str(), '(');
    let closed = clauses::stripped_end(opened.as_str(), ')');
    let list = text::trimmed(closed.as_str());
    if list.as_str().unicode_len() == 0 {
        return Ok(levels);
    }
    let parts = text::split_on(list.as_str(), ',');
    let ghost all = text::views(parts@);
    let mut i: usize = 0;
    assert(all.take(0) =~= Seq::empty());
    while i < parts.len()
        invariant
            i <= parts.len(),
            all == text::views(parts@),
            all == text::pieces(list@, ','),
            list@ == level_list(spec@),
            list@.len() > 0,
            names == text::views(dimensions@),
            levels@.len() == dimensions@.len(),
            levels_after(all.take(i as int), names) == Ok::<Seq<RollupSpec>, error::ErrorView>(
                levels@,
            ),
        decreases parts.len() - i,
    {
        assert(all.take(i + 1).drop_last() =~= all.take(i as int));
        assert(all.take(i + 1).last() == parts@[i as int]@);
        match clause_level_of(parts[i].as_str(), dimensions) {
            Ok((at, l)) => {
                levels.set(at, l);
            },
            Err(e) => {
                proof {
                    lemma_level_error_stays(all, names, i + 1);
                }
                return Err(e);
            },
        }
        i = i + 1;
    }
    assert(all.take(all.len() as int) =~= all);
    Ok(levels)
}

/// There is one level for each dimension.
pub proof fn law_one_level_each(clause_list: Seq<Seq<char>>, dimensions: Seq<Seq<char>>)
    requires
        levels_after(clause_list, dimensions) is Ok,
    ensures
        levels_after(clause_list, dimensions)->Ok_0.len() == dimensions.len(),
    decreases clause_list.len(),
{
    if clause_list.len() > 0 {
        law_one_level_each(clause_list.drop_last(), dimensions);
        let words = clauses::words(clause_list.last());
        lemma_dimension_place(dimensions, text::strip(words[0], '"'), 0);
    }
}

proof fn lemma_dimension_place(dimensions: Seq<Seq<char>>, name: Seq<char>, from: int)
    requires
        0 <= from,
    ensures
        dimension_place(dimensions, name, from) matches Some(at) ==> from <= at < dimensions.len(),
    decreases dimensions.len() - from,
{
    if from < dimensions.len() {
        lemma_dimension_place(dimensions, name, from + 1);
    }
}

/// A value of a result: a floating-point number is given by its bits.
#[derive(Debug)]
pub enum CellValue {
    Null,
    Text(String),
    Int(i64),
    Bool(bool),
    Float(u64),
}

pub enum CellValueView {
    Null,
    Text(Seq<char>),
    Int(i64),
    Bool(bool),
    Float(u64),
}

impl View for CellValue {
    type V = CellValueView;

    open spec fn view(&self) -> CellValueView {
        match *self {
            CellValue::Null => CellValueView::Null,
            CellValue::Text(s) => CellValueView::Text(s@),
            CellValue::Int(n) => CellValueView::Int(n),
            CellValue::Bool(b) => CellValueView::Bool(b),
            CellValue::Float(bits) => CellValueView::Float(bits),
        }
    }
}

pub open spec fn cell_views(v: Seq<CellValue>) -> Seq<CellValueView> {
    v.map_values(|c: CellValue| c@)
}

/// What a measure comes to in a cell: its sum, and its average where it has one.
#[derive(Clone, Copy, Debug)]
pub struct MeasureState {
    pub sum: u64,
    pub avg: Option<u64>,
}

/// What a sketch answers in a cell.
#[derive(Clone, Copy, Debug)]
pub struct SketchState {
    pub distinct: Option<i64>,
    pub p50: Option<u64>,
    pub p95: Option<u64>,
}

/// A cell: the values of its dimensions, how many rows it counts, its measures, and its
/// sketches.
#[derive(Debug)]
pub struct AggregateCell {
    pub key: Vec<DimensionValue>,
    pub count: i64,
    pub measures: Vec<MeasureState>,
    pub sketches: Vec<SketchState>,
}

pub open spec fn measure_columns(names: Seq<Seq<char>>) -> Seq<Seq<char>>
    decreases names.len(),
{
    if names.len() == 0 {
        Seq::empty()
    } else {
        measure_columns(names.drop_last()).push("sum_"@ + names.last()).push(
            "avg_"@ + names.last(),
        )
    }
}

pub open spec fn sketch_columns(specs: Seq<SketchView>) -> Seq<Seq<char>>
    decreases specs.len(),
{
    if specs.len() == 0 {
        Seq::empty()
    } else {
        let before = sketch_columns(specs.drop_last());
        match specs.last().kind {
            SketchKind::DistinctCount => before.push("distinct_"@ + specs.last().name),
            SketchKind::Quantile => before.push("p50_"@ + specs.last().name).push(
                "p95_"@ + specs.last().name,
            ),
        }
    }
}

/// The columns of cells: the dimensions, the count, the sum and the average of each
/// measure, and what each sketch answers.
pub open spec fn cell_columns(
    dimensions: Seq<Seq<char>>,
    measures: Seq<Seq<char>>,
    specs: Seq<SketchView>,
) -> Seq<Seq<char>> {
    dimensions.push("count"@) + measure_columns(measures) + sketch_columns(specs)
}

pub open spec fn dimension_cell(v: DimensionView) -> CellValueView {
    match v {
        DimensionView::Text(s) => CellValueView::Text(s),
        DimensionView::Int(n) => CellValueView::Int(n),
        DimensionView::Bool(b) => CellValueView::Bool(b),
        DimensionView::Missing => CellValueView::Null,
    }
}

pub open spec fn float_or_null(bits: Option<u64>) -> CellValueView {
    match bits {
        Some(bits) => CellValueView::Float(bits),
        None => CellValueView::Null,
    }
}

pub open spec fn int_or_null(n: Option<i64>) -> CellValueView {
    match n {
        Some(n) => CellValueView::Int(n),
        None => CellValueView::Null,
    }
}

pub open spec fn measure_cells(states: Seq<MeasureState>) -> Seq<CellValueView>
    decreases states.len(),
{
    if states.len() == 0 {
        Seq::empty()
    } else {
        measure_cells(states.drop_last()).push(CellValueView::Float(states.last().sum)).push(
            float_or_null(states.last().avg),
        )
    }
}

/// What the sketches of a cell say. A sketch that is missing says nothing.
pub open spec fn sketch_cells(specs: Seq<SketchView>, states: Seq<SketchState>) -> Seq<CellValueView>
    decreases specs.len(),
{
    if specs.len() == 0 {
        Seq::empty()
    } else {
        let before = sketch_cells(specs.drop_last(), states);
        let at = specs.len() - 1;
        let there = at < states.len();
        match specs.last().kind {
            SketchKind::DistinctCount => before.push(
                if there {
                    int_or_null(states[at].distinct)
                } else {
                    CellValueView::Null
                },
            ),
            SketchKind::Quantile => before.push(
                if there {
                    float_or_null(states[at].p50)
                } else {
                    CellValueView::Null
                },
            ).push(
                if there {
                    float_or_null(states[at].p95)
                } else {
                    CellValueView::Null
                },
            ),
        }
    }
}

/// A cell as a row.
pub open spec fn cell_row(specs: Seq<SketchView>, c: AggregateCell) -> Seq<CellValueView> {
    c.key@.map_values(|v: DimensionValue| dimension_cell(v@)).push(CellValueView::Int(c.count))
        + measure_cells(c.measures@) + sketch_cells(specs, c.sketches@)
}

fn float_cell(bits: Option<u64>) -> (r: CellValue)
    ensures
        r@ == float_or_null(bits),
{
    match bits {
        Some(bits) => CellValue::Float(bits),
        None => CellValue::Null,
    }
}

fn int_cell(n: Option<i64>) -> (r: CellValue)
    ensures
        r@ == int_or_null(n),
{
    match n {
        Some(n) => CellValue::Int(n),
        None => CellValue::Null,
    }
}

fn push_cell(row: &mut Vec<CellValue>, value: CellValue)
    ensures
        cell_views(final(row)@) == cell_views(old(row)@).push(value@),
{
    let ghost prior = row@;
    let ghost view = value@;
    row.push(value);
    assert(cell_views(row@) =~= cell_views(prior).push(view));
}

fn push_name(names: &mut Vec<String>, prefix: &str, name: &str)
    ensures
        text::views(final(names)@) == text::views(old(names)@).push(prefix@ + name@),
{
    let ghost prior = names@;
    let added = text::concat(prefix, name);
    let ghost view = added@;
    names.push(added);
    assert(text::views(names@) =~= text::views(prior).push(view));
}

/// The columns of cells.
pub fn aggregate_columns(
    dimension_names: &Vec<String>,
    measure_names: &Vec<String>,
    sketch_specs: &Vec<SketchSpec>,
) -> (r: Vec<String>)
    ensures
        text::views(r@) == cell_columns(
            text::views(dimension_names@),
            text::views(measure_names@),
            sketch_views(sketch_specs@),
        ),
{
    let ghost measures = text::views(measure_names@);
    let ghost specs = sketch_views(sketch_specs@);
    let mut out = text::copy_names(dimension_names);
    push_name(&mut out, "count", "");
    proof {
        reveal_strlit("");
        assert("count"@ + ""@ =~= "count"@);
    }
    let ghost start = text::views(out@);
    assert(start =~= text::views(dimension_names@).push("count"@));
    assert(start + measure_columns(measures.take(0)) =~= start);
    let mut i: usize = 0;
    while i < measure_names.len()
        invariant
            i <= measure_names.len(),
            measures == text::views(measure_names@),
            text::views(out@) == start + measure_columns(measures.take(i as int)),
        decreases measure_names.len() - i,
    {
        let ghost before = measure_columns(measures.take(i as int));
        assert(measures.take(i + 1).drop_last() =~= measures.take(i as int));
        assert(measures.take(i + 1).last() == measure_names@[i as int]@);
        push_name(&mut out, "sum_", measure_names[i].as_str());
        push_name(&mut out, "avg_", measure_names[i].as_str());
        assert(text::views(out@) =~= start + before.push("sum_"@ + measures[i as int]).push(
            "avg_"@ + measures[i as int],
        ));
        i = i + 1;
    }
    assert(measures.take(measures.len() as int) =~= measures);
    let ghost middle = text::views(out@);
    assert(middle + sketch_columns(specs.take(0)) =~= middle);
    let mut j: usize = 0;
    while j < sketch_specs.len()
        invariant
            j <= sketch_specs.len(),
            specs == sketch_views(sketch_specs@),
            text::views(out@) == middle + sketch_columns(specs.take(j as int)),
        decreases sketch_specs.len() - j,
    {
        let ghost before = sketch_columns(specs.take(j as int));
        assert(specs.take(j + 1).drop_last() =~= specs.take(j as int));
        assert(specs.take(j + 1).last() == sketch_specs@[j as int]@);
        let s = &sketch_specs[j];
        match s.kind {
            SketchKind::DistinctCount => {
                push_name(&mut out, "distinct_", s.name.as_str());
                assert(text::views(out@) =~= middle + before.push("distinct_"@ + s.name@));
            },
            SketchKind::Quantile => {
                push_name(&mut out, "p50_", s.name.as_str());
                push_name(&mut out, "p95_", s.name.as_str());
                assert(text::views(out@) =~= middle + before.push("p50_"@ + s.name@).push(
                    "p95_"@ + s.name@,
                ));
            },
        }
        j = j + 1;
    }
    assert(specs.take(specs.len() as int) =~= specs);
    out
}

fn row_of_cell(sketch_specs: &Vec<SketchSpec>, c: &AggregateCell) -> (r: Vec<CellValue>)
    ensures
        cell_views(r@) == cell_row(sketch_views(sketch_specs@), *c),
{
    let ghost specs = sketch_views(sketch_specs@);
    let ghost key = c.key@.map_values(|v: DimensionValue| dimension_cell(v@));
    let mut row: Vec<CellValue> = Vec::new();
    let mut i: usize = 0;
    assert(cell_views(row@) =~= key.take(0));
    while i < c.key.len()
        invariant
            i <= c.key.len(),
            key == c.key@.map_values(|v: DimensionValue| dimension_cell(v@)),
            cell_views(row@) == key.take(i as int),
        decreases c.key.len() - i,
    {
        let value = match &c.key[i] {
            DimensionValue::Text(s) => CellValue::Text(s.clone()),
            DimensionValue::Int(n) => CellValue::Int(*n),
            DimensionValue::Bool(b) => CellValue::Bool(*b),
            DimensionValue::Missing => CellValue::Null,
        };
        assert(key[i as int] == dimension_cell(c.key@[i as int]@));
        push_cell(&mut row, value);
        assert(cell_views(row@) =~= key.take(i + 1));
        i = i + 1;
    }
    assert(key.take(key.len() as int) =~= key);
    push_cell(&mut row, CellValue::Int(c.count));
    let ghost start = cell_views(row@);
    assert(start + measure_cells(c.measures@.take(0)) =~= start);
    let mut j: usize = 0;
    while j < c.measures.len()
        invariant
            j <= c.measures.len(),
            cell_views(row@) == start + measure_cells(c.measures@.take(j as int)),
        decreases c.measures.len() - j,
    {
        let ghost before = measure_cells(c.measures@.take(j as int));
        assert(c.measures@.take(j + 1).drop_last() =~= c.measures@.take(j as int));
        assert(c.measures@.take(j + 1).last() == c.measures@[j as int]);
        let m = c.measures[j];
        push_cell(&mut row, CellValue::Float(m.sum));
        push_cell(&mut row, float_cell(m.avg));
        assert(cell_views(row@) =~= start + before.push(CellValueView::Float(m.sum)).push(
            float_or_null(m.avg),
        ));
        j = j + 1;
    }
    assert(c.measures@.take(c.measures@.len() as int) =~= c.measures@);
    let ghost middle = cell_views(row@);
    assert(middle + sketch_cells(specs.take(0), c.sketches@) =~= middle);
    let mut k: usize = 0;
    while k < sketch_specs.len()
        invariant
            k <= sketch_specs.len(),
            specs == sketch_views(sketch_specs@),
            cell_views(row@) == middle + sketch_cells(specs.take(k as int), c.sketches@),
        decreases sketch_specs.len() - k,
    {
        let ghost before = sketch_cells(specs.take(k as int), c.sketches@);
        assert(specs.take(k + 1).drop_last() =~= specs.take(k as int));
        assert(specs.take(k + 1).last() == sketch_specs@[k as int]@);
        let state = if k < c.sketches.len() {
            c.sketches[k]
        } else {
            SketchState { distinct: None, p50: None, p95: None }
        };
        match sketch_specs[k].kind {
            SketchKind::DistinctCount => {
                push_cell(&mut row, int_cell(state.distinct));
                assert(cell_views(row@) =~= middle + before.push(int_or_null(state.distinct)));
            },
            SketchKind::Quantile => {
                push_cell(&mut row, float_cell(state.p50));
                push_cell(&mut row, float_cell(state.p95));
                assert(cell_views(row@) =~= middle + before.push(float_or_null(state.p50)).push(
                    float_or_null(state.p95),
                ));
            },
        }
        k = k + 1;
    }
    assert(specs.take(specs.len() as int) =~= specs);
    row
}

pub open spec fn row_views(rows: Seq<Vec<CellValue>>) -> Seq<Seq<CellValueView>> {
    rows.map_values(|row: Vec<CellValue>| cell_views(row@))
}

/// Cells as a result: the columns, and a row for each cell.
pub fn render_aggregate_cells(
    dimension_names: &Vec<String>,
    measure_names: &Vec<String>,
    sketch_specs: &Vec<SketchSpec>,
    cells: &Vec<AggregateCell>,
) -> (r: (Vec<String>, Vec<Vec<CellValue>>))
    ensures
        text::views((r.0)@) == cell_columns(
            text::views(dimension_names@),
            text::views(measure_names@),
            sketch_views(sketch_specs@),
        ),
        row_views((r.1)@) == cells@.map_values(
            |c: AggregateCell| cell_row(sketch_views(sketch_specs@), c),
        ),
{
    let columns = aggregate_columns(dimension_names, measure_names, sketch_specs);
    let ghost specs = sketch_views(sketch_specs@);
    let mut rows: Vec<Vec<CellValue>> = Vec::new();
    let mut i: usize = 0;
    while i < cells.len()
        invariant
            i <= cells.len(),
            rows@.len() == i,
            specs == sketch_views(sketch_specs@),
            forall|k: int|
                0 <= k < i ==> cell_views((#[trigger] rows@[k])@) == cell_row(specs, cells@[k]),
        decreases cells.len() - i,
    {
        rows.push(row_of_cell(sketch_specs, &cells[i]));
        i = i + 1;
    }
    assert(row_views(rows@) =~= cells@.map_values(|c: AggregateCell| cell_row(specs, c)));
    (columns, rows)
}

proof fn lemma_measure_lengths(names: Seq<Seq<char>>, states: Seq<MeasureState>)
    ensures
        measure_columns(names).len() == 2 * names.len(),
        measure_cells(states).len() == 2 * states.len(),
    decreases names.len() + states.len(),
{
    if names.len() > 0 {
        lemma_measure_lengths(names.drop_last(), states);
    }
    if states.len() > 0 {
        lemma_measure_lengths(names, states.drop_last());
    }
}

proof fn lemma_sketch_lengths(specs: Seq<SketchView>, states: Seq<SketchState>)
    ensures
        sketch_columns(specs).len() == sketch_cells(specs, states).len(),
    decreases specs.len(),
{
    if specs.len() > 0 {
        lemma_sketch_lengths(specs.drop_last(), states);
    }
}

/// A cell with a value for each dimension and each measure has a value for each column.
pub proof fn law_row_fits_columns(
    dimensions: Seq<Seq<char>>,
    measures: Seq<Seq<char>>,
    specs: Seq<SketchView>,
    c: AggregateCell,
)
    requires
        c.key@.len() == dimensions.len(),
        c.measures@.len() == measures.len(),
    ensures
        cell_row(specs, c).len() == cell_columns(dimensions, measures, specs).len(),
{
    lemma_measure_lengths(measures, c.measures@);
    lemma_sketch_lengths(specs, c.sketches@);
}

} // verus!
