//! The columns that RETURNING gives, and the collations of indexed expressions.
use vstd::prelude::*;
use crate::ast::{Expr, ExprKind, SelectItem};
use crate::error;
use crate::error::SqlError;
use crate::text;

verus! {

pub open spec fn type_views(v: Seq<Option<String>>) -> Seq<Option<Seq<char>>> {
    v.map_values(|t: Option<String>| error::view_option(t))
}

/// The types of the columns that RETURNING gives: of a wildcard those of the table, of
/// an expression its own.
pub open spec fn returned_types(
    items: Seq<SelectItem>,
    wildcard: Seq<Option<Seq<char>>>,
    of_items: Seq<Option<Seq<char>>>,
) -> Seq<Option<Seq<char>>>
    decreases items.len(),
{
    if items.len() == 0 {
        Seq::empty()
    } else {
        let before = returned_types(items.drop_last(), wildcard, of_items);
        match items.last() {
            SelectItem::Wildcard(_) | SelectItem::QualifiedWildcard(_) => before + wildcard,
            SelectItem::UnnamedExpr(_) | SelectItem::ExprWithAlias { .. } => before.push(
                of_items[items.len() - 1],
            ),
            SelectItem::Other(_) => before,
        }
    }
}

fn copy_type(t: &Option<String>) -> (r: Option<String>)
    ensures
        error::view_option(r) == error::view_option(*t),
{
    match t {
        Some(s) => Some(s.clone()),
        None => None,
    }
}

/// The types of the columns that RETURNING gives. `wildcard` has the types of the
/// columns that a wildcard stands for, `of_items` the type of each item's expression.
pub fn returning_projection_column_types(
    returning: &Vec<SelectItem>,
    wildcard: &Vec<Option<String>>,
    of_items: &Vec<Option<String>>,
) -> (r: Vec<Option<String>>)
    requires
        of_items@.len() == returning@.len(),
    ensures
        type_views(r@) == returned_types(returning@, type_views(wildcard@), type_views(of_items@)),
{
    let ghost all = type_views(wildcard@);
    let ghost own = type_views(of_items@);
    let mut out: Vec<Option<String>> = Vec::new();
    assert(type_views(out@) =~= Seq::empty());
    let mut i: usize = 0;
    while i < returning.len()
        invariant
            i <= returning.len(),
            of_items@.len() == returning@.len(),
            all == type_views(wildcard@),
            own == type_views(of_items@),
            type_views(out@) == returned_types(returning@.take(i as int), all, own),
        decreases returning.len() - i,
    {
        assert(returning@.take(i + 1).drop_last() =~= returning@.take(i as int));
        assert(returning@.take(i + 1).last() == returning@[i as int]);
        let ghost before = type_views(out@);
        match &returning[i] {
            SelectItem::Wildcard(_) | SelectItem::QualifiedWildcard(_) => {
                let mut k: usize = 0;
                assert(before + all.take(0) =~= before);
                while k < wildcard.len()
                    invariant
                        k <= wildcard.len(),
                        all == type_views(wildcard@),
                        type_views(out@) == before + all.take(k as int),
                    decreases wildcard.len() - k,
                {
                    let ghost prior = out@;
                    assert(all[k as int] == error::view_option(wildcard@[k as int]));
                    out.push(copy_type(&wildcard[k]));
                    assert(type_views(out@) =~= type_views(prior).push(all[k as int]));
                    assert(before + all.take(k + 1) =~= (before + all.take(k as int)).push(
                        all[k as int],
                    ));
                    k = k + 1;
                }
                assert(all.take(all.len() as int) =~= all);
            },
            SelectItem::UnnamedExpr(_) | SelectItem::ExprWithAlias { .. } => {
                let ghost prior = out@;
                assert(own[i as int] == error::view_option(of_items@[i as int]));
                out.push(copy_type(&of_items[i]));
                assert(type_views(out@) =~= type_views(prior).push(own[i as int]));
            },
            SelectItem::Other(_) => {},
        }
        i = i + 1;
    }
    assert(returning@.take(returning@.len() as int) =~= returning@);
    out
}

/// What a client is told of a column: its table, its place there, and its modifier.
#[derive(Clone, Copy, Debug, PartialEq, Eq, Structural)]
pub struct SqlColumnMetadata {
    pub table_oid: i32,
    pub attribute_number: i16,
    pub type_modifier: i32,
}

/// A column of a table.
#[derive(Debug)]
pub struct ReturnedColumn {
    pub name: String,
    pub hidden: bool,
    pub type_modifier: i32,
}

/// The place of the first column of a name, whatever the case of its letters, among
/// those that are not hidden or among all.
pub open spec fn column_place(
    columns: Seq<ReturnedColumn>,
    name: Seq<char>,
    hidden_too: bool,
    from: int,
) -> Option<int>
    decreases columns.len() - from,
{
    if from < 0 || from >= columns.len() {
        None
    } else if (hidden_too || !columns[from].hidden) && text::same_ignoring_case(
        columns[from].name@,
        name,
    ) {
        Some(from)
    } else {
        column_place(columns, name, hidden_too, from + 1)
    }
}

/// The number of a column in its table; zero where it is too large.
pub open spec fn attribute_number(columns: Seq<ReturnedColumn>, name: Seq<char>) -> i16 {
    match column_place(columns, name, true, 0) {
        Some(at) => if at + 1 <= i16::MAX {
            (at + 1) as i16
        } else {
            0
        },
        None => 0,
    }
}

pub open spec fn column_metadata(
    table_oid: i32,
    columns: Seq<ReturnedColumn>,
    at: int,
) -> SqlColumnMetadata {
    SqlColumnMetadata {
        table_oid,
        attribute_number: attribute_number(columns, columns[at].name@),
        type_modifier: columns[at].type_modifier,
    }
}

pub open spec fn no_metadata() -> SqlColumnMetadata {
    SqlColumnMetadata { table_oid: 0, attribute_number: 0, type_modifier: 0 }
}

/// The name that an expression is, where it is a column and no more.
pub open spec fn plain_name(e: Expr) -> Option<Seq<char>> {
    if e.kind == ExprKind::Identifier && e.names@.len() > 0 {
        Some(e.names@[0]@)
    } else if e.kind == ExprKind::CompoundIdentifier && e.names@.len() > 0 {
        Some(e.names@.last()@)
    } else {
        None
    }
}

/// The name of the column that an expression is, also in one pair of brackets.
pub open spec fn direct_name(e: Expr) -> Option<Seq<char>> {
    if e.kind == ExprKind::Nested && e.operands@.len() > 0 {
        plain_name(e.operands@[0].expr)
    } else {
        plain_name(e)
    }
}

pub open spec fn expr_metadata(
    table_oid: i32,
    columns: Seq<ReturnedColumn>,
    e: Expr,
) -> SqlColumnMetadata {
    match direct_name(e) {
        None => no_metadata(),
        Some(name) => match column_place(columns, name, false, 0) {
            None => no_metadata(),
            Some(at) => column_metadata(table_oid, columns, at),
        },
    }
}

/// What a client is told of the columns of a wildcard: of all that are not hidden.
pub open spec fn visible_metadata(
    table_oid: i32,
    columns: Seq<ReturnedColumn>,
    count: nat,
) -> Seq<SqlColumnMetadata>
    decreases count,
{
    if count == 0 {
        Seq::empty()
    } else {
        let before = visible_metadata(table_oid, columns, (count - 1) as nat);
        if columns[count - 1].hidden {
            before
        } else {
            before.push(column_metadata(table_oid, columns, count - 1))
        }
    }
}

/// What a client is told of the columns that RETURNING gives.
pub open spec fn returned_metadata(
    table_oid: i32,
    columns: Seq<ReturnedColumn>,
    items: Seq<SelectItem>,
) -> Seq<SqlColumnMetadata>
    decreases items.len(),
{
    if items.len() == 0 {
        Seq::empty()
    } else {
        let before = returned_metadata(table_oid, columns, items.drop_last());
        match items.last() {
            SelectItem::Wildcard(_) | SelectItem::QualifiedWildcard(_) => before
                + visible_metadata(table_oid, columns, columns.len()),
            SelectItem::UnnamedExpr(e) => before.push(expr_metadata(table_oid, columns, e)),
            SelectItem::ExprWithAlias { expr, .. } => before.push(
                expr_metadata(table_oid, columns, expr),
            ),
            SelectItem::Other(_) => before,
        }
    }
}

fn find_column(columns: &Vec<ReturnedColumn>, name: &str, hidden_too: bool) -> (r: Option<usize>)
    ensures
        match (r, column_place(columns@, name@, hidden_too, 0)) {
            (Some(i), Some(view)) => i == view && i < columns@.len(),
            (None, None) => true,
            _ => false,
        },
{
    let mut i: usize = 0;
    while i < columns.len()
        invariant
            i <= columns.len(),
            column_place(columns@, name@, hidden_too, 0) == column_place(
                columns@,
                name@,
                hidden_too,
                i as int,
            ),
        decreases columns.len() - i,
    {
        if (hidden_too || !columns[i].hidden) && text::eq_ignore_case(
            columns[i].name.as_str(),
            name,
        ) {
            return Some(i);
        }
        i = i + 1;
    }
    None
}

fn metadata_for_column(table_oid: i32, columns: &Vec<ReturnedColumn>, at: usize) -> (r:
    SqlColumnMetadata)
    requires
        at < columns@.len(),
    ensures
        r == column_metadata(table_oid, columns@, at as int),
{
    let number: i16 = match find_column(columns, columns[at].name.as_str(), true) {
        Some(i) => if i < 32767 {
            i as i16 + 1
        } else {
            0
        },
        None => 0,
    };
    SqlColumnMetadata {
        table_oid,
        attribute_number: number,
        type_modifier: columns[at].type_modifier,
    }
}

fn plain_column(e: &Expr) -> (r: Option<&str>)
    ensures
        text::view_str(r) == plain_name(*e),
{
    if e.kind == ExprKind::Identifier && e.names.len() > 0 {
        Some(e.names[0].as_str())
    } else if e.kind == ExprKind::CompoundIdentifier && e.names.len() > 0 {
        Some(e.names[e.names.len() - 1].as_str())
    } else {
        None
    }
}

fn metadata_of_expr(table_oid: i32, columns: &Vec<ReturnedColumn>, e: &Expr) -> (r:
    SqlColumnMetadata)
    ensures
        r == expr_metadata(table_oid, columns@, *e),
{
    let name = if e.kind == ExprKind::Nested && e.operands.len() > 0 {
        plain_column(&e.operands[0].expr)
    } else {
        plain_column(e)
    };
    let none = SqlColumnMetadata { table_oid: 0, attribute_number: 0, type_modifier: 0 };
    match name {
        None => none,
        Some(name) => match find_column(columns, name, false) {
            None => none,
            Some(at) => metadata_for_column(table_oid, columns, at),
        },
    }
}

/// What a client is told of the columns that RETURNING gives. Of a table without a
/// schema nothing is.
pub fn returning_projection_column_metadata(
    table_oid: i32,
    returning: &Vec<SelectItem>,
    schema: Option<&Vec<ReturnedColumn>>,
) -> (r: Vec<SqlColumnMetadata>)
    ensures
        r@ == (match schema {
            Some(columns) => returned_metadata(table_oid, columns@, returning@),
            None => Seq::empty(),
        }),
{
    let mut out: Vec<SqlColumnMetadata> = Vec::new();
    let columns = match schema {
        Some(columns) => columns,
        None => {
            return out;
        },
    };
    let mut i: usize = 0;
    while i < returning.len()
        invariant
            i <= returning.len(),
            schema == Some(columns),
            out@ == returned_metadata(table_oid, columns@, returning@.take(i as int)),
        decreases returning.len() - i,
    {
        assert(returning@.take(i + 1).drop_last() =~= returning@.take(i as int));
        assert(returning@.take(i + 1).last() == returning@[i as int]);
        let ghost before = out@;
        match &returning[i] {
            SelectItem::Wildcard(_) | SelectItem::QualifiedWildcard(_) => {
                let mut k: usize = 0;
                assert(before + visible_metadata(table_oid, columns@, 0) =~= before);
                while k < columns.len()
                    invariant
                        k <= columns.len(),
                        out@ == before + visible_metadata(table_oid, columns@, k as nat),
                    decreases columns.len() - k,
                {
                    if !columns[k].hidden {
                        let ghost prior = visible_metadata(table_oid, columns@, k as nat);
                        let m = metadata_for_column(table_oid, columns, k);
                        out.push(m);
                        assert(out@ =~= before + prior.push(m));
                    }
                    k = k + 1;
                }
            },
            SelectItem::UnnamedExpr(e) => {
                out.push(metadata_of_expr(table_oid, columns, e));
            },
            SelectItem::ExprWithAlias { expr, .. } => {
                out.push(metadata_of_expr(table_oid, columns, expr));
            },
            SelectItem::Other(_) => {},
        }
        i = i + 1;
    }
    assert(returning@.take(returning@.len() as int) =~= returning@);
    out
}

/// RETURNING of expressions alone gives one type and one note for each.
pub proof fn law_one_for_each(
    table_oid: i32,
    columns: Seq<ReturnedColumn>,
    items: Seq<SelectItem>,
    wildcard: Seq<Option<Seq<char>>>,
    of_items: Seq<Option<Seq<char>>>,
)
    requires
        forall|i: int|
            0 <= i < items.len() ==> (#[trigger] items[i]) is UnnamedExpr || items[i] is ExprWithAlias,
    ensures
        returned_types(items, wildcard, of_items).len() == items.len(),
        returned_metadata(table_oid, columns, items).len() == items.len(),
    decreases items.len(),
{
    if items.len() > 0 {
        let rest = items.drop_last();
        assert forall|i: int| 0 <= i < rest.len() implies (#[trigger] rest[i]) is UnnamedExpr
            || rest[i] is ExprWithAlias by {
            assert(rest[i] == items[i]);
        }
        law_one_for_each(table_oid, columns, rest, wildcard, of_items);
        assert(items[items.len() - 1] is UnnamedExpr || items[items.len() - 1] is ExprWithAlias);
    }
}

/// An indexed expression as far as its collation goes: one with a collation, which may
/// be unknown to the catalog or none at all; a column; one in brackets; a cast, and
/// whether its type has collations; a literal; or something else.
#[derive(Debug)]
pub enum IndexedExpr {
    Collate { inner: Box<IndexedExpr>, written: String, collation: Result<Option<i64>, SqlError> },
    Column(String),
    Nested(Box<IndexedExpr>),
    Cast(Result<bool, SqlError>),
    Literal,
    Other,
}

/// A column: its name, and its collation, where its type has collations.
#[derive(Debug)]
pub struct CollatedColumn {
    pub name: String,
    pub collatable: bool,
    pub collation_oid: i64,
}

/// The collation of a column.
pub open spec fn column_collation(
    columns: Seq<CollatedColumn>,
    name: Seq<char>,
    from: int,
) -> int
    decreases columns.len() - from,
{
    if from < 0 || from >= columns.len() {
        0
    } else if text::same_ignoring_case(columns[from].name@, name) {
        if columns[from].collatable {
            columns[from].collation_oid as int
        } else {
            0
        }
    } else {
        column_collation(columns, name, from + 1)
    }
}

pub open spec fn uncollatable_error(written: Seq<char>) -> error::ErrorView {
    error::data_exception_error(
        "42804"@,
        "collations are not supported by type of expression "@ + written,
        None,
    )
}

/// The collation of an indexed expression; zero where it has none.
pub open spec fn expr_collation(columns: Seq<CollatedColumn>, e: IndexedExpr) -> Result<
    int,
    error::ErrorView,
>
    decreases e,
{
    match e {
        IndexedExpr::Collate { inner, written, collation } => match expr_collation(columns, *inner) {
            Err(err) => Err(err),
            Ok(oid) => if oid == 0 {
                Err(uncollatable_error(written@))
            } else {
                match collation {
                    Err(err) => Err(err@),
                    Ok(Some(oid)) => Ok(oid as int),
                    Ok(None) => Ok(0),
                }
            },
        },
        IndexedExpr::Column(name) => Ok(column_collation(columns, name@, 0)),
        IndexedExpr::Nested(inner) => expr_collation(columns, *inner),
        IndexedExpr::Cast(collatable) => match collatable {
            Err(err) => Err(err@),
            Ok(true) => Ok(100),
            Ok(false) => Ok(0),
        },
        IndexedExpr::Literal => Ok(100),
        IndexedExpr::Other => Ok(0),
    }
}

/// The collation of an indexed expression; zero where it has none.
pub fn index_expr_collation_oid(columns: &Vec<CollatedColumn>, e: &IndexedExpr) -> (r: Result<
    i64,
    SqlError,
>)
    ensures
        match (r, expr_collation(columns@, *e)) {
            (Ok(a), Ok(b)) => a == b,
            (Err(err), Err(view)) => err@ == view,
            _ => false,
        },
    decreases *e,
{
    match e {
        IndexedExpr::Collate { inner, written, collation } => match index_expr_collation_oid(
            columns,
            &**inner,
        ) {
            Err(err) => Err(err),
            Ok(oid) => {
                if oid == 0 {
                    return Err(
                        SqlError::data_exception(
                            "42804",
                            text::concat(
                                "collations are not supported by type of expression ",
                                written.as_str(),
                            ),
                            None,
                        ),
                    );
                }
                match collation {
                    Err(err) => Err(err.copied()),
                    Ok(Some(oid)) => Ok(*oid),
                    Ok(None) => Ok(0),
                }
            },
        },
        IndexedExpr::Column(name) => {
            let mut i: usize = 0;
            while i < columns.len()
                invariant
                    i <= columns.len(),
                    column_collation(columns@, name@, 0) == column_collation(
                        columns@,
                        name@,
                        i as int,
                    ),
                    *e == IndexedExpr::Column(*name),
                decreases columns.len() - i,
            {
                if text::eq_ignore_case(columns[i].name.as_str(), name.as_str()) {
                    return Ok(
                        if columns[i].collatable {
                            columns[i].collation_oid
                        } else {
                            0
                        },
                    );
                }
                i = i + 1;
            }
            Ok(0)
        },
        IndexedExpr::Nested(inner) => index_expr_collation_oid(columns, &**inner),
        IndexedExpr::Cast(collatable) => match collatable {
            Err(err) => Err(err.copied()),
            Ok(yes) => Ok(
                if *yes {
                    100
                } else {
                    0
                },
            ),
        },
        IndexedExpr::Literal => Ok(100),
        IndexedExpr::Other => Ok(0),
    }
}

} // verus!
