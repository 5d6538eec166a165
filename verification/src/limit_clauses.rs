//! The LIMIT and the OFFSET of a query.
use vstd::prelude::*;
use crate::error::{ErrorView, SqlError};
use crate::json;
use crate::json::{Json, JsonView};
use crate::rows;

verus! {

/// A value that is there and is not null.
pub open spec fn present(v: Option<JsonView>) -> Option<JsonView> {
    match v {
        Some(JsonView::Null) => None,
        other => other,
    }
}

/// The expressions of the LIMIT and of the OFFSET of a query, in either of the ways to
/// write them.
pub open spec fn limit_and_offset(query: JsonView) -> (Option<JsonView>, Option<JsonView>) {
    let clause = json::field_or_null(query, "limit_clause"@);
    let p = json::payload(clause);
    if json::is_variant(clause, "LimitOffset"@) {
        (
            present(json::field(p, "limit"@)),
            present(json::field(json::field_or_null(p, "offset"@), "value"@)),
        )
    } else if json::is_variant(clause, "OffsetCommaLimit"@) {
        (present(json::field(p, "limit"@)), present(json::field(p, "offset"@)))
    } else {
        (None, None)
    }
}

fn present_field<'a>(node: Option<&'a Json>, name: &str) -> (r: Option<&'a Json>)
    ensures
        match (r, match node {
            Some(node) => present(json::field(node@, name@)),
            None => None,
        }) {
            (Some(v), Some(view)) => v@ == view,
            (None, None) => true,
            _ => false,
        },
{
    match node {
        Some(node) => match json::get_field(node, name) {
            Some(Json::Null) => None,
            other => other,
        },
        None => None,
    }
}

pub open spec fn option_view(v: Option<&Json>) -> Option<JsonView> {
    match v {
        Some(v) => Some(v@),
        None => None,
    }
}

/// The expressions of the LIMIT and of the OFFSET of a query.
pub fn query_limit_and_offset<'a>(query: &'a Json) -> (r: (Option<&'a Json>, Option<&'a Json>))
    ensures
        (option_view(r.0), option_view(r.1)) == limit_and_offset(query@),
{
    let clause = match json::get_field(query, "limit_clause") {
        Some(clause) => clause,
        None => {
            return (None, None);
        },
    };
    let p = json::variant_payload(clause);
    if json::has_variant(clause, "LimitOffset") {
        let offset = match p {
            Some(p) => json::get_field(p, "offset"),
            None => None,
        };
        (present_field(p, "limit"), present_field(offset, "value"))
    } else if json::has_variant(clause, "OffsetCommaLimit") {
        (present_field(p, "limit"), present_field(p, "offset"))
    } else {
        (None, None)
    }
}

/// What the expression of an OFFSET counts to; nothing where there is none.
pub open spec fn offset_of(query: JsonView, offset: Result<usize, SqlError>) -> Result<nat, ErrorView> {
    match (limit_and_offset(query).1, offset) {
        (None, _) => Ok(0),
        (Some(_), Ok(n)) => Ok(n as nat),
        (Some(_), Err(e)) => Err(e@),
    }
}

/// What the expression of a LIMIT counts to, which may be to no limit at all; no limit
/// where there is none.
pub open spec fn limit_of(query: JsonView, limit: Result<Option<usize>, SqlError>) -> Result<
    Option<nat>,
    ErrorView,
> {
    match (limit_and_offset(query).0, limit) {
        (None, _) => Ok(None),
        (Some(_), Ok(n)) => Ok(rows::opt_nat(n)),
        (Some(_), Err(e)) => Err(e@),
    }
}

/// Drops the rows before the OFFSET of a query, and those behind its LIMIT. `offset` and
/// `limit` are what the expressions of the two count to. An OFFSET that does not count
/// leaves the rows, a LIMIT that does not count leaves those behind the OFFSET.
pub fn apply_query_limit<T>(
    rows: &mut Vec<T>,
    query: &Json,
    offset: Result<usize, SqlError>,
    limit: Result<Option<usize>, SqlError>,
) -> (r: Result<(), SqlError>)
    ensures
        match (offset_of(query@, offset), limit_of(query@, limit)) {
            (Err(e), _) => r matches Err(error) && error@ == e && final(rows)@ == old(rows)@,
            (Ok(n), Err(e)) => r matches Err(error) && error@ == e && final(rows)@ == rows::limited(
                old(rows)@,
                n,
                None,
            ),
            (Ok(n), Ok(limit)) => r is Ok && final(rows)@ == rows::limited(old(rows)@, n, limit),
        },
{
    let (limited, skipped) = query_limit_and_offset(query);
    let skip: Option<usize> = match (skipped, offset) {
        (None, _) => None,
        (Some(_), Ok(n)) => Some(n),
        (Some(_), Err(e)) => {
            return Err(e);
        },
    };
    match (limited, limit) {
        (None, _) => {
            rows::apply_row_limit(rows, skip, None);
            Ok(())
        },
        (Some(_), Ok(n)) => {
            rows::apply_row_limit(rows, skip, n);
            Ok(())
        },
        (Some(_), Err(e)) => {
            rows::apply_row_limit(rows, skip, None);
            Err(e)
        },
    }
}

/// How many rows the ORDER BY of a query has to rank, where its LIMIT bounds them.
pub open spec fn keep_bound_of(
    query: JsonView,
    offset: Result<usize, SqlError>,
    limit: Result<Option<usize>, SqlError>,
) -> Result<Option<nat>, ErrorView> {
    match limit_of(query, limit) {
        Err(e) => Err(e),
        Ok(None) => Ok(None),
        Ok(Some(n)) => match offset_of(query, offset) {
            Err(e) => Err(e),
            Ok(skip) => Ok(
                Some(
                    if n + skip <= usize::MAX {
                        n + skip
                    } else {
                        usize::MAX as nat
                    },
                ),
            ),
        },
    }
}

/// How many rows the ORDER BY of a query has to rank: those that its LIMIT and its
/// OFFSET leave and skip, or all where it has no LIMIT.
pub fn query_keep_bound(
    query: &Json,
    offset: Result<usize, SqlError>,
    limit: Result<Option<usize>, SqlError>,
) -> (r: Result<Option<usize>, SqlError>)
    ensures
        match (r, keep_bound_of(query@, offset, limit)) {
            (Ok(n), Ok(view)) => rows::opt_nat(n) == view,
            (Err(e), Err(view)) => e@ == view,
            _ => false,
        },
{
    let (limited, skipped) = query_limit_and_offset(query);
    let bound: usize = match (limited, limit) {
        (None, _) => {
            return Ok(None);
        },
        (Some(_), Ok(None)) => {
            return Ok(None);
        },
        (Some(_), Ok(Some(n))) => n,
        (Some(_), Err(e)) => {
            return Err(e);
        },
    };
    match (skipped, offset) {
        (None, _) => Ok(Some(bound)),
        (Some(_), Ok(n)) => Ok(Some(bound.saturating_add(n))),
        (Some(_), Err(e)) => Err(e),
    }
}

/// Keeping no more rows than the bound of a query loses none that its LIMIT and its
/// OFFSET leave.
pub proof fn law_query_bound_suffices<T>(
    list: Seq<T>,
    query: JsonView,
    offset: Result<usize, SqlError>,
    limit: Result<Option<usize>, SqlError>,
)
    requires
        keep_bound_of(query, offset, limit) matches Ok(Some(_)),
        list.len() <= usize::MAX,
    ensures
        ({
            let bound = keep_bound_of(query, offset, limit)->Ok_0->0;
            let kept = if bound < list.len() {
                list.take(bound as int)
            } else {
                list
            };
            let skip = offset_of(query, offset)->Ok_0;
            let n = limit_of(query, limit)->Ok_0;
            rows::limited(kept, skip, n) == rows::limited(list, skip, n)
        }),
{
    let bound = keep_bound_of(query, offset, limit)->Ok_0->0;
    let skip = offset_of(query, offset)->Ok_0;
    let n = limit_of(query, limit)->Ok_0->0;
    let kept = if bound < list.len() {
        list.take(bound as int)
    } else {
        list
    };
    assert(rows::limited(kept, skip, Some(n)) =~= rows::limited(list, skip, Some(n)));
}

} // verus!
