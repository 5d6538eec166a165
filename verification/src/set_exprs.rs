//! The bodies of queries that are statements.
use vstd::prelude::*;
use crate::ast::{Query, SetExpr};

verus! {

/// The body that a query has in the end, where its body is a query again.
pub open spec fn innermost(body: SetExpr) -> SetExpr
    decreases body,
{
    match body {
        SetExpr::Query(q) => innermost(*q.body),
        other => other,
    }
}

fn innermost_body(body: &SetExpr) -> (r: &SetExpr)
    ensures
        *r == innermost(*body),
    decreases *body,
{
    match body {
        SetExpr::Query(q) => innermost_body(&*q.body),
        _ => body,
    }
}

/// The INSERT that a query body is, if it is one.
pub fn set_expr_insert(expr: &SetExpr) -> (r: Option<&String>)
    ensures
        match (r, innermost(*expr)) {
            (Some(s), SetExpr::Insert(written)) => *s == written,
            (Some(_), _) => false,
            (None, inner) => !(inner is Insert),
        },
{
    match innermost_body(expr) {
        SetExpr::Insert(written) => Some(written),
        _ => None,
    }
}

/// The UPDATE that a query body is, if it is one.
pub fn set_expr_update(expr: &SetExpr) -> (r: Option<&String>)
    ensures
        match (r, innermost(*expr)) {
            (Some(s), SetExpr::Update(written)) => *s == written,
            (Some(_), _) => false,
            (None, inner) => !(inner is Update),
        },
{
    match innermost_body(expr) {
        SetExpr::Update(written) => Some(written),
        _ => None,
    }
}

/// The DELETE that a query body is, if it is one.
pub fn set_expr_delete(expr: &SetExpr) -> (r: Option<&String>)
    ensures
        match (r, innermost(*expr)) {
            (Some(s), SetExpr::Delete(written)) => *s == written,
            (Some(_), _) => false,
            (None, inner) => !(inner is Delete),
        },
{
    match innermost_body(expr) {
        SetExpr::Delete(written) => Some(written),
        _ => None,
    }
}

/// A query that is its body and no more.
pub fn query_from_body(body: SetExpr) -> (q: Query)
    ensures
        *q.body == body,
        q.order_by is None,
{
    Query { body: Box::new(body), order_by: None }
}

/// A query round a body is the statement that the body is.
pub proof fn law_query_round_a_body(body: SetExpr, q: Query)
    requires
        *q.body == body,
    ensures
        innermost(SetExpr::Query(Box::new(q))) == innermost(body),
{
}

} // verus!
