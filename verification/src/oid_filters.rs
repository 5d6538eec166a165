//! Filters on the object numbers of catalog tables, also through joins with
//! `pg_class` and `pg_index`, and the choice of the narrowest catalog read.
use vstd::prelude::*;
use crate::error;
use crate::error::{ErrorView, SqlError, SqlErrorKind};
use crate::filters;
use crate::filters::{FilterExpr, FilterKind, FilterShape, OidSource};
use crate::sets;
use crate::text;

verus! {

/// The number of the relation that an expression gives.
pub open spec fn oid_literal(e: FilterExpr) -> Result<Option<i64>, ErrorView>
    decreases e,
{
    match e.shape {
        FilterShape::Nested(inner) => oid_literal(*inner),
        _ => match e.oid {
            OidSource::Call(call) => if text::lower(call.name@) != "to_regclass"@ && text::lower(
                call.name@,
            ) != "pg_catalog.to_regclass"@ {
                Err(
                    error::unsupported_error(
                        "function "@ + call.written@
                            + " is not supported in relation oid predicates"@,
                    ),
                )
            } else if call.arguments != 1 {
                Err(error::invalid_sql_error(call.written@ + " expects exactly one argument"@))
            } else {
                view_oid(call.resolved)
            },
            OidSource::Value(value) => view_oid(value),
        },
    }
}

pub open spec fn view_oid(r: Result<Option<i64>, SqlError>) -> Result<Option<i64>, ErrorView> {
    match r {
        Ok(oid) => Ok(oid),
        Err(e) => Err(e@),
    }
}

fn copy_oid(r: &Result<Option<i64>, SqlError>) -> (c: Result<Option<i64>, SqlError>)
    ensures
        view_oid(c) == view_oid(*r),
{
    match r {
        Ok(oid) => Ok(*oid),
        Err(e) => Err(e.copied()),
    }
}

/// The number of the relation that an expression gives.
pub fn relation_oid_literal_value(e: &FilterExpr) -> (r: Result<Option<i64>, SqlError>)
    ensures
        view_oid(r) == oid_literal(*e),
    decreases e,
{
    match &e.shape {
        FilterShape::Nested(inner) => relation_oid_literal_value(&**inner),
        _ => match &e.oid {
            OidSource::Call(call) => {
                let name = text::to_lower(call.name.as_str());
                if !text::text_eq(name.as_str(), "to_regclass") && !text::text_eq(
                    name.as_str(),
                    "pg_catalog.to_regclass",
                ) {
                    return Err(
                        SqlError::unsupported(
                            text::concat3(
                                "function ",
                                call.written.as_str(),
                                " is not supported in relation oid predicates",
                            ),
                        ),
                    );
                }
                if call.arguments != 1 {
                    return Err(
                        SqlError::invalid_sql(
                            text::concat(call.written.as_str(), " expects exactly one argument"),
                        ),
                    );
                }
                copy_oid(&call.resolved)
            },
            OidSource::Value(value) => copy_oid(value),
        },
    }
}

/// The number of the relation that an expression gives, where it can be told.
pub open spec fn optional_oid_literal(e: FilterExpr) -> Result<Option<i64>, ErrorView> {
    match oid_literal(e) {
        Ok(oid) => Ok(oid),
        Err(err) => if err.kind == SqlErrorKind::Unsupported {
            Ok(None)
        } else {
            Err(err)
        },
    }
}

/// The number of the relation that an expression gives, where it can be told.
pub fn optional_relation_oid_literal_value(e: &FilterExpr) -> (r: Result<Option<i64>, SqlError>)
    ensures
        view_oid(r) == optional_oid_literal(*e),
{
    match relation_oid_literal_value(e) {
        Ok(oid) => Ok(oid),
        Err(err) => if err.kind == SqlErrorKind::Unsupported {
            Ok(None)
        } else {
            Err(err)
        },
    }
}

/// The number that a comparison asks the columns to be.
pub open spec fn oid_comparison(
    e: FilterExpr,
    alias: Seq<char>,
    table: Seq<char>,
    fields: Seq<Seq<char>>,
) -> Result<Option<i64>, ErrorView> {
    match e.shape {
        FilterShape::Equal(left, right) => if filters::is_column(*left, alias, table, fields) {
            optional_oid_literal(*right)
        } else if filters::is_column(*right, alias, table, fields) {
            optional_oid_literal(*left)
        } else {
            Ok(None)
        },
        _ => Ok(None),
    }
}

/// The number that a comparison asks the columns to be.
pub fn relation_oid_comparison(e: &FilterExpr, alias: &str, table: &str, fields: &[&str]) -> (r:
    Result<Option<i64>, SqlError>)
    ensures
        view_oid(r) == oid_comparison(*e, alias@, table@, text::slice_views(fields@)),
{
    match &e.shape {
        FilterShape::Equal(left, right) => {
            if filters::relation_oid_column_matches(&**left, alias, table, fields) {
                optional_relation_oid_literal_value(&**right)
            } else if filters::relation_oid_column_matches(&**right, alias, table, fields) {
                optional_relation_oid_literal_value(&**left)
            } else {
                Ok(None)
            }
        },
        _ => Ok(None),
    }
}

/// The number that the first of the terms from there on that asks for one asks
/// the columns to be.
pub open spec fn implied_oid(
    terms: Seq<FilterExpr>,
    alias: Seq<char>,
    table: Seq<char>,
    fields: Seq<Seq<char>>,
    from: int,
) -> Result<Option<i64>, ErrorView>
    decreases terms.len() - from,
{
    if from < 0 || from >= terms.len() {
        Ok(None)
    } else {
        match oid_comparison(terms[from], alias, table, fields) {
            Err(e) => Err(e),
            Ok(Some(oid)) => Ok(Some(oid)),
            Ok(None) => implied_oid(terms, alias, table, fields, from + 1),
        }
    }
}

/// The number that a WHERE clause asks the columns to be.
pub fn relation_oid_filter_from_selection(
    terms: &Vec<FilterExpr>,
    alias: &str,
    table: &str,
    fields: &[&str],
) -> (r: Result<Option<i64>, SqlError>)
    ensures
        view_oid(r) == implied_oid(terms@, alias@, table@, text::slice_views(fields@), 0),
{
    let ghost names = text::slice_views(fields@);
    let mut i: usize = 0;
    while i < terms.len()
        invariant
            i <= terms.len(),
            names == text::slice_views(fields@),
            implied_oid(terms@, alias@, table@, names, 0) == implied_oid(
                terms@,
                alias@,
                table@,
                names,
                i as int,
            ),
        decreases terms.len() - i,
    {
        match relation_oid_comparison(&terms[i], alias, table, fields) {
            Err(e) => {
                return Err(e);
            },
            Ok(Some(oid)) => {
                return Ok(Some(oid));
            },
            Ok(None) => {},
        }
        i = i + 1;
    }
    Ok(None)
}

/// The qualifier and the name of a qualified column that has one of the names.
pub open spec fn qualified_field(e: FilterExpr, fields: Seq<Seq<char>>) -> Option<
    (Seq<char>, Seq<char>),
>
    decreases e,
{
    match e.shape {
        FilterShape::Column(parts) => {
            let n = parts@.len() as int;
            if n >= 2 && filters::is_named(parts@[n - 1]@, fields) {
                Some((parts@[n - 2]@, parts@[n - 1]@))
            } else {
                None
            }
        },
        FilterShape::Nested(inner) => qualified_field(*inner, fields),
        _ => None,
    }
}

pub open spec fn view_pair(p: Option<(String, String)>) -> Option<(Seq<char>, Seq<char>)> {
    match p {
        Some((a, b)) => Some((a@, b@)),
        None => None,
    }
}

/// The qualifier and the name of a qualified column that has one of the names.
pub fn qualified_field_alias_and_name(e: &FilterExpr, fields: &[&str]) -> (r: Option<
    (String, String),
>)
    ensures
        view_pair(r) == qualified_field(*e, text::slice_views(fields@)),
    decreases e,
{
    match &e.shape {
        FilterShape::Column(parts) => {
            let n = parts.len();
            if n >= 2 && filters::named(parts[n - 1].as_str(), fields) {
                Some((parts[n - 2].clone(), parts[n - 1].clone()))
            } else {
                None
            }
        },
        FilterShape::Nested(inner) => qualified_field_alias_and_name(&**inner, fields),
        _ => None,
    }
}

/// The qualifier of a pair.
pub open spec fn qualifier_of(p: Option<(Seq<char>, Seq<char>)>) -> Option<Seq<char>> {
    match p {
        Some((a, _)) => Some(a),
        None => None,
    }
}

/// The qualifier of a qualified column that has that name.
pub fn qualified_field_alias(e: &FilterExpr, field: &str) -> (r: Option<String>)
    ensures
        error::view_option(r) == qualifier_of(qualified_field(*e, seq![field@])),
{
    let fields = [field];
    assert(text::slice_views(fields@) =~= seq![field@]);
    match qualified_field_alias_and_name(e, &fields) {
        Some((alias, _)) => Some(alias),
        None => None,
    }
}

/// The qualified column, with one of the other names, that a term equates with
/// one of the columns.
pub open spec fn joined_field(
    e: FilterExpr,
    alias: Seq<char>,
    table: Seq<char>,
    fields: Seq<Seq<char>>,
    others: Seq<Seq<char>>,
) -> Option<(Seq<char>, Seq<char>)>
    decreases e,
{
    match e.shape {
        FilterShape::Equal(left, right) => if filters::is_column(*left, alias, table, fields) {
            qualified_field(*right, others)
        } else if filters::is_column(*right, alias, table, fields) {
            qualified_field(*left, others)
        } else {
            None
        },
        FilterShape::Nested(inner) => joined_field(*inner, alias, table, fields, others),
        _ => None,
    }
}

fn joined_alias_and_name(
    e: &FilterExpr,
    alias: &str,
    table: &str,
    fields: &[&str],
    others: &[&str],
) -> (r: Option<(String, String)>)
    ensures
        view_pair(r) == joined_field(
            *e,
            alias@,
            table@,
            text::slice_views(fields@),
            text::slice_views(others@),
        ),
    decreases e,
{
    match &e.shape {
        FilterShape::Equal(left, right) => {
            if filters::relation_oid_column_matches(&**left, alias, table, fields) {
                qualified_field_alias_and_name(&**right, others)
            } else if filters::relation_oid_column_matches(&**right, alias, table, fields) {
                qualified_field_alias_and_name(&**left, others)
            } else {
                None
            }
        },
        FilterShape::Nested(inner) => joined_alias_and_name(&**inner, alias, table, fields, others),
        _ => None,
    }
}

/// The alias whose `oid` a term equates with one of the columns.
pub fn joined_oid_alias_from_term(e: &FilterExpr, alias: &str, table: &str, fields: &[&str]) -> (r:
    Option<String>)
    ensures
        error::view_option(r) == qualifier_of(
            joined_field(*e, alias@, table@, text::slice_views(fields@), seq!["oid"@]),
        ),
{
    let others = ["oid"];
    assert(text::slice_views(others@) =~= seq!["oid"@]);
    match joined_alias_and_name(e, alias, table, fields, &others) {
        Some((qualifier, _)) => Some(qualifier),
        None => None,
    }
}

/// The column of `pg_index` that a term equates with the `oid` of `pg_class`.
pub open spec fn index_join(e: FilterExpr, alias: Seq<char>) -> Option<(Seq<char>, Seq<char>)> {
    joined_field(e, alias, "pg_class"@, seq!["oid"@], seq!["indexrelid"@, "indrelid"@])
}

/// The column of `pg_index` that a term equates with the `oid` of `pg_class`.
pub fn joined_pg_index_alias_from_pg_class_oid_term(e: &FilterExpr, class_alias: &str) -> (r:
    Option<(String, String)>)
    ensures
        view_pair(r) == index_join(*e, class_alias@),
{
    let fields = ["oid"];
    let others = ["indexrelid", "indrelid"];
    assert(text::slice_views(fields@) =~= seq!["oid"@]);
    assert(text::slice_views(others@) =~= seq!["indexrelid"@, "indrelid"@]);
    joined_alias_and_name(e, class_alias, "pg_class", &fields, &others)
}

/// The alias whose `relid` a term equates with the `oid` of `pg_class`.
pub open spec fn relid_join(e: FilterExpr, alias: Seq<char>) -> Option<Seq<char>> {
    qualifier_of(joined_field(e, alias, "pg_class"@, seq!["oid"@], seq!["relid"@]))
}

/// The alias whose `relid` a term equates with the `oid` of `pg_class`.
pub fn joined_relid_alias_from_pg_class_oid_term(e: &FilterExpr, class_alias: &str) -> (r: Option<
    String,
>)
    ensures
        error::view_option(r) == relid_join(*e, class_alias@),
{
    let fields = ["oid"];
    let others = ["relid"];
    assert(text::slice_views(fields@) =~= seq!["oid"@]);
    assert(text::slice_views(others@) =~= seq!["relid"@]);
    match joined_alias_and_name(e, class_alias, "pg_class", &fields, &others) {
        Some((qualifier, _)) => Some(qualifier),
        None => None,
    }
}

/// The number of the first table with that name, whatever the case of its
/// letters.
pub open spec fn table_oid(tables: Seq<(String, i64)>, name: Seq<char>, from: int) -> Option<i64>
    decreases tables.len() - from,
{
    if from < 0 || from >= tables.len() {
        None
    } else if text::same_ignoring_case(tables[from].0@, name) {
        Some(tables[from].1)
    } else {
        table_oid(tables, name, from + 1)
    }
}

fn find_table_oid(tables: &Vec<(String, i64)>, name: &str) -> (r: Option<i64>)
    ensures
        r == table_oid(tables@, name@, 0),
{
    let mut i: usize = 0;
    while i < tables.len()
        invariant
            i <= tables.len(),
            table_oid(tables@, name@, 0) == table_oid(tables@, name@, i as int),
        decreases tables.len() - i,
    {
        if text::eq_ignore_case(tables[i].0.as_str(), name) {
            return Some(tables[i].1);
        }
        i = i + 1;
    }
    None
}

/// The numbers of the named tables from there on, added to those found.
pub open spec fn tables_oids(
    tables: Seq<(String, i64)>,
    names: Seq<Seq<char>>,
    from: int,
    found: Seq<i64>,
) -> Seq<i64>
    decreases names.len() - from,
{
    if from < 0 || from >= names.len() {
        found
    } else {
        match table_oid(tables, names[from], 0) {
            Some(oid) => tables_oids(tables, names, from + 1, sets::added(found, oid)),
            None => tables_oids(tables, names, from + 1, found),
        }
    }
}

fn add_tables_oids(tables: &Vec<(String, i64)>, names: &Vec<String>, found: &mut Vec<i64>)
    ensures
        final(found)@ == tables_oids(tables@, text::views(names@), 0, old(found)@),
{
    let ghost all = text::views(names@);
    let ghost before = found@;
    let mut i: usize = 0;
    while i < names.len()
        invariant
            i <= names.len(),
            all == text::views(names@),
            tables_oids(tables@, all, 0, before) == tables_oids(tables@, all, i as int, found@),
        decreases names.len() - i,
    {
        assert(all[i as int] == names@[i as int]@);
        match find_table_oid(tables, names[i].as_str()) {
            Some(oid) => {
                sets::add_number(found, oid);
            },
            None => {},
        }
        i = i + 1;
    }
}

/// The numbers that the terms from there on give the columns through the name
/// of a joined `pg_class`, added to those found.
pub open spec fn joined_oids(
    terms: Seq<FilterExpr>,
    alias: Seq<char>,
    table: Seq<char>,
    fields: Seq<Seq<char>>,
    tables: Seq<(String, i64)>,
    from: int,
    found: Seq<i64>,
) -> Result<Seq<i64>, ErrorView>
    decreases terms.len() - from,
{
    if from < 0 || from >= terms.len() {
        Ok(found)
    } else {
        match qualifier_of(joined_field(terms[from], alias, table, fields, seq!["oid"@])) {
            None => joined_oids(terms, alias, table, fields, tables, from + 1, found),
            Some(class_alias) => match filters::implied_constants(
                terms,
                class_alias,
                "pg_class"@,
                seq!["relname"@],
                FilterKind::Strings,
                0,
            ) {
                Err(e) => Err(e),
                Ok(None) => joined_oids(terms, alias, table, fields, tables, from + 1, found),
                Ok(Some(names)) => joined_oids(
                    terms,
                    alias,
                    table,
                    fields,
                    tables,
                    from + 1,
                    tables_oids(tables, names, 0, found),
                ),
            },
        }
    }
}

/// A set of numbers as a filter: an empty one restricts nothing.
pub open spec fn unless_empty(found: Seq<i64>) -> Option<Seq<i64>> {
    if found.len() == 0 {
        None
    } else {
        Some(found)
    }
}

/// The numbers that a WHERE clause lets the columns have, by comparison or
/// through the name of a joined `pg_class`.
pub open spec fn implied_oids(
    terms: Seq<FilterExpr>,
    alias: Seq<char>,
    table: Seq<char>,
    fields: Seq<Seq<char>>,
    tables: Seq<(String, i64)>,
) -> Result<Option<Seq<i64>>, ErrorView> {
    match implied_oid(terms, alias, table, fields, 0) {
        Err(e) => Err(e),
        Ok(oid) => {
            let start = match oid {
                Some(oid) => seq![oid],
                None => Seq::empty(),
            };
            match joined_oids(terms, alias, table, fields, tables, 0, start) {
                Err(e) => Err(e),
                Ok(found) => Ok(unless_empty(found)),
            }
        },
    }
}

pub open spec fn view_oids(v: Option<Vec<i64>>) -> Option<Seq<i64>> {
    match v {
        Some(list) => Some(list@),
        None => None,
    }
}

pub open spec fn oids_result(
    r: Result<Option<Vec<i64>>, SqlError>,
    v: Result<Option<Seq<i64>>, ErrorView>,
) -> bool {
    match (r, v) {
        (Ok(s), Ok(t)) => view_oids(s) == t,
        (Err(e), Err(view)) => e@ == view,
        _ => false,
    }
}

/// The numbers that a WHERE clause lets the columns have, by comparison or
/// through the name of a joined `pg_class`. `tables` are the tables of the
/// database with their numbers.
pub fn relation_oid_filters_from_selection_and_pg_class_join(
    terms: &Vec<FilterExpr>,
    alias: &str,
    table: &str,
    fields: &[&str],
    tables: &Vec<(String, i64)>,
) -> (r: Result<Option<Vec<i64>>, SqlError>)
    ensures
        oids_result(
            r,
            implied_oids(terms@, alias@, table@, text::slice_views(fields@), tables@),
        ),
{
    let ghost names = text::slice_views(fields@);
    let mut found: Vec<i64> = Vec::new();
    match relation_oid_filter_from_selection(terms, alias, table, fields) {
        Err(e) => {
            return Err(e);
        },
        Ok(Some(oid)) => {
            found.push(oid);
            assert(found@ =~= seq![oid]);
        },
        Ok(None) => {
            assert(found@ =~= Seq::empty());
        },
    }
    let ghost start = found@;
    let relname = ["relname"];
    assert(text::slice_views(relname@) =~= seq!["relname"@]);
    let mut i: usize = 0;
    while i < terms.len()
        invariant
            i <= terms.len(),
            names == text::slice_views(fields@),
            text::slice_views(relname@) == seq!["relname"@],
            implied_oid(terms@, alias@, table@, names, 0) is Ok,
            start == (match implied_oid(terms@, alias@, table@, names, 0)->Ok_0 {
                Some(oid) => seq![oid],
                None => Seq::empty(),
            }),
            joined_oids(terms@, alias@, table@, names, tables@, 0, start) == joined_oids(
                terms@,
                alias@,
                table@,
                names,
                tables@,
                i as int,
                found@,
            ),
        decreases terms.len() - i,
    {
        match joined_oid_alias_from_term(&terms[i], alias, table, fields) {
            None => {},
            Some(class_alias) => {
                match filters::string_filter_values_from_selection(
                    terms,
                    class_alias.as_str(),
                    "pg_class",
                    &relname,
                ) {
                    Err(e) => {
                        return Err(e);
                    },
                    Ok(None) => {},
                    Ok(Some(relnames)) => {
                        add_tables_oids(tables, &relnames, &mut found);
                    },
                }
            },
        }
        i = i + 1;
    }
    if found.len() == 0 {
        Ok(None)
    } else {
        Ok(Some(found))
    }
}

/// Narrows a filter: it lets through what both let through.
pub fn merge_oid_filter(existing: &mut Option<Vec<i64>>, inferred: Vec<i64>)
    ensures
        view_oids(*final(existing)) == filters::both(
            view_oids(*old(existing)),
            Some(inferred@),
        ),
{
    let prior = existing.take();
    let merged = match prior {
        Some(list) => sets::common_numbers(&list, &inferred),
        None => inferred,
    };
    *existing = Some(merged);
}

/// A read of `pg_index` that a join with it asks for: the column that is
/// equated, and what restricts the rows.
#[derive(Debug)]
pub struct IndexJoin {
    pub field: String,
    pub primary: Option<bool>,
    pub indrelids: Option<Vec<i64>>,
    pub indexrelids: Option<Vec<i64>>,
}

#[verifier::ext_equal]
pub struct IndexJoinView {
    pub field: Seq<char>,
    pub primary: Option<bool>,
    pub indrelids: Option<Seq<i64>>,
    pub indexrelids: Option<Seq<i64>>,
}

impl View for IndexJoin {
    type V = IndexJoinView;

    open spec fn view(&self) -> IndexJoinView {
        IndexJoinView {
            field: self.field@,
            primary: self.primary,
            indrelids: view_oids(self.indrelids),
            indexrelids: view_oids(self.indexrelids),
        }
    }
}

pub open spec fn join_views(v: Seq<IndexJoin>) -> Seq<IndexJoinView> {
    v.map_values(|j: IndexJoin| j@)
}

/// The read that a term asks for, where it joins `pg_class` with a restricted
/// `pg_index`.
pub open spec fn index_join_of(
    terms: Seq<FilterExpr>,
    term: FilterExpr,
    alias: Seq<char>,
    tables: Seq<(String, i64)>,
) -> Result<Option<IndexJoinView>, ErrorView> {
    match index_join(term, alias) {
        None => Ok(None),
        Some((index_alias, field)) => {
            let primary = filters::implied_flag(
                terms,
                index_alias,
                "pg_index"@,
                "indisprimary"@,
                0,
            );
            match (
                implied_oids(terms, index_alias, "pg_index"@, seq!["indrelid"@], tables),
                implied_oids(terms, index_alias, "pg_index"@, seq!["indexrelid"@], tables),
            ) {
                (Err(e), _) => Err(e),
                (Ok(_), Err(e)) => Err(e),
                (Ok(indrelids), Ok(indexrelids)) => if primary is None && indrelids is None
                    && indexrelids is None {
                    Ok(None)
                } else {
                    Ok(Some(IndexJoinView { field, primary, indrelids, indexrelids }))
                },
            }
        },
    }
}

/// The reads that the terms from there on ask for, added to those found.
pub open spec fn index_joins(
    terms: Seq<FilterExpr>,
    alias: Seq<char>,
    tables: Seq<(String, i64)>,
    from: int,
    found: Seq<IndexJoinView>,
) -> Result<Seq<IndexJoinView>, ErrorView>
    decreases terms.len() - from,
{
    if from < 0 || from >= terms.len() {
        Ok(found)
    } else {
        match index_join_of(terms, terms[from], alias, tables) {
            Err(e) => Err(e),
            Ok(None) => index_joins(terms, alias, tables, from + 1, found),
            Ok(Some(join)) => index_joins(terms, alias, tables, from + 1, found.push(join)),
        }
    }
}

fn index_join_from_term(
    terms: &Vec<FilterExpr>,
    term: &FilterExpr,
    alias: &str,
    tables: &Vec<(String, i64)>,
) -> (r: Result<Option<IndexJoin>, SqlError>)
    ensures
        match (r, index_join_of(terms@, *term, alias@, tables@)) {
            (Ok(Some(join)), Ok(Some(view))) => join@ == view,
            (Ok(None), Ok(None)) => true,
            (Err(e), Err(view)) => e@ == view,
            _ => false,
        },
{
    match joined_pg_index_alias_from_pg_class_oid_term(term, alias) {
        None => Ok(None),
        Some((index_alias, field)) => {
            let primary = filters::boolean_filter_from_selection(
                terms,
                index_alias.as_str(),
                "pg_index",
                "indisprimary",
            );
            let indrelid = ["indrelid"];
            let indexrelid = ["indexrelid"];
            assert(text::slice_views(indrelid@) =~= seq!["indrelid"@]);
            assert(text::slice_views(indexrelid@) =~= seq!["indexrelid"@]);
            let indrelids = match relation_oid_filters_from_selection_and_pg_class_join(
                terms,
                index_alias.as_str(),
                "pg_index",
                &indrelid,
                tables,
            ) {
                Err(e) => {
                    return Err(e);
                },
                Ok(oids) => oids,
            };
            let indexrelids = match relation_oid_filters_from_selection_and_pg_class_join(
                terms,
                index_alias.as_str(),
                "pg_index",
                &indexrelid,
                tables,
            ) {
                Err(e) => {
                    return Err(e);
                },
                Ok(oids) => oids,
            };
            if primary.is_none() && indrelids.is_none() && indexrelids.is_none() {
                Ok(None)
            } else {
                Ok(Some(IndexJoin { field, primary, indrelids, indexrelids }))
            }
        },
    }
}

/// The reads of `pg_index` that a WHERE clause on `pg_class` asks for, before
/// the rows of `pg_class` can be narrowed.
pub fn pg_index_joins(terms: &Vec<FilterExpr>, alias: &str, tables: &Vec<(String, i64)>) -> (r:
    Result<Vec<IndexJoin>, SqlError>)
    ensures
        match (r, index_joins(terms@, alias@, tables@, 0, Seq::empty())) {
            (Ok(joins), Ok(views)) => join_views(joins@) == views,
            (Err(e), Err(view)) => e@ == view,
            _ => false,
        },
{
    let mut found: Vec<IndexJoin> = Vec::new();
    let mut i: usize = 0;
    assert(join_views(found@) =~= Seq::<IndexJoinView>::empty());
    while i < terms.len()
        invariant
            i <= terms.len(),
            index_joins(terms@, alias@, tables@, 0, Seq::empty()) == index_joins(
                terms@,
                alias@,
                tables@,
                i as int,
                join_views(found@),
            ),
        decreases terms.len() - i,
    {
        match index_join_from_term(terms, &terms[i], alias, tables) {
            Err(e) => {
                return Err(e);
            },
            Ok(None) => {},
            Ok(Some(join)) => {
                let ghost prior = found@;
                let ghost shown = join@;
                found.push(join);
                assert(join_views(found@) =~= join_views(prior).push(shown));
            },
        }
        i = i + 1;
    }
    Ok(found)
}

pub open spec fn answer_views(v: Seq<Vec<i64>>) -> Seq<Seq<i64>> {
    v.map_values(|a: Vec<i64>| a@)
}

/// The filter that the answers from there on, together with the filter so far,
/// amount to. An empty answer restricts nothing.
pub open spec fn merged_answers(answers: Seq<Seq<i64>>, from: int, found: Option<Seq<i64>>) -> Option<
    Seq<i64>,
>
    decreases answers.len() - from,
{
    if from < 0 || from >= answers.len() {
        found
    } else {
        merged_answers(
            answers,
            from + 1,
            if answers[from].len() == 0 {
                found
            } else {
                filters::both(found, Some(answers[from]))
            },
        )
    }
}

/// The numbers that reads of `pg_index` let `pg_class` have. Each answer holds
/// the numbers that the equated column has in the rows that were read.
pub fn pg_class_oid_filters_from_pg_index_join(answers: Vec<Vec<i64>>) -> (r: Option<Vec<i64>>)
    ensures
        view_oids(r) == merged_answers(answer_views(answers@), 0, None),
{
    let ghost all = answer_views(answers@);
    let mut answers = answers;
    let mut found: Option<Vec<i64>> = None;
    let ghost mut i: int = 0;
    while answers.len() > 0
        invariant
            0 <= i <= all.len(),
            answer_views(answers@) == all.skip(i),
            merged_answers(all, 0, None) == merged_answers(all, i, view_oids(found)),
        decreases answers.len(),
    {
        let ghost before = answers@;
        let answer = answers.remove(0);
        proof {
            assert(all.skip(i).len() == before.len());
            assert(all.skip(i)[0] == answer_views(before)[0]);
            assert(all[i] == answer@);
            assert forall|k: int| 0 <= k < answers@.len() implies answer_views(answers@)[k]
                == all.skip(i + 1)[k] by {
                assert(answers@[k] == before[k + 1]);
                assert(answer_views(before)[k + 1] == all.skip(i)[k + 1]);
            }
            assert(answer_views(answers@) =~= all.skip(i + 1));
        }
        if answer.len() > 0 {
            merge_oid_filter(&mut found, answer);
        }
        proof {
            i = i + 1;
        }
    }
    assert(all.skip(i).len() == 0);
    found
}

/// The numbers that the terms from there on, together with the filter so far,
/// let `pg_class` have through a joined `relid`.
pub open spec fn relid_oids(
    terms: Seq<FilterExpr>,
    alias: Seq<char>,
    tables: Seq<(String, i64)>,
    from: int,
    found: Option<Seq<i64>>,
) -> Result<Option<Seq<i64>>, ErrorView>
    decreases terms.len() - from,
{
    if from < 0 || from >= terms.len() {
        Ok(found)
    } else {
        match relid_join(terms[from], alias) {
            None => relid_oids(terms, alias, tables, from + 1, found),
            Some(relid_alias) => match implied_oids(
                terms,
                relid_alias,
                relid_alias,
                seq!["relid"@],
                tables,
            ) {
                Err(e) => Err(e),
                Ok(None) => relid_oids(terms, alias, tables, from + 1, found),
                Ok(Some(oids)) => relid_oids(
                    terms,
                    alias,
                    tables,
                    from + 1,
                    filters::both(found, Some(oids)),
                ),
            },
        }
    }
}

/// The numbers that a WHERE clause lets `pg_class` have through a joined
/// `relid`.
pub fn pg_class_oid_filters_from_joined_relid_filter(
    terms: &Vec<FilterExpr>,
    alias: &str,
    tables: &Vec<(String, i64)>,
) -> (r: Result<Option<Vec<i64>>, SqlError>)
    ensures
        oids_result(r, relid_oids(terms@, alias@, tables@, 0, None)),
{
    let relid = ["relid"];
    assert(text::slice_views(relid@) =~= seq!["relid"@]);
    let mut found: Option<Vec<i64>> = None;
    let mut i: usize = 0;
    while i < terms.len()
        invariant
            i <= terms.len(),
            text::slice_views(relid@) == seq!["relid"@],
            relid_oids(terms@, alias@, tables@, 0, None) == relid_oids(
                terms@,
                alias@,
                tables@,
                i as int,
                view_oids(found),
            ),
        decreases terms.len() - i,
    {
        match joined_relid_alias_from_pg_class_oid_term(&terms[i], alias) {
            None => {},
            Some(relid_alias) => {
                match relation_oid_filters_from_selection_and_pg_class_join(
                    terms,
                    relid_alias.as_str(),
                    relid_alias.as_str(),
                    &relid,
                    tables,
                ) {
                    Err(e) => {
                        return Err(e);
                    },
                    Ok(None) => {},
                    Ok(Some(oids)) => {
                        merge_oid_filter(&mut found, oids);
                    },
                }
            },
        }
        i = i + 1;
    }
    Ok(found)
}

} // verus!
