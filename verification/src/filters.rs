//! Filters on catalog tables that the terms of a WHERE clause imply: which
//! names, numbers and flags a column may have.
//!
//! A WHERE clause is given as the list of the terms that AND joins. The engine
//! evaluates constants; this module decides what follows from them.
use vstd::prelude::*;
use crate::error;
use crate::error::{ErrorView, SqlError, SqlErrorKind};
use crate::sets;
use crate::text;

verus! {

/// What the filters read of a constant: the text where it is a string, the
/// texts of its elements where it is an array, the column list that it denotes,
/// and its truth.
#[derive(Debug)]
pub struct Constant {
    pub text: Option<String>,
    pub elements: Option<Vec<Option<String>>>,
    pub column_list: Option<String>,
    pub truth: Option<bool>,
}

/// A call in the place of a relation's number: its name, as it is called and as
/// it is written, how many arguments it has, and the number of the relation
/// that its only argument names.
#[derive(Debug)]
pub struct OidCall {
    pub name: String,
    pub written: String,
    pub arguments: usize,
    pub resolved: Result<Option<i64>, SqlError>,
}

/// How an expression gives the number of a relation.
#[derive(Debug)]
pub enum OidSource {
    Call(OidCall),
    Value(Result<Option<i64>, SqlError>),
}

#[derive(Debug)]
pub enum FilterShape {
    /// A column name, in its parts.
    Column(Vec<String>),
    Nested(Box<FilterExpr>),
    Equal(Box<FilterExpr>, Box<FilterExpr>),
    RegexMatch(Box<FilterExpr>, Box<FilterExpr>),
    InList(Box<FilterExpr>, Vec<FilterExpr>, bool),
    EqualAny(Box<FilterExpr>, Box<FilterExpr>),
    Other,
}

/// An expression of a WHERE clause, with the constant that it evaluates to and
/// the relation number that it gives.
#[derive(Debug)]
pub struct FilterExpr {
    pub shape: FilterShape,
    pub constant: Result<Constant, SqlError>,
    pub oid: OidSource,
}

/// One of the names is that one, whatever the case of its letters.
pub open spec fn is_named(name: Seq<char>, names: Seq<Seq<char>>) -> bool {
    exists|i: int| 0 <= i < names.len() && text::same_ignoring_case(name, #[trigger] names[i])
}

/// Whether one of the names is that one, whatever the case of its letters.
pub fn named(name: &str, names: &[&str]) -> (r: bool)
    ensures
        r == is_named(name@, text::slice_views(names@)),
{
    let ghost all = text::slice_views(names@);
    let mut i: usize = 0;
    while i < names.len()
        invariant
            i <= names.len(),
            all == text::slice_views(names@),
            forall|k: int| 0 <= k < i ==> !text::same_ignoring_case(name@, #[trigger] all[k]),
        decreases names.len() - i,
    {
        assert(all[i as int] == names@[i as int]@);
        if text::eq_ignore_case(name, names[i]) {
            return true;
        }
        i = i + 1;
    }
    false
}

/// The expression is one of the columns of a table, either unqualified or
/// qualified with the table's alias or name.
pub open spec fn is_column(
    e: FilterExpr,
    alias: Seq<char>,
    table: Seq<char>,
    fields: Seq<Seq<char>>,
) -> bool
    decreases e,
{
    match e.shape {
        FilterShape::Column(parts) => {
            let n = parts@.len() as int;
            &&& n > 0
            &&& is_named(parts@[n - 1]@, fields)
            &&& n == 1 || text::same_ignoring_case(parts@[n - 2]@, alias)
                || text::same_ignoring_case(parts@[n - 2]@, table)
        },
        FilterShape::Nested(inner) => is_column(*inner, alias, table, fields),
        _ => false,
    }
}

/// Whether an expression is one of the columns of a table.
pub fn relation_oid_column_matches(e: &FilterExpr, alias: &str, table: &str, fields: &[&str]) -> (r:
    bool)
    ensures
        r == is_column(*e, alias@, table@, text::slice_views(fields@)),
    decreases e,
{
    match &e.shape {
        FilterShape::Column(parts) => {
            let n = parts.len();
            if n == 0 || !named(parts[n - 1].as_str(), fields) {
                return false;
            }
            if n == 1 {
                return true;
            }
            text::eq_ignore_case(parts[n - 2].as_str(), alias) || text::eq_ignore_case(
                parts[n - 2].as_str(),
                table,
            )
        },
        FilterShape::Nested(inner) => relation_oid_column_matches(&**inner, alias, table, fields),
        _ => false,
    }
}

/// The string that an expression evaluates to. What cannot be evaluated as a
/// constant is none.
pub open spec fn string_constant(e: FilterExpr) -> Result<Option<Seq<char>>, ErrorView> {
    match e.constant {
        Ok(c) => Ok(error::view_option(c.text)),
        Err(err) => if err.kind == SqlErrorKind::Unsupported {
            Ok(None)
        } else {
            Err(err@)
        },
    }
}

/// A result that holds an optional text, and the outcome that it has to be.
pub open spec fn text_result(
    r: Result<Option<String>, SqlError>,
    v: Result<Option<Seq<char>>, ErrorView>,
) -> bool {
    match (r, v) {
        (Ok(s), Ok(t)) => error::view_option(s) == t,
        (Err(e), Err(view)) => e@ == view,
        _ => false,
    }
}

/// The string that an expression evaluates to.
pub fn constant_string_value(e: &FilterExpr) -> (r: Result<Option<String>, SqlError>)
    ensures
        text_result(r, string_constant(*e)),
{
    match &e.constant {
        Ok(c) => match &c.text {
            Some(t) => Ok(Some(t.clone())),
            None => Ok(None),
        },
        Err(err) => if err.kind == SqlErrorKind::Unsupported {
            Ok(None)
        } else {
            Err(err.copied())
        },
    }
}

/// The column list that an expression evaluates to.
pub open spec fn column_list_constant(e: FilterExpr) -> Result<Option<Seq<char>>, ErrorView> {
    match e.constant {
        Ok(c) => Ok(error::view_option(c.column_list)),
        Err(err) => if err.kind == SqlErrorKind::Unsupported {
            Ok(None)
        } else {
            Err(err@)
        },
    }
}

/// The column list that an expression evaluates to.
pub fn constant_column_list_value(e: &FilterExpr) -> (r: Result<Option<String>, SqlError>)
    ensures
        text_result(r, column_list_constant(*e)),
{
    match &e.constant {
        Ok(c) => match &c.column_list {
            Some(t) => Ok(Some(t.clone())),
            None => Ok(None),
        },
        Err(err) => if err.kind == SqlErrorKind::Unsupported {
            Ok(None)
        } else {
            Err(err.copied())
        },
    }
}

/// The texts from there on, added to those found, where each is one.
pub open spec fn all_texts(
    elements: Seq<Option<String>>,
    from: int,
    found: Seq<Seq<char>>,
) -> Option<Seq<Seq<char>>>
    decreases elements.len() - from,
{
    if from < 0 || from >= elements.len() {
        Some(found)
    } else {
        match elements[from] {
            Some(t) => all_texts(elements, from + 1, sets::added(found, t@)),
            None => None,
        }
    }
}

/// The set of strings that an expression evaluates to as an array.
pub open spec fn string_array_constant(e: FilterExpr) -> Result<
    Option<Seq<Seq<char>>>,
    ErrorView,
> {
    match e.constant {
        Ok(c) => match c.elements {
            Some(elements) => Ok(all_texts(elements@, 0, Seq::empty())),
            None => Ok(None),
        },
        Err(err) => if err.kind == SqlErrorKind::Unsupported {
            Ok(None)
        } else {
            Err(err@)
        },
    }
}

pub open spec fn views_option(v: Option<Vec<String>>) -> Option<Seq<Seq<char>>> {
    match v {
        Some(list) => Some(text::views(list@)),
        None => None,
    }
}

/// A result that holds an optional set of texts, and the outcome that it has to
/// be.
pub open spec fn texts_result(
    r: Result<Option<Vec<String>>, SqlError>,
    v: Result<Option<Seq<Seq<char>>>, ErrorView>,
) -> bool {
    match (r, v) {
        (Ok(s), Ok(t)) => views_option(s) == t,
        (Err(e), Err(view)) => e@ == view,
        _ => false,
    }
}

fn text_list(elements: &Vec<Option<String>>) -> (r: Option<Vec<String>>)
    ensures
        views_option(r) == all_texts(elements@, 0, Seq::empty()),
{
    let mut found: Vec<String> = Vec::new();
    let mut i: usize = 0;
    assert(text::views(found@) =~= Seq::<Seq<char>>::empty());
    while i < elements.len()
        invariant
            i <= elements.len(),
            all_texts(elements@, 0, Seq::empty()) == all_texts(
                elements@,
                i as int,
                text::views(found@),
            ),
        decreases elements.len() - i,
    {
        match &elements[i] {
            Some(t) => {
                sets::add_text(&mut found, t.clone());
            },
            None => {
                return None;
            },
        }
        i = i + 1;
    }
    Some(found)
}

/// The set of strings that an expression evaluates to as an array.
pub fn constant_string_array_values(e: &FilterExpr) -> (r: Result<Option<Vec<String>>, SqlError>)
    ensures
        texts_result(r, string_array_constant(*e)),
{
    match &e.constant {
        Ok(c) => match &c.elements {
            Some(elements) => Ok(text_list(elements)),
            None => Ok(None),
        },
        Err(err) => if err.kind == SqlErrorKind::Unsupported {
            Ok(None)
        } else {
            Err(err.copied())
        },
    }
}

/// Which constants a filter takes.
#[derive(Clone, Copy, Debug, PartialEq, Eq, Structural)]
pub enum FilterKind {
    Strings,
    ColumnLists,
}

pub open spec fn filter_constant(e: FilterExpr, kind: FilterKind) -> Result<
    Option<Seq<char>>,
    ErrorView,
> {
    match kind {
        FilterKind::Strings => string_constant(e),
        FilterKind::ColumnLists => column_list_constant(e),
    }
}

fn constant_value(e: &FilterExpr, kind: FilterKind) -> (r: Result<Option<String>, SqlError>)
    ensures
        text_result(r, filter_constant(*e, kind)),
{
    match kind {
        FilterKind::Strings => constant_string_value(e),
        FilterKind::ColumnLists => constant_column_list_value(e),
    }
}

/// The constants from there on, added to those found, where each is one.
pub open spec fn listed_constants(
    list: Seq<FilterExpr>,
    kind: FilterKind,
    from: int,
    found: Seq<Seq<char>>,
) -> Result<Option<Seq<Seq<char>>>, ErrorView>
    decreases list.len() - from,
{
    if from < 0 || from >= list.len() {
        Ok(Some(found))
    } else {
        match filter_constant(list[from], kind) {
            Err(e) => Err(e),
            Ok(None) => Ok(None),
            Ok(Some(t)) => listed_constants(list, kind, from + 1, sets::added(found, t)),
        }
    }
}

fn constant_list(list: &Vec<FilterExpr>, kind: FilterKind) -> (r: Result<
    Option<Vec<String>>,
    SqlError,
>)
    ensures
        texts_result(r, listed_constants(list@, kind, 0, Seq::empty())),
{
    let mut found: Vec<String> = Vec::new();
    let mut i: usize = 0;
    assert(text::views(found@) =~= Seq::<Seq<char>>::empty());
    while i < list.len()
        invariant
            i <= list.len(),
            listed_constants(list@, kind, 0, Seq::empty()) == listed_constants(
                list@,
                kind,
                i as int,
                text::views(found@),
            ),
        decreases list.len() - i,
    {
        match constant_value(&list[i], kind) {
            Err(e) => {
                return Err(e);
            },
            Ok(None) => {
                return Ok(None);
            },
            Ok(Some(t)) => {
                sets::add_text(&mut found, t);
            },
        }
        i = i + 1;
    }
    Ok(Some(found))
}

/// A result that holds at most one text, as a set.
pub open spec fn singleton(v: Result<Option<Seq<char>>, ErrorView>) -> Result<
    Option<Seq<Seq<char>>>,
    ErrorView,
> {
    match v {
        Ok(Some(t)) => Ok(Some(seq![t])),
        Ok(None) => Ok(None),
        Err(e) => Err(e),
    }
}

fn as_set(r: Result<Option<String>, SqlError>) -> (s: Result<Option<Vec<String>>, SqlError>)
    ensures
        forall|v: Result<Option<Seq<char>>, ErrorView>| #[trigger]
            text_result(r, v) ==> texts_result(s, singleton(v)),
{
    match r {
        Ok(Some(t)) => {
            let ghost shown = t@;
            let mut list: Vec<String> = Vec::new();
            list.push(t);
            assert(text::views(list@) =~= seq![shown]);
            Ok(Some(list))
        },
        Ok(None) => Ok(None),
        Err(e) => Err(e),
    }
}

/// The constants that a term lets the columns have.
pub open spec fn term_constants(
    e: FilterExpr,
    alias: Seq<char>,
    table: Seq<char>,
    fields: Seq<Seq<char>>,
    kind: FilterKind,
) -> Result<Option<Seq<Seq<char>>>, ErrorView>
    decreases e,
{
    match e.shape {
        FilterShape::Equal(left, right) => if is_column(*left, alias, table, fields) {
            singleton(filter_constant(*right, kind))
        } else if is_column(*right, alias, table, fields) {
            singleton(filter_constant(*left, kind))
        } else {
            Ok(None)
        },
        FilterShape::InList(item, list, negated) => if !negated && is_column(
            *item,
            alias,
            table,
            fields,
        ) {
            listed_constants(list@, kind, 0, Seq::empty())
        } else {
            Ok(None)
        },
        FilterShape::EqualAny(left, right) => if kind == FilterKind::Strings && is_column(
            *left,
            alias,
            table,
            fields,
        ) {
            string_array_constant(*right)
        } else {
            Ok(None)
        },
        FilterShape::Nested(inner) => term_constants(*inner, alias, table, fields, kind),
        _ => Ok(None),
    }
}

fn filter_values_from_term(
    e: &FilterExpr,
    alias: &str,
    table: &str,
    fields: &[&str],
    kind: FilterKind,
) -> (r: Result<Option<Vec<String>>, SqlError>)
    ensures
        texts_result(r, term_constants(*e, alias@, table@, text::slice_views(fields@), kind)),
    decreases e,
{
    match &e.shape {
        FilterShape::Equal(left, right) => {
            if relation_oid_column_matches(&**left, alias, table, fields) {
                let value = constant_value(&**right, kind);
                assert(text_result(value, filter_constant(**right, kind)));
                as_set(value)
            } else if relation_oid_column_matches(&**right, alias, table, fields) {
                let value = constant_value(&**left, kind);
                assert(text_result(value, filter_constant(**left, kind)));
                as_set(value)
            } else {
                Ok(None)
            }
        },
        FilterShape::InList(item, list, negated) => {
            if !*negated && relation_oid_column_matches(&**item, alias, table, fields) {
                constant_list(list, kind)
            } else {
                Ok(None)
            }
        },
        FilterShape::EqualAny(left, right) => {
            if kind == FilterKind::Strings && relation_oid_column_matches(
                &**left,
                alias,
                table,
                fields,
            ) {
                constant_string_array_values(&**right)
            } else {
                Ok(None)
            }
        },
        FilterShape::Nested(inner) => filter_values_from_term(
            &**inner,
            alias,
            table,
            fields,
            kind,
        ),
        _ => Ok(None),
    }
}

/// The strings that a term lets the columns have.
pub fn string_filter_values_from_term(
    e: &FilterExpr,
    alias: &str,
    table: &str,
    fields: &[&str],
) -> (r: Result<Option<Vec<String>>, SqlError>)
    ensures
        texts_result(
            r,
            term_constants(
                *e,
                alias@,
                table@,
                text::slice_views(fields@),
                FilterKind::Strings,
            ),
        ),
{
    filter_values_from_term(e, alias, table, fields, FilterKind::Strings)
}

/// The column lists that a term lets the columns have.
pub fn column_list_filter_values_from_term(
    e: &FilterExpr,
    alias: &str,
    table: &str,
    fields: &[&str],
) -> (r: Result<Option<Vec<String>>, SqlError>)
    ensures
        texts_result(
            r,
            term_constants(
                *e,
                alias@,
                table@,
                text::slice_views(fields@),
                FilterKind::ColumnLists,
            ),
        ),
{
    filter_values_from_term(e, alias, table, fields, FilterKind::ColumnLists)
}

/// The constants that the first of the terms from there on that restricts the
/// columns lets them have.
pub open spec fn implied_constants(
    terms: Seq<FilterExpr>,
    alias: Seq<char>,
    table: Seq<char>,
    fields: Seq<Seq<char>>,
    kind: FilterKind,
    from: int,
) -> Result<Option<Seq<Seq<char>>>, ErrorView>
    decreases terms.len() - from,
{
    if from < 0 || from >= terms.len() {
        Ok(None)
    } else {
        match term_constants(terms[from], alias, table, fields, kind) {
            Err(e) => Err(e),
            Ok(Some(found)) => Ok(Some(found)),
            Ok(None) => implied_constants(terms, alias, table, fields, kind, from + 1),
        }
    }
}

fn filter_values_from_selection(
    terms: &Vec<FilterExpr>,
    alias: &str,
    table: &str,
    fields: &[&str],
    kind: FilterKind,
) -> (r: Result<Option<Vec<String>>, SqlError>)
    ensures
        texts_result(
            r,
            implied_constants(terms@, alias@, table@, text::slice_views(fields@), kind, 0),
        ),
{
    let ghost names = text::slice_views(fields@);
    let mut i: usize = 0;
    while i < terms.len()
        invariant
            i <= terms.len(),
            names == text::slice_views(fields@),
            implied_constants(terms@, alias@, table@, names, kind, 0) == implied_constants(
                terms@,
                alias@,
                table@,
                names,
                kind,
                i as int,
            ),
        decreases terms.len() - i,
    {
        match filter_values_from_term(&terms[i], alias, table, fields, kind) {
            Err(e) => {
                return Err(e);
            },
            Ok(Some(found)) => {
                return Ok(Some(found));
            },
            Ok(None) => {},
        }
        i = i + 1;
    }
    Ok(None)
}

/// The strings that a WHERE clause lets the columns have.
pub fn string_filter_values_from_selection(
    terms: &Vec<FilterExpr>,
    alias: &str,
    table: &str,
    fields: &[&str],
) -> (r: Result<Option<Vec<String>>, SqlError>)
    ensures
        texts_result(
            r,
            implied_constants(
                terms@,
                alias@,
                table@,
                text::slice_views(fields@),
                FilterKind::Strings,
                0,
            ),
        ),
{
    filter_values_from_selection(terms, alias, table, fields, FilterKind::Strings)
}

/// The column lists that a WHERE clause lets the columns have.
pub fn column_list_filter_values_from_selection(
    terms: &Vec<FilterExpr>,
    alias: &str,
    table: &str,
    fields: &[&str],
) -> (r: Result<Option<Vec<String>>, SqlError>)
    ensures
        texts_result(
            r,
            implied_constants(
                terms@,
                alias@,
                table@,
                text::slice_views(fields@),
                FilterKind::ColumnLists,
                0,
            ),
        ),
{
    filter_values_from_selection(terms, alias, table, fields, FilterKind::ColumnLists)
}

/// Letters, digits and underscores only, and at least one of them.
pub open spec fn is_plain_name(s: Seq<char>) -> bool {
    s.len() > 0 && forall|i: int| 0 <= i < s.len() ==> text::is_word(#[trigger] s[i])
}

/// A text without the parentheses round it.
pub open spec fn without_parens(s: Seq<char>) -> Seq<char> {
    if s.len() >= 2 && s[0] == '(' && s.last() == ')' {
        s.subrange(1, s.len() - 1)
    } else {
        s
    }
}

/// The texts that an anchored alternation of plain names matches.
pub open spec fn anchored_names(pattern: Seq<char>) -> Option<Seq<Seq<char>>> {
    if pattern.len() < 2 || pattern[0] != '^' || pattern.last() != '$' {
        None
    } else {
        let names = text::pieces(
            without_parens(pattern.subrange(1, pattern.len() - 1)),
            '|',
        );
        if forall|i: int| 0 <= i < names.len() ==> is_plain_name(#[trigger] names[i]) {
            Some(sets::distinct(names))
        } else {
            None
        }
    }
}

fn plain_name(s: &str) -> (r: bool)
    ensures
        r == is_plain_name(s@),
{
    let chars = text::chars_of(s);
    if chars.len() == 0 {
        return false;
    }
    let mut i: usize = 0;
    while i < chars.len()
        invariant
            i <= chars.len(),
            chars@ == s@,
            forall|k: int| 0 <= k < i ==> text::is_word(#[trigger] s@[k]),
        decreases chars.len() - i,
    {
        if !text::word(chars[i]) {
            return false;
        }
        i = i + 1;
    }
    true
}

/// The texts that an anchored alternation of plain names matches.
pub fn exact_values_from_anchored_regex(pattern: &str) -> (r: Option<Vec<String>>)
    ensures
        views_option(r) == anchored_names(pattern@),
{
    let chars = text::chars_of(pattern);
    let n = chars.len();
    if n < 2 || chars[0] != '^' || chars[n - 1] != '$' {
        return None;
    }
    let ghost body = pattern@.subrange(1, n - 1);
    let names = if n >= 4 && chars[1] == '(' && chars[n - 2] == ')' {
        let inner = text::string_range(chars.as_slice(), 2, n - 2);
        assert(inner@ =~= without_parens(body));
        text::split_on(inner.as_str(), '|')
    } else {
        let inner = text::string_range(chars.as_slice(), 1, n - 1);
        assert(inner@ =~= without_parens(body));
        text::split_on(inner.as_str(), '|')
    };
    let ghost all = text::views(names@);
    let mut found: Vec<String> = Vec::new();
    let mut i: usize = 0;
    assert(all.take(0) =~= Seq::<Seq<char>>::empty());
    assert(text::views(found@) =~= sets::distinct(all.take(0)));
    while i < names.len()
        invariant
            i <= names.len(),
            all == text::views(names@),
            pattern@.len() >= 2,
            pattern@[0] == '^',
            pattern@.last() == '$',
            all == text::pieces(
                without_parens(pattern@.subrange(1, pattern@.len() - 1)),
                '|',
            ),
            forall|k: int| 0 <= k < i ==> is_plain_name(#[trigger] all[k]),
            text::views(found@) == sets::distinct(all.take(i as int)),
        decreases names.len() - i,
    {
        assert(all[i as int] == names@[i as int]@);
        if !plain_name(names[i].as_str()) {
            return None;
        }
        assert(all.take(i as int + 1).drop_last() =~= all.take(i as int));
        assert(all.take(i as int + 1).last() == all[i as int]);
        sets::add_text(&mut found, names[i].clone());
        i = i + 1;
    }
    assert(all.take(all.len() as int) =~= all);
    Some(found)
}

/// The names that a term lets the columns have by an anchored pattern.
pub open spec fn term_patterns(
    e: FilterExpr,
    alias: Seq<char>,
    table: Seq<char>,
    fields: Seq<Seq<char>>,
) -> Result<Option<Seq<Seq<char>>>, ErrorView>
    decreases e,
{
    match e.shape {
        FilterShape::RegexMatch(left, right) => if is_column(*left, alias, table, fields) {
            match string_constant(*right) {
                Err(err) => Err(err),
                Ok(None) => Ok(None),
                Ok(Some(pattern)) => Ok(anchored_names(pattern)),
            }
        } else {
            Ok(None)
        },
        FilterShape::Nested(inner) => term_patterns(*inner, alias, table, fields),
        _ => Ok(None),
    }
}

/// The names that a term lets the columns have by an anchored pattern.
pub fn regex_exact_values_from_term(e: &FilterExpr, alias: &str, table: &str, fields: &[&str]) -> (r:
    Result<Option<Vec<String>>, SqlError>)
    ensures
        texts_result(r, term_patterns(*e, alias@, table@, text::slice_views(fields@))),
    decreases e,
{
    match &e.shape {
        FilterShape::RegexMatch(left, right) => {
            if relation_oid_column_matches(&**left, alias, table, fields) {
                match constant_string_value(&**right) {
                    Err(err) => Err(err),
                    Ok(None) => Ok(None),
                    Ok(Some(pattern)) => Ok(exact_values_from_anchored_regex(pattern.as_str())),
                }
            } else {
                Ok(None)
            }
        },
        FilterShape::Nested(inner) => regex_exact_values_from_term(&**inner, alias, table, fields),
        _ => Ok(None),
    }
}

/// What two filters let through together. A filter that is none lets everything
/// through.
pub open spec fn both<T>(a: Option<Seq<T>>, b: Option<Seq<T>>) -> Option<Seq<T>> {
    match (a, b) {
        (Some(x), Some(y)) => Some(sets::common(x, y)),
        (Some(x), None) => Some(x),
        (None, Some(y)) => Some(y),
        (None, None) => None,
    }
}

/// A filter lets an item through.
pub open spec fn lets_through<T>(filter: Option<Seq<T>>, item: T) -> bool {
    match filter {
        Some(items) => items.contains(item),
        None => true,
    }
}

/// Two filters together let through what each of them lets through.
pub proof fn law_both<T>(a: Option<Seq<T>>, b: Option<Seq<T>>, item: T)
    ensures
        lets_through(both(a, b), item) <==> lets_through(a, item) && lets_through(b, item),
{
    if a is Some && b is Some {
        sets::law_common(a->0, b->0);
    }
}

/// What two filters let through together.
pub fn intersect_optional_string_filters(left: Option<Vec<String>>, right: Option<Vec<String>>) -> (r:
    Option<Vec<String>>)
    ensures
        views_option(r) == both(views_option(left), views_option(right)),
{
    match (left, right) {
        (Some(a), Some(b)) => Some(sets::common_texts(&a, &b)),
        (Some(a), None) => Some(a),
        (None, Some(b)) => Some(b),
        (None, None) => None,
    }
}

/// The names that the terms from there on, together with the filter so far, let
/// the columns have by anchored patterns.
pub open spec fn implied_patterns(
    terms: Seq<FilterExpr>,
    alias: Seq<char>,
    table: Seq<char>,
    fields: Seq<Seq<char>>,
    from: int,
    found: Option<Seq<Seq<char>>>,
) -> Result<Option<Seq<Seq<char>>>, ErrorView>
    decreases terms.len() - from,
{
    if from < 0 || from >= terms.len() {
        Ok(found)
    } else {
        match term_patterns(terms[from], alias, table, fields) {
            Err(e) => Err(e),
            Ok(names) => implied_patterns(
                terms,
                alias,
                table,
                fields,
                from + 1,
                both(found, names),
            ),
        }
    }
}

/// The names that a WHERE clause lets the columns have by anchored patterns.
pub fn regex_exact_values_from_selection(
    terms: &Vec<FilterExpr>,
    alias: &str,
    table: &str,
    fields: &[&str],
) -> (r: Result<Option<Vec<String>>, SqlError>)
    ensures
        texts_result(
            r,
            implied_patterns(terms@, alias@, table@, text::slice_views(fields@), 0, None),
        ),
{
    let ghost names = text::slice_views(fields@);
    let mut found: Option<Vec<String>> = None;
    let mut i: usize = 0;
    while i < terms.len()
        invariant
            i <= terms.len(),
            names == text::slice_views(fields@),
            implied_patterns(terms@, alias@, table@, names, 0, None) == implied_patterns(
                terms@,
                alias@,
                table@,
                names,
                i as int,
                views_option(found),
            ),
        decreases terms.len() - i,
    {
        match regex_exact_values_from_term(&terms[i], alias, table, fields) {
            Err(e) => {
                return Err(e);
            },
            Ok(values) => {
                found = intersect_optional_string_filters(found, values);
            },
        }
        i = i + 1;
    }
    Ok(found)
}

/// The flag that a term asks a column to be.
pub open spec fn term_flag(
    e: FilterExpr,
    alias: Seq<char>,
    table: Seq<char>,
    field: Seq<char>,
) -> Option<bool>
    decreases e,
{
    match e.shape {
        FilterShape::Equal(left, right) => if is_column(*left, alias, table, seq![field]) {
            match right.constant {
                Ok(c) => c.truth,
                Err(_) => None,
            }
        } else if is_column(*right, alias, table, seq![field]) {
            match left.constant {
                Ok(c) => c.truth,
                Err(_) => None,
            }
        } else {
            None
        },
        FilterShape::Column(_) => if is_column(e, alias, table, seq![field]) {
            Some(true)
        } else {
            None
        },
        FilterShape::Nested(inner) => term_flag(*inner, alias, table, field),
        _ => None,
    }
}

/// The flag that a term asks a column to be.
pub fn boolean_filter_from_term(e: &FilterExpr, alias: &str, table: &str, field: &str) -> (r: Option<
    bool,
>)
    ensures
        r == term_flag(*e, alias@, table@, field@),
    decreases e,
{
    let fields = [field];
    assert(text::slice_views(fields@) =~= seq![field@]);
    match &e.shape {
        FilterShape::Equal(left, right) => {
            if relation_oid_column_matches(&**left, alias, table, &fields) {
                match &right.constant {
                    Ok(c) => c.truth,
                    Err(_) => None,
                }
            } else if relation_oid_column_matches(&**right, alias, table, &fields) {
                match &left.constant {
                    Ok(c) => c.truth,
                    Err(_) => None,
                }
            } else {
                None
            }
        },
        FilterShape::Column(_) => {
            if relation_oid_column_matches(e, alias, table, &fields) {
                Some(true)
            } else {
                None
            }
        },
        FilterShape::Nested(inner) => boolean_filter_from_term(&**inner, alias, table, field),
        _ => None,
    }
}

/// The flag that the first of the terms from there on that asks for one asks a
/// column to be.
pub open spec fn implied_flag(
    terms: Seq<FilterExpr>,
    alias: Seq<char>,
    table: Seq<char>,
    field: Seq<char>,
    from: int,
) -> Option<bool>
    decreases terms.len() - from,
{
    if from < 0 || from >= terms.len() {
        None
    } else {
        match term_flag(terms[from], alias, table, field) {
            Some(flag) => Some(flag),
            None => implied_flag(terms, alias, table, field, from + 1),
        }
    }
}

/// The flag that a WHERE clause asks a column to be.
pub fn boolean_filter_from_selection(
    terms: &Vec<FilterExpr>,
    alias: &str,
    table: &str,
    field: &str,
) -> (r: Option<bool>)
    ensures
        r == implied_flag(terms@, alias@, table@, field@, 0),
{
    let mut i: usize = 0;
    while i < terms.len()
        invariant
            i <= terms.len(),
            implied_flag(terms@, alias@, table@, field@, 0) == implied_flag(
                terms@,
                alias@,
                table@,
                field@,
                i as int,
            ),
        decreases terms.len() - i,
    {
        match boolean_filter_from_term(&terms[i], alias, table, field) {
            Some(flag) => {
                return Some(flag);
            },
            None => {},
        }
        i = i + 1;
    }
    None
}

} // verus!
