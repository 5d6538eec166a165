//! What a WHERE clause tells of a column, stated of the rows that satisfy it: a
//! row that satisfies a term has one of the values that the term leaves, so a
//! read of those values alone misses no row.
use vstd::prelude::*;
use crate::error;
use crate::error::ErrorView;
use crate::filters;
use crate::filters::{FilterExpr, FilterKind, FilterShape, OidSource, all_texts, anchored_names,
    implied_constants, implied_flag, implied_patterns, is_column, lets_through, listed_constants,
    term_constants, term_flag, term_patterns};
use crate::oid_filters;
use crate::sets;
use crate::text;

verus! {

/// The column that a filter is on: the alias and the name of its table, and the
/// names under which the column goes.
pub struct Target {
    pub alias: Seq<char>,
    pub table: Seq<char>,
    pub fields: Seq<Seq<char>>,
}

/// A column name in its parts is the target: the last part is one of its names,
/// and a part before it is the table's alias or name, whatever the case.
pub open spec fn names_target(parts: Seq<Seq<char>>, t: Target) -> bool {
    &&& parts.len() > 0
    &&& exists|i: int|
        0 <= i < t.fields.len() && text::lower(parts.last()) == text::lower(#[trigger] t.fields[i])
    &&& parts.len() > 1 ==> {
        let qualifier = text::lower(parts[parts.len() - 2]);
        qualifier == text::lower(t.alias) || qualifier == text::lower(t.table)
    }
}

/// The constant that an expression was evaluated to, where it has a text.
pub open spec fn constant_of(e: FilterExpr, kind: FilterKind) -> Option<Seq<char>> {
    match e.constant {
        Ok(c) => match kind {
            FilterKind::Strings => error::view_option(c.text),
            FilterKind::ColumnLists => error::view_option(c.column_list),
        },
        Err(_) => None,
    }
}

/// A row: what each column name, in its parts, is in it. `None` is null.
pub type Row = spec_fn(Seq<Seq<char>>) -> Option<Seq<char>>;

/// The target has that value in the row, under each of its names.
pub open spec fn target_is(row: Row, t: Target, value: Option<Seq<char>>) -> bool {
    forall|parts: Seq<Seq<char>>| names_target(parts, t) ==> #[trigger] row(parts) == value
}

/// What an expression is in a row: a column what the row has under its name,
/// an expression in parentheses what it is without them, and anything else the
/// constant that it was evaluated to.
pub open spec fn value_in(e: FilterExpr, row: Row, kind: FilterKind) -> Option<Seq<char>>
    decreases e,
{
    match e.shape {
        FilterShape::Column(parts) => row(text::views(parts@)),
        FilterShape::Nested(inner) => value_in(*inner, row, kind),
        _ => constant_of(e, kind),
    }
}

/// A column was evaluated to no constant, and an expression in parentheses to
/// the constant that it is without them.
pub open spec fn is_evaluated(e: FilterExpr, kind: FilterKind) -> bool
    decreases e,
{
    match e.shape {
        FilterShape::Column(_) => constant_of(e, kind) is None,
        FilterShape::Nested(inner) => constant_of(e, kind) == constant_of(*inner, kind)
            && is_evaluated(*inner, kind),
        _ => true,
    }
}

/// The expressions that a term compares are evaluated.
pub open spec fn compares_evaluated(e: FilterExpr, kind: FilterKind) -> bool
    decreases e,
{
    match e.shape {
        FilterShape::Equal(left, right) => is_evaluated(*left, kind) && is_evaluated(
            *right,
            kind,
        ),
        FilterShape::InList(item, list, _) => is_evaluated(*item, kind) && forall|i: int|
            0 <= i < list@.len() ==> is_evaluated(#[trigger] list@[i], kind),
        FilterShape::EqualAny(left, _) => is_evaluated(*left, kind),
        FilterShape::Nested(inner) => compares_evaluated(*inner, kind),
        _ => true,
    }
}

/// The array that an expression was evaluated to holds a text.
pub open spec fn array_holds(e: FilterExpr, value: Seq<char>) -> bool {
    match e.constant {
        Ok(c) => match c.elements {
            Some(elements) => exists|i: int|
                0 <= i < elements@.len() && error::view_option(#[trigger] elements@[i])
                    == Some(value),
            None => false,
        },
        Err(_) => false,
    }
}

/// One of the expressions is that text in the row.
pub open spec fn list_holds(
    list: Seq<FilterExpr>,
    row: Row,
    kind: FilterKind,
    value: Seq<char>,
) -> bool {
    exists|i: int| 0 <= i < list.len() && #[trigger] value_in(list[i], row, kind) == Some(value)
}

/// A row satisfies a term on the target as SQL means it: `=` where both sides are the
/// same and neither is null, IN where one of the list is the same, NOT IN where
/// each of the list is another and none is null, `= ANY` where an element of the
/// array is the same. A term on something else, or of another form, may hold of any
/// row.
pub open spec fn satisfies(e: FilterExpr, t: Target, row: Row, kind: FilterKind) -> bool
    decreases e,
{
    match e.shape {
        FilterShape::Equal(left, right) => is_target(*left, t) || is_target(*right, t) ==> {
            &&& value_in(*left, row, kind) is Some
            &&& value_in(*left, row, kind) == value_in(*right, row, kind)
        },
        FilterShape::InList(item, list, negated) => is_target(*item, t) ==> match value_in(
            *item,
            row,
            kind,
        ) {
            None => false,
            Some(v) => if negated {
                forall|i: int|
                    0 <= i < list@.len() ==> {
                        let other = #[trigger] value_in(list@[i], row, kind);
                        other is Some && other != Some(v)
                    }
            } else {
                list_holds(list@, row, kind, v)
            },
        },
        FilterShape::EqualAny(left, right) => is_target(*left, t) ==> match value_in(
            *left,
            row,
            kind,
        ) {
            None => false,
            Some(v) => kind == FilterKind::Strings ==> array_holds(*right, v),
        },
        FilterShape::Nested(inner) => satisfies(*inner, t, row, kind),
        _ => true,
    }
}

/// The term inside its parentheses.
pub open spec fn bare(e: FilterExpr) -> FilterExpr
    decreases e,
{
    match e.shape {
        FilterShape::Nested(inner) => bare(*inner),
        _ => e,
    }
}

/// The expression is a column name that is the target, in parentheses or not.
pub open spec fn is_target(e: FilterExpr, t: Target) -> bool {
    match bare(e).shape {
        FilterShape::Column(parts) => names_target(text::views(parts@), t),
        _ => false,
    }
}

proof fn lemma_is_column(e: FilterExpr, t: Target)
    ensures
        is_column(e, t.alias, t.table, t.fields) <==> is_target(e, t),
    decreases e,
{
    match e.shape {
        FilterShape::Column(parts) => {
            let n = parts@.len() as int;
            let views = text::views(parts@);
            if n > 0 {
                assert(views[n - 1] == parts@[n - 1]@);
                if n > 1 {
                    assert(views[n - 2] == parts@[n - 2]@);
                }
                if filters::is_named(parts@[n - 1]@, t.fields) {
                    let i = choose|i: int|
                        0 <= i < t.fields.len() && text::same_ignoring_case(
                            parts@[n - 1]@,
                            #[trigger] t.fields[i],
                        );
                    assert(text::lower(views.last()) == text::lower(t.fields[i]));
                }
                if exists|i: int|
                    0 <= i < t.fields.len() && text::lower(views.last()) == text::lower(
                        #[trigger] t.fields[i],
                    ) {
                    let i = choose|i: int|
                        0 <= i < t.fields.len() && text::lower(views.last()) == text::lower(
                            #[trigger] t.fields[i],
                        );
                    assert(text::same_ignoring_case(parts@[n - 1]@, t.fields[i]));
                }
            }
        },
        FilterShape::Nested(inner) => {
            lemma_is_column(*inner, t);
        },
        _ => {},
    }
}

/// A column name is recognised exactly where it is the target: the last of its
/// parts is one of the names, and it is unqualified or qualified with the
/// table's alias or name.
pub proof fn law_target_recognised(e: FilterExpr, t: Target)
    ensures
        is_column(e, t.alias, t.table, t.fields) <==> is_target(e, t),
{
    lemma_is_column(e, t);
}

proof fn lemma_column_value(
    e: FilterExpr,
    t: Target,
    row: Row,
    kind: FilterKind,
    value: Option<Seq<char>>,
)
    requires
        target_is(row, t, value),
        is_column(e, t.alias, t.table, t.fields),
    ensures
        value_in(e, row, kind) == value,
    decreases e,
{
    lemma_is_column(e, t);
    if let FilterShape::Nested(inner) = e.shape {
        lemma_column_value(*inner, t, row, kind, value);
    }
}

proof fn lemma_constant_value(e: FilterExpr, row: Row, kind: FilterKind)
    requires
        is_evaluated(e, kind),
        constant_of(e, kind) is Some,
    ensures
        value_in(e, row, kind) == constant_of(e, kind),
    decreases e,
{
    if let FilterShape::Nested(inner) = e.shape {
        lemma_constant_value(*inner, row, kind);
    }
}

proof fn lemma_listed(
    list: Seq<FilterExpr>,
    kind: FilterKind,
    from: int,
    found: Seq<Seq<char>>,
    row: Row,
    value: Seq<char>,
)
    requires
        0 <= from <= list.len(),
        forall|i: int| 0 <= i < list.len() ==> is_evaluated(#[trigger] list[i], kind),
    ensures
        match listed_constants(list, kind, from, found) {
            Ok(Some(values)) => values.contains(value) <==> found.contains(value) || exists|i: int|
                from <= i < list.len() && #[trigger] value_in(list[i], row, kind) == Some(value),
            _ => true,
        },
    decreases list.len() - from,
{
    if from < list.len() {
        if let Ok(Some(t)) = filters::filter_constant(list[from], kind) {
            lemma_listed(list, kind, from + 1, sets::added(found, t), row, value);
            lemma_constant_value(list[from], row, kind);
            sets::law_added_contains(found, t, value);
            assert(value_in(list[from], row, kind) == Some(t));
        }
    }
}

proof fn lemma_texts(
    elements: Seq<Option<String>>,
    from: int,
    found: Seq<Seq<char>>,
    value: Seq<char>,
)
    requires
        0 <= from <= elements.len(),
    ensures
        match all_texts(elements, from, found) {
            Some(values) => values.contains(value) <==> found.contains(value) || exists|i: int|
                from <= i < elements.len() && error::view_option(#[trigger] elements[i]) == Some(
                    value,
                ),
            None => true,
        },
    decreases elements.len() - from,
{
    if from < elements.len() {
        if let Some(t) = elements[from] {
            lemma_texts(elements, from + 1, sets::added(found, t@), value);
            sets::law_added_contains(found, t@, value);
            assert(error::view_option(elements[from]) == Some(t@));
        }
    }
}

/// Narrowing by a term is sound and exact: where a term leaves the column a set
/// of values, a row satisfies the term exactly if its value is one of them. So a
/// row that satisfies the term is never passed over.
pub proof fn law_term_narrows(
    e: FilterExpr,
    t: Target,
    kind: FilterKind,
    row: Row,
    value: Option<Seq<char>>,
)
    requires
        target_is(row, t, value),
        compares_evaluated(e, kind),
    ensures
        match term_constants(e, t.alias, t.table, t.fields, kind) {
            Ok(Some(values)) => satisfies(e, t, row, kind) <==> value is Some && values.contains(
                value->0,
            ),
            _ => true,
        },
    decreases e,
{
    match e.shape {
        FilterShape::Equal(left, right) => {
            lemma_is_column(*left, t);
            lemma_is_column(*right, t);
            if is_column(*left, t.alias, t.table, t.fields) {
                lemma_column_value(*left, t, row, kind, value);
                if constant_of(*right, kind) is Some {
                    lemma_constant_value(*right, row, kind);
                    assert(seq![constant_of(*right, kind)->0][0] == constant_of(*right, kind)->0);
                }
            } else if is_column(*right, t.alias, t.table, t.fields) {
                lemma_column_value(*right, t, row, kind, value);
                if constant_of(*left, kind) is Some {
                    lemma_constant_value(*left, row, kind);
                    assert(seq![constant_of(*left, kind)->0][0] == constant_of(*left, kind)->0);
                }
            }
        },
        FilterShape::InList(item, list, negated) => {
            lemma_is_column(*item, t);
            if is_column(*item, t.alias, t.table, t.fields) {
                lemma_column_value(*item, t, row, kind, value);
                if let Some(v) = value {
                    lemma_listed(list@, kind, 0, Seq::empty(), row, v);
                }
            }
        },
        FilterShape::EqualAny(left, right) => {
            lemma_is_column(*left, t);
            if is_column(*left, t.alias, t.table, t.fields) {
                lemma_column_value(*left, t, row, kind, value);
                if let Some(v) = value {
                    if let Ok(c) = right.constant {
                        if let Some(elements) = c.elements {
                            lemma_texts(elements@, 0, Seq::empty(), v);
                        }
                    }
                }
            }
        },
        FilterShape::Nested(inner) => {
            law_term_narrows(*inner, t, kind, row, value);
        },
        _ => {},
    }
}

/// What is no comparison of the column with constants leaves it any value: a
/// negated list above all, and a comparison of anything else.
pub proof fn law_term_that_leaves_all(e: FilterExpr, t: Target, kind: FilterKind)
    ensures
        match bare(e).shape {
            FilterShape::InList(item, _, negated) => negated || !is_target(*item, t) ==> (
            term_constants(e, t.alias, t.table, t.fields, kind) matches Ok(None)),
            FilterShape::Equal(left, right) => !is_target(*left, t) && !is_target(*right, t) ==> (
            term_constants(e, t.alias, t.table, t.fields, kind) matches Ok(None)),
            FilterShape::EqualAny(left, _) => !is_target(*left, t) || kind
                == FilterKind::ColumnLists ==> (term_constants(
                e,
                t.alias,
                t.table,
                t.fields,
                kind,
            ) matches Ok(None)),
            _ => term_constants(e, t.alias, t.table, t.fields, kind) matches Ok(None),
        },
    decreases e,
{
    match e.shape {
        FilterShape::Nested(inner) => {
            law_term_that_leaves_all(*inner, t, kind);
        },
        FilterShape::Equal(left, right) => {
            lemma_is_column(*left, t);
            lemma_is_column(*right, t);
        },
        FilterShape::InList(item, _, _) => {
            lemma_is_column(*item, t);
        },
        FilterShape::EqualAny(left, _) => {
            lemma_is_column(*left, t);
        },
        _ => {},
    }
}

proof fn lemma_listed_found(
    list: Seq<FilterExpr>,
    kind: FilterKind,
    from: int,
    found: Seq<Seq<char>>,
)
    requires
        0 <= from <= list.len(),
        forall|i: int| 0 <= i < list.len() ==> constant_of(#[trigger] list[i], kind) is Some,
    ensures
        listed_constants(list, kind, from, found) matches Ok(Some(_)),
    decreases list.len() - from,
{
    if from < list.len() {
        assert(constant_of(list[from], kind) is Some);
        lemma_listed_found(
            list,
            kind,
            from + 1,
            sets::added(found, constant_of(list[from], kind)->0),
        );
    }
}

proof fn lemma_texts_found(elements: Seq<Option<String>>, from: int, found: Seq<Seq<char>>)
    requires
        0 <= from <= elements.len(),
        forall|i: int| 0 <= i < elements.len() ==> (#[trigger] elements[i]) is Some,
    ensures
        all_texts(elements, from, found) is Some,
    decreases elements.len() - from,
{
    if from < elements.len() {
        assert(elements[from] is Some);
        lemma_texts_found(elements, from + 1, sets::added(found, elements[from]->0@));
    }
}

/// A comparison of the column with constants does narrow: `=` with a constant on
/// either side, IN a list of constants, and `= ANY` of an array without nulls.
pub proof fn law_term_that_narrows(e: FilterExpr, t: Target, kind: FilterKind)
    ensures
        match bare(e).shape {
            FilterShape::Equal(left, right) => {
                &&& is_target(*left, t) && constant_of(*right, kind) is Some ==> (term_constants(
                    e,
                    t.alias,
                    t.table,
                    t.fields,
                    kind,
                ) matches Ok(Some(_)))
                &&& !is_target(*left, t) && is_target(*right, t) && constant_of(*left, kind) is Some
                    ==> (term_constants(e, t.alias, t.table, t.fields, kind) matches Ok(Some(_)))
            },
            FilterShape::InList(item, list, negated) => !negated && is_target(*item, t) && (forall|
                i: int,
            |
                0 <= i < list@.len() ==> constant_of(#[trigger] list@[i], kind) is Some) ==> (
            term_constants(e, t.alias, t.table, t.fields, kind) matches Ok(Some(_))),
            FilterShape::EqualAny(left, right) => kind == FilterKind::Strings && is_target(
                *left,
                t,
            ) ==> match right.constant {
                Ok(c) => match c.elements {
                    Some(elements) => (forall|i: int|
                        0 <= i < elements@.len() ==> (#[trigger] elements@[i]) is Some) ==> (
                    term_constants(e, t.alias, t.table, t.fields, kind) matches Ok(Some(_))),
                    None => true,
                },
                Err(_) => true,
            },
            _ => true,
        },
    decreases e,
{
    match e.shape {
        FilterShape::Nested(inner) => {
            law_term_that_narrows(*inner, t, kind);
        },
        FilterShape::Equal(left, right) => {
            lemma_is_column(*left, t);
            lemma_is_column(*right, t);
        },
        FilterShape::InList(item, list, negated) => {
            lemma_is_column(*item, t);
            if forall|i: int|
                0 <= i < list@.len() ==> constant_of(#[trigger] list@[i], kind) is Some {
                lemma_listed_found(list@, kind, 0, Seq::empty());
            }
        },
        FilterShape::EqualAny(left, right) => {
            lemma_is_column(*left, t);
            if let Ok(c) = right.constant {
                if let Some(elements) = c.elements {
                    if forall|i: int|
                        0 <= i < elements@.len() ==> (#[trigger] elements@[i]) is Some {
                        lemma_texts_found(elements@, 0, Seq::empty());
                    }
                }
            }
        },
        _ => {},
    }
}

/// Narrowing by a WHERE clause is sound: a row that satisfies every term of it
/// has one of the values that the clause leaves the column.
pub proof fn law_clause_narrows(
    terms: Seq<FilterExpr>,
    t: Target,
    kind: FilterKind,
    row: Row,
    value: Option<Seq<char>>,
    from: int,
)
    requires
        0 <= from <= terms.len(),
        target_is(row, t, value),
        forall|i: int| 0 <= i < terms.len() ==> compares_evaluated(#[trigger] terms[i], kind),
        forall|i: int| 0 <= i < terms.len() ==> satisfies(#[trigger] terms[i], t, row, kind),
    ensures
        match implied_constants(terms, t.alias, t.table, t.fields, kind, from) {
            Ok(Some(values)) => value is Some && values.contains(value->0),
            _ => true,
        },
    decreases terms.len() - from,
{
    if from < terms.len() {
        law_term_narrows(terms[from], t, kind, row, value);
        assert(satisfies(terms[from], t, row, kind));
        law_clause_narrows(terms, t, kind, row, value, from + 1);
    }
}

/// A WHERE clause leaves the column any value exactly where each of its terms
/// does, and otherwise what its first term that narrows leaves it.
pub proof fn law_clause_of_terms(terms: Seq<FilterExpr>, t: Target, kind: FilterKind, from: int)
    requires
        0 <= from <= terms.len(),
    ensures
        match implied_constants(terms, t.alias, t.table, t.fields, kind, from) {
            Ok(None) => forall|i: int|
                from <= i < terms.len() ==> (#[trigger] term_constants(
                    terms[i],
                    t.alias,
                    t.table,
                    t.fields,
                    kind,
                )) == Ok::<Option<Seq<Seq<char>>>, ErrorView>(None),
            other => exists|i: int|
                from <= i < terms.len() && #[trigger] term_constants(
                    terms[i],
                    t.alias,
                    t.table,
                    t.fields,
                    kind,
                ) == other && forall|k: int|
                    from <= k < i ==> (#[trigger] term_constants(
                        terms[k],
                        t.alias,
                        t.table,
                        t.fields,
                        kind,
                    )) == Ok::<Option<Seq<Seq<char>>>, ErrorView>(None),
        },
    decreases terms.len() - from,
{
    if from < terms.len() {
        law_clause_of_terms(terms, t, kind, from + 1);
        let own = term_constants(terms[from], t.alias, t.table, t.fields, kind);
        if own == Ok::<Option<Seq<Seq<char>>>, ErrorView>(None) {
            let rest = implied_constants(terms, t.alias, t.table, t.fields, kind, from + 1);
            if rest != Ok::<Option<Seq<Seq<char>>>, ErrorView>(None) {
                let i = choose|i: int|
                    from + 1 <= i < terms.len() && #[trigger] term_constants(
                        terms[i],
                        t.alias,
                        t.table,
                        t.fields,
                        kind,
                    ) == rest && forall|k: int|
                        from + 1 <= k < i ==> (#[trigger] term_constants(
                            terms[k],
                            t.alias,
                            t.table,
                            t.fields,
                            kind,
                        )) == Ok::<Option<Seq<Seq<char>>>, ErrorView>(None);
                assert(term_constants(terms[i], t.alias, t.table, t.fields, kind) == rest);
            }
        }
    }
}

/// A row of flags: what each column name, in its parts, is in it. `None` is null.
pub type FlagRow = spec_fn(Seq<Seq<char>>) -> Option<bool>;

/// The flag that an expression is in a row.
pub open spec fn flag_in(e: FilterExpr, row: FlagRow) -> Option<bool>
    decreases e,
{
    match e.shape {
        FilterShape::Column(parts) => row(text::views(parts@)),
        FilterShape::Nested(inner) => flag_in(*inner, row),
        _ => match e.constant {
            Ok(c) => c.truth,
            Err(_) => None,
        },
    }
}

/// A column was evaluated to no flag, and an expression in parentheses to the flag
/// that it is without them.
pub open spec fn is_flag_evaluated(e: FilterExpr) -> bool
    decreases e,
{
    let own = match e.constant {
        Ok(c) => c.truth,
        Err(_) => None,
    };
    match e.shape {
        FilterShape::Column(_) => own is None,
        FilterShape::Nested(inner) => is_flag_evaluated(*inner) && own == (match inner.constant {
            Ok(c) => c.truth,
            Err(_) => None,
        }),
        _ => true,
    }
}

/// A row satisfies a term on the target as a flag: an equality where both sides are the
/// same and neither is null, a bare column where it is true. Another term may hold of
/// any row.
pub open spec fn satisfies_flag(e: FilterExpr, t: Target, row: FlagRow) -> bool
    decreases e,
{
    match e.shape {
        FilterShape::Equal(left, right) => is_target(*left, t) || is_target(*right, t) ==> flag_in(
            *left,
            row,
        ) is Some && flag_in(*left, row) == flag_in(*right, row),
        FilterShape::Column(parts) => is_target(e, t) ==> row(text::views(parts@)) == Some(true),
        FilterShape::Nested(inner) => satisfies_flag(*inner, t, row),
        _ => true,
    }
}

/// The sides of an equality are evaluated to flags.
pub open spec fn compares_flags(e: FilterExpr) -> bool
    decreases e,
{
    match e.shape {
        FilterShape::Equal(left, right) => is_flag_evaluated(*left) && is_flag_evaluated(*right),
        FilterShape::Nested(inner) => compares_flags(*inner),
        _ => true,
    }
}

proof fn lemma_flag_column(e: FilterExpr, t: Target, row: FlagRow, value: Option<bool>)
    requires
        forall|parts: Seq<Seq<char>>| names_target(parts, t) ==> #[trigger] row(parts) == value,
        is_column(e, t.alias, t.table, t.fields),
    ensures
        flag_in(e, row) == value,
    decreases e,
{
    lemma_is_column(e, t);
    if let FilterShape::Nested(inner) = e.shape {
        lemma_flag_column(*inner, t, row, value);
    }
}

proof fn lemma_flag_constant(e: FilterExpr, row: FlagRow)
    requires
        is_flag_evaluated(e),
        e.constant matches Ok(c) && c.truth is Some,
    ensures
        flag_in(e, row) == e.constant->Ok_0.truth,
    decreases e,
{
    if let FilterShape::Nested(inner) = e.shape {
        lemma_flag_constant(*inner, row);
    }
}

/// Where a term asks a flag to be something, a row satisfies the term exactly if the
/// flag is that in it: a bare column asks it to be true.
pub proof fn law_flag_narrows(
    e: FilterExpr,
    t: Target,
    field: Seq<char>,
    row: FlagRow,
    value: Option<bool>,
)
    requires
        t.fields == seq![field],
        forall|parts: Seq<Seq<char>>| names_target(parts, t) ==> #[trigger] row(parts) == value,
        compares_flags(e),
    ensures
        match term_flag(e, t.alias, t.table, field) {
            Some(flag) => satisfies_flag(e, t, row) <==> value == Some(flag),
            None => true,
        },
    decreases e,
{
    match e.shape {
        FilterShape::Equal(left, right) => {
            lemma_is_column(*left, t);
            lemma_is_column(*right, t);
            if is_column(*left, t.alias, t.table, t.fields) {
                lemma_flag_column(*left, t, row, value);
                if right.constant is Ok && right.constant->Ok_0.truth is Some {
                    lemma_flag_constant(*right, row);
                }
            } else if is_column(*right, t.alias, t.table, t.fields) {
                lemma_flag_column(*right, t, row, value);
                if left.constant is Ok && left.constant->Ok_0.truth is Some {
                    lemma_flag_constant(*left, row);
                }
            }
        },
        FilterShape::Column(parts) => {
            lemma_is_column(e, t);
        },
        FilterShape::Nested(inner) => {
            law_flag_narrows(*inner, t, field, row, value);
        },
        _ => {},
    }
}

/// Where a WHERE clause asks a flag to be something, it is that in every row that
/// satisfies the clause.
pub proof fn law_clause_flag(
    terms: Seq<FilterExpr>,
    t: Target,
    field: Seq<char>,
    row: FlagRow,
    value: Option<bool>,
    from: int,
)
    requires
        0 <= from <= terms.len(),
        t.fields == seq![field],
        forall|parts: Seq<Seq<char>>| names_target(parts, t) ==> #[trigger] row(parts) == value,
        forall|i: int| 0 <= i < terms.len() ==> compares_flags(#[trigger] terms[i]),
        forall|i: int| 0 <= i < terms.len() ==> satisfies_flag(#[trigger] terms[i], t, row),
    ensures
        match implied_flag(terms, t.alias, t.table, field, from) {
            Some(flag) => value == Some(flag),
            None => forall|i: int|
                from <= i < terms.len() ==> (#[trigger] term_flag(
                    terms[i],
                    t.alias,
                    t.table,
                    field,
                )) is None,
        },
    decreases terms.len() - from,
{
    if from < terms.len() {
        assert(satisfies_flag(terms[from], t, row));
        law_flag_narrows(terms[from], t, field, row, value);
        law_clause_flag(terms, t, field, row, value, from + 1);
    }
}

/// Names with bars between them.
pub open spec fn barred(names: Seq<Seq<char>>) -> Seq<char>
    decreases names.len(),
{
    if names.len() == 0 {
        Seq::empty()
    } else if names.len() == 1 {
        names[0]
    } else {
        barred(names.drop_last()).push('|') + names.last()
    }
}

proof fn lemma_pieces_barred(s: Seq<char>)
    ensures
        text::pieces(s, '|').len() >= 1,
        barred(text::pieces(s, '|')) == s,
    decreases s.len(),
{
    let all = text::pieces(s, '|');
    if s.len() == 0 {
        assert(barred(all) =~= s);
    } else {
        let rest = s.drop_last();
        lemma_pieces_barred(rest);
        let before = text::pieces(rest, '|');
        if s.last() == '|' {
            assert(all.drop_last() =~= before);
            assert(barred(all) =~= s);
        } else {
            assert(all.drop_last() =~= before.drop_last());
            assert(all.last() == before.last().push(s.last()));
            if before.len() == 1 {
                assert(all[0] == before[0].push(s.last()));
            } else {
                assert(barred(before) == barred(before.drop_last()).push('|') + before.last());
            }
            assert(barred(all) =~= barred(before).push(s.last()));
            assert(s =~= rest.push(s.last()));
        }
    }
}

/// A pattern that is the beginning of a line, names with bars between them, in
/// parentheses or not, and its end.
pub open spec fn matches_names(pattern: Seq<char>, names: Seq<Seq<char>>) -> bool {
    ||| pattern == seq!['^'] + barred(names) + seq!['$']
    ||| pattern == seq!['^', '('] + barred(names) + seq![')', '$']
}

/// The names that an anchored pattern leaves are those between its bars, each of
/// letters, digits and underscores, so the texts that it matches are these alone.
pub proof fn law_anchored_names(pattern: Seq<char>) -> (names: Seq<Seq<char>>)
    requires
        anchored_names(pattern) is Some,
    ensures
        matches_names(pattern, names),
        forall|i: int|
            0 <= i < names.len() ==> (#[trigger] names[i]).len() > 0 && forall|k: int|
                0 <= k < names[i].len() ==> text::is_word(#[trigger] names[i][k]),
        forall|x: Seq<char>| #[trigger]
            anchored_names(pattern)->0.contains(x) <==> names.contains(x),
{
    let body = pattern.subrange(1, pattern.len() - 1);
    let names = text::pieces(filters::without_parens(body), '|');
    lemma_pieces_barred(filters::without_parens(body));
    sets::law_distinct(names);
    assert(pattern =~= seq!['^'] + body + seq!['$']);
    if filters::without_parens(body) != body {
        assert(body =~= seq!['('] + filters::without_parens(body) + seq![')']);
        assert(pattern =~= seq!['^', '('] + filters::without_parens(body) + seq![')', '$']);
    }
    assert forall|i: int| 0 <= i < names.len() implies (#[trigger] names[i]).len() > 0 && forall|
        k: int,
    |
        0 <= k < names[i].len() ==> text::is_word(#[trigger] names[i][k]) by {
        assert(filters::is_plain_name(names[i]));
    }
    names
}

/// A pattern on anything but the column, or one that is not anchored, leaves the
/// column any value; else it leaves it the names of the pattern.
pub proof fn law_pattern_terms(e: FilterExpr, t: Target)
    ensures
        match bare(e).shape {
            FilterShape::RegexMatch(left, right) => {
                &&& !is_target(*left, t) ==> (term_patterns(e, t.alias, t.table, t.fields) matches Ok(
                    None,
                ))
                &&& is_target(*left, t) && constant_of(*right, FilterKind::Strings) is Some
                    ==> term_patterns(e, t.alias, t.table, t.fields) == Ok::<
                    Option<Seq<Seq<char>>>,
                    ErrorView,
                >(anchored_names(constant_of(*right, FilterKind::Strings)->0))
            },
            _ => term_patterns(e, t.alias, t.table, t.fields) matches Ok(None),
        },
    decreases e,
{
    match e.shape {
        FilterShape::Nested(inner) => {
            law_pattern_terms(*inner, t);
        },
        FilterShape::RegexMatch(left, right) => {
            lemma_is_column(*left, t);
        },
        _ => {},
    }
}

/// Patterns that are joined by AND leave a name exactly where each of them does.
pub proof fn law_clause_patterns(
    terms: Seq<FilterExpr>,
    t: Target,
    from: int,
    found: Option<Seq<Seq<char>>>,
    name: Seq<char>,
)
    requires
        0 <= from <= terms.len(),
    ensures
        match implied_patterns(terms, t.alias, t.table, t.fields, from, found) {
            Ok(left) => lets_through(left, name) <==> lets_through(found, name) && forall|i: int|
                from <= i < terms.len() ==> (match #[trigger] term_patterns(
                    terms[i],
                    t.alias,
                    t.table,
                    t.fields,
                ) {
                    Ok(names) => lets_through(names, name),
                    Err(_) => false,
                }),
            Err(_) => exists|i: int|
                from <= i < terms.len() && #[trigger] term_patterns(
                    terms[i],
                    t.alias,
                    t.table,
                    t.fields,
                ) is Err,
        },
    decreases terms.len() - from,
{
    if from < terms.len() {
        if let Ok(names) = term_patterns(terms[from], t.alias, t.table, t.fields) {
            law_clause_patterns(terms, t, from + 1, filters::both(found, names), name);
            filters::law_both(found, names, name);
        }
    }
}

/// A row of numbers: what each column name, in its parts, is in it.
pub type NumberRow = spec_fn(Seq<Seq<char>>) -> Option<i64>;

/// The number that an expression is in a row: of a column what the row has, and
/// else what it was resolved to.
pub open spec fn number_in(e: FilterExpr, row: NumberRow) -> Option<i64>
    decreases e,
{
    match e.shape {
        FilterShape::Column(parts) => row(text::views(parts@)),
        FilterShape::Nested(inner) => number_in(*inner, row),
        _ => match e.oid {
            OidSource::Call(call) => match call.resolved {
                Ok(oid) => oid,
                Err(_) => None,
            },
            OidSource::Value(value) => match value {
                Ok(oid) => oid,
                Err(_) => None,
            },
        },
    }
}

/// A column was resolved to no number.
pub open spec fn is_resolved(e: FilterExpr) -> bool
    decreases e,
{
    match e.shape {
        FilterShape::Column(_) => match e.oid {
            OidSource::Call(call) => !(call.resolved matches Ok(Some(_))),
            OidSource::Value(value) => !(value matches Ok(Some(_))),
        },
        FilterShape::Nested(inner) => is_resolved(*inner),
        _ => true,
    }
}

proof fn lemma_number_column(e: FilterExpr, t: Target, row: NumberRow, value: Option<i64>)
    requires
        forall|parts: Seq<Seq<char>>| names_target(parts, t) ==> #[trigger] row(parts) == value,
        is_column(e, t.alias, t.table, t.fields),
    ensures
        number_in(e, row) == value,
    decreases e,
{
    lemma_is_column(e, t);
    if let FilterShape::Nested(inner) = e.shape {
        lemma_number_column(*inner, t, row, value);
    }
}

proof fn lemma_number_literal(e: FilterExpr, row: NumberRow)
    requires
        is_resolved(e),
        oid_filters::oid_literal(e) matches Ok(Some(_)),
    ensures
        number_in(e, row) == oid_filters::oid_literal(e)->Ok_0,
    decreases e,
{
    if let FilterShape::Nested(inner) = e.shape {
        lemma_number_literal(*inner, row);
    }
}

/// Narrowing by a number is sound: where a WHERE clause asks the column to be a
/// relation's number, it is that number in every row in which its equalities
/// hold.
pub proof fn law_clause_number(
    terms: Seq<FilterExpr>,
    t: Target,
    row: NumberRow,
    value: Option<i64>,
    from: int,
)
    requires
        0 <= from <= terms.len(),
        forall|parts: Seq<Seq<char>>| names_target(parts, t) ==> #[trigger] row(parts) == value,
        forall|i: int|
            0 <= i < terms.len() ==> match (#[trigger] terms[i]).shape {
                FilterShape::Equal(left, right) => is_target(*left, t) || is_target(*right, t)
                    ==> is_resolved(*left) && is_resolved(*right) && number_in(*left, row) is Some
                    && number_in(*left, row) == number_in(*right, row),
                _ => true,
            },
    ensures
        match oid_filters::implied_oid(terms, t.alias, t.table, t.fields, from) {
            Ok(Some(oid)) => value == Some(oid),
            _ => true,
        },
    decreases terms.len() - from,
{
    if from < terms.len() {
        let e = terms[from];
        law_clause_number(terms, t, row, value, from + 1);
        if let FilterShape::Equal(left, right) = e.shape {
            lemma_is_column(*left, t);
            lemma_is_column(*right, t);
            if is_column(*left, t.alias, t.table, t.fields) {
                lemma_number_column(*left, t, row, value);
                if let Ok(Some(oid)) = oid_filters::oid_literal(*right) {
                    lemma_number_literal(*right, row);
                }
            } else if is_column(*right, t.alias, t.table, t.fields) {
                lemma_number_column(*right, t, row, value);
                if let Ok(Some(oid)) = oid_filters::oid_literal(*left) {
                    lemma_number_literal(*left, row);
                }
            }
        }
    }
}

/// The numbers of named tables are those of the first table of each name, whatever
/// its case, and a name without a table gives none.
pub proof fn law_table_numbers(
    tables: Seq<(String, i64)>,
    names: Seq<Seq<char>>,
    from: int,
    found: Seq<i64>,
    oid: i64,
)
    requires
        0 <= from <= names.len(),
    ensures
        oid_filters::tables_oids(tables, names, from, found).contains(oid) <==> found.contains(oid)
            || exists|i: int, k: int|
            from <= i < names.len() && 0 <= k < tables.len() && tables[k].1 == oid
                && #[trigger] is_first_table(tables, names[i], k),
    decreases names.len() - from,
{
    if from < names.len() {
        lemma_table_number(tables, names[from], 0);
        match oid_filters::table_oid(tables, names[from], 0) {
            Some(own) => {
                law_table_numbers(tables, names, from + 1, sets::added(found, own), oid);
                sets::law_added_contains(found, own, oid);
                let k = choose|k: int|
                    0 <= k < tables.len() && tables[k].1 == own && #[trigger] is_first_table(
                        tables,
                        names[from],
                        k,
                    );
                assert(is_first_table(tables, names[from], k));
                assert forall|l: int| #[trigger]
                    is_first_table(tables, names[from], l) implies l == k by {}
            },
            None => {
                law_table_numbers(tables, names, from + 1, found, oid);
            },
        }
    }
}

/// The first table of a name.
pub open spec fn is_first_table(tables: Seq<(String, i64)>, name: Seq<char>, k: int) -> bool {
    &&& 0 <= k < tables.len()
    &&& text::lower(tables[k].0@) == text::lower(name)
    &&& forall|l: int| 0 <= l < k ==> text::lower((#[trigger] tables[l]).0@) != text::lower(name)
}

proof fn lemma_table_number(tables: Seq<(String, i64)>, name: Seq<char>, from: int)
    requires
        0 <= from <= tables.len(),
        forall|l: int|
            0 <= l < from ==> text::lower((#[trigger] tables[l]).0@) != text::lower(name),
    ensures
        match oid_filters::table_oid(tables, name, from) {
            Some(oid) => exists|k: int|
                0 <= k < tables.len() && tables[k].1 == oid && #[trigger] is_first_table(
                    tables,
                    name,
                    k,
                ),
            None => forall|k: int| !#[trigger] is_first_table(tables, name, k),
        },
    decreases tables.len() - from,
{
    if from < tables.len() {
        if text::same_ignoring_case(tables[from].0@, name) {
            assert(is_first_table(tables, name, from));
        } else {
            lemma_table_number(tables, name, from + 1);
        }
    }
}

/// Answers that restrict together leave a number exactly where each of them that is
/// not empty does.
pub proof fn law_merged_answers(
    answers: Seq<Seq<i64>>,
    from: int,
    found: Option<Seq<i64>>,
    oid: i64,
)
    requires
        0 <= from <= answers.len(),
    ensures
        lets_through(oid_filters::merged_answers(answers, from, found), oid) <==> lets_through(
            found,
            oid,
        ) && forall|i: int|
            from <= i < answers.len() && (#[trigger] answers[i]).len() > 0 ==> answers[i].contains(
                oid,
            ),
    decreases answers.len() - from,
{
    if from < answers.len() {
        if answers[from].len() == 0 {
            law_merged_answers(answers, from + 1, found, oid);
        } else {
            law_merged_answers(
                answers,
                from + 1,
                filters::both(found, Some(answers[from])),
                oid,
            );
            filters::law_both(found, Some(answers[from]), oid);
        }
    }
}

} // verus!
