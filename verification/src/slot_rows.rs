//! Rows as lists of values, and what RETURNING and index definitions read of them.
use vstd::prelude::*;
use crate::ast::{Expr, ExprKind};
use crate::dotted;
use crate::text;
use crate::values;
use crate::values::{SqlValue, ValueView};

verus! {

/// The row of an assignment with the first slots from the row of the target. As many
/// are taken as there are columns of the target, of the assignment, and slots.
pub open spec fn returning_row(
    target: Seq<ValueView>,
    target_columns: nat,
    assignment_columns: nat,
    row: Seq<ValueView>,
) -> Seq<ValueView> {
    Seq::new(
        row.len(),
        |i: int|
            if i < target_columns && i < assignment_columns {
                if i < target.len() {
                    target[i]
                } else {
                    ValueView::Null
                }
            } else {
                row[i]
            },
    )
}

/// The row that RETURNING reads after an update: that of the assignment, with the
/// slots of the target as they are in the new record.
pub fn update_returning_slot_row_from_assignment(
    target_row: &Vec<SqlValue>,
    target_columns: &Vec<String>,
    assignment_columns: &Vec<String>,
    assignment_row: &Vec<SqlValue>,
) -> (r: Vec<SqlValue>)
    ensures
        values::value_views(r@) == returning_row(
            values::value_views(target_row@),
            target_columns@.len(),
            assignment_columns@.len(),
            values::value_views(assignment_row@),
        ),
{
    let mut out: Vec<SqlValue> = Vec::new();
    let mut i: usize = 0;
    while i < assignment_row.len()
        invariant
            i <= assignment_row.len(),
            out@.len() == i,
            forall|k: int|
                0 <= k < i ==> (#[trigger] out@[k])@ == (if k < target_columns@.len() && k
                    < assignment_columns@.len() {
                    if k < target_row@.len() {
                        target_row@[k]@
                    } else {
                        ValueView::Null
                    }
                } else {
                    assignment_row@[k]@
                }),
        decreases assignment_row.len() - i,
    {
        let value = if i < target_columns.len() && i < assignment_columns.len() {
            if i < target_row.len() {
                target_row[i].copied()
            } else {
                SqlValue::Null
            }
        } else {
            assignment_row[i].copied()
        };
        out.push(value);
        i = i + 1;
    }
    assert(values::value_views(out@) =~= returning_row(
        values::value_views(target_row@),
        target_columns@.len(),
        assignment_columns@.len(),
        values::value_views(assignment_row@),
    ));
    out
}

/// A column that was assigned, with its new value.
#[derive(Debug)]
pub struct AssignedColumn {
    pub name: String,
    pub value: SqlValue,
}

/// The value that a column was assigned last.
pub open spec fn assigned_to(assigned: Seq<AssignedColumn>, name: Seq<char>) -> Option<ValueView>
    decreases assigned.len(),
{
    if assigned.len() == 0 {
        None
    } else if assigned.last().name@ == name {
        Some(assigned.last().value@)
    } else {
        assigned_to(assigned.drop_last(), name)
    }
}

/// The value that the slot of a target column gets: that which its column was
/// assigned, where the slot is one of the table, by its alias or its name.
pub open spec fn patch(
    table: Seq<char>,
    alias: Seq<char>,
    target: Seq<char>,
    assigned: Seq<AssignedColumn>,
) -> Option<ValueView> {
    match dotted::split_last_dot(target) {
        Some((relation, name)) => if relation == alias || relation == table {
            assigned_to(assigned, name)
        } else {
            None
        },
        None => None,
    }
}

pub open spec fn patched_slot(
    table: Seq<char>,
    alias: Seq<char>,
    targets: Seq<Seq<char>>,
    row: Seq<ValueView>,
    assigned: Seq<AssignedColumn>,
    i: int,
) -> ValueView {
    if i < targets.len() {
        match patch(table, alias, targets[i], assigned) {
            Some(v) => v,
            None => row[i],
        }
    } else {
        row[i]
    }
}

fn last_assigned(assigned: &Vec<AssignedColumn>, name: &str) -> (r: Option<usize>)
    ensures
        match (r, assigned_to(assigned@, name@)) {
            (Some(i), Some(v)) => i < assigned@.len() && assigned@[i as int].value@ == v,
            (None, None) => true,
            _ => false,
        },
{
    let mut i: usize = assigned.len();
    assert(assigned@.take(i as int) =~= assigned@);
    while i > 0
        invariant
            i <= assigned.len(),
            assigned_to(assigned@, name@) == assigned_to(assigned@.take(i as int), name@),
        decreases i,
    {
        assert(assigned@.take(i as int).last() == assigned@[i - 1]);
        assert(assigned@.take(i as int).drop_last() =~= assigned@.take(i - 1));
        if text::text_eq(assigned[i - 1].name.as_str(), name) {
            return Some(i - 1);
        }
        i = i - 1;
    }
    None
}

/// The row that RETURNING reads after an update in which only assigned columns can
/// differ: those are written into every slot that names them.
pub fn update_returning_slot_row_patched(
    table: &str,
    alias: &str,
    target_columns: &Vec<String>,
    assignment_row: &Vec<SqlValue>,
    assigned: &Vec<AssignedColumn>,
) -> (r: Vec<SqlValue>)
    ensures
        values::value_views(r@) == Seq::new(
            assignment_row@.len(),
            |i: int|
                patched_slot(
                    table@,
                    alias@,
                    text::views(target_columns@),
                    values::value_views(assignment_row@),
                    assigned@,
                    i,
                ),
        ),
{
    let ghost targets = text::views(target_columns@);
    let ghost row = values::value_views(assignment_row@);
    let mut out: Vec<SqlValue> = Vec::new();
    let mut i: usize = 0;
    while i < assignment_row.len()
        invariant
            i <= assignment_row.len(),
            targets == text::views(target_columns@),
            row == values::value_views(assignment_row@),
            out@.len() == i,
            forall|k: int|
                0 <= k < i ==> (#[trigger] out@[k])@ == patched_slot(
                    table@,
                    alias@,
                    targets,
                    row,
                    assigned@,
                    k,
                ),
        decreases assignment_row.len() - i,
    {
        let mut value = assignment_row[i].copied();
        assert(row[i as int] == assignment_row@[i as int]@);
        assert(targets.len() == target_columns@.len());
        if i < target_columns.len() {
            assert(targets[i as int] == target_columns@[i as int]@);
            match dotted::rsplit_once_dot(target_columns[i].as_str()) {
                Some((relation, name)) => {
                    if text::text_eq(relation.as_str(), alias) || text::text_eq(
                        relation.as_str(),
                        table,
                    ) {
                        match last_assigned(assigned, name.as_str()) {
                            Some(at) => {
                                value = assigned[at].value.copied();
                            },
                            None => {},
                        }
                    }
                },
                None => {},
            }
        }
        out.push(value);
        i = i + 1;
    }
    assert(values::value_views(out@) =~= Seq::new(
        assignment_row@.len(),
        |i: int| patched_slot(table@, alias@, targets, row, assigned@, i),
    ));
    out
}

/// The names under which a row may have an index and its definition.
#[derive(Debug)]
pub struct IndexKeys {
    pub oid_key: String,
    pub definition_key: String,
}

pub open spec fn key_pairs(v: Seq<IndexKeys>) -> Seq<(Seq<char>, Seq<char>)> {
    v.map_values(|k: IndexKeys| (k.oid_key@, k.definition_key@))
}

pub open spec fn plain_keys() -> (Seq<char>, Seq<char>) {
    ("indexrelid"@, "indexdef"@)
}

/// The names under which a row may have the definition of the index that an
/// expression names: those with what qualifies the expression, then the plain ones.
pub open spec fn index_keys(e: Expr) -> Seq<(Seq<char>, Seq<char>)>
    decreases e,
{
    let names = text::views(e.names@);
    if e.kind == ExprKind::Identifier {
        if names.len() > 0 && text::same_ignoring_case(names[0], "indexrelid"@) {
            seq![plain_keys()]
        } else {
            Seq::empty()
        }
    } else if e.kind == ExprKind::CompoundIdentifier {
        if names.len() > 0 && text::same_ignoring_case(names.last(), "indexrelid"@) {
            let prefix = text::joined(names.drop_last(), "."@);
            if prefix.len() == 0 {
                seq![plain_keys()]
            } else {
                seq![(prefix + ".indexrelid"@, prefix + ".indexdef"@), plain_keys()]
            }
        } else {
            Seq::empty()
        }
    } else if (e.kind == ExprKind::Nested || e.kind == ExprKind::Cast) && e.operands@.len() > 0 {
        index_keys(e.operands@[0].expr)
    } else {
        Seq::empty()
    }
}

fn plain_index_keys() -> (r: IndexKeys)
    ensures
        (r.oid_key@, r.definition_key@) == plain_keys(),
{
    IndexKeys { oid_key: "indexrelid".to_owned(), definition_key: "indexdef".to_owned() }
}

fn all_but_last(names: &Vec<String>) -> (r: Vec<String>)
    requires
        names@.len() > 0,
    ensures
        text::views(r@) == text::views(names@).drop_last(),
{
    let mut out: Vec<String> = Vec::new();
    let mut i: usize = 0;
    while i + 1 < names.len()
        invariant
            i < names.len(),
            out@.len() == i,
            forall|k: int| 0 <= k < i ==> (#[trigger] out@[k])@ == names@[k]@,
        decreases names.len() - i,
    {
        out.push(names[i].clone());
        i = i + 1;
    }
    assert(text::views(out@) =~= text::views(names@).drop_last());
    out
}

/// The names under which a row may have the definition of the index that an
/// expression names.
pub fn pg_indexdef_row_key_candidates(indexrelid_expr: &Expr) -> (r: Vec<IndexKeys>)
    ensures
        key_pairs(r@) == index_keys(*indexrelid_expr),
    decreases *indexrelid_expr,
{
    let names = &indexrelid_expr.names;
    let ghost all = text::views(names@);
    assert(all.len() == names@.len());
    let mut out: Vec<IndexKeys> = Vec::new();
    if indexrelid_expr.kind == ExprKind::Identifier {
        if names.len() > 0 && text::eq_ignore_case(names[0].as_str(), "indexrelid") {
            out.push(plain_index_keys());
        }
    } else if indexrelid_expr.kind == ExprKind::CompoundIdentifier {
        if names.len() > 0 && text::eq_ignore_case(names[names.len() - 1].as_str(), "indexrelid") {
            let before = all_but_last(names);
            let prefix = text::join(&before, ".");
            if prefix.as_str().unicode_len() > 0 {
                out.push(
                    IndexKeys {
                        oid_key: text::concat(prefix.as_str(), ".indexrelid"),
                        definition_key: text::concat(prefix.as_str(), ".indexdef"),
                    },
                );
            }
            out.push(plain_index_keys());
        }
    } else if indexrelid_expr.kind == ExprKind::Nested || indexrelid_expr.kind == ExprKind::Cast {
        if indexrelid_expr.operands.len() > 0 {
            return pg_indexdef_row_key_candidates(&indexrelid_expr.operands[0].expr);
        }
    }
    assert(key_pairs(out@) =~= index_keys(*indexrelid_expr));
    out
}

/// What a row has under a pair of names: the number under the first, where there is
/// one, and what is under the second, where there is something: a text, or not.
#[derive(Debug)]
pub struct IndexEntry {
    pub oid: Option<i64>,
    pub definition: Option<Option<String>>,
}

/// The definition of an index: the first under whose names the row has its number
/// and a text. Names without a number or without a definition end the search.
pub open spec fn index_definition(
    expected: i64,
    entries: Seq<IndexEntry>,
    from: int,
) -> Option<Seq<char>>
    decreases entries.len() - from,
{
    if from < 0 || from >= entries.len() {
        None
    } else {
        match entries[from].oid {
            None => None,
            Some(oid) => if oid != expected {
                index_definition(expected, entries, from + 1)
            } else {
                match entries[from].definition {
                    None => None,
                    Some(None) => index_definition(expected, entries, from + 1),
                    Some(Some(definition)) => Some(definition@),
                }
            },
        }
    }
}

/// The definition of an index that a row has, from what it has under the names that
/// `pg_indexdef_row_key_candidates` gives.
pub fn pg_indexdef_from_row(expected: Option<i64>, entries: &Vec<IndexEntry>) -> (r: Option<String>)
    ensures
        (match r {
            Some(s) => Some(s@),
            None => None,
        }) == (match expected {
            Some(oid) => index_definition(oid, entries@, 0),
            None => None,
        }),
{
    let wanted: i64 = match expected {
        Some(oid) => oid,
        None => {
            return None;
        },
    };
    let mut i: usize = 0;
    while i < entries.len()
        invariant
            i <= entries.len(),
            expected == Some(wanted),
            index_definition(wanted, entries@, 0) == index_definition(wanted, entries@, i as int),
        decreases entries.len() - i,
    {
        match entries[i].oid {
            None => {
                return None;
            },
            Some(oid) => {
                if oid == wanted {
                    match &entries[i].definition {
                        None => {
                            return None;
                        },
                        Some(None) => {},
                        Some(Some(definition)) => {
                            return Some(definition.clone());
                        },
                    }
                }
            },
        }
        i = i + 1;
    }
    None
}

} // verus!
