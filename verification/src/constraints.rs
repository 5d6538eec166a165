//! The constraints that the information schema lists of the tables.
use vstd::prelude::*;
use crate::text;

verus! {

/// A column as far as constraints concern it, with the name of the constraint
/// that keeps nulls out of it.
#[derive(Debug)]
pub struct KeyColumn {
    pub name: String,
    pub hidden: bool,
    pub nullable: bool,
    pub primary_key: bool,
    pub not_null_name: String,
}

/// A declared constraint. Of a unique one, `primary` says whether it is the
/// primary key in another form; of a check, the columns are those that its
/// expression refers to.
#[derive(Debug)]
pub enum TableConstraint {
    Unique { name: String, columns: Vec<String>, primary: bool },
    Check { name: String, columns: Vec<String> },
    ForeignKey { name: String, columns: Vec<String> },
    Exclusion { name: String },
}

/// A table with its columns, the columns of its primary key with the name of
/// that key, the single column that is its primary key, where it is not hidden,
/// and its declared constraints.
#[derive(Debug)]
pub struct ConstrainedTable {
    pub name: String,
    pub columns: Vec<KeyColumn>,
    pub primary_key: Vec<String>,
    pub primary_key_name: String,
    pub primary_key_column: Option<String>,
    pub constraints: Vec<TableConstraint>,
}

#[derive(Clone, Copy, Debug, PartialEq, Eq, Structural)]
pub enum ConstraintKind {
    Check,
    PrimaryKey,
    Unique,
    ForeignKey,
    Exclude,
}

/// The name of a kind of constraint.
pub open spec fn kind_text(kind: ConstraintKind) -> Seq<char> {
    match kind {
        ConstraintKind::Check => "CHECK"@,
        ConstraintKind::PrimaryKey => "PRIMARY KEY"@,
        ConstraintKind::Unique => "UNIQUE"@,
        ConstraintKind::ForeignKey => "FOREIGN KEY"@,
        ConstraintKind::Exclude => "EXCLUDE"@,
    }
}

/// The name of a kind of constraint.
pub fn kind_name(kind: ConstraintKind) -> (r: &'static str)
    ensures
        r@ == kind_text(kind),
{
    match kind {
        ConstraintKind::Check => "CHECK",
        ConstraintKind::PrimaryKey => "PRIMARY KEY",
        ConstraintKind::Unique => "UNIQUE",
        ConstraintKind::ForeignKey => "FOREIGN KEY",
        ConstraintKind::Exclude => "EXCLUDE",
    }
}

/// A listed constraint: the table, the name of the constraint, its kind, and
/// the column with its position where a column is listed.
#[derive(Debug)]
pub struct ConstraintEntry {
    pub table: String,
    pub name: String,
    pub kind: ConstraintKind,
    pub column: Option<String>,
    pub position: usize,
}

#[verifier::ext_equal]
pub struct ConstraintView {
    pub table: Seq<char>,
    pub name: Seq<char>,
    pub kind: ConstraintKind,
    pub column: Option<Seq<char>>,
    pub position: int,
}

impl View for ConstraintEntry {
    type V = ConstraintView;

    open spec fn view(&self) -> ConstraintView {
        ConstraintView {
            table: self.table@,
            name: self.name@,
            kind: self.kind,
            column: match self.column {
                Some(c) => Some(c@),
                None => None,
            },
            position: self.position as int,
        }
    }
}

pub open spec fn entry_views(v: Seq<ConstraintEntry>) -> Seq<ConstraintView> {
    v.map_values(|e: ConstraintEntry| e@)
}

/// A constraint of a table as a whole.
pub open spec fn whole(table: Seq<char>, name: Seq<char>, kind: ConstraintKind) -> ConstraintView {
    ConstraintView { table, name, kind, column: None, position: 0 }
}

/// A constraint and one of its columns.
pub open spec fn on_column(
    table: Seq<char>,
    name: Seq<char>,
    kind: ConstraintKind,
    column: Seq<char>,
    position: int,
) -> ConstraintView {
    ConstraintView { table, name, kind, column: Some(column), position }
}

fn push_whole(out: &mut Vec<ConstraintEntry>, table: &str, name: &str, kind: ConstraintKind)
    ensures
        entry_views(final(out)@) == entry_views(old(out)@).push(whole(table@, name@, kind)),
{
    let ghost prior = out@;
    let entry = ConstraintEntry {
        table: table.to_owned(),
        name: name.to_owned(),
        kind,
        column: None,
        position: 0,
    };
    assert(entry@ =~= whole(table@, name@, kind));
    out.push(entry);
    assert(entry_views(out@) =~= entry_views(prior).push(whole(table@, name@, kind)));
}

fn push_column(
    out: &mut Vec<ConstraintEntry>,
    table: &str,
    name: &str,
    kind: ConstraintKind,
    column: &str,
    position: usize,
)
    ensures
        entry_views(final(out)@) == entry_views(old(out)@).push(
            on_column(table@, name@, kind, column@, position as int),
        ),
{
    let ghost prior = out@;
    let entry = ConstraintEntry {
        table: table.to_owned(),
        name: name.to_owned(),
        kind,
        column: Some(column.to_owned()),
        position,
    };
    assert(entry@ =~= on_column(table@, name@, kind, column@, position as int));
    out.push(entry);
    assert(entry_views(out@) =~= entry_views(prior).push(
        on_column(table@, name@, kind, column@, position as int),
    ));
}

/// A constraint keeps nulls out of the column.
pub open spec fn keeps_nulls_out(c: KeyColumn) -> bool {
    !c.hidden && (!c.nullable || c.primary_key)
}

/// The constraints that keep nulls out of columns, as wholes or on their
/// columns.
pub open spec fn not_null_entries(table: Seq<char>, columns: Seq<KeyColumn>, by_column: bool) -> Seq<
    ConstraintView,
>
    decreases columns.len(),
{
    if columns.len() == 0 {
        Seq::empty()
    } else {
        let before = not_null_entries(table, columns.drop_last(), by_column);
        let c = columns.last();
        if !keeps_nulls_out(c) {
            before
        } else if by_column {
            before.push(on_column(table, c.not_null_name@, ConstraintKind::Check, c.name@, 0))
        } else {
            before.push(whole(table, c.not_null_name@, ConstraintKind::Check))
        }
    }
}

fn add_not_null(out: &mut Vec<ConstraintEntry>, table: &ConstrainedTable, by_column: bool)
    ensures
        entry_views(final(out)@) == entry_views(old(out)@) + not_null_entries(
            table.name@,
            table.columns@,
            by_column,
        ),
{
    let ghost start = entry_views(out@);
    let ghost all = table.columns@;
    let mut i: usize = 0;
    assert(all.take(0) =~= Seq::<KeyColumn>::empty());
    assert(entry_views(out@) =~= start + not_null_entries(table.name@, all.take(0), by_column));
    while i < table.columns.len()
        invariant
            i <= table.columns.len(),
            all == table.columns@,
            entry_views(out@) == start + not_null_entries(
                table.name@,
                all.take(i as int),
                by_column,
            ),
        decreases table.columns.len() - i,
    {
        let c = &table.columns[i];
        assert(all.take(i as int + 1).drop_last() =~= all.take(i as int));
        assert(all.take(i as int + 1).last() == *c);
        if !c.hidden && (!c.nullable || c.primary_key) {
            if by_column {
                push_column(
                    out,
                    table.name.as_str(),
                    c.not_null_name.as_str(),
                    ConstraintKind::Check,
                    c.name.as_str(),
                    0,
                );
            } else {
                push_whole(
                    out,
                    table.name.as_str(),
                    c.not_null_name.as_str(),
                    ConstraintKind::Check,
                );
            }
        }
        assert(entry_views(out@) =~= start + not_null_entries(
            table.name@,
            all.take(i as int + 1),
            by_column,
        ));
        i = i + 1;
    }
    assert(all.take(all.len() as int) =~= all);
}

/// The entries of the columns of a constraint, numbered from one where the
/// position counts.
pub open spec fn column_entries(
    table: Seq<char>,
    name: Seq<char>,
    kind: ConstraintKind,
    columns: Seq<Seq<char>>,
    numbered: bool,
) -> Seq<ConstraintView> {
    columns.map(
        |i: int, c: Seq<char>|
            on_column(
                table,
                name,
                kind,
                c,
                if numbered {
                    i + 1
                } else {
                    0
                },
            ),
    )
}

fn add_columns(
    out: &mut Vec<ConstraintEntry>,
    table: &str,
    name: &str,
    kind: ConstraintKind,
    columns: &Vec<String>,
    numbered: bool,
)
    ensures
        entry_views(final(out)@) == entry_views(old(out)@) + column_entries(
            table@,
            name@,
            kind,
            text::views(columns@),
            numbered,
        ),
{
    let ghost start = entry_views(out@);
    let ghost all = column_entries(table@, name@, kind, text::views(columns@), numbered);
    let mut i: usize = 0;
    assert(entry_views(out@) =~= start + all.take(0));
    while i < columns.len()
        invariant
            i <= columns.len(),
            all == column_entries(table@, name@, kind, text::views(columns@), numbered),
            entry_views(out@) == start + all.take(i as int),
        decreases columns.len() - i,
    {
        let position: usize = if numbered {
            i + 1
        } else {
            0
        };
        push_column(out, table, name, kind, columns[i].as_str(), position);
        assert(all[i as int] == on_column(
            table@,
            name@,
            kind,
            columns@[i as int]@,
            position as int,
        ));
        assert(entry_views(out@) =~= start + all.take(i as int + 1));
        i = i + 1;
    }
    assert(all.take(all.len() as int) =~= all);
}

/// The entries of the declared constraints as wholes. A unique constraint that
/// is the primary key is not listed again.
pub open spec fn declared_entries(table: Seq<char>, constraints: Seq<TableConstraint>) -> Seq<
    ConstraintView,
>
    decreases constraints.len(),
{
    if constraints.len() == 0 {
        Seq::empty()
    } else {
        let before = declared_entries(table, constraints.drop_last());
        match constraints.last() {
            TableConstraint::Unique { name, columns, primary } => if primary {
                before
            } else {
                before.push(whole(table, name@, ConstraintKind::Unique))
            },
            TableConstraint::Check { name, columns } => before.push(
                whole(table, name@, ConstraintKind::Check),
            ),
            TableConstraint::ForeignKey { name, columns } => before.push(
                whole(table, name@, ConstraintKind::ForeignKey),
            ),
            TableConstraint::Exclusion { name } => before.push(
                whole(table, name@, ConstraintKind::Exclude),
            ),
        }
    }
}

fn add_declared(out: &mut Vec<ConstraintEntry>, table: &str, constraints: &Vec<TableConstraint>)
    ensures
        entry_views(final(out)@) == entry_views(old(out)@) + declared_entries(
            table@,
            constraints@,
        ),
{
    let ghost start = entry_views(out@);
    let ghost all = constraints@;
    let mut i: usize = 0;
    assert(all.take(0) =~= Seq::<TableConstraint>::empty());
    assert(entry_views(out@) =~= start + declared_entries(table@, all.take(0)));
    while i < constraints.len()
        invariant
            i <= constraints.len(),
            all == constraints@,
            entry_views(out@) == start + declared_entries(table@, all.take(i as int)),
        decreases constraints.len() - i,
    {
        assert(all.take(i as int + 1).drop_last() =~= all.take(i as int));
        assert(all.take(i as int + 1).last() == constraints@[i as int]);
        match &constraints[i] {
            TableConstraint::Unique { name, columns: _, primary } => {
                if !*primary {
                    push_whole(out, table, name.as_str(), ConstraintKind::Unique);
                }
            },
            TableConstraint::Check { name, columns: _ } => {
                push_whole(out, table, name.as_str(), ConstraintKind::Check);
            },
            TableConstraint::ForeignKey { name, columns: _ } => {
                push_whole(out, table, name.as_str(), ConstraintKind::ForeignKey);
            },
            TableConstraint::Exclusion { name } => {
                push_whole(out, table, name.as_str(), ConstraintKind::Exclude);
            },
        }
        assert(entry_views(out@) =~= start + declared_entries(table@, all.take(i as int + 1)));
        i = i + 1;
    }
    assert(all.take(all.len() as int) =~= all);
}

/// The entries of `information_schema.table_constraints` of a table.
pub open spec fn constraints_of(t: ConstrainedTable) -> Seq<ConstraintView> {
    not_null_entries(t.name@, t.columns@, false) + (if t.primary_key@.len() > 0 {
        seq![whole(t.name@, t.primary_key_name@, ConstraintKind::PrimaryKey)]
    } else {
        Seq::empty()
    }) + declared_entries(t.name@, t.constraints@)
}

/// The entries of some listing of the first tables.
pub open spec fn entries_of(
    tables: Seq<ConstrainedTable>,
    listing: spec_fn(ConstrainedTable) -> Seq<ConstraintView>,
    n: int,
) -> Seq<ConstraintView>
    decreases n,
{
    if n <= 0 || n > tables.len() {
        Seq::empty()
    } else {
        entries_of(tables, listing, n - 1) + listing(tables[n - 1])
    }
}

/// The entries of `information_schema.table_constraints`.
pub fn information_schema_table_constraints(tables: &Vec<ConstrainedTable>) -> (r: Vec<
    ConstraintEntry,
>)
    ensures
        entry_views(r@) == entries_of(
            tables@,
            |t: ConstrainedTable| constraints_of(t),
            tables@.len() as int,
        ),
{
    let ghost listing = |t: ConstrainedTable| constraints_of(t);
    let mut out: Vec<ConstraintEntry> = Vec::new();
    let mut i: usize = 0;
    assert(entry_views(out@) =~= entries_of(tables@, listing, 0));
    while i < tables.len()
        invariant
            i <= tables.len(),
            listing == (|t: ConstrainedTable| constraints_of(t)),
            entry_views(out@) == entries_of(tables@, listing, i as int),
        decreases tables.len() - i,
    {
        let t = &tables[i];
        let ghost before = entry_views(out@);
        add_not_null(&mut out, t, false);
        if t.primary_key.len() > 0 {
            push_whole(
                &mut out,
                t.name.as_str(),
                t.primary_key_name.as_str(),
                ConstraintKind::PrimaryKey,
            );
        }
        add_declared(&mut out, t.name.as_str(), &t.constraints);
        assert(entry_views(out@) =~= before + constraints_of(*t));
        i = i + 1;
    }
    out
}

/// The entries of the columns of the declared constraints that are keys.
pub open spec fn key_entries(table: Seq<char>, constraints: Seq<TableConstraint>) -> Seq<
    ConstraintView,
>
    decreases constraints.len(),
{
    if constraints.len() == 0 {
        Seq::empty()
    } else {
        let before = key_entries(table, constraints.drop_last());
        match constraints.last() {
            TableConstraint::Unique { name, columns, primary } => if primary {
                before
            } else {
                before + column_entries(
                    table,
                    name@,
                    ConstraintKind::Unique,
                    text::views(columns@),
                    true,
                )
            },
            TableConstraint::ForeignKey { name, columns } => before + column_entries(
                table,
                name@,
                ConstraintKind::ForeignKey,
                text::views(columns@),
                true,
            ),
            _ => before,
        }
    }
}

fn add_keys(out: &mut Vec<ConstraintEntry>, table: &str, constraints: &Vec<TableConstraint>)
    ensures
        entry_views(final(out)@) == entry_views(old(out)@) + key_entries(table@, constraints@),
{
    let ghost start = entry_views(out@);
    let ghost all = constraints@;
    let mut i: usize = 0;
    assert(all.take(0) =~= Seq::<TableConstraint>::empty());
    assert(entry_views(out@) =~= start + key_entries(table@, all.take(0)));
    while i < constraints.len()
        invariant
            i <= constraints.len(),
            all == constraints@,
            entry_views(out@) == start + key_entries(table@, all.take(i as int)),
        decreases constraints.len() - i,
    {
        assert(all.take(i as int + 1).drop_last() =~= all.take(i as int));
        assert(all.take(i as int + 1).last() == constraints@[i as int]);
        match &constraints[i] {
            TableConstraint::Unique { name, columns, primary } => {
                if !*primary {
                    add_columns(out, table, name.as_str(), ConstraintKind::Unique, columns, true);
                }
            },
            TableConstraint::ForeignKey { name, columns } => {
                add_columns(out, table, name.as_str(), ConstraintKind::ForeignKey, columns, true);
            },
            _ => {},
        }
        assert(entry_views(out@) =~= start + key_entries(table@, all.take(i as int + 1)));
        i = i + 1;
    }
    assert(all.take(all.len() as int) =~= all);
}

/// The entries of `information_schema.key_column_usage` of a table.
pub open spec fn key_columns_of(t: ConstrainedTable) -> Seq<ConstraintView> {
    column_entries(
        t.name@,
        t.primary_key_name@,
        ConstraintKind::PrimaryKey,
        text::views(t.primary_key@),
        true,
    ) + key_entries(t.name@, t.constraints@)
}

/// The entries of `information_schema.key_column_usage`.
pub fn information_schema_key_column_usage(tables: &Vec<ConstrainedTable>) -> (r: Vec<
    ConstraintEntry,
>)
    ensures
        entry_views(r@) == entries_of(
            tables@,
            |t: ConstrainedTable| key_columns_of(t),
            tables@.len() as int,
        ),
{
    let ghost listing = |t: ConstrainedTable| key_columns_of(t);
    let mut out: Vec<ConstraintEntry> = Vec::new();
    let mut i: usize = 0;
    assert(entry_views(out@) =~= entries_of(tables@, listing, 0));
    while i < tables.len()
        invariant
            i <= tables.len(),
            listing == (|t: ConstrainedTable| key_columns_of(t)),
            entry_views(out@) == entries_of(tables@, listing, i as int),
        decreases tables.len() - i,
    {
        let t = &tables[i];
        let ghost before = entry_views(out@);
        add_columns(
            &mut out,
            t.name.as_str(),
            t.primary_key_name.as_str(),
            ConstraintKind::PrimaryKey,
            &t.primary_key,
            true,
        );
        add_keys(&mut out, t.name.as_str(), &t.constraints);
        assert(entry_views(out@) =~= before + key_columns_of(*t));
        i = i + 1;
    }
    out
}

/// The entries of the columns that declared constraints use.
pub open spec fn used_entries(table: Seq<char>, constraints: Seq<TableConstraint>) -> Seq<
    ConstraintView,
>
    decreases constraints.len(),
{
    if constraints.len() == 0 {
        Seq::empty()
    } else {
        let before = used_entries(table, constraints.drop_last());
        match constraints.last() {
            TableConstraint::Unique { name, columns, primary } => before + column_entries(
                table,
                name@,
                ConstraintKind::Unique,
                text::views(columns@),
                false,
            ),
            TableConstraint::ForeignKey { name, columns } => before + column_entries(
                table,
                name@,
                ConstraintKind::ForeignKey,
                text::views(columns@),
                false,
            ),
            TableConstraint::Check { name, columns } => before + column_entries(
                table,
                name@,
                ConstraintKind::Check,
                text::views(columns@),
                false,
            ),
            TableConstraint::Exclusion { name } => before,
        }
    }
}

fn add_used(out: &mut Vec<ConstraintEntry>, table: &str, constraints: &Vec<TableConstraint>)
    ensures
        entry_views(final(out)@) == entry_views(old(out)@) + used_entries(table@, constraints@),
{
    let ghost start = entry_views(out@);
    let ghost all = constraints@;
    let mut i: usize = 0;
    assert(all.take(0) =~= Seq::<TableConstraint>::empty());
    assert(entry_views(out@) =~= start + used_entries(table@, all.take(0)));
    while i < constraints.len()
        invariant
            i <= constraints.len(),
            all == constraints@,
            entry_views(out@) == start + used_entries(table@, all.take(i as int)),
        decreases constraints.len() - i,
    {
        assert(all.take(i as int + 1).drop_last() =~= all.take(i as int));
        assert(all.take(i as int + 1).last() == constraints@[i as int]);
        match &constraints[i] {
            TableConstraint::Unique { name, columns, primary: _ } => {
                add_columns(out, table, name.as_str(), ConstraintKind::Unique, columns, false);
            },
            TableConstraint::ForeignKey { name, columns } => {
                add_columns(out, table, name.as_str(), ConstraintKind::ForeignKey, columns, false);
            },
            TableConstraint::Check { name, columns } => {
                add_columns(out, table, name.as_str(), ConstraintKind::Check, columns, false);
            },
            TableConstraint::Exclusion { name: _ } => {},
        }
        assert(entry_views(out@) =~= start + used_entries(table@, all.take(i as int + 1)));
        i = i + 1;
    }
    assert(all.take(all.len() as int) =~= all);
}

/// The entries of `information_schema.constraint_column_usage` of a table.
pub open spec fn used_columns_of(t: ConstrainedTable) -> Seq<ConstraintView> {
    not_null_entries(t.name@, t.columns@, true) + (match t.primary_key_column {
        Some(column) => seq![
            on_column(
                t.name@,
                t.primary_key_name@,
                ConstraintKind::PrimaryKey,
                column@,
                0,
            ),
        ],
        None => Seq::empty(),
    }) + used_entries(t.name@, t.constraints@)
}

/// The entries of `information_schema.constraint_column_usage`.
pub fn information_schema_constraint_column_usage(tables: &Vec<ConstrainedTable>) -> (r: Vec<
    ConstraintEntry,
>)
    ensures
        entry_views(r@) == entries_of(
            tables@,
            |t: ConstrainedTable| used_columns_of(t),
            tables@.len() as int,
        ),
{
    let ghost listing = |t: ConstrainedTable| used_columns_of(t);
    let mut out: Vec<ConstraintEntry> = Vec::new();
    let mut i: usize = 0;
    assert(entry_views(out@) =~= entries_of(tables@, listing, 0));
    while i < tables.len()
        invariant
            i <= tables.len(),
            listing == (|t: ConstrainedTable| used_columns_of(t)),
            entry_views(out@) == entries_of(tables@, listing, i as int),
        decreases tables.len() - i,
    {
        let t = &tables[i];
        let ghost before = entry_views(out@);
        add_not_null(&mut out, t, true);
        match &t.primary_key_column {
            Some(column) => {
                push_column(
                    &mut out,
                    t.name.as_str(),
                    t.primary_key_name.as_str(),
                    ConstraintKind::PrimaryKey,
                    column.as_str(),
                    0,
                );
            },
            None => {},
        }
        add_used(&mut out, t.name.as_str(), &t.constraints);
        assert(entry_views(out@) =~= before + used_columns_of(*t));
        i = i + 1;
    }
    out
}

} // verus!
