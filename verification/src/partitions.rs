//! What the partitions of a table have from it.
use vstd::prelude::*;
use crate::error;
use crate::error::SqlError;
use crate::guc;
use crate::json;
use crate::json::{Json, JsonView};
use crate::text;

verus! {

/// A constraint: its name and its definition.
#[derive(Debug)]
pub struct Constraint {
    pub name: String,
    pub definition: String,
}

/// A table, or a partition of one. Columns and policies are their definitions.
#[derive(Debug)]
pub struct PartitionTable {
    pub name: String,
    pub partition_of: Option<String>,
    pub columns: Vec<String>,
    pub primary_key_name: Option<String>,
    pub constraints: Vec<Constraint>,
    pub rls_enabled: bool,
    pub rls_forced: bool,
    pub policies: Vec<String>,
}

pub struct ConstraintView {
    pub name: Seq<char>,
    pub definition: Seq<char>,
}

#[verifier::ext_equal]
pub struct PartitionView {
    pub name: Seq<char>,
    pub partition_of: Option<Seq<char>>,
    pub columns: Seq<Seq<char>>,
    pub primary_key_name: Option<Seq<char>>,
    pub constraints: Seq<ConstraintView>,
    pub rls_enabled: bool,
    pub rls_forced: bool,
    pub policies: Seq<Seq<char>>,
}

pub open spec fn constraint_views(v: Seq<Constraint>) -> Seq<ConstraintView> {
    v.map_values(|c: Constraint| ConstraintView { name: c.name@, definition: c.definition@ })
}

impl View for PartitionTable {
    type V = PartitionView;

    open spec fn view(&self) -> PartitionView {
        PartitionView {
            name: self.name@,
            partition_of: error::view_option(self.partition_of),
            columns: text::views(self.columns@),
            primary_key_name: error::view_option(self.primary_key_name),
            constraints: constraint_views(self.constraints@),
            rls_enabled: self.rls_enabled,
            rls_forced: self.rls_forced,
            policies: text::views(self.policies@),
        }
    }
}

pub open spec fn table_views(v: Seq<PartitionTable>) -> Seq<PartitionView> {
    v.map_values(|t: PartitionTable| t@)
}

/// Whether a constraint of the name is among some, without the case of the
/// letters.
pub open spec fn has_constraint(list: Seq<ConstraintView>, name: Seq<char>) -> bool {
    exists|k: int| 0 <= k < list.len() && text::lower((#[trigger] list[k]).name) == text::lower(
        name,
    )
}

/// The constraints that do not have the name of one that is inherited.
pub open spec fn own_constraints(list: Seq<ConstraintView>, inherited: Seq<ConstraintView>) -> Seq<
    ConstraintView,
>
    decreases list.len(),
{
    if list.len() == 0 {
        Seq::empty()
    } else {
        let before = own_constraints(list.drop_last(), inherited);
        if has_constraint(inherited, list.last().name) {
            before
        } else {
            before.push(list.last())
        }
    }
}

/// The constraints of a partition: those that it inherits, then its own.
pub open spec fn merged(parent: Seq<ConstraintView>, child: Seq<ConstraintView>) -> Seq<
    ConstraintView,
> {
    parent + own_constraints(child, parent)
}

/// A partition with what it inherits.
pub open spec fn inheriting(child: PartitionView, parent: PartitionView) -> PartitionView {
    if child.partition_of is None {
        child
    } else {
        PartitionView {
            columns: parent.columns,
            primary_key_name: parent.primary_key_name,
            constraints: merged(parent.constraints, child.constraints),
            rls_enabled: parent.rls_enabled,
            rls_forced: parent.rls_forced,
            policies: parent.policies,
            ..child
        }
    }
}

fn copy_constraint(c: &Constraint) -> (r: Constraint)
    ensures
        r.name@ == c.name@,
        r.definition@ == c.definition@,
{
    Constraint { name: c.name.clone(), definition: c.definition.clone() }
}

fn is_among(list: &Vec<Constraint>, name: &str) -> (r: bool)
    ensures
        r == has_constraint(constraint_views(list@), name@),
{
    let ghost all = constraint_views(list@);
    let wanted = text::to_lower(name);
    let mut i: usize = 0;
    while i < list.len()
        invariant
            i <= list.len(),
            all == constraint_views(list@),
            wanted@ == text::lower(name@),
            forall|k: int| 0 <= k < i ==> text::lower((#[trigger] all[k]).name) != wanted@,
        decreases list.len() - i,
    {
        assert(all[i as int].name == list@[i as int].name@);
        let own = text::to_lower(list[i].name.as_str());
        if text::text_eq(own.as_str(), wanted.as_str()) {
            return true;
        }
        i = i + 1;
    }
    false
}

/// The constraints of a partition.
pub fn merge_inherited_constraints(parent: &Vec<Constraint>, child: &Vec<Constraint>) -> (r: Vec<
    Constraint,
>)
    ensures
        constraint_views(r@) == merged(constraint_views(parent@), constraint_views(child@)),
{
    let ghost inherited = constraint_views(parent@);
    let ghost own = constraint_views(child@);
    let mut out: Vec<Constraint> = Vec::new();
    let mut i: usize = 0;
    while i < parent.len()
        invariant
            i <= parent.len(),
            inherited == constraint_views(parent@),
            out@.len() == i,
            forall|k: int|
                0 <= k < i ==> (#[trigger] out@[k]).name@ == inherited[k].name
                    && out@[k].definition@ == inherited[k].definition,
        decreases parent.len() - i,
    {
        out.push(copy_constraint(&parent[i]));
        i = i + 1;
    }
    assert(constraint_views(out@) =~= inherited + Seq::<ConstraintView>::empty());
    let mut j: usize = 0;
    while j < child.len()
        invariant
            j <= child.len(),
            inherited == constraint_views(parent@),
            own == constraint_views(child@),
            constraint_views(out@) == inherited + own_constraints(own.take(j as int), inherited),
        decreases child.len() - j,
    {
        assert(own.take(j + 1).drop_last() =~= own.take(j as int));
        assert(own.take(j + 1).last() == own[j as int]);
        assert(own[j as int] == (ConstraintView {
            name: child@[j as int].name@,
            definition: child@[j as int].definition@,
        }));
        let ghost prior = out@;
        if !is_among(parent, child[j].name.as_str()) {
            out.push(copy_constraint(&child[j]));
            assert(constraint_views(out@) =~= constraint_views(prior).push(own[j as int]));
            assert(constraint_views(out@) =~= inherited + own_constraints(
                own.take(j as int),
                inherited,
            ).push(own[j as int]));
        }
        j = j + 1;
    }
    assert(own.take(own.len() as int) =~= own);
    out
}

fn copy_constraints(list: &Vec<Constraint>) -> (r: Vec<Constraint>)
    ensures
        constraint_views(r@) == constraint_views(list@),
{
    let none: Vec<Constraint> = Vec::new();
    let r = merge_inherited_constraints(list, &none);
    assert(constraint_views(none@) =~= Seq::empty());
    assert(constraint_views(r@) =~= constraint_views(list@));
    r
}

fn copy_table(t: &PartitionTable) -> (r: PartitionTable)
    ensures
        r@ == t@,
{
    PartitionTable {
        name: t.name.clone(),
        partition_of: guc::copied_option(&t.partition_of),
        columns: text::copy_names(&t.columns),
        primary_key_name: guc::copied_option(&t.primary_key_name),
        constraints: copy_constraints(&t.constraints),
        rls_enabled: t.rls_enabled,
        rls_forced: t.rls_forced,
        policies: text::copy_names(&t.policies),
    }
}

/// A partition with what it inherits.
pub fn schema_with_parent_inheritance(child: &PartitionTable, parent: &PartitionTable) -> (r:
    PartitionTable)
    ensures
        r@ == inheriting(child@, parent@),
{
    if child.partition_of.is_none() {
        return copy_table(child);
    }
    PartitionTable {
        name: child.name.clone(),
        partition_of: guc::copied_option(&child.partition_of),
        columns: text::copy_names(&parent.columns),
        primary_key_name: guc::copied_option(&parent.primary_key_name),
        constraints: merge_inherited_constraints(&parent.constraints, &child.constraints),
        rls_enabled: parent.rls_enabled,
        rls_forced: parent.rls_forced,
        policies: text::copy_names(&parent.policies),
    }
}

/// The last table with a name, without the case of its letters.
pub open spec fn last_named(tables: Seq<PartitionView>, name: Seq<char>) -> Option<PartitionView>
    decreases tables.len(),
{
    if tables.len() == 0 {
        None
    } else if text::lower(tables.last().name) == text::lower(name) {
        Some(tables.last())
    } else {
        last_named(tables.drop_last(), name)
    }
}

/// A table with what it inherits from its parent among some tables, if it has one.
pub open spec fn reconciled(table: PartitionView, tables: Seq<PartitionView>) -> PartitionView {
    match table.partition_of {
        Some(parent) => match last_named(tables, parent) {
            Some(p) => inheriting(table, p),
            None => table,
        },
        None => table,
    }
}

fn find_last(tables: &Vec<PartitionTable>, name: &str) -> (r: Option<usize>)
    ensures
        match (r, last_named(table_views(tables@), name@)) {
            (Some(at), Some(view)) => at < tables@.len() && tables@[at as int]@ == view,
            (None, None) => true,
            _ => false,
        },
{
    let ghost all = table_views(tables@);
    let wanted = text::to_lower(name);
    let mut i: usize = tables.len();
    assert(all.take(i as int) =~= all);
    while i > 0
        invariant
            i <= tables.len(),
            all == table_views(tables@),
            wanted@ == text::lower(name@),
            last_named(all, name@) == last_named(all.take(i as int), name@),
        decreases i,
    {
        assert(all.take(i as int).last() == tables@[i - 1]@);
        assert(all.take(i as int).drop_last() =~= all.take(i - 1));
        let own = text::to_lower(tables[i - 1].name.as_str());
        if text::text_eq(own.as_str(), wanted.as_str()) {
            return Some(i - 1);
        }
        i = i - 1;
    }
    None
}

/// A table with what it inherits from its parent, if that exists.
pub fn reconcile_partition_schema(table: &PartitionTable, parent: &Option<PartitionTable>) -> (r:
    PartitionTable)
    ensures
        r@ == (match *parent {
            Some(p) => inheriting(table@, p@),
            None => table@,
        }),
{
    match parent {
        Some(p) => schema_with_parent_inheritance(table, p),
        None => copy_table(table),
    }
}

/// Tables, each with what it inherits from its parent among them.
pub fn reconcile_partition_schemas(tables: &Vec<PartitionTable>) -> (r: Vec<PartitionTable>)
    ensures
        table_views(r@) == table_views(tables@).map_values(
            |t: PartitionView| reconciled(t, table_views(tables@)),
        ),
{
    let ghost all = table_views(tables@);
    let mut out: Vec<PartitionTable> = Vec::new();
    let mut i: usize = 0;
    while i < tables.len()
        invariant
            i <= tables.len(),
            all == table_views(tables@),
            out@.len() == i,
            forall|k: int| 0 <= k < i ==> (#[trigger] out@[k])@ == reconciled(all[k], all),
        decreases tables.len() - i,
    {
        assert(all[i as int] == tables@[i as int]@);
        let next = match &tables[i].partition_of {
            Some(parent) => match find_last(tables, parent.as_str()) {
                Some(at) => schema_with_parent_inheritance(&tables[i], &tables[at]),
                None => copy_table(&tables[i]),
            },
            None => copy_table(&tables[i]),
        };
        out.push(next);
        i = i + 1;
    }
    assert(table_views(out@) =~= all.map_values(|t: PartitionView| reconciled(t, all)));
    out
}

proof fn lemma_own_of_inherited(list: Seq<ConstraintView>, inherited: Seq<ConstraintView>)
    requires
        forall|k: int|
            0 <= k < list.len() ==> has_constraint(inherited, (#[trigger] list[k]).name),
    ensures
        own_constraints(list, inherited) == Seq::<ConstraintView>::empty(),
    decreases list.len(),
{
    if list.len() > 0 {
        let rest = list.drop_last();
        assert forall|k: int| 0 <= k < rest.len() implies has_constraint(
            inherited,
            (#[trigger] rest[k]).name,
        ) by {
            assert(rest[k] == list[k]);
        }
        lemma_own_of_inherited(rest, inherited);
        assert(has_constraint(inherited, list[list.len() - 1].name));
    }
}

proof fn lemma_own_of_sum(
    a: Seq<ConstraintView>,
    b: Seq<ConstraintView>,
    inherited: Seq<ConstraintView>,
)
    ensures
        own_constraints(a + b, inherited) == own_constraints(a, inherited) + own_constraints(
            b,
            inherited,
        ),
    decreases b.len(),
{
    if b.len() == 0 {
        assert(a + b =~= a);
        assert(own_constraints(a, inherited) + own_constraints(b, inherited) =~= own_constraints(
            a,
            inherited,
        ));
    } else {
        lemma_own_of_sum(a, b.drop_last(), inherited);
        assert((a + b).drop_last() =~= a + b.drop_last());
        assert(own_constraints(a + b, inherited) =~= own_constraints(a, inherited)
            + own_constraints(b, inherited));
    }
}

proof fn lemma_own_twice(list: Seq<ConstraintView>, inherited: Seq<ConstraintView>)
    ensures
        own_constraints(own_constraints(list, inherited), inherited) == own_constraints(
            list,
            inherited,
        ),
    decreases list.len(),
{
    if list.len() > 0 {
        lemma_own_twice(list.drop_last(), inherited);
        let own = own_constraints(list, inherited);
        if !has_constraint(inherited, list.last().name) {
            assert(own.drop_last() =~= own_constraints(list.drop_last(), inherited));
        }
    }
}

/// A partition has all constraints of its parent, first, and inheriting them again
/// changes nothing.
pub proof fn law_merged(parent: Seq<ConstraintView>, child: Seq<ConstraintView>)
    ensures
        parent.is_prefix_of(merged(parent, child)),
        merged(parent, merged(parent, child)) == merged(parent, child),
{
    let own = own_constraints(child, parent);
    assert(merged(parent, child).subrange(0, parent.len() as int) =~= parent);
    assert forall|k: int| 0 <= k < parent.len() implies has_constraint(
        parent,
        (#[trigger] parent[k]).name,
    ) by {
        assert(text::lower(parent[k].name) == text::lower(parent[k].name));
    }
    lemma_own_of_inherited(parent, parent);
    lemma_own_of_sum(parent, own, parent);
    lemma_own_twice(child, parent);
    assert(Seq::<ConstraintView>::empty() + own =~= own);
}

/// Inheriting from the same parent again changes nothing.
pub proof fn law_inheriting_twice(child: PartitionView, parent: PartitionView)
    ensures
        inheriting(inheriting(child, parent), parent) == inheriting(child, parent),
{
    law_merged(parent.constraints, child.constraints);
}

/// What the catalog says of a table at a glance.
#[derive(Debug)]
pub struct TableCatalogSummary {
    pub name: String,
    pub schema_name: String,
    pub partitioned: bool,
}

/// The text of a member of an object.
pub open spec fn text_member(j: JsonView, name: Seq<char>) -> Option<Seq<char>> {
    match json::field(j, name) {
        Some(JsonView::Text(s)) => Some(s),
        _ => None,
    }
}

fn text_of<'a>(j: &'a Json, name: &str) -> (r: Option<&'a str>)
    ensures
        text::view_str(r) == text_member(j@, name@),
{
    match json::get_field(j, name) {
        Some(Json::Text(s)) => Some(s.as_str()),
        _ => None,
    }
}

/// What a record of the catalog says of a table: its name, its schema, which is
/// the default one where none is kept, and whether it is partitioned.
pub fn table_catalog_summary_from_record(metadata: &Json, default_schema: &str) -> (r: Result<
    TableCatalogSummary,
    SqlError,
>)
    ensures
        match r {
            Ok(s) => {
                &&& metadata@ is Object
                &&& Some(s.name@) == text_member(metadata@, "name"@)
                &&& s.schema_name@ == (match text_member(metadata@, "schema_name"@) {
                    Some(name) => name,
                    None => default_schema@,
                })
                &&& s.partitioned == (match json::field(metadata@, "partitioning"@) {
                    Some(v) => !(v is Null),
                    None => false,
                })
            },
            Err(e) => if !(metadata@ is Object) {
                e@ == error::invalid_sql_error("schema catalog record must contain an object"@)
            } else {
                &&& text_member(metadata@, "name"@) is None
                &&& e@ == error::invalid_sql_error(
                    "schema catalog record is missing table name"@,
                )
            },
        },
{
    match metadata {
        Json::Object(_) => {},
        _ => {
            return Err(
                SqlError::invalid_sql("schema catalog record must contain an object".to_owned()),
            );
        },
    }
    let name = match text_of(metadata, "name") {
        Some(name) => name.to_owned(),
        None => {
            return Err(
                SqlError::invalid_sql("schema catalog record is missing table name".to_owned()),
            );
        },
    };
    let schema_name = match text_of(metadata, "schema_name") {
        Some(name) => name.to_owned(),
        None => default_schema.to_owned(),
    };
    let partitioned = match json::get_field(metadata, "partitioning") {
        Some(Json::Null) => false,
        Some(_) => true,
        None => false,
    };
    Ok(TableCatalogSummary { name, schema_name, partitioned })
}

} // verus!
