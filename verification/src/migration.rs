//! Migration planning: how safely each statement of a migration runs.
use vstd::prelude::*;
use crate::error::SqlError;
use crate::json;
use crate::json::{Json, JsonView};
use crate::parse;
use crate::parse::{ParsedStatement, ParsedView, SqlLimits};
use crate::text;

verus! {

#[derive(Clone, Copy, Debug, PartialEq, Eq, Structural)]
pub enum MigrationStatementSafety {
    TransactionalDdl,
    OnlineSafeDdl,
    RowRewrite,
    NonDdl,
    Unsupported,
}

#[derive(Clone, Debug)]
pub struct MigrationStatementPlan {
    pub ordinal: usize,
    pub sql: String,
    pub safety: MigrationStatementSafety,
    pub reason: String,
}

#[verifier::ext_equal]
pub struct PlanView {
    pub ordinal: nat,
    pub sql: Seq<char>,
    pub safety: MigrationStatementSafety,
    pub reason: Seq<char>,
}

impl View for MigrationStatementPlan {
    type V = PlanView;

    open spec fn view(&self) -> PlanView {
        PlanView {
            ordinal: self.ordinal as nat,
            sql: self.sql@,
            safety: self.safety,
            reason: self.reason@,
        }
    }
}

pub open spec fn plan_views(v: Seq<MigrationStatementPlan>) -> Seq<PlanView> {
    v.map_values(|p: MigrationStatementPlan| p@)
}

/// What one operation of an `ALTER TABLE` does to the rows of the table.
#[derive(Clone, Copy, Debug, PartialEq, Eq, Structural)]
pub enum OperationEffect {
    OnlineSafe,
    AddColumnRewrite,
    AlterColumnRewrite,
    TableRewrite,
    Unsupported,
}

/// The column definition has that option.
pub open spec fn has_option(options: Seq<JsonView>, name: Seq<char>) -> bool {
    exists|i: int|
        0 <= i < options.len() && json::is_variant(
            json::field_or_null(#[trigger] options[i], "option"@),
            name,
        )
}

/// The options of the column that an `ADD COLUMN` adds.
pub open spec fn added_column_options(operation: JsonView) -> Seq<JsonView> {
    json::elements(
        json::field_or_null(
            json::field_or_null(json::payload(operation), "column_def"@),
            "options"@,
        ),
    )
}

pub open spec fn operation_effect(operation: JsonView) -> OperationEffect {
    if json::is_variant(operation, "AddColumn"@) {
        let options = added_column_options(operation);
        if has_option(options, "NotNull"@) || has_option(options, "Default"@) {
            OperationEffect::AddColumnRewrite
        } else {
            OperationEffect::OnlineSafe
        }
    } else if json::is_variant(operation, "AddConstraint"@) || json::is_variant(
        operation,
        "DropConstraint"@,
    ) || json::is_variant(operation, "RenameConstraint"@) || json::is_variant(
        operation,
        "EnableRowLevelSecurity"@,
    ) || json::is_variant(operation, "DisableRowLevelSecurity"@) {
        OperationEffect::OnlineSafe
    } else if json::is_variant(operation, "AlterColumn"@) {
        let op = json::field_or_null(json::payload(operation), "op"@);
        if json::is_variant(op, "SetNotNull"@) || json::is_variant(op, "DropNotNull"@)
            || json::is_variant(op, "SetDefault"@) || json::is_variant(op, "DropDefault"@) {
            OperationEffect::OnlineSafe
        } else {
            OperationEffect::AlterColumnRewrite
        }
    } else if json::is_variant(operation, "DropColumn"@) || json::is_variant(
        operation,
        "RenameColumn"@,
    ) || json::is_variant(operation, "RenameTable"@) {
        OperationEffect::TableRewrite
    } else {
        OperationEffect::Unsupported
    }
}

/// The text of the `i`-th part of a statement.
pub open spec fn part_text(parts: Seq<Seq<char>>, i: int) -> Seq<char> {
    if 0 <= i < parts.len() {
        parts[i]
    } else {
        Seq::empty()
    }
}

/// The verdict on an operation that is not safe online; `operation` is its text.
pub open spec fn unsafe_verdict(effect: OperationEffect, operation: Seq<char>) -> (
    MigrationStatementSafety,
    Seq<char>,
) {
    match effect {
        OperationEffect::AddColumnRewrite => (
            MigrationStatementSafety::RowRewrite,
            "ADD COLUMN with NOT NULL or DEFAULT may rewrite existing rows; use add nullable column, chunked backfill, validate, then enforce"@,
        ),
        OperationEffect::AlterColumnRewrite => (
            MigrationStatementSafety::RowRewrite,
            "ALTER COLUMN "@ + operation
                + " may rewrite existing rows and is not migration-transactional"@,
        ),
        OperationEffect::TableRewrite => (
            MigrationStatementSafety::RowRewrite,
            "ALTER TABLE operation "@ + operation + " rewrites records or collection files"@,
        ),
        _ => (
            MigrationStatementSafety::Unsupported,
            "ALTER TABLE operation "@ + operation + " is not supported by BicDB migrations"@,
        ),
    }
}

/// The position of the first operation at or after `from` that is not safe
/// online.
pub open spec fn first_unsafe(operations: Seq<JsonView>, from: int) -> Option<int>
    decreases operations.len() - from,
{
    if from < 0 || from >= operations.len() {
        None
    } else if operation_effect(operations[from]) != OperationEffect::OnlineSafe {
        Some(from)
    } else {
        first_unsafe(operations, from + 1)
    }
}

/// The verdict on an `ALTER TABLE`: that on its first operation that is not
/// safe online, if there is one.
pub open spec fn alter_table_verdict(operations: Seq<JsonView>, parts: Seq<Seq<char>>) -> (
    MigrationStatementSafety,
    Seq<char>,
) {
    match first_unsafe(operations, 0) {
        Some(i) => unsafe_verdict(operation_effect(operations[i]), part_text(parts, i)),
        None => if operations.len() > 0 {
            (
                MigrationStatementSafety::OnlineSafeDdl,
                "ALTER TABLE operation follows BicDB online-safe metadata-first migration patterns"@,
            )
        } else {
            (
                MigrationStatementSafety::TransactionalDdl,
                "empty ALTER TABLE has no mutation"@,
            )
        },
    }
}

pub open spec fn creates_metadata(tree: JsonView) -> bool {
    ||| json::is_variant(tree, "CreateTable"@)
    ||| json::is_variant(tree, "CreateView"@)
    ||| json::is_variant(tree, "CreateSequence"@)
    ||| json::is_variant(tree, "CreateFunction"@)
    ||| json::is_variant(tree, "CreateProcedure"@)
    ||| json::is_variant(tree, "CreateTrigger"@)
    ||| json::is_variant(tree, "CreateRole"@)
}

pub open spec fn changes_routine(tree: JsonView) -> bool {
    ||| json::is_variant(tree, "DropFunction"@)
    ||| json::is_variant(tree, "DropProcedure"@)
    ||| json::is_variant(tree, "AlterFunction"@)
    ||| json::is_variant(tree, "DropTrigger"@)
}

/// The kinds of objects that a migration may drop.
pub open spec fn is_droppable(object_type: JsonView) -> bool {
    ||| json::is_variant(object_type, "Table"@)
    ||| json::is_variant(object_type, "Index"@)
    ||| json::is_variant(object_type, "Sequence"@)
    ||| json::is_variant(object_type, "View"@)
}

/// How safely a statement runs in a migration, and why.
pub open spec fn statement_verdict(p: ParsedView) -> (MigrationStatementSafety, Seq<char>) {
    let content = json::payload(p.tree);
    if creates_metadata(p.tree) {
        (
            MigrationStatementSafety::TransactionalDdl,
            "metadata is committed through BicDB atomic catalog/record writes"@,
        )
    } else if json::is_variant(p.tree, "CreateIndex"@) {
        (
            MigrationStatementSafety::OnlineSafeDdl,
            "BicDB builds secondary indexes from committed records before catalog publication"@,
        )
    } else if json::is_variant(p.tree, "Drop"@) {
        if is_droppable(json::field_or_null(content, "object_type"@)) {
            (
                MigrationStatementSafety::TransactionalDdl,
                "DROP "@ + part_text(p.parts, 0) + " uses atomic catalog updates for "@
                    + text::decimal(json::elements(json::field_or_null(content, "names"@)).len())
                    + " object(s)"@,
            )
        } else {
            (
                MigrationStatementSafety::Unsupported,
                "DROP "@ + part_text(p.parts, 0) + " is not supported by BicDB migrations"@,
            )
        }
    } else if changes_routine(p.tree) {
        (
            MigrationStatementSafety::TransactionalDdl,
            "routine/trigger metadata is stored in BicDB system catalogs"@,
        )
    } else if json::is_variant(p.tree, "AlterTable"@) {
        alter_table_verdict(
            json::elements(json::field_or_null(content, "operations"@)),
            p.parts,
        )
    } else if json::is_variant(p.tree, "Insert"@) || json::is_variant(p.tree, "Update"@)
        || json::is_variant(p.tree, "Delete"@) {
        (
            MigrationStatementSafety::NonDdl,
            "DML is allowed in migrations but is row-transactional, not DDL"@,
        )
    } else if json::is_variant(p.tree, "Analyze"@) {
        (
            MigrationStatementSafety::OnlineSafeDdl,
            "ANALYZE updates planner statistics from committed records"@,
        )
    } else if json::is_variant(p.tree, "Lock"@) {
        (
            MigrationStatementSafety::TransactionalDdl,
            "LOCK TABLE is accepted as a migration coordination command; BicDB serializes catalog writes"@,
        )
    } else {
        (
            MigrationStatementSafety::Unsupported,
            "statement is not supported by BicDB migrations: "@ + p.text,
        )
    }
}

/// The plan of a list of statements, numbered from one.
pub open spec fn plan_of(statements: Seq<ParsedView>) -> Seq<PlanView> {
    Seq::new(
        statements.len(),
        |i: int|
            PlanView {
                ordinal: (i + 1) as nat,
                sql: statements[i].text,
                safety: statement_verdict(statements[i]).0,
                reason: statement_verdict(statements[i]).1,
            },
    )
}

fn option_present(options: Option<&Json>, name: &str) -> (r: bool)
    ensures
        r == has_option(
            match options {
                Some(j) => json::elements(j@),
                None => Seq::empty(),
            },
            name@,
        ),
{
    match options {
        Some(Json::Array(items)) => {
            broadcast use json::lemma_items_view;

            let mut i: usize = 0;
            while i < items.len()
                invariant
                    i <= items.len(),
                    options matches Some(j) && json::elements(j@) == json::items_view(items@),
                    forall|k: int|
                        0 <= k < i ==> !json::is_variant(
                            json::field_or_null(
                                #[trigger] json::items_view(items@)[k],
                                "option"@,
                            ),
                            name@,
                        ),
                decreases items.len() - i,
            {
                broadcast use json::lemma_items_view;

                assert(json::items_view(items@)[i as int] == items@[i as int]@);
                match json::get_field(&items[i], "option") {
                    Some(option) => {
                        if json::has_variant(option, name) {
                            return true;
                        }
                    },
                    None => {},
                }
                i = i + 1;
            }
            false
        },
        _ => false,
    }
}

fn effect_of(operation: &Json) -> (r: OperationEffect)
    ensures
        r == operation_effect(operation@),
{
    let content = json::variant_payload(operation);
    if json::has_variant(operation, "AddColumn") {
        let options: Option<&Json> = match content {
            Some(content) => match json::get_field(content, "column_def") {
                Some(definition) => json::get_field(definition, "options"),
                None => None,
            },
            None => None,
        };
        if option_present(options, "NotNull") || option_present(options, "Default") {
            OperationEffect::AddColumnRewrite
        } else {
            OperationEffect::OnlineSafe
        }
    } else if json::has_variant(operation, "AddConstraint") || json::has_variant(
        operation,
        "DropConstraint",
    ) || json::has_variant(operation, "RenameConstraint") || json::has_variant(
        operation,
        "EnableRowLevelSecurity",
    ) || json::has_variant(operation, "DisableRowLevelSecurity") {
        OperationEffect::OnlineSafe
    } else if json::has_variant(operation, "AlterColumn") {
        let op: Option<&Json> = match content {
            Some(content) => json::get_field(content, "op"),
            None => None,
        };
        match op {
            Some(op) => if json::has_variant(op, "SetNotNull") || json::has_variant(
                op,
                "DropNotNull",
            ) || json::has_variant(op, "SetDefault") || json::has_variant(op, "DropDefault") {
                OperationEffect::OnlineSafe
            } else {
                OperationEffect::AlterColumnRewrite
            },
            None => OperationEffect::AlterColumnRewrite,
        }
    } else if json::has_variant(operation, "DropColumn") || json::has_variant(
        operation,
        "RenameColumn",
    ) || json::has_variant(operation, "RenameTable") {
        OperationEffect::TableRewrite
    } else {
        OperationEffect::Unsupported
    }
}

fn text_of_part<'a>(parts: &'a Vec<String>, i: usize) -> (r: &'a str)
    ensures
        r@ == part_text(text::views(parts@), i as int),
{
    if i < parts.len() {
        parts[i].as_str()
    } else {
        let empty = "";
        proof {
            reveal_strlit("");
            assert(empty@ =~= Seq::<char>::empty());
        }
        empty
    }
}

fn report_unsafe(effect: OperationEffect, operation: &str) -> (r: (MigrationStatementSafety, String))
    ensures
        (r.0, r.1@) == unsafe_verdict(effect, operation@),
{
    match effect {
        OperationEffect::AddColumnRewrite => (
            MigrationStatementSafety::RowRewrite,
            "ADD COLUMN with NOT NULL or DEFAULT may rewrite existing rows; use add nullable column, chunked backfill, validate, then enforce".to_owned(),
        ),
        OperationEffect::AlterColumnRewrite => (
            MigrationStatementSafety::RowRewrite,
            text::concat3(
                "ALTER COLUMN ",
                operation,
                " may rewrite existing rows and is not migration-transactional",
            ),
        ),
        OperationEffect::TableRewrite => (
            MigrationStatementSafety::RowRewrite,
            text::concat3(
                "ALTER TABLE operation ",
                operation,
                " rewrites records or collection files",
            ),
        ),
        _ => (
            MigrationStatementSafety::Unsupported,
            text::concat3(
                "ALTER TABLE operation ",
                operation,
                " is not supported by BicDB migrations",
            ),
        ),
    }
}

/// How safely an `ALTER TABLE` runs in a migration. `operations` are its
/// operations, `parts` their texts.
pub fn classify_alter_table_migration(operations: Option<&Vec<Json>>, parts: &Vec<String>) -> (r: (
    MigrationStatementSafety,
    String,
))
    ensures
        (r.0, r.1@) == alter_table_verdict(
            match operations {
                Some(items) => json::items_view(items@),
                None => Seq::empty(),
            },
            text::views(parts@),
        ),
{
    broadcast use json::lemma_items_view;

    match operations {
        Some(items) => {
            let ghost all = json::items_view(items@);
            let mut i: usize = 0;
            while i < items.len()
                invariant
                    i <= items.len(),
                    operations == Some(items),
                    all == json::items_view(items@),
                    first_unsafe(all, 0) == first_unsafe(all, i as int),
                decreases items.len() - i,
            {
                broadcast use json::lemma_items_view;

                let effect = effect_of(&items[i]);
                match effect {
                    OperationEffect::OnlineSafe => {},
                    other => {
                        return report_unsafe(other, text_of_part(parts, i));
                    },
                }
                i = i + 1;
            }
            if items.len() > 0 {
                return (
                    MigrationStatementSafety::OnlineSafeDdl,
                    "ALTER TABLE operation follows BicDB online-safe metadata-first migration patterns".to_owned(),
                );
            }
        },
        None => {},
    }
    (MigrationStatementSafety::TransactionalDdl, "empty ALTER TABLE has no mutation".to_owned())
}

fn is_metadata_creation(tree: &Json) -> (r: bool)
    ensures
        r == creates_metadata(tree@),
{
    json::has_variant(tree, "CreateTable") || json::has_variant(tree, "CreateView")
        || json::has_variant(tree, "CreateSequence") || json::has_variant(tree, "CreateFunction")
        || json::has_variant(tree, "CreateProcedure") || json::has_variant(tree, "CreateTrigger")
        || json::has_variant(tree, "CreateRole")
}

fn is_routine_change(tree: &Json) -> (r: bool)
    ensures
        r == changes_routine(tree@),
{
    json::has_variant(tree, "DropFunction") || json::has_variant(tree, "DropProcedure")
        || json::has_variant(tree, "AlterFunction") || json::has_variant(tree, "DropTrigger")
}

fn items_under<'a>(content: Option<&'a Json>, name: &str) -> (r: Option<&'a Vec<Json>>)
    ensures
        ({
            let list = match content {
                Some(c) => json::elements(json::field_or_null(c@, name@)),
                None => Seq::empty(),
            };
            match r {
                Some(items) => list == json::items_view(items@),
                None => list.len() == 0,
            }
        }),
{
    match content {
        Some(c) => match json::get_field(c, name) {
            Some(Json::Array(items)) => Some(items),
            _ => None,
        },
        None => None,
    }
}

fn classify_drop(content: Option<&Json>, parts: &Vec<String>) -> (r: (
    MigrationStatementSafety,
    String,
))
    ensures
        forall|p: ParsedView|
            (json::payload(p.tree) == match content {
                Some(c) => c@,
                None => JsonView::Null,
            } && p.parts == text::views(parts@) && json::is_variant(p.tree, "Drop"@)
                && !creates_metadata(p.tree) && !json::is_variant(p.tree, "CreateIndex"@)) ==> (
            r.0,
            r.1@,
            ) == #[trigger] statement_verdict(p),
{
    broadcast use json::lemma_items_view;

    let droppable: bool = match content {
        Some(c) => match json::get_field(c, "object_type") {
            Some(t) => json::has_variant(t, "Table") || json::has_variant(t, "Index")
                || json::has_variant(t, "Sequence") || json::has_variant(t, "View"),
            None => false,
        },
        None => false,
    };
    let what = text_of_part(parts, 0);
    if droppable {
        let count: usize = match items_under(content, "names") {
            Some(items) => items.len(),
            None => 0,
        };
        let head = text::concat3("DROP ", what, " uses atomic catalog updates for ");
        (
            MigrationStatementSafety::TransactionalDdl,
            text::concat3(
                head.as_str(),
                text::decimal_text(count as u64).as_str(),
                " object(s)",
            ),
        )
    } else {
        (
            MigrationStatementSafety::Unsupported,
            text::concat3("DROP ", what, " is not supported by BicDB migrations"),
        )
    }
}

/// How safely a statement runs in a migration, and why.
pub fn classify_migration_statement(statement: &ParsedStatement) -> (r: (
    MigrationStatementSafety,
    String,
))
    ensures
        (r.0, r.1@) == statement_verdict(statement@),
{
    let tree = &statement.tree;
    let content = json::variant_payload(tree);
    if is_metadata_creation(tree) {
        (
            MigrationStatementSafety::TransactionalDdl,
            "metadata is committed through BicDB atomic catalog/record writes".to_owned(),
        )
    } else if json::has_variant(tree, "CreateIndex") {
        (
            MigrationStatementSafety::OnlineSafeDdl,
            "BicDB builds secondary indexes from committed records before catalog publication".to_owned(),
        )
    } else if json::has_variant(tree, "Drop") {
        classify_drop(content, &statement.parts)
    } else if is_routine_change(tree) {
        (
            MigrationStatementSafety::TransactionalDdl,
            "routine/trigger metadata is stored in BicDB system catalogs".to_owned(),
        )
    } else if json::has_variant(tree, "AlterTable") {
        let operations = items_under(content, "operations");
        proof {
            if operations is None {
                assert(json::elements(
                    json::field_or_null(json::payload(tree@), "operations"@),
                ) =~= Seq::<JsonView>::empty());
            }
        }
        classify_alter_table_migration(operations, &statement.parts)
    } else if json::has_variant(tree, "Insert") || json::has_variant(tree, "Update")
        || json::has_variant(tree, "Delete") {
        (
            MigrationStatementSafety::NonDdl,
            "DML is allowed in migrations but is row-transactional, not DDL".to_owned(),
        )
    } else if json::has_variant(tree, "Analyze") {
        (
            MigrationStatementSafety::OnlineSafeDdl,
            "ANALYZE updates planner statistics from committed records".to_owned(),
        )
    } else if json::has_variant(tree, "Lock") {
        (
            MigrationStatementSafety::TransactionalDdl,
            "LOCK TABLE is accepted as a migration coordination command; BicDB serializes catalog writes".to_owned(),
        )
    } else {
        (
            MigrationStatementSafety::Unsupported,
            text::concat(
                "statement is not supported by BicDB migrations: ",
                statement.text.as_str(),
            ),
        )
    }
}

/// The plan of a list of parsed statements.
pub fn plan_statements(statements: &Vec<ParsedStatement>) -> (r: Vec<MigrationStatementPlan>)
    ensures
        plan_views(r@) == plan_of(parse::parsed_views(statements@)),
{
    let ghost all = plan_of(parse::parsed_views(statements@));
    let mut out: Vec<MigrationStatementPlan> = Vec::new();
    let mut i: usize = 0;
    while i < statements.len()
        invariant
            i <= statements.len(),
            all == plan_of(parse::parsed_views(statements@)),
            plan_views(out@) == all.take(i as int),
        decreases statements.len() - i,
    {
        let statement = &statements[i];
        let (safety, reason) = classify_migration_statement(statement);
        let plan = MigrationStatementPlan {
            ordinal: i + 1,
            sql: statement.text.clone(),
            safety,
            reason,
        };
        let ghost prior = out@;
        out.push(plan);
        proof {
            assert(parse::parsed_views(statements@)[i as int] == statement@);
            assert(plan@ =~= all[i as int]);
            assert(plan_views(out@) =~= plan_views(prior).push(plan@));
            assert(all.take(i as int + 1) =~= all.take(i as int).push(all[i as int]));
        }
        i = i + 1;
    }
    assert(all.take(all.len() as int) =~= all);
    out
}

/// Plans a migration: each statement of the text with its number, its
/// normalised text, how safely it runs and why.
pub fn plan_migration_sql(sql: &str, rewritten: Option<&str>, limits: SqlLimits) -> (r: Result<
    Vec<MigrationStatementPlan>,
    SqlError,
>)
    ensures
        match (r, parse::parse_outcome(sql@, text::view_str(rewritten), limits)) {
            (Ok(plan), Ok(statements)) => plan_views(plan@) == plan_of(statements),
            (Err(e), Err(v)) => e@ == v,
            _ => false,
        },
{
    match parse::parse_statements(sql, rewritten, limits) {
        Ok(statements) => Ok(plan_statements(&statements)),
        Err(e) => Err(e),
    }
}

/// The texts of a plan.
pub open spec fn plan_texts(plan: Seq<PlanView>) -> Seq<Seq<char>> {
    plan.map_values(|p: PlanView| p.sql)
}

fn texts_of_plan(plan: &Vec<MigrationStatementPlan>) -> (r: Vec<String>)
    ensures
        text::views(r@) == plan_texts(plan_views(plan@)),
{
    let ghost all = plan_texts(plan_views(plan@));
    let mut out: Vec<String> = Vec::new();
    let mut i: usize = 0;
    while i < plan.len()
        invariant
            i <= plan.len(),
            all == plan_texts(plan_views(plan@)),
            text::views(out@) == all.take(i as int),
        decreases plan.len() - i,
    {
        let ghost prior = out@;
        out.push(plan[i].sql.clone());
        proof {
            assert(text::views(out@) =~= text::views(prior).push(plan@[i as int].sql@));
            assert(all.take(i as int + 1) =~= all.take(i as int).push(plan@[i as int].sql@));
        }
        i = i + 1;
    }
    assert(all.take(all.len() as int) =~= all);
    out
}

/// The statements of a migration, each as its normalised text.
pub fn split_migration_sql(sql: &str, rewritten: Option<&str>, limits: SqlLimits) -> (r: Result<
    Vec<String>,
    SqlError,
>)
    ensures
        match (r, parse::parse_outcome(sql@, text::view_str(rewritten), limits)) {
            (Ok(texts), Ok(statements)) => text::views(texts@) == plan_texts(plan_of(statements)),
            (Err(e), Err(v)) => e@ == v,
            _ => false,
        },
{
    match plan_migration_sql(sql, rewritten, limits) {
        Ok(plan) => Ok(texts_of_plan(&plan)),
        Err(e) => Err(e),
    }
}

/// A plan numbers the statements from one on, in order, and keeps their texts:
/// splitting a migration gives the text of each statement.
pub proof fn law_plan_numbers_statements(statements: Seq<ParsedView>)
    ensures
        plan_of(statements).len() == statements.len(),
        forall|i: int|
            0 <= i < statements.len() ==> (#[trigger] plan_of(statements)[i]).ordinal == i + 1
                && plan_texts(plan_of(statements))[i] == statements[i].text,
{
}

/// An `ALTER TABLE` is reported safe online exactly when it has operations and
/// each of them is safe online.
pub proof fn law_alter_table_online_safe(operations: Seq<JsonView>, parts: Seq<Seq<char>>)
    ensures
        alter_table_verdict(operations, parts).0 == MigrationStatementSafety::OnlineSafeDdl <==> (
        operations.len() > 0 && (forall|i: int|
            0 <= i < operations.len() ==> operation_effect(#[trigger] operations[i])
                == OperationEffect::OnlineSafe)),
{
    lemma_first_unsafe(operations, 0);
}

proof fn lemma_first_unsafe(operations: Seq<JsonView>, from: int)
    requires
        0 <= from <= operations.len(),
    ensures
        match first_unsafe(operations, from) {
            Some(i) => from <= i < operations.len() && operation_effect(operations[i])
                != OperationEffect::OnlineSafe,
            None => forall|i: int|
                from <= i < operations.len() ==> operation_effect(#[trigger] operations[i])
                    == OperationEffect::OnlineSafe,
        },
    decreases operations.len() - from,
{
    if from < operations.len() && operation_effect(operations[from])
        == OperationEffect::OnlineSafe {
        lemma_first_unsafe(operations, from + 1);
    }
}

} // verus!
