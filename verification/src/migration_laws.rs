//! What a migration plan says of a statement, stated of the variants of its
//! syntax tree and of its operations.
use vstd::prelude::*;
use crate::json;
use crate::json::JsonView;
use crate::migration;
use crate::migration::{MigrationStatementSafety, OperationEffect, alter_table_verdict, first_unsafe,
    operation_effect, plan_of, statement_verdict};
use crate::parse::ParsedView;
use crate::text;

verus! {

/// One of the options of the column that an operation adds is that one.
pub open spec fn adds_with(operation: JsonView, option: Seq<char>) -> bool {
    exists|i: int|
        0 <= i < migration::added_column_options(operation).len() && json::variant_name(
            json::field_or_null(
                #[trigger] migration::added_column_options(operation)[i],
                "option"@,
            ),
        ) == Some(option)
}

/// What an `ALTER COLUMN` does to the column.
pub open spec fn column_change(operation: JsonView) -> Option<Seq<char>> {
    json::variant_name(json::field_or_null(json::payload(operation), "op"@))
}

/// An operation that gives the rows of a table another shape or another name:
/// dropping or renaming a column, renaming the table.
pub open spec fn moves_records(operation: JsonView) -> bool {
    json::variant_name(operation) == Some("DropColumn"@) || json::variant_name(operation) == Some(
        "RenameColumn"@,
    ) || json::variant_name(operation) == Some("RenameTable"@)
}

/// An operation that may write every row of a table: adding a column that is
/// not null or has a default, or changing a column in any way but its default or
/// whether it may be null.
pub open spec fn fills_rows(operation: JsonView) -> bool {
    match json::variant_name(operation) {
        Some(name) => {
            ||| name == "AddColumn"@ && (adds_with(operation, "NotNull"@) || adds_with(
                operation,
                "Default"@,
            ))
            ||| name == "AlterColumn"@ && column_change(operation) != Some("SetNotNull"@)
                && column_change(operation) != Some("DropNotNull"@) && column_change(operation)
                != Some("SetDefault"@) && column_change(operation) != Some("DropDefault"@)
        },
        None => false,
    }
}

/// An operation that only touches what is written down about a table.
pub open spec fn leaves_rows(operation: JsonView) -> bool {
    match json::variant_name(operation) {
        Some(name) => {
            ||| name == "AddColumn"@ && !adds_with(operation, "NotNull"@) && !adds_with(
                operation,
                "Default"@,
            )
            ||| name == "AlterColumn"@ && (column_change(operation) == Some("SetNotNull"@)
                || column_change(operation) == Some("DropNotNull"@) || column_change(operation)
                == Some("SetDefault"@) || column_change(operation) == Some("DropDefault"@))
            ||| name == "AddConstraint"@
            ||| name == "DropConstraint"@
            ||| name == "RenameConstraint"@
            ||| name == "EnableRowLevelSecurity"@
            ||| name == "DisableRowLevelSecurity"@
        },
        None => false,
    }
}

proof fn lemma_operation_names()
    ensures
        "DropColumn"@.len() == 10,
        "RenameColumn"@.len() == 12,
        "RenameTable"@.len() == 11,
        "RenameTable"@[0] == 'R',
        "AlterColumn"@.len() == 11,
        "AlterColumn"@[0] == 'A',
        "AddColumn"@.len() == 9,
        "AddConstraint"@.len() == 13,
        "DropConstraint"@.len() == 14,
        "RenameConstraint"@.len() == 16,
        "EnableRowLevelSecurity"@.len() == 22,
        "DisableRowLevelSecurity"@.len() == 23,
{
    reveal_strlit("DropColumn");
    reveal_strlit("RenameColumn");
    reveal_strlit("RenameTable");
    reveal_strlit("AlterColumn");
    reveal_strlit("AddColumn");
    reveal_strlit("AddConstraint");
    reveal_strlit("DropConstraint");
    reveal_strlit("RenameConstraint");
    reveal_strlit("EnableRowLevelSecurity");
    reveal_strlit("DisableRowLevelSecurity");
}

proof fn lemma_has_option(operation: JsonView, name: Seq<char>)
    ensures
        migration::has_option(migration::added_column_options(operation), name) <==> adds_with(
            operation,
            name,
        ),
{
    let options = migration::added_column_options(operation);
    if migration::has_option(options, name) {
        let i = choose|i: int|
            0 <= i < options.len() && json::is_variant(
                json::field_or_null(#[trigger] options[i], "option"@),
                name,
            );
        assert(json::variant_name(json::field_or_null(options[i], "option"@)) == Some(name));
    }
    if adds_with(operation, name) {
        let i = choose|i: int|
            0 <= i < options.len() && json::variant_name(
                json::field_or_null(#[trigger] options[i], "option"@),
            ) == Some(name);
        assert(json::is_variant(json::field_or_null(options[i], "option"@), name));
    }
}

/// The three ways in which an operation can run are told apart by its variant,
/// and no operation runs in two of them.
pub proof fn law_operation_effects(operation: JsonView)
    ensures
        operation_effect(operation) == OperationEffect::TableRewrite <==> moves_records(operation),
        operation_effect(operation) == OperationEffect::OnlineSafe <==> leaves_rows(operation),
        operation_effect(operation) == OperationEffect::AddColumnRewrite || operation_effect(
            operation,
        ) == OperationEffect::AlterColumnRewrite <==> fills_rows(operation),
        !(moves_records(operation) && leaves_rows(operation)),
        !(moves_records(operation) && fills_rows(operation)),
        !(fills_rows(operation) && leaves_rows(operation)),
{
    lemma_operation_names();
    lemma_has_option(operation, "NotNull"@);
    lemma_has_option(operation, "Default"@);
    if json::variant_name(operation) is Some {
        let name = json::variant_name(operation)->0;
        assert(name == "RenameTable"@ ==> name[0] == 'R');
        assert(name == "AlterColumn"@ ==> name[0] == 'A');
    }
}

proof fn lemma_first_unsafe(operations: Seq<JsonView>, from: int)
    requires
        0 <= from <= operations.len(),
    ensures
        match first_unsafe(operations, from) {
            Some(i) => from <= i < operations.len() && !leaves_rows(operations[i]) && forall|
                k: int,
            |
                from <= k < i ==> leaves_rows(#[trigger] operations[k]),
            None => forall|k: int|
                from <= k < operations.len() ==> leaves_rows(#[trigger] operations[k]),
        },
    decreases operations.len() - from,
{
    if from < operations.len() {
        law_operation_effects(operations[from]);
        lemma_first_unsafe(operations, from + 1);
    }
}

/// A text holds another.
pub open spec fn mentions(s: Seq<char>, part: Seq<char>) -> bool {
    exists|at: int|
        0 <= at && at + part.len() <= s.len() && #[trigger] s.subrange(at, at + part.len()) == part
}

proof fn lemma_mentions(a: Seq<char>, part: Seq<char>, b: Seq<char>)
    ensures
        mentions(a + part + b, part),
{
    let s = a + part + b;
    assert(s.subrange(a.len() as int, (a.len() + part.len()) as int) =~= part);
}

/// An `ALTER TABLE` that drops or renames a column or renames the table is never
/// planned as safe online, nor as a change of metadata alone. Where every
/// operation before that one leaves the rows alone or may write them all, it is
/// planned as a rewrite of rows.
pub proof fn law_moving_records(operations: Seq<JsonView>, parts: Seq<Seq<char>>, i: int)
    requires
        0 <= i < operations.len(),
        moves_records(operations[i]),
    ensures
        alter_table_verdict(operations, parts).0 == MigrationStatementSafety::RowRewrite
            || alter_table_verdict(operations, parts).0 == MigrationStatementSafety::Unsupported,
        (forall|k: int|
            0 <= k < i ==> moves_records(operations[k]) || fills_rows(operations[k])
                || leaves_rows(#[trigger] operations[k])) ==> alter_table_verdict(
            operations,
            parts,
        ).0 == MigrationStatementSafety::RowRewrite,
{
    lemma_first_unsafe(operations, 0);
    law_operation_effects(operations[i]);
    let first = first_unsafe(operations, 0)->0;
    law_operation_effects(operations[first]);
}

/// An `ALTER TABLE` is safe online exactly where it has operations and each of
/// them leaves the rows alone; with no operation it changes nothing. The first
/// operation that does not leave them alone decides otherwise: a rewrite of rows
/// where it moves or fills them, and what migrations cannot do where it is none
/// of these. The reason then gives that operation in its own words.
pub proof fn law_alter_table(operations: Seq<JsonView>, parts: Seq<Seq<char>>, i: int)
    ensures
        alter_table_verdict(operations, parts).0 == MigrationStatementSafety::OnlineSafeDdl <==> (
        operations.len() > 0 && forall|k: int|
            0 <= k < operations.len() ==> leaves_rows(#[trigger] operations[k])),
        alter_table_verdict(operations, parts).0 == MigrationStatementSafety::TransactionalDdl
            <==> operations.len() == 0,
        0 <= i < operations.len() && !leaves_rows(operations[i]) && (forall|k: int|
            0 <= k < i ==> leaves_rows(#[trigger] operations[k])) ==> {
            &&& alter_table_verdict(operations, parts).0 == MigrationStatementSafety::RowRewrite
                <==> moves_records(operations[i]) || fills_rows(operations[i])
            &&& alter_table_verdict(operations, parts).0 == MigrationStatementSafety::Unsupported
                <==> !moves_records(operations[i]) && !fills_rows(operations[i])
            &&& i < parts.len() && json::variant_name(operations[i]) != Some("AddColumn"@)
                ==> mentions(alter_table_verdict(operations, parts).1, parts[i])
        },
{
    lemma_operation_names();
    lemma_first_unsafe(operations, 0);
    if let Some(first) = first_unsafe(operations, 0) {
        law_operation_effects(operations[first]);
        assert(!leaves_rows(operations[first]));
        if 0 <= i < operations.len() && !leaves_rows(operations[i]) && (forall|k: int|
            0 <= k < i ==> leaves_rows(#[trigger] operations[k])) {
            assert(i == first) by {
                if i < first {
                    assert(leaves_rows(operations[i]));
                } else if first < i {
                    assert(leaves_rows(operations[first]));
                }
            }
            if i < parts.len() && json::variant_name(operations[i]) != Some("AddColumn"@) {
                lemma_mentions(
                    "ALTER COLUMN "@,
                    parts[i],
                    " may rewrite existing rows and is not migration-transactional"@,
                );
                lemma_mentions(
                    "ALTER TABLE operation "@,
                    parts[i],
                    " rewrites records or collection files"@,
                );
                lemma_mentions(
                    "ALTER TABLE operation "@,
                    parts[i],
                    " is not supported by BicDB migrations"@,
                );
            }
        }
    }
}

proof fn lemma_statement_names()
    ensures
        "CreateTable"@.len() == 11,
        "CreateView"@.len() == 10,
        "CreateSequence"@.len() == 14,
        "CreateFunction"@.len() == 14,
        "CreateProcedure"@.len() == 15,
        "CreateTrigger"@.len() == 13,
        "CreateRole"@.len() == 10,
        "CreateIndex"@.len() == 11,
        "Drop"@.len() == 4,
        "DropFunction"@.len() == 12,
        "DropProcedure"@.len() == 13,
        "AlterFunction"@.len() == 13,
        "DropTrigger"@.len() == 11,
        "AlterTable"@.len() == 10,
        "Insert"@.len() == 6,
        "Update"@.len() == 6,
        "Delete"@.len() == 6,
        "Analyze"@.len() == 7,
        "Lock"@.len() == 4,
        "CreateTable"@[0] == 'C' && "CreateTable"@[6] == 'T',
        "CreateIndex"@[0] == 'C' && "CreateIndex"@[6] == 'I',
        "DropTrigger"@[0] == 'D',
        "CreateView"@[0] == 'C' && "CreateRole"@[0] == 'C' && "AlterTable"@[0] == 'A',
        "CreateTrigger"@[0] == 'C' && "DropProcedure"@[0] == 'D' && "AlterFunction"@[0] == 'A',
        "Drop"@[0] == 'D' && "Lock"@[0] == 'L',
        "Insert"@[0] == 'I' && "Update"@[0] == 'U' && "Delete"@[0] == 'D',
{
    reveal_strlit("CreateTable");
    reveal_strlit("CreateView");
    reveal_strlit("CreateSequence");
    reveal_strlit("CreateFunction");
    reveal_strlit("CreateProcedure");
    reveal_strlit("CreateTrigger");
    reveal_strlit("CreateRole");
    reveal_strlit("CreateIndex");
    reveal_strlit("Drop");
    reveal_strlit("DropFunction");
    reveal_strlit("DropProcedure");
    reveal_strlit("AlterFunction");
    reveal_strlit("DropTrigger");
    reveal_strlit("AlterTable");
    reveal_strlit("Insert");
    reveal_strlit("Update");
    reveal_strlit("Delete");
    reveal_strlit("Analyze");
    reveal_strlit("Lock");
}

/// The object that a `DROP` drops is a table, an index, a sequence or a view.
pub open spec fn drops_relation(tree: JsonView) -> bool {
    match json::variant_name(json::field_or_null(json::payload(tree), "object_type"@)) {
        Some(name) => name == "View"@ || name == "Sequence"@ || name == "Index"@ || name
            == "Table"@,
        None => false,
    }
}

/// The operations of an `ALTER TABLE`.
pub open spec fn operations_of(tree: JsonView) -> Seq<JsonView> {
    json::elements(json::field_or_null(json::payload(tree), "operations"@))
}

/// Each statement of a migration is judged by its variant: rows are changed by
/// INSERT, UPDATE and DELETE alone, which are no DDL; CREATE INDEX, ANALYZE and
/// an ALTER TABLE that leaves the rows alone are safe online; rows are rewritten
/// by an ALTER TABLE alone.
pub proof fn law_statement_safety(p: ParsedView)
    ensures
        ({
            let safety = statement_verdict(p).0;
            let name = json::variant_name(p.tree);
            &&& safety == MigrationStatementSafety::NonDdl <==> name == Some("Insert"@) || name
                == Some("Update"@) || name == Some("Delete"@)
            &&& name == Some("CreateIndex"@) || name == Some("Analyze"@) ==> safety
                == MigrationStatementSafety::OnlineSafeDdl
            &&& safety == MigrationStatementSafety::OnlineSafeDdl ==> name == Some("CreateIndex"@)
                || name == Some("Analyze"@) || name == Some("AlterTable"@)
            &&& safety == MigrationStatementSafety::RowRewrite ==> name == Some("AlterTable"@)
            &&& name == Some("CreateTable"@) || name == Some("CreateView"@) || name == Some(
                "CreateSequence"@,
            ) || name == Some("CreateFunction"@) || name == Some("CreateProcedure"@) || name
                == Some("CreateTrigger"@) || name == Some("CreateRole"@) ==> safety
                == MigrationStatementSafety::TransactionalDdl
            &&& name == Some("DropFunction"@) || name == Some("DropProcedure"@) || name == Some(
                "AlterFunction"@,
            ) || name == Some("DropTrigger"@) || name == Some("Lock"@) ==> safety
                == MigrationStatementSafety::TransactionalDdl
            &&& name == Some("Drop"@) ==> if drops_relation(p.tree) {
                safety == MigrationStatementSafety::TransactionalDdl
            } else {
                safety == MigrationStatementSafety::Unsupported
            }
            &&& name == Some("AlterTable"@) ==> statement_verdict(p) == alter_table_verdict(
                operations_of(p.tree),
                p.parts,
            )
            &&& name is None ==> safety == MigrationStatementSafety::Unsupported
            &&& safety == MigrationStatementSafety::TransactionalDdl ==> name != Some(
                "CreateIndex"@,
            ) && name != Some("Analyze"@)
        }),
{
    lemma_statement_names();
    if json::variant_name(p.tree) is Some {
        let name = json::variant_name(p.tree)->0;
        assert(name.len() >= 4 ==> name[0] == name[0]);
        assert(name.len() == 11 ==> name[6] == name[6]);
        if name == "AlterTable"@ {
            law_alter_table(operations_of(p.tree), p.parts, 0);
        }
    }
}

/// A statement that is none of those that migrations know is unsupported, and the
/// reason gives it in its own words.
pub proof fn law_unknown_statement(p: ParsedView)
    requires
        !migration::creates_metadata(p.tree),
        !migration::changes_routine(p.tree),
        forall|name: Seq<char>| #[trigger]
            json::is_variant(p.tree, name) ==> name != "CreateIndex"@ && name != "Drop"@ && name
                != "AlterTable"@ && name != "Insert"@ && name != "Update"@ && name != "Delete"@
                && name != "Analyze"@ && name != "Lock"@,
    ensures
        statement_verdict(p).0 == MigrationStatementSafety::Unsupported,
        mentions(statement_verdict(p).1, p.text),
{
    let head = "statement is not supported by BicDB migrations: "@;
    lemma_mentions(head, p.text, Seq::empty());
    assert(head + p.text + Seq::<char>::empty() =~= head + p.text);
}

/// In a plan, an `ALTER TABLE` that drops or renames a column or renames the
/// table is never safe online; it is a rewrite of rows where no operation before
/// that one is beyond migrations. Each entry of a plan has the number, the text
/// and the verdict of its own statement.
pub proof fn law_plan_of_moving_records(statements: Seq<ParsedView>, n: int, i: int)
    requires
        0 <= n < statements.len(),
        json::variant_name(statements[n].tree) == Some("AlterTable"@),
        0 <= i < operations_of(statements[n].tree).len(),
        moves_records(operations_of(statements[n].tree)[i]),
    ensures
        plan_of(statements)[n].ordinal == n + 1,
        plan_of(statements)[n].sql == statements[n].text,
        plan_of(statements)[n].safety != MigrationStatementSafety::OnlineSafeDdl,
        (forall|k: int|
            0 <= k < i ==> moves_records(operations_of(statements[n].tree)[k]) || fills_rows(
                operations_of(statements[n].tree)[k],
            ) || leaves_rows(#[trigger] operations_of(statements[n].tree)[k]))
            ==> plan_of(statements)[n].safety == MigrationStatementSafety::RowRewrite,
{
    law_statement_safety(statements[n]);
    law_moving_records(operations_of(statements[n].tree), statements[n].parts, i);
}

} // verus!
