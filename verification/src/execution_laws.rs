//! How a text is run, stated of who is asked, what is refused and what comes out.
use vstd::prelude::*;
use crate::dispatch;
use crate::dispatch::{Action, Answer, Handler, Round, SessionStatement, StatementAction};
use crate::error;
use crate::error::SqlError;
use crate::execution;
use crate::execution::{CopyColumn, OutputCell};
use crate::scan;

verus! {

/// Before a text is parsed every handler is asked but those that take routines apart,
/// which are asked only where it does not parse.
pub proof fn law_everybody_is_asked(h: Handler)
    ensures
        dispatch::handlers(Round::Raw).contains(h) <==> h != Handler::CreateFunction && h
            != Handler::CreateProcedure,
        h == Handler::CreateFunction || h == Handler::CreateProcedure ==> dispatch::handlers(
            Round::Single,
        ).contains(h) && dispatch::handlers(Round::Split).contains(h),
{
    let raw = dispatch::handlers(Round::Raw);
    let single = dispatch::handlers(Round::Single);
    let split = dispatch::handlers(Round::Split);
    match h {
        Handler::Reset => {
            assert(raw[0] == h);
        },
        Handler::Comment => {
            assert(raw[1] == h);
        },
        Handler::Analyze => {
            assert(raw[2] == h);
        },
        Handler::CreateMemoryTable => {
            assert(raw[3] == h);
        },
        Handler::CreateMemoryIndex => {
            assert(raw[4] == h);
        },
        Handler::ProcessMemoryJobs => {
            assert(raw[5] == h);
        },
        Handler::SimilarToSelect => {
            assert(raw[6] == h);
        },
        Handler::CreateSequence => {
            assert(raw[7] == h);
        },
        Handler::DatabaseDdl => {
            assert(raw[8] == h);
        },
        Handler::AlterSchemaOwner => {
            assert(raw[9] == h);
        },
        Handler::AlterViewOwner => {
            assert(raw[10] == h);
        },
        Handler::PgDumpRangeType => {
            assert(raw[11] == h);
        },
        Handler::ExtensionCatalog => {
            assert(raw[12] == h);
        },
        Handler::CreateExtension => {
            assert(raw[13] == h);
        },
        Handler::AlterSequence => {
            assert(raw[14] == h);
        },
        Handler::AlterIdentityRestart => {
            assert(raw[15] == h);
        },
        Handler::AlterAddIdentity => {
            assert(raw[16] == h);
        },
        Handler::AlterColumnCompression => {
            assert(raw[17] == h);
        },
        Handler::AlterTableSetSchema => {
            assert(raw[18] == h);
        },
        Handler::AlterUserType => {
            assert(raw[19] == h);
        },
        Handler::CreateTableLike => {
            assert(raw[20] == h);
        },
        Handler::CreateTableCompression => {
            assert(raw[21] == h);
        },
        Handler::CreatePartitionTable => {
            assert(raw[22] == h);
        },
        Handler::PartitionDdl => {
            assert(raw[23] == h);
        },
        Handler::ExclusionConstraintDdl => {
            assert(raw[24] == h);
        },
        Handler::AlterDomain => {
            assert(raw[25] == h);
        },
        Handler::AlterCompositeType => {
            assert(raw[26] == h);
        },
        Handler::DropDomain => {
            assert(raw[27] == h);
        },
        Handler::CreateSpatialIndex => {
            assert(raw[28] == h);
        },
        Handler::PackSpatialIndex => {
            assert(raw[29] == h);
        },
        Handler::Vacuum => {
            assert(raw[30] == h);
        },
        Handler::TrimAuditHistory => {
            assert(raw[31] == h);
        },
        Handler::CubeDdl => {
            assert(raw[32] == h);
        },
        Handler::ProjectionMerge => {
            assert(raw[33] == h);
        },
        Handler::ProjectionRollup => {
            assert(raw[34] == h);
        },
        Handler::ProjectionAdmin => {
            assert(raw[35] == h);
        },
        Handler::CreateIndexOnOnly => {
            assert(raw[36] == h);
        },
        Handler::CreateUser => {
            assert(raw[37] == h);
        },
        Handler::RoleMembershipDdl => {
            assert(raw[38] == h);
        },
        Handler::CreateTrigger => {
            assert(raw[39] == h);
        },
        Handler::AlterDefaultPrivileges => {
            assert(raw[40] == h);
        },
        Handler::TypePrivileges => {
            assert(raw[41] == h);
        },
        Handler::FunctionPrivileges => {
            assert(raw[42] == h);
        },
        Handler::MultiGranteeRevoke => {
            assert(raw[43] == h);
        },
        Handler::DoDdl => {
            assert(raw[44] == h);
        },
        Handler::Builtin => {
            assert(raw[45] == h);
        },
        Handler::CreateFunction => {
            assert(single[1] == h);
            assert(split[18] == h);
        },
        Handler::CreateProcedure => {
            assert(single[2] == h);
            assert(split[19] == h);
        },
    }
    if raw.contains(h) {
        let k = choose|k: int| 0 <= k < raw.len() && raw[k] == h;
        assert(h != Handler::CreateFunction && h != Handler::CreateProcedure);
    }
}

/// A handler that has run a text ends the matter, one that fails fails the text, and
/// one that declines hands it to the next of its round, or where there is none on
/// to what the round ends with: a text is parsed, a single statement fails as it
/// failed to parse, and one of several is run by itself.
pub proof fn law_answered(round: Round, position: nat, failure: SqlError, parse_error: SqlError)
    ensures
        dispatch::answered(round, position, Answer::Handled, parse_error) == Ok::<Action, SqlError>(
            Action::Finished,
        ),
        dispatch::answered(round, position, Answer::Failed(failure), parse_error) == Err::<
            Action,
            SqlError,
        >(failure),
        position + 1 < dispatch::handlers(round).len() ==> dispatch::answered(
            round,
            position,
            Answer::Declined,
            parse_error,
        ) == Ok::<Action, SqlError>(
            Action::Ask {
                round,
                position: (position + 1) as usize,
                handler: dispatch::handlers(round)[(position + 1) as int],
            },
        ),
        position + 1 >= dispatch::handlers(round).len() ==> (match round {
            Round::Raw => dispatch::answered(round, position, Answer::Declined, parse_error)
                == Ok::<Action, SqlError>(Action::Parse),
            Round::Single => dispatch::answered(round, position, Answer::Declined, parse_error)
                == Err::<Action, SqlError>(parse_error),
            Round::Split => dispatch::answered(round, position, Answer::Declined, parse_error)
                == Ok::<Action, SqlError>(Action::Execute),
        }),
{
}

/// A text without statements comes to nothing; any other is parsed at once or shown to
/// the first handler.
pub proof fn law_first_action(sql: Seq<char>)
    ensures
        dispatch::first_action(sql) is Empty <==> scan::has_no_statements(sql),
        dispatch::first_action(sql) is Parse <==> !scan::has_no_statements(sql)
            && scan::bypasses_raw_probes(sql),
        !scan::has_no_statements(sql) && !scan::bypasses_raw_probes(sql) ==> dispatch::first_action(
            sql,
        ) == (Action::Ask { round: Round::Raw, position: 0, handler: Handler::Reset }),
{
    let raw = dispatch::handlers(Round::Raw);
    assert(raw[0] == Handler::Reset);
}

/// In a trigger every statement is refused that begins or ends a transaction or moves
/// between savepoints, and no other; in a transaction only one that begins another;
/// and one whose modes are wrong always.
pub proof fn law_statement_refused(s: SessionStatement, depth: nat, in_transaction: bool)
    ensures
        ({
            let refused = dispatch::statement_error(s, depth, in_transaction) is Some;
            match s {
                SessionStatement::StartTransaction { modes_error } => refused <==> depth > 0
                    || in_transaction || modes_error is Some,
                SessionStatement::Assign | SessionStatement::Other => !refused,
                _ => refused <==> depth > 0,
            }
        }),
{
}

/// A session carries out the statement that it is given: ROLLBACK ends the
/// transaction unless it names a savepoint, and goes back to that otherwise.
pub proof fn law_statement_action(s: SessionStatement)
    ensures
        ({
            let action = dispatch::statement_action(s);
            &&& s is StartTransaction <==> action == StatementAction::Begin
            &&& s is Commit <==> action == StatementAction::Commit
            &&& s is Savepoint <==> action == StatementAction::Savepoint
            &&& s is ReleaseSavepoint <==> action == StatementAction::ReleaseSavepoint
            &&& s is Assign <==> action == StatementAction::Assign
            &&& action == StatementAction::Rollback <==> (s matches SessionStatement::Rollback {
                savepoint,
            } && savepoint is None)
            &&& action == StatementAction::RollbackToSavepoint <==> (
            s matches SessionStatement::Rollback { savepoint } && savepoint is Some)
        }),
{
}

/// A list of statements comes to its last result where each of them succeeds, and else
/// to its first error; no statement at all is an error.
pub proof fn law_last_result<T>(outcomes: Seq<Result<T, SqlError>>, from: int, i: int)
    requires
        0 <= from <= outcomes.len(),
    ensures
        from == outcomes.len() ==> execution::last_result(outcomes, from) is Err,
        from < outcomes.len() && (forall|k: int|
            from <= k < outcomes.len() ==> (#[trigger] outcomes[k]) is Ok)
            ==> execution::last_result(outcomes, from) == Ok::<T, error::ErrorView>(
            outcomes.last()->Ok_0,
        ),
        from <= i < outcomes.len() && outcomes[i] is Err && (forall|k: int|
            from <= k < i ==> (#[trigger] outcomes[k]) is Ok) ==> execution::last_result(
            outcomes,
            from,
        ) == Err::<T, error::ErrorView>(outcomes[i]->Err_0@),
    decreases outcomes.len() - from,
{
    if from + 1 < outcomes.len() {
        law_last_result(outcomes, from + 1, i);
    }
}

/// COPY without a list fills the columns that are neither hidden nor generated, in
/// their order.
pub proof fn law_copied_columns(columns: Seq<CopyColumn>) -> (places: Seq<int>)
    ensures
        places.len() == execution::fillable(columns).len(),
        forall|k: int|
            0 <= k < places.len() ==> 0 <= #[trigger] places[k] < columns.len()
                && execution::fillable(columns)[k] == columns[places[k]].name@
                && !columns[places[k]].hidden && !columns[places[k]].generated,
        forall|k: int, l: int| 0 <= k < l < places.len() ==> places[k] < places[l],
        forall|i: int|
            0 <= i < columns.len() && !(#[trigger] columns[i]).hidden && !columns[i].generated
                ==> places.contains(i),
    decreases columns.len(),
{
    if columns.len() == 0 {
        Seq::empty()
    } else {
        let rest = columns.drop_last();
        let before = law_copied_columns(rest);
        let last = columns.len() - 1;
        if columns.last().hidden || columns.last().generated {
            assert forall|i: int|
                0 <= i < columns.len() && !(#[trigger] columns[i]).hidden
                    && !columns[i].generated implies before.contains(i) by {
                assert(rest[i] == columns[i]);
            }
            before
        } else {
            let places = before.push(last);
            assert forall|i: int|
                0 <= i < columns.len() && !(#[trigger] columns[i]).hidden
                    && !columns[i].generated implies places.contains(i) by {
                if i < last {
                    assert(rest[i] == columns[i]);
                    let k = choose|k: int| 0 <= k < before.len() && before[k] == i;
                    assert(places[k] == i);
                } else {
                    assert(places[before.len() as int] == i);
                }
            }
            places
        }
    }
}

/// A row is sent cell by cell. Only a binary string in a column of that type is sent
/// escaped, and only where the session asks for it; a null stays null.
pub proof fn law_sent_row(types: Seq<Option<String>>, row: Seq<OutputCell>, escape: bool, i: int)
    requires
        0 <= i < row.len(),
    ensures
        ({
            let sent = execution::output_row(types, row, escape);
            let binary = i < types.len() && types[i] is Some && types[i]->0@ == "bytea"@;
            &&& sent.len() == row.len()
            &&& row[i].value is None ==> sent[i] is None
            &&& row[i].value is Some && escape && binary && row[i].escaped is Some ==> sent[i]
                == Some(row[i].escaped->0@)
            &&& row[i].value is Some && (!escape || !binary || row[i].escaped is None) ==> sent[i]
                == Some(row[i].value->0@)
        }),
{
}

} // verus!
