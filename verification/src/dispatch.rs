//! How the text of a statement finds who runs it.
//!
//! Some statements are not parsed but recognized by a handler for their kind.
//! The handlers are asked in a fixed order; the first that recognizes the text
//! runs it, and what none recognizes is parsed.
use vstd::prelude::*;
use crate::error;
use crate::error::SqlError;
use crate::scan;
use crate::text;

verus! {

/// Who recognizes statements of a kind in their text.
#[derive(Clone, Copy, Debug, PartialEq, Eq, Structural)]
pub enum Handler {
    Reset,
    Comment,
    Analyze,
    CreateMemoryTable,
    CreateMemoryIndex,
    ProcessMemoryJobs,
    SimilarToSelect,
    CreateSequence,
    DatabaseDdl,
    AlterSchemaOwner,
    AlterViewOwner,
    PgDumpRangeType,
    ExtensionCatalog,
    CreateExtension,
    AlterSequence,
    AlterIdentityRestart,
    AlterAddIdentity,
    AlterColumnCompression,
    AlterTableSetSchema,
    AlterUserType,
    CreateTableLike,
    CreateTableCompression,
    CreatePartitionTable,
    PartitionDdl,
    ExclusionConstraintDdl,
    AlterDomain,
    AlterCompositeType,
    DropDomain,
    CreateSpatialIndex,
    PackSpatialIndex,
    Vacuum,
    TrimAuditHistory,
    CubeDdl,
    ProjectionMerge,
    ProjectionRollup,
    ProjectionAdmin,
    CreateIndexOnOnly,
    CreateUser,
    RoleMembershipDdl,
    CreateTrigger,
    AlterDefaultPrivileges,
    TypePrivileges,
    FunctionPrivileges,
    MultiGranteeRevoke,
    DoDdl,
    Builtin,
    CreateFunction,
    CreateProcedure,
}

/// The handlers that a text is shown to before it is parsed.
pub open spec fn raw_handlers() -> Seq<Handler> {
    seq![
        Handler::Reset,
        Handler::Comment,
        Handler::Analyze,
        Handler::CreateMemoryTable,
        Handler::CreateMemoryIndex,
        Handler::ProcessMemoryJobs,
        Handler::SimilarToSelect,
        Handler::CreateSequence,
        Handler::DatabaseDdl,
        Handler::AlterSchemaOwner,
        Handler::AlterViewOwner,
        Handler::PgDumpRangeType,
        Handler::ExtensionCatalog,
        Handler::CreateExtension,
        Handler::AlterSequence,
        Handler::AlterIdentityRestart,
        Handler::AlterAddIdentity,
        Handler::AlterColumnCompression,
        Handler::AlterTableSetSchema,
        Handler::AlterUserType,
        Handler::CreateTableLike,
        Handler::CreateTableCompression,
        Handler::CreatePartitionTable,
        Handler::PartitionDdl,
        Handler::ExclusionConstraintDdl,
        Handler::AlterDomain,
        Handler::AlterCompositeType,
        Handler::DropDomain,
        Handler::CreateSpatialIndex,
        Handler::PackSpatialIndex,
        Handler::Vacuum,
        Handler::TrimAuditHistory,
        Handler::CubeDdl,
        Handler::ProjectionMerge,
        Handler::ProjectionRollup,
        Handler::ProjectionAdmin,
        Handler::CreateIndexOnOnly,
        Handler::CreateUser,
        Handler::RoleMembershipDdl,
        Handler::CreateTrigger,
        Handler::AlterDefaultPrivileges,
        Handler::TypePrivileges,
        Handler::FunctionPrivileges,
        Handler::MultiGranteeRevoke,
        Handler::DoDdl,
        Handler::Builtin,
    ]
}

/// The handlers that a single statement is shown to that does not parse.
pub open spec fn single_handlers() -> Seq<Handler> {
    seq![
        Handler::ExtensionCatalog,
        Handler::CreateFunction,
        Handler::CreateProcedure,
        Handler::CreateTrigger,
        Handler::AlterTableSetSchema,
        Handler::AlterSchemaOwner,
        Handler::AlterColumnCompression,
        Handler::AlterUserType,
        Handler::TypePrivileges,
        Handler::AlterDomain,
        Handler::AlterCompositeType,
        Handler::DropDomain,
        Handler::CreateIndexOnOnly,
        Handler::CreateTableCompression,
    ]
}

/// The handlers that each of several statements is shown to that do not parse
/// together.
pub open spec fn split_handlers() -> Seq<Handler> {
    seq![
        Handler::ExtensionCatalog,
        Handler::Reset,
        Handler::Comment,
        Handler::CreateSequence,
        Handler::AlterSequence,
        Handler::AlterIdentityRestart,
        Handler::AlterColumnCompression,
        Handler::AlterTableSetSchema,
        Handler::AlterSchemaOwner,
        Handler::AlterUserType,
        Handler::TypePrivileges,
        Handler::CreatePartitionTable,
        Handler::CreateTableCompression,
        Handler::PartitionDdl,
        Handler::ExclusionConstraintDdl,
        Handler::AlterDomain,
        Handler::AlterCompositeType,
        Handler::DropDomain,
        Handler::CreateFunction,
        Handler::CreateProcedure,
        Handler::CreateTrigger,
        Handler::CreateIndexOnOnly,
    ]
}

/// Who is asked and in which order.
#[derive(Clone, Copy, Debug, PartialEq, Eq, Structural)]
pub enum Round {
    Raw,
    Single,
    Split,
}

pub open spec fn handlers(round: Round) -> Seq<Handler> {
    match round {
        Round::Raw => raw_handlers(),
        Round::Single => single_handlers(),
        Round::Split => split_handlers(),
    }
}

/// The handler at a place in a round.
pub fn handler_at(round: Round, position: usize) -> (r: Option<Handler>)
    ensures
        r == (if position < handlers(round).len() {
            Some(handlers(round)[position as int])
        } else {
            None
        }),
{
    match round {
        Round::Raw => {
            let list = [
        Handler::Reset,
        Handler::Comment,
        Handler::Analyze,
        Handler::CreateMemoryTable,
        Handler::CreateMemoryIndex,
        Handler::ProcessMemoryJobs,
        Handler::SimilarToSelect,
        Handler::CreateSequence,
        Handler::DatabaseDdl,
        Handler::AlterSchemaOwner,
        Handler::AlterViewOwner,
        Handler::PgDumpRangeType,
        Handler::ExtensionCatalog,
        Handler::CreateExtension,
        Handler::AlterSequence,
        Handler::AlterIdentityRestart,
        Handler::AlterAddIdentity,
        Handler::AlterColumnCompression,
        Handler::AlterTableSetSchema,
        Handler::AlterUserType,
        Handler::CreateTableLike,
        Handler::CreateTableCompression,
        Handler::CreatePartitionTable,
        Handler::PartitionDdl,
        Handler::ExclusionConstraintDdl,
        Handler::AlterDomain,
        Handler::AlterCompositeType,
        Handler::DropDomain,
        Handler::CreateSpatialIndex,
        Handler::PackSpatialIndex,
        Handler::Vacuum,
        Handler::TrimAuditHistory,
        Handler::CubeDdl,
        Handler::ProjectionMerge,
        Handler::ProjectionRollup,
        Handler::ProjectionAdmin,
        Handler::CreateIndexOnOnly,
        Handler::CreateUser,
        Handler::RoleMembershipDdl,
        Handler::CreateTrigger,
        Handler::AlterDefaultPrivileges,
        Handler::TypePrivileges,
        Handler::FunctionPrivileges,
        Handler::MultiGranteeRevoke,
        Handler::DoDdl,
        Handler::Builtin,
            ];
            assert(list@ =~= raw_handlers());
            if position < list.len() {
                Some(list[position])
            } else {
                None
            }
        },
        Round::Single => {
            let list = [
        Handler::ExtensionCatalog,
        Handler::CreateFunction,
        Handler::CreateProcedure,
        Handler::CreateTrigger,
        Handler::AlterTableSetSchema,
        Handler::AlterSchemaOwner,
        Handler::AlterColumnCompression,
        Handler::AlterUserType,
        Handler::TypePrivileges,
        Handler::AlterDomain,
        Handler::AlterCompositeType,
        Handler::DropDomain,
        Handler::CreateIndexOnOnly,
        Handler::CreateTableCompression,
            ];
            assert(list@ =~= single_handlers());
            if position < list.len() {
                Some(list[position])
            } else {
                None
            }
        },
        Round::Split => {
            let list = [
        Handler::ExtensionCatalog,
        Handler::Reset,
        Handler::Comment,
        Handler::CreateSequence,
        Handler::AlterSequence,
        Handler::AlterIdentityRestart,
        Handler::AlterColumnCompression,
        Handler::AlterTableSetSchema,
        Handler::AlterSchemaOwner,
        Handler::AlterUserType,
        Handler::TypePrivileges,
        Handler::CreatePartitionTable,
        Handler::CreateTableCompression,
        Handler::PartitionDdl,
        Handler::ExclusionConstraintDdl,
        Handler::AlterDomain,
        Handler::AlterCompositeType,
        Handler::DropDomain,
        Handler::CreateFunction,
        Handler::CreateProcedure,
        Handler::CreateTrigger,
        Handler::CreateIndexOnOnly,
            ];
            assert(list@ =~= split_handlers());
            if position < list.len() {
                Some(list[position])
            } else {
                None
            }
        },
    }
}

/// What comes of showing a text to a handler: it is none of its statements, it has
/// been run, or it failed.
#[derive(Debug)]
pub enum Answer {
    Declined,
    Handled,
    Failed(SqlError),
}

/// What is to be done next: the result is empty, a handler is to be asked, the
/// text is to be parsed and run, it is to be run as a statement of its own, or it
/// has been dealt with.
#[derive(Clone, Copy, Debug, PartialEq, Eq, Structural)]
pub enum Action {
    Empty,
    Ask { round: Round, position: usize, handler: Handler },
    Parse,
    Execute,
    Finished,
}

/// Asking the handler at a place, or what comes after the last one.
pub open spec fn ask(round: Round, position: nat, after: Action) -> Action {
    if position < handlers(round).len() {
        Action::Ask {
            round,
            position: position as usize,
            handler: handlers(round)[position as int],
        }
    } else {
        after
    }
}

fn ask_next(round: Round, position: usize, after: Action) -> (a: Action)
    ensures
        a == ask(round, position as nat, after),
{
    match handler_at(round, position) {
        Some(handler) => Action::Ask { round, position, handler },
        None => after,
    }
}

/// What is done first with a text. A statement that has been canceled is not run.
pub fn execute_inner(sql: &str, cancellation: Option<SqlError>) -> (r: Result<Action, SqlError>)
    ensures
        match (cancellation, r) {
            (Some(e), Err(out)) => out == e,
            (None, Ok(action)) => action == first_action(sql@),
            _ => false,
        },
{
    match cancellation {
        Some(e) => {
            return Err(e);
        },
        None => {},
    }
    if scan::sql_has_no_statements(sql) {
        return Ok(Action::Empty);
    }
    if scan::leading_keyword_bypasses_raw_probes(sql) {
        return Ok(Action::Parse);
    }
    Ok(ask_next(Round::Raw, 0, Action::Parse))
}

/// What is done after the answer of a handler. After the last one has declined, a
/// text is parsed, a single statement that did not parse fails with the error of
/// that, and one of several runs for itself.
pub fn after_answer(round: Round, position: usize, answer: Answer, parse_error: SqlError) -> (r:
    Result<Action, SqlError>)
    requires
        position < handlers(round).len(),
    ensures
        r == answered(round, position as nat, answer, parse_error),
{
    match answer {
        Answer::Handled => Ok(Action::Finished),
        Answer::Failed(e) => Err(e),
        Answer::Declined => match handler_at(round, position + 1) {
            Some(handler) => Ok(Action::Ask { round, position: position + 1, handler }),
            None => match round {
                Round::Raw => Ok(Action::Parse),
                Round::Single => Err(parse_error),
                Round::Split => Ok(Action::Execute),
            },
        },
    }
}

/// What is done after an answer.
pub open spec fn answered(
    round: Round,
    position: nat,
    answer: Answer,
    parse_error: SqlError,
) -> Result<Action, SqlError> {
    match answer {
        Answer::Handled => Ok(Action::Finished),
        Answer::Failed(e) => Err(e),
        Answer::Declined => if position + 1 < handlers(round).len() {
            Ok(ask(round, position + 1, Action::Parse))
        } else {
            match round {
                Round::Raw => Ok(Action::Parse),
                Round::Single => Err(parse_error),
                Round::Split => Ok(Action::Execute),
            }
        },
    }
}

/// What is done with a text that does not parse: a single statement is shown to
/// the handlers of single ones, and if they decline the error stands; several are
/// each shown to the handlers of split ones, and if they decline run for
/// themselves.
pub fn execute_split_statements_with_raw_fallback(sql: &str) -> (r: (Round, Vec<String>))
    ensures
        r.0 == (if scan::statements_of(sql@).len() <= 1 {
            Round::Single
        } else {
            Round::Split
        }),
        text::views((r.1)@) == scan::statements_of(sql@),
{
    let statements = scan::split_sql_statements(sql);
    assert(statements@.len() == text::views(statements@).len());
    if statements.len() <= 1 {
        (Round::Single, statements)
    } else {
        (Round::Split, statements)
    }
}

/// What is done first with a text.
pub open spec fn first_action(sql: Seq<char>) -> Action {
    if scan::has_no_statements(sql) {
        Action::Empty
    } else if scan::bypasses_raw_probes(sql) {
        Action::Parse
    } else {
        ask(Round::Raw, 0, Action::Parse)
    }
}

/// How a round ends: who answered, or none.
pub open spec fn round_end(answers: spec_fn(Handler) -> Answer, round: Round, position: nat) -> Option<
    Handler,
>
    decreases handlers(round).len() - position,
{
    if position >= handlers(round).len() {
        None
    } else if answers(handlers(round)[position as int]) is Declined {
        round_end(answers, round, position + 1)
    } else {
        Some(handlers(round)[position as int])
    }
}

/// The first handler of a round that does not decline has the text, and no
/// handler after it is asked.
pub proof fn law_first_answer(
    answers: spec_fn(Handler) -> Answer,
    round: Round,
    position: nat,
    at: nat,
)
    requires
        position <= at < handlers(round).len(),
        forall|k: int|
            position <= k < at ==> answers(#[trigger] handlers(round)[k]) is Declined,
        !(answers(handlers(round)[at as int]) is Declined),
    ensures
        round_end(answers, round, position) == Some(handlers(round)[at as int]),
    decreases at - position,
{
    if position < at {
        assert(answers(handlers(round)[position as int]) is Declined);
        law_first_answer(answers, round, position + 1, at);
    }
}

/// A text is parsed only after every handler has declined it, or where no handler
/// is for statements that begin as it does.
pub proof fn law_none_answers(answers: spec_fn(Handler) -> Answer, round: Round, position: nat)
    requires
        forall|k: int|
            position <= k < handlers(round).len() ==> answers(
                #[trigger] handlers(round)[k],
            ) is Declined,
    ensures
        round_end(answers, round, position) is None,
    decreases handlers(round).len() - position,
{
    if position < handlers(round).len() {
        assert(answers(handlers(round)[position as int]) is Declined);
        law_none_answers(answers, round, position + 1);
    }
}

/// The kinds of parsed statements that a session runs itself. `modes_error` is
/// what is wrong with the modes of a transaction.
#[derive(Debug)]
pub enum SessionStatement {
    StartTransaction { modes_error: Option<SqlError> },
    Commit,
    Rollback { savepoint: Option<String> },
    Savepoint { name: String },
    ReleaseSavepoint { name: String },
    Assign,
    Other,
}

/// What a session does for a parsed statement.
#[derive(Clone, Copy, Debug, PartialEq, Eq, Structural)]
pub enum StatementAction {
    Begin,
    Commit,
    Rollback,
    RollbackToSavepoint,
    Savepoint,
    ReleaseSavepoint,
    Assign,
    Execute,
}

pub open spec fn controls_transaction(s: SessionStatement) -> bool {
    !(s is Assign) && !(s is Other)
}

pub open spec fn trigger_error() -> error::ErrorView {
    error::data_exception_error(
        "2D000"@,
        "transaction control is not permitted in a trigger"@,
        None,
    )
}

/// The error of running a parsed statement, if there is one before it is run.
pub open spec fn statement_error(s: SessionStatement, trigger_depth: nat, in_transaction: bool) -> Option<
    error::ErrorView,
> {
    if trigger_depth > 0 && controls_transaction(s) {
        Some(trigger_error())
    } else {
        match s {
            SessionStatement::StartTransaction { modes_error } => match modes_error {
                Some(e) => Some(e@),
                None => if in_transaction {
                    Some(error::unsupported_error("nested transactions are not supported"@))
                } else {
                    None
                },
            },
            _ => None,
        }
    }
}

pub open spec fn statement_action(s: SessionStatement) -> StatementAction {
    match s {
        SessionStatement::StartTransaction { .. } => StatementAction::Begin,
        SessionStatement::Commit => StatementAction::Commit,
        SessionStatement::Rollback { savepoint } => if savepoint is Some {
            StatementAction::RollbackToSavepoint
        } else {
            StatementAction::Rollback
        },
        SessionStatement::Savepoint { .. } => StatementAction::Savepoint,
        SessionStatement::ReleaseSavepoint { .. } => StatementAction::ReleaseSavepoint,
        SessionStatement::Assign => StatementAction::Assign,
        SessionStatement::Other => StatementAction::Execute,
    }
}

/// What a session does for a parsed statement. In a trigger no statement controls
/// the transaction.
pub fn execute_parsed_statement(s: &SessionStatement, trigger_depth: usize, in_transaction: bool) -> (r:
    Result<StatementAction, SqlError>)
    ensures
        match (r, statement_error(*s, trigger_depth as nat, in_transaction)) {
            (Ok(action), None) => action == statement_action(*s),
            (Err(e), Some(view)) => e@ == view,
            _ => false,
        },
{
    let controls = match s {
        SessionStatement::Assign | SessionStatement::Other => false,
        _ => true,
    };
    if trigger_depth > 0 && controls {
        return Err(
            SqlError::data_exception(
                "2D000",
                "transaction control is not permitted in a trigger".to_owned(),
                None,
            ),
        );
    }
    match s {
        SessionStatement::StartTransaction { modes_error } => {
            match modes_error {
                Some(e) => {
                    return Err(e.copied());
                },
                None => {},
            }
            if in_transaction {
                return Err(
                    SqlError::unsupported("nested transactions are not supported".to_owned()),
                );
            }
            Ok(StatementAction::Begin)
        },
        SessionStatement::Commit => Ok(StatementAction::Commit),
        SessionStatement::Rollback { savepoint } => {
            if savepoint.is_some() {
                Ok(StatementAction::RollbackToSavepoint)
            } else {
                Ok(StatementAction::Rollback)
            }
        },
        SessionStatement::Savepoint { .. } => Ok(StatementAction::Savepoint),
        SessionStatement::ReleaseSavepoint { .. } => Ok(StatementAction::ReleaseSavepoint),
        SessionStatement::Assign => Ok(StatementAction::Assign),
        SessionStatement::Other => Ok(StatementAction::Execute),
    }
}

} // verus!
