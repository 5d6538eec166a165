//! Which statements a session runs itself.
use vstd::prelude::*;
use crate::ast::Ident;
use crate::dispatch::SessionStatement;
use crate::error;
use crate::error::ErrorView;
use crate::json;
use crate::json::{Json, JsonView};
use crate::parse::ParsedStatement;
use crate::text;
use crate::transaction;

verus! {

/// What a session reads of a statement. The error of a transaction's start is what
/// is wrong with its modes.
pub enum SessionStatementView {
    StartTransaction(Option<ErrorView>),
    Commit,
    Rollback(Option<Seq<char>>),
    Savepoint(Seq<char>),
    ReleaseSavepoint(Seq<char>),
    Assign,
    Other,
}

impl View for SessionStatement {
    type V = SessionStatementView;

    open spec fn view(&self) -> SessionStatementView {
        match *self {
            SessionStatement::StartTransaction { modes_error } => SessionStatementView::StartTransaction(
                match modes_error {
                    Some(e) => Some(e@),
                    None => None,
                },
            ),
            SessionStatement::Commit => SessionStatementView::Commit,
            SessionStatement::Rollback { savepoint } => SessionStatementView::Rollback(
                error::view_option(savepoint),
            ),
            SessionStatement::Savepoint { name } => SessionStatementView::Savepoint(name@),
            SessionStatement::ReleaseSavepoint { name } => SessionStatementView::ReleaseSavepoint(
                name@,
            ),
            SessionStatement::Assign => SessionStatementView::Assign,
            SessionStatement::Other => SessionStatementView::Other,
        }
    }
}

/// The name of a savepoint in the syntax tree: folded to lower case unless it is
/// quoted.
pub open spec fn savepoint_of(node: JsonView) -> Seq<char> {
    let value = match json::field_or_null(node, "value"@) {
        JsonView::Text(s) => s,
        _ => Seq::empty(),
    };
    if json::field_or_null(node, "quote_style"@) == JsonView::Null {
        text::lower(value)
    } else {
        value
    }
}

/// Which statement a syntax tree is.
pub open spec fn statement_kind(tree: JsonView) -> SessionStatementView {
    let content = json::payload(tree);
    if json::is_variant(tree, "StartTransaction"@) {
        SessionStatementView::StartTransaction(
            match transaction::modes_refusal(transaction::modes_of(content)) {
                Some(message) => Some(error::unsupported_error(message)),
                None => None,
            },
        )
    } else if json::is_variant(tree, "Commit"@) {
        SessionStatementView::Commit
    } else if json::is_variant(tree, "Rollback"@) {
        SessionStatementView::Rollback(
            match json::field_or_null(content, "savepoint"@) {
                JsonView::Null => None,
                node => Some(savepoint_of(node)),
            },
        )
    } else if json::is_variant(tree, "Savepoint"@) {
        SessionStatementView::Savepoint(savepoint_of(json::field_or_null(content, "name"@)))
    } else if json::is_variant(tree, "ReleaseSavepoint"@) {
        SessionStatementView::ReleaseSavepoint(savepoint_of(json::field_or_null(content, "name"@)))
    } else if json::is_variant(tree, "Set"@) {
        SessionStatementView::Assign
    } else {
        SessionStatementView::Other
    }
}

fn member<'a>(content: Option<&'a Json>, name: &str) -> (r: Option<&'a Json>)
    ensures
        match content {
            Some(c) => match r {
                Some(v) => json::field_or_null(c@, name@) == v@ && !(v@ is Null),
                None => json::field_or_null(c@, name@) is Null,
            },
            None => r is None,
        },
{
    match content {
        Some(c) => match json::get_field(c, name) {
            Some(Json::Null) => None,
            Some(v) => Some(v),
            None => None,
        },
        None => None,
    }
}

fn savepoint_in(node: Option<&Json>) -> (r: String)
    ensures
        r@ == savepoint_of(
            match node {
                Some(n) => n@,
                None => JsonView::Null,
            },
        ),
{
    let value = match member(node, "value") {
        Some(Json::Text(s)) => s.clone(),
        _ => String::new(),
    };
    let quoted = member(node, "quote_style").is_some();
    let ident = Ident { value, quoted, text: String::new() };
    transaction::savepoint_name(&ident)
}

/// Which statement a parsed one is.
pub fn session_statement(s: &ParsedStatement) -> (r: SessionStatement)
    ensures
        r@ == statement_kind(s.tree@),
{
    let tree = &s.tree;
    let content = json::variant_payload(tree);
    if json::has_variant(tree, "StartTransaction") {
        let modes = transaction::decode_modes(content);
        let modes_error = match transaction::validate_start_transaction_modes(modes.as_slice()) {
            Ok(()) => None,
            Err(e) => Some(e),
        };
        return SessionStatement::StartTransaction { modes_error };
    }
    if json::has_variant(tree, "Commit") {
        return SessionStatement::Commit;
    }
    if json::has_variant(tree, "Rollback") {
        let savepoint = match member(content, "savepoint") {
            Some(node) => Some(savepoint_in(Some(node))),
            None => None,
        };
        return SessionStatement::Rollback { savepoint };
    }
    if json::has_variant(tree, "Savepoint") {
        return SessionStatement::Savepoint { name: savepoint_in(member(content, "name")) };
    }
    if json::has_variant(tree, "ReleaseSavepoint") {
        return SessionStatement::ReleaseSavepoint { name: savepoint_in(member(content, "name")) };
    }
    if json::has_variant(tree, "Set") {
        return SessionStatement::Assign;
    }
    SessionStatement::Other
}

/// A single statement that starts a transaction with modes that are refused is
/// refused alike by the session that runs it and where it is recognised as
/// transaction control.
pub proof fn law_refused_modes(statement: crate::parse::ParsedView)
    requires
        json::is_variant(statement.tree, "StartTransaction"@),
    ensures
        match (statement_kind(statement.tree), transaction::control_of(seq![statement])) {
            (SessionStatementView::StartTransaction(Some(e)), Err(other)) => e == other,
            (SessionStatementView::StartTransaction(None), Ok(Some(c))) => c
                == transaction::TransactionControl::Begin,
            _ => false,
        },
{
}

} // verus!
