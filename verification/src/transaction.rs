//! Transaction control statements.
use vstd::prelude::*;
use crate::ast::Ident;
use crate::error;
use crate::error::{ErrorView, SqlError};
use crate::json;
use crate::json::{Json, JsonView};
use crate::parse;
use crate::parse::{ParsedStatement, ParsedView, SqlLimits};
use crate::text;

verus! {

#[derive(Clone, Copy, Debug, PartialEq, Eq, Structural)]
pub enum TransactionControl {
    Begin,
    SetTransaction,
}

#[derive(Clone, Copy, Debug, PartialEq, Eq, Structural)]
pub enum IsolationLevel {
    ReadUncommitted,
    ReadCommitted,
    RepeatableRead,
    Serializable,
    Snapshot,
}

#[derive(Clone, Copy, Debug, PartialEq, Eq, Structural)]
pub enum TransactionMode {
    ReadOnly,
    ReadWrite,
    Isolation(IsolationLevel),
}

pub open spec fn has_read_only(modes: Seq<TransactionMode>) -> bool {
    exists|i: int| 0 <= i < modes.len() && #[trigger] modes[i] == TransactionMode::ReadOnly
}

/// Why a mode is refused, in a transaction that is read-only or not.
pub open spec fn mode_refusal(mode: TransactionMode, read_only: bool) -> Option<Seq<char>> {
    match mode {
        TransactionMode::Isolation(IsolationLevel::RepeatableRead) => if read_only {
            None
        } else {
            Some("transaction isolation level REPEATABLE READ requires READ ONLY"@)
        },
        TransactionMode::Isolation(IsolationLevel::Serializable) => Some(
            "transaction isolation level SERIALIZABLE is not supported"@,
        ),
        TransactionMode::Isolation(IsolationLevel::ReadUncommitted) => Some(
            "transaction isolation level READ UNCOMMITTED is not supported"@,
        ),
        TransactionMode::Isolation(IsolationLevel::Snapshot) => Some(
            "transaction isolation level SNAPSHOT is not supported"@,
        ),
        _ => None,
    }
}

/// Why the first mode at or after `from` that is refused is refused.
pub open spec fn first_mode_refusal(
    modes: Seq<TransactionMode>,
    from: int,
    read_only: bool,
) -> Option<Seq<char>>
    decreases modes.len() - from,
{
    if from < 0 || from >= modes.len() {
        None
    } else {
        match mode_refusal(modes[from], read_only) {
            Some(message) => Some(message),
            None => first_mode_refusal(modes, from + 1, read_only),
        }
    }
}

/// Why a list of modes is refused.
pub open spec fn modes_refusal(modes: Seq<TransactionMode>) -> Option<Seq<char>> {
    first_mode_refusal(modes, 0, has_read_only(modes))
}

fn refuse_mode(mode: TransactionMode, read_only: bool) -> (r: Option<String>)
    ensures
        error::view_option(r) == mode_refusal(mode, read_only),
{
    match mode {
        TransactionMode::Isolation(level) => match level {
            IsolationLevel::ReadCommitted => None,
            IsolationLevel::RepeatableRead => if read_only {
                None
            } else {
                Some("transaction isolation level REPEATABLE READ requires READ ONLY".to_owned())
            },
            IsolationLevel::Serializable => Some(
                "transaction isolation level SERIALIZABLE is not supported".to_owned(),
            ),
            IsolationLevel::ReadUncommitted => Some(
                "transaction isolation level READ UNCOMMITTED is not supported".to_owned(),
            ),
            IsolationLevel::Snapshot => Some(
                "transaction isolation level SNAPSHOT is not supported".to_owned(),
            ),
        },
        _ => None,
    }
}

/// Refuses the isolation levels that are not supported: anything but READ
/// COMMITTED, and REPEATABLE READ in a READ ONLY transaction.
pub fn validate_transaction_modes(modes: &[TransactionMode]) -> (r: Result<(), SqlError>)
    ensures
        match (r, modes_refusal(modes@)) {
            (Ok(_), None) => true,
            (Err(e), Some(message)) => e@ == error::unsupported_error(message),
            _ => false,
        },
{
    let mut read_only = false;
    let mut i: usize = 0;
    while i < modes.len()
        invariant
            i <= modes.len(),
            read_only == (exists|k: int|
                0 <= k < i && #[trigger] modes@[k] == TransactionMode::ReadOnly),
        decreases modes.len() - i,
    {
        if modes[i] == TransactionMode::ReadOnly {
            assert(modes@[i as int] == TransactionMode::ReadOnly);
            read_only = true;
        }
        i = i + 1;
    }
    assert(read_only == has_read_only(modes@));
    i = 0;
    while i < modes.len()
        invariant
            i <= modes.len(),
            read_only == has_read_only(modes@),
            modes_refusal(modes@) == first_mode_refusal(modes@, i as int, read_only),
        decreases modes.len() - i,
    {
        match refuse_mode(modes[i], read_only) {
            Some(message) => {
                return Err(SqlError::unsupported(message));
            },
            None => {},
        }
        i = i + 1;
    }
    Ok(())
}

pub fn validate_start_transaction_modes(modes: &[TransactionMode]) -> (r: Result<(), SqlError>)
    ensures
        match (r, modes_refusal(modes@)) {
            (Ok(_), None) => true,
            (Err(e), Some(message)) => e@ == error::unsupported_error(message),
            _ => false,
        },
{
    validate_transaction_modes(modes)
}

pub fn validate_set_transaction_modes(modes: &[TransactionMode]) -> (r: Result<(), SqlError>)
    ensures
        match (r, modes_refusal(modes@)) {
            (Ok(_), None) => true,
            (Err(e), Some(message)) => e@ == error::unsupported_error(message),
            _ => false,
        },
{
    validate_transaction_modes(modes)
}

/// The mode that a node of the syntax tree stands for.
pub open spec fn mode_of(node: JsonView) -> TransactionMode {
    let content = json::payload(node);
    if json::is_variant(node, "IsolationLevel"@) {
        if json::is_variant(content, "ReadUncommitted"@) {
            TransactionMode::Isolation(IsolationLevel::ReadUncommitted)
        } else if json::is_variant(content, "RepeatableRead"@) {
            TransactionMode::Isolation(IsolationLevel::RepeatableRead)
        } else if json::is_variant(content, "Serializable"@) {
            TransactionMode::Isolation(IsolationLevel::Serializable)
        } else if json::is_variant(content, "Snapshot"@) {
            TransactionMode::Isolation(IsolationLevel::Snapshot)
        } else {
            TransactionMode::Isolation(IsolationLevel::ReadCommitted)
        }
    } else if json::is_variant(content, "ReadOnly"@) {
        TransactionMode::ReadOnly
    } else {
        TransactionMode::ReadWrite
    }
}

/// The modes that a statement lists.
pub open spec fn modes_of(content: JsonView) -> Seq<TransactionMode> {
    json::elements(json::field_or_null(content, "modes"@)).map_values(|n: JsonView| mode_of(n))
}

fn decode_mode(node: &Json) -> (r: TransactionMode)
    ensures
        r == mode_of(node@),
{
    match json::variant_payload(node) {
        Some(content) => {
            if json::has_variant(node, "IsolationLevel") {
                if json::has_variant(content, "ReadUncommitted") {
                    TransactionMode::Isolation(IsolationLevel::ReadUncommitted)
                } else if json::has_variant(content, "RepeatableRead") {
                    TransactionMode::Isolation(IsolationLevel::RepeatableRead)
                } else if json::has_variant(content, "Serializable") {
                    TransactionMode::Isolation(IsolationLevel::Serializable)
                } else if json::has_variant(content, "Snapshot") {
                    TransactionMode::Isolation(IsolationLevel::Snapshot)
                } else {
                    TransactionMode::Isolation(IsolationLevel::ReadCommitted)
                }
            } else if json::has_variant(content, "ReadOnly") {
                TransactionMode::ReadOnly
            } else {
                TransactionMode::ReadWrite
            }
        },
        None => if json::has_variant(node, "IsolationLevel") {
            TransactionMode::Isolation(IsolationLevel::ReadCommitted)
        } else {
            TransactionMode::ReadWrite
        },
    }
}

/// The modes that a statement lists.
pub fn decode_modes(content: Option<&Json>) -> (r: Vec<TransactionMode>)
    ensures
        r@ == (match content {
            Some(c) => modes_of(c@),
            None => modes_of(JsonView::Null),
        }),
{
    broadcast use json::lemma_items_view;

    let ghost all = match content {
        Some(c) => modes_of(c@),
        None => modes_of(JsonView::Null),
    };
    let list: Option<&Json> = match content {
        Some(c) => json::get_field(c, "modes"),
        None => None,
    };
    let mut out: Vec<TransactionMode> = Vec::new();
    match list {
        Some(Json::Array(items)) => {
            assert(all =~= json::items_view(items@).map_values(|n: JsonView| mode_of(n)));
            let mut i: usize = 0;
            while i < items.len()
                invariant
                    i <= items.len(),
                    all == json::items_view(items@).map_values(|n: JsonView| mode_of(n)),
                    out@ == all.take(i as int),
                decreases items.len() - i,
            {
                broadcast use json::lemma_items_view;

                out.push(decode_mode(&items[i]));
                assert(all.take(i as int + 1) =~= all.take(i as int).push(all[i as int]));
                i = i + 1;
            }
            assert(all.take(all.len() as int) =~= all);
        },
        _ => {
            assert(all =~= Seq::<TransactionMode>::empty());
        },
    }
    out
}

/// The transaction control that a list of statements amounts to: a single
/// statement that starts a transaction or sets its modes.
pub open spec fn control_of(statements: Seq<ParsedView>) -> Result<
    Option<TransactionControl>,
    ErrorView,
> {
    if statements.len() != 1 {
        Ok(None)
    } else {
        let tree = statements[0].tree;
        let content = json::payload(tree);
        if json::is_variant(tree, "StartTransaction"@) {
            match modes_refusal(modes_of(content)) {
                Some(message) => Err(error::unsupported_error(message)),
                None => Ok(Some(TransactionControl::Begin)),
            }
        } else if json::is_variant(tree, "Set"@) && json::is_variant(
            content,
            "SetTransaction"@,
        ) {
            let inner = json::payload(content);
            if json::field_or_null(inner, "snapshot"@) != JsonView::Null {
                Err(error::unsupported_error("transaction snapshots are not supported"@))
            } else {
                match modes_refusal(modes_of(inner)) {
                    Some(message) => Err(error::unsupported_error(message)),
                    None => Ok(Some(TransactionControl::SetTransaction)),
                }
            }
        } else {
            Ok(None)
        }
    }
}

pub open spec fn control_view(r: Result<Option<TransactionControl>, SqlError>) -> Result<
    Option<TransactionControl>,
    ErrorView,
> {
    match r {
        Ok(c) => Ok(c),
        Err(e) => Err(e@),
    }
}

fn has_snapshot(content: Option<&Json>) -> (r: bool)
    ensures
        r == (match content {
            Some(c) => json::field_or_null(c@, "snapshot"@) != JsonView::Null,
            None => false,
        }),
{
    match content {
        Some(c) => match json::get_field(c, "snapshot") {
            Some(Json::Null) => false,
            Some(_) => true,
            None => false,
        },
        None => false,
    }
}

/// The transaction control that the statements of a text amount to.
pub fn transaction_control(statements: &Vec<ParsedStatement>) -> (r: Result<
    Option<TransactionControl>,
    SqlError,
>)
    ensures
        control_view(r) == control_of(parse::parsed_views(statements@)),
{
    if statements.len() != 1 {
        return Ok(None);
    }
    let tree = &statements[0].tree;
    assert(parse::parsed_views(statements@)[0] == statements@[0]@);
    let content = json::variant_payload(tree);
    if json::has_variant(tree, "StartTransaction") {
        let modes = decode_modes(content);
        return match validate_start_transaction_modes(modes.as_slice()) {
            Ok(_) => Ok(Some(TransactionControl::Begin)),
            Err(e) => Err(e),
        };
    }
    if json::has_variant(tree, "Set") {
        match content {
            Some(set) => {
                if json::has_variant(set, "SetTransaction") {
                    let inner = json::variant_payload(set);
                    if has_snapshot(inner) {
                        return Err(
                            SqlError::unsupported(
                                "transaction snapshots are not supported".to_owned(),
                            ),
                        );
                    }
                    let modes = decode_modes(inner);
                    return match validate_set_transaction_modes(modes.as_slice()) {
                        Ok(_) => Ok(Some(TransactionControl::SetTransaction)),
                        Err(e) => Err(e),
                    };
                }
            },
            None => {},
        }
    }
    Ok(None)
}

/// Recognises a text that starts a transaction or sets its modes, and refuses
/// the modes that are not supported.
pub fn parse_transaction_control(sql: &str, rewritten: Option<&str>, limits: SqlLimits) -> (r:
    Result<Option<TransactionControl>, SqlError>)
    ensures
        control_view(r) == match parse::parse_outcome(sql@, text::view_str(rewritten), limits) {
            Ok(statements) => control_of(statements),
            Err(e) => Err(e),
        },
{
    match parse::parse_statements(sql, rewritten, limits) {
        Ok(statements) => transaction_control(&statements),
        Err(e) => Err(e),
    }
}

pub open spec fn savepoint_key(name: Ident) -> Seq<char> {
    if name.quoted {
        name.value@
    } else {
        text::lower(name.value@)
    }
}

/// The name of a savepoint: folded to lower case unless it is quoted.
pub fn savepoint_name(name: &Ident) -> (r: String)
    ensures
        r@ == savepoint_key(*name),
{
    if name.quoted {
        name.value.clone()
    } else {
        text::to_lower(name.value.as_str())
    }
}

} // verus!
