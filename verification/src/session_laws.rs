//! What a session's identity, its transactions and its savepoints are, stated of
//! the settings and the statements by their names.
use vstd::prelude::*;
use crate::error;
use crate::json;
use crate::json::JsonView;
use crate::parse::ParsedView;
use crate::security;
use crate::security::ContextView;
use crate::session;
use crate::session_tx;
use crate::settings;
use crate::statement_kinds;
use crate::statement_kinds::SessionStatementView;
use crate::text;
use crate::transaction;
use crate::transaction::{IsolationLevel, TransactionControl, TransactionMode};

verus! {

/// Both settings of that name have that value; they are not set where there is
/// none or it is empty.
pub open spec fn identifies(
    m: Map<Seq<char>, Seq<char>>,
    name: Seq<char>,
    value: Option<Seq<char>>,
) -> bool {
    let expected = match value {
        Some(v) => if v.len() == 0 {
            None
        } else {
            Some(v)
        },
        None => None,
    };
    settings::setting(m, "bicdb."@ + name) == expected && settings::setting(m, "carrier."@ + name)
        == expected
}

proof fn lemma_suffixes()
    ensures
        security::protected_suffixes()[0] == "current_tenant"@ && "current_tenant"@.len() == 14,
        security::protected_suffixes()[1] == "current_workspace"@ && "current_workspace"@.len() == 17,
        security::protected_suffixes()[2] == "current_user"@ && "current_user"@.len() == 12,
        security::protected_suffixes()[3] == "current_client"@ && "current_client"@.len() == 14,
        security::protected_suffixes()[4] == "current_roles"@ && "current_roles"@.len() == 13,
        security::protected_suffixes()[5] == "current_scopes"@ && "current_scopes"@.len() == 14,
        security::protected_suffixes()[6] == "current_email"@ && "current_email"@.len() == 13,
        security::protected_suffixes()[7] == "current_name"@ && "current_name"@.len() == 12,
        security::protected_suffixes()[8] == "current_session"@ && "current_session"@.len() == 15,
        security::protected_suffixes()[9] == "authentication_strength"@ && "authentication_strength"@.len() == 23,
        "current_tenant"@[8] == 't' && "current_client"@[8] == 'c' && "current_scopes"@[8] == 's',
        "current_roles"@[8] == 'r' && "current_email"@[8] == 'e',
        "current_user"@[8] == 'u' && "current_name"@[8] == 'n',
        "bicdb."@.len() == 6 && "bicdb."@[0] == 'b',
        "carrier."@.len() == 8 && "carrier."@[0] == 'c',
{
    reveal_strlit("bicdb.");
    reveal_strlit("carrier.");
    reveal_strlit("current_tenant");
    reveal_strlit("current_workspace");
    reveal_strlit("current_user");
    reveal_strlit("current_client");
    reveal_strlit("current_roles");
    reveal_strlit("current_scopes");
    reveal_strlit("current_email");
    reveal_strlit("current_name");
    reveal_strlit("current_session");
    reveal_strlit("authentication_strength");
}

/// Two names with a prefix are the same only where the prefixes and the names are.
proof fn lemma_prefixed(a: Seq<char>, b: Seq<char>)
    ensures
        "bicdb."@ + a != "carrier."@ + b,
        "bicdb."@ + a == "bicdb."@ + b ==> a == b,
        "carrier."@ + a == "carrier."@ + b ==> a == b,
{
    lemma_suffixes();
    assert(("bicdb."@ + a)[0] == 'b');
    assert(("carrier."@ + b)[0] == 'c');
    if "bicdb."@ + a == "bicdb."@ + b {
        assert(("bicdb."@ + a).skip(6) =~= a);
        assert(("bicdb."@ + b).skip(6) =~= b);
    }
    if "carrier."@ + a == "carrier."@ + b {
        assert(("carrier."@ + a).skip(8) =~= a);
        assert(("carrier."@ + b).skip(8) =~= b);
    }
}

proof fn lemma_suffixes_differ(i: int, j: int)
    requires
        0 <= i < j < 10,
    ensures
        security::protected_suffixes()[i] != security::protected_suffixes()[j],
{
    lemma_suffixes();
    let a = security::protected_suffixes()[i];
    let b = security::protected_suffixes()[j];
    if a == b {
        assert(a[8] == b[8]);
    }
}

proof fn lemma_given(m: Map<Seq<char>, Seq<char>>, values: Seq<Seq<char>>, count: nat, i: int)
    requires
        security::unprotected(m),
        0 <= i < 10,
        count <= 10,
    ensures
        i < count ==> identifies(
            security::given_authority(m, values, count),
            security::protected_suffixes()[i],
            Some(values[i]),
        ),
        i >= count ==> identifies(
            security::given_authority(m, values, count),
            security::protected_suffixes()[i],
            None,
        ),
    decreases count,
{
    let suffix = security::protected_suffixes()[i];
    if count == 0 {
        lemma_unset(m, i);
    } else {
        let last = count - 1;
        lemma_given(m, values, (count - 1) as nat, i);
        if i != last {
            if i < last {
                lemma_suffixes_differ(i, last);
            } else {
                lemma_suffixes_differ(last, i);
            }
        }
        let other = security::protected_suffixes()[last];
        lemma_prefixed(suffix, other);
        lemma_prefixed(other, suffix);
        lemma_prefixed(suffix, suffix);
    }
}

proof fn lemma_unset(m: Map<Seq<char>, Seq<char>>, i: int)
    requires
        security::unprotected(m),
        0 <= i < 10,
    ensures
        identifies(m, security::protected_suffixes()[i], None),
{
    let suffix = security::protected_suffixes()[i];
    lemma_protected(i);
    assert(security::is_protected("bicdb."@ + suffix));
    assert(security::is_protected("carrier."@ + suffix));
}

proof fn lemma_protected(i: int)
    requires
        0 <= i < 10,
    ensures
        security::is_protected("bicdb."@ + security::protected_suffixes()[i]),
        security::is_protected("carrier."@ + security::protected_suffixes()[i]),
{
    lemma_suffixes();
    let suffix = security::protected_suffixes()[i];
    reveal_strlit("current_tenant");
    reveal_strlit("current_workspace");
    reveal_strlit("current_user");
    reveal_strlit("current_client");
    reveal_strlit("current_roles");
    reveal_strlit("current_scopes");
    reveal_strlit("current_email");
    reveal_strlit("current_name");
    reveal_strlit("current_session");
    reveal_strlit("authentication_strength");
    reveal_strlit("bicdb.");
    reveal_strlit("carrier.");
    assert(text::lower("bicdb."@ + suffix) =~= "bicdb."@ + suffix);
    assert(text::lower("carrier."@ + suffix) =~= "carrier."@ + suffix);
}

/// A session that is bound to an identity has each part of it under its own name:
/// the tenant, the workspace, the user, the client and the session, how strongly
/// they were authenticated, the roles and the scopes with commas between them,
/// and the address and the name from the attributes. A part that is missing or
/// empty is not set, whatever was set before.
pub proof fn law_identity_settings(m: Map<Seq<char>, Seq<char>>, c: ContextView)
    ensures
        identifies(security::bound(m, Some(c)), "current_tenant"@, Some(c.tenant_id)),
        identifies(security::bound(m, Some(c)), "current_workspace"@, c.workspace_id),
        identifies(security::bound(m, Some(c)), "current_user"@, Some(c.user_id)),
        identifies(security::bound(m, Some(c)), "current_client"@, c.client_id),
        identifies(security::bound(m, Some(c)), "current_roles"@, Some(text::joined(c.roles, ","@))),
        identifies(security::bound(m, Some(c)), "current_scopes"@, Some(text::joined(c.scopes, ","@))),
        identifies(security::bound(m, Some(c)), "current_email"@, settings::setting(c.policy_attributes, "email"@)),
        identifies(security::bound(m, Some(c)), "current_name"@, settings::setting(c.policy_attributes, "name"@)),
        identifies(security::bound(m, Some(c)), "current_session"@, c.session_id),
        identifies(security::bound(m, Some(c)), "authentication_strength"@, Some(c.authentication_strength)),
{
    lemma_suffixes();
    security::law_stripped(m);
    let values = security::authority(c);
    lemma_given(security::stripped(m), values, 10, 0);
    lemma_given(security::stripped(m), values, 10, 1);
    lemma_given(security::stripped(m), values, 10, 2);
    lemma_given(security::stripped(m), values, 10, 3);
    lemma_given(security::stripped(m), values, 10, 4);
    lemma_given(security::stripped(m), values, 10, 5);
    lemma_given(security::stripped(m), values, 10, 6);
    lemma_given(security::stripped(m), values, 10, 7);
    lemma_given(security::stripped(m), values, 10, 8);
    lemma_given(security::stripped(m), values, 10, 9);
}

/// The settings that carry an identity are protected, in any case of their letters.
pub proof fn law_identity_is_protected(name: Seq<char>)
    ensures
        text::lower(name) == "bicdb."@ + "current_tenant"@ || text::lower(name) == "carrier."@ + "current_tenant"@
            ==> security::is_protected(name),
        text::lower(name) == "bicdb."@ + "current_workspace"@ || text::lower(name) == "carrier."@ + "current_workspace"@
            ==> security::is_protected(name),
        text::lower(name) == "bicdb."@ + "current_user"@ || text::lower(name) == "carrier."@ + "current_user"@
            ==> security::is_protected(name),
        text::lower(name) == "bicdb."@ + "current_client"@ || text::lower(name) == "carrier."@ + "current_client"@
            ==> security::is_protected(name),
        text::lower(name) == "bicdb."@ + "current_roles"@ || text::lower(name) == "carrier."@ + "current_roles"@
            ==> security::is_protected(name),
        text::lower(name) == "bicdb."@ + "current_scopes"@ || text::lower(name) == "carrier."@ + "current_scopes"@
            ==> security::is_protected(name),
        text::lower(name) == "bicdb."@ + "current_email"@ || text::lower(name) == "carrier."@ + "current_email"@
            ==> security::is_protected(name),
        text::lower(name) == "bicdb."@ + "current_name"@ || text::lower(name) == "carrier."@ + "current_name"@
            ==> security::is_protected(name),
        text::lower(name) == "bicdb."@ + "current_session"@ || text::lower(name) == "carrier."@ + "current_session"@
            ==> security::is_protected(name),
        text::lower(name) == "bicdb."@ + "authentication_strength"@ || text::lower(name) == "carrier."@ + "authentication_strength"@
            ==> security::is_protected(name),
{
    lemma_suffixes();
    let all = security::protected_suffixes();
    assert(all[0] == "current_tenant"@);
    assert(all[1] == "current_workspace"@);
    assert(all[2] == "current_user"@);
    assert(all[3] == "current_client"@);
    assert(all[4] == "current_roles"@);
    assert(all[5] == "current_scopes"@);
    assert(all[6] == "current_email"@);
    assert(all[7] == "current_name"@);
    assert(all[8] == "current_session"@);
    assert(all[9] == "authentication_strength"@);
}

/// A mode asks for an isolation level other than READ COMMITTED, REPEATABLE READ of
/// a transaction that is READ ONLY aside.
pub open spec fn asks_too_much(mode: TransactionMode, read_only: bool) -> bool {
    match mode {
        TransactionMode::Isolation(level) => level != IsolationLevel::ReadCommitted && !(read_only
            && level == IsolationLevel::RepeatableRead),
        _ => false,
    }
}

proof fn lemma_modes_refused(modes: Seq<TransactionMode>, from: int, read_only: bool)
    requires
        0 <= from <= modes.len(),
    ensures
        transaction::first_mode_refusal(modes, from, read_only) is Some <==> exists|i: int|
            from <= i < modes.len() && asks_too_much(#[trigger] modes[i], read_only),
    decreases modes.len() - from,
{
    if from < modes.len() {
        lemma_modes_refused(modes, from + 1, read_only);
        assert(transaction::mode_refusal(modes[from], read_only) is Some <==> asks_too_much(
            modes[from],
            read_only,
        ));
    }
}

/// Modes are refused exactly where one of them asks for more than there is; READ
/// ONLY anywhere in the list lets REPEATABLE READ through, and its place does not
/// matter.
pub proof fn law_modes_refused(modes: Seq<TransactionMode>)
    ensures
        transaction::modes_refusal(modes) is Some <==> exists|i: int|
            0 <= i < modes.len() && asks_too_much(
                #[trigger] modes[i],
                modes.contains(TransactionMode::ReadOnly),
            ),
{
    assert(transaction::has_read_only(modes) <==> modes.contains(TransactionMode::ReadOnly)) by {
        if modes.contains(TransactionMode::ReadOnly) {
            let i = choose|i: int|
                0 <= i < modes.len() && modes[i] == TransactionMode::ReadOnly;
            assert(modes[i] == TransactionMode::ReadOnly);
        }
    }
    lemma_modes_refused(modes, 0, transaction::has_read_only(modes));
}

proof fn lemma_mode_names()
    ensures
        "IsolationLevel"@.len() == 14 && "IsolationLevel"@[0] == 'I',
        "ReadUncommitted"@.len() == 15 && "ReadUncommitted"@[0] == 'R',
        "RepeatableRead"@.len() == 14 && "RepeatableRead"@[0] == 'R',
        "Serializable"@.len() == 12 && "Serializable"@[0] == 'S',
        "Snapshot"@.len() == 8 && "Snapshot"@[0] == 'S',
        "ReadCommitted"@.len() == 13 && "ReadCommitted"@[0] == 'R',
        "ReadOnly"@.len() == 8 && "ReadOnly"@[0] == 'R',
        "ReadWrite"@.len() == 9 && "ReadWrite"@[0] == 'R',
{
    reveal_strlit("IsolationLevel");
    reveal_strlit("ReadUncommitted");
    reveal_strlit("RepeatableRead");
    reveal_strlit("Serializable");
    reveal_strlit("Snapshot");
    reveal_strlit("ReadCommitted");
    reveal_strlit("ReadOnly");
    reveal_strlit("ReadWrite");
}

/// A mode is what its variant says: an isolation level under its own name, READ ONLY
/// and READ WRITE.
pub proof fn law_mode_of(node: JsonView)
    ensures
        ({
            let inner = json::variant_name(json::payload(node));
            let mode = transaction::mode_of(node);
            &&& json::variant_name(node) == Some("IsolationLevel"@) ==> {
                &&& mode is Isolation
                &&& inner == Some("ReadUncommitted"@) <==> mode == TransactionMode::Isolation(
                    IsolationLevel::ReadUncommitted,
                )
                &&& inner == Some("RepeatableRead"@) <==> mode == TransactionMode::Isolation(
                    IsolationLevel::RepeatableRead,
                )
                &&& inner == Some("Serializable"@) <==> mode == TransactionMode::Isolation(
                    IsolationLevel::Serializable,
                )
                &&& inner == Some("Snapshot"@) <==> mode == TransactionMode::Isolation(
                    IsolationLevel::Snapshot,
                )
                &&& inner == Some("ReadCommitted"@) ==> mode == TransactionMode::Isolation(
                    IsolationLevel::ReadCommitted,
                )
            }
            &&& json::variant_name(node) != Some("IsolationLevel"@) ==> (inner == Some("ReadOnly"@)
                <==> mode == TransactionMode::ReadOnly)
            &&& json::variant_name(node) != Some("IsolationLevel"@) ==> mode !is Isolation
        }),
{
    lemma_mode_names();
}

proof fn lemma_statement_names()
    ensures
        "StartTransaction"@.len() == 16 && "StartTransaction"@[0] == 'S',
        "Commit"@.len() == 6 && "Commit"@[0] == 'C',
        "Rollback"@.len() == 8 && "Rollback"@[0] == 'R',
        "Savepoint"@.len() == 9 && "Savepoint"@[0] == 'S',
        "ReleaseSavepoint"@.len() == 16 && "ReleaseSavepoint"@[0] == 'R',
        "Set"@.len() == 3 && "Set"@[0] == 'S',
{
    reveal_strlit("StartTransaction");
    reveal_strlit("Commit");
    reveal_strlit("Rollback");
    reveal_strlit("Savepoint");
    reveal_strlit("ReleaseSavepoint");
    reveal_strlit("Set");
}

/// What a session reads of a statement is told by its variant, each kind by one
/// variant alone.
pub proof fn law_statement_kinds(tree: JsonView)
    ensures
        ({
            let name = json::variant_name(tree);
            let kind = statement_kinds::statement_kind(tree);
            &&& kind is StartTransaction <==> name == Some("StartTransaction"@)
            &&& kind is Commit <==> name == Some("Commit"@)
            &&& kind is Rollback <==> name == Some("Rollback"@)
            &&& kind is Savepoint <==> name == Some("Savepoint"@)
            &&& kind is ReleaseSavepoint <==> name == Some("ReleaseSavepoint"@)
            &&& kind is Assign <==> name == Some("Set"@)
        }),
{
    lemma_statement_names();
    if let Some(name) = json::variant_name(tree) {
        assert(name.len() > 0 ==> name[0] == name[0]);
    }
}

/// ROLLBACK goes back to a savepoint exactly where it names one. A savepoint in
/// quotes keeps its letters, and another is folded to lower case, alike where it
/// is set, released and gone back to.
pub proof fn law_savepoint_names(node: JsonView, value: Seq<char>)
    requires
        json::field(node, "value"@) == Some(JsonView::Text(value)),
    ensures
        json::field_or_null(node, "quote_style"@) == JsonView::Null
            ==> statement_kinds::savepoint_of(node) == text::lower(value),
        json::field_or_null(node, "quote_style"@) != JsonView::Null
            ==> statement_kinds::savepoint_of(node) == value,
        forall|tree: JsonView| #[trigger]
            json::variant_name(tree) == Some("Rollback"@) ==> ({
                let target = json::field_or_null(json::payload(tree), "savepoint"@);
                &&& target == JsonView::Null <==> statement_kinds::statement_kind(tree)
                    == SessionStatementView::Rollback(None)
                &&& target == node ==> statement_kinds::statement_kind(tree)
                    == SessionStatementView::Rollback(Some(statement_kinds::savepoint_of(node)))
            }),
        forall|tree: JsonView| #[trigger]
            json::variant_name(tree) == Some("Savepoint"@) && json::field_or_null(
                json::payload(tree),
                "name"@,
            ) == node ==> statement_kinds::statement_kind(tree) == SessionStatementView::Savepoint(
                statement_kinds::savepoint_of(node),
            ),
        forall|tree: JsonView| #[trigger]
            json::variant_name(tree) == Some("ReleaseSavepoint"@) && json::field_or_null(
                json::payload(tree),
                "name"@,
            ) == node ==> statement_kinds::statement_kind(tree)
                == SessionStatementView::ReleaseSavepoint(statement_kinds::savepoint_of(node)),
{
    lemma_statement_names();
}

/// Only a single statement is transaction control: one that starts a transaction,
/// or sets the modes of one without naming a snapshot. Modes that are refused
/// are refused here.
pub proof fn law_transaction_control(statements: Seq<ParsedView>)
    ensures
        statements.len() != 1 ==> transaction::control_of(statements) == Ok::<
            Option<TransactionControl>,
            error::ErrorView,
        >(None),
        statements.len() == 1 ==> ({
            let tree = statements[0].tree;
            let content = json::payload(tree);
            let inner = json::payload(content);
            let control = transaction::control_of(statements);
            &&& control == Ok::<Option<TransactionControl>, error::ErrorView>(
                Some(TransactionControl::Begin),
            ) <==> json::variant_name(tree) == Some("StartTransaction"@)
                && transaction::modes_refusal(transaction::modes_of(content)) is None
            &&& control == Ok::<Option<TransactionControl>, error::ErrorView>(
                Some(TransactionControl::SetTransaction),
            ) <==> json::variant_name(tree) == Some("Set"@) && json::variant_name(content) == Some(
                "SetTransaction"@,
            ) && json::field_or_null(inner, "snapshot"@) == JsonView::Null
                && transaction::modes_refusal(transaction::modes_of(inner)) is None
            &&& control is Err ==> json::variant_name(tree) == Some("StartTransaction"@) || (
            json::variant_name(tree) == Some("Set"@) && json::variant_name(content) == Some(
                "SetTransaction"@,
            ))
        }),
{
    lemma_statement_names();
}

/// Of several savepoints with one name the last counts.
pub proof fn law_last_savepoint(marks: Seq<session::MarkView>, name: Seq<char>)
    ensures
        match session_tx::last_named(marks, name) {
            Some(at) => 0 <= at < marks.len() && marks[at].name == name && forall|k: int|
                at < k < marks.len() ==> (#[trigger] marks[k]).name != name,
            None => forall|k: int| 0 <= k < marks.len() ==> (#[trigger] marks[k]).name != name,
        },
    decreases marks.len(),
{
    if marks.len() > 0 {
        let rest = marks.drop_last();
        law_last_savepoint(rest, name);
        assert forall|k: int| 0 <= k < rest.len() implies (#[trigger] marks[k]).name
            == rest[k].name by {}
    }
}

} // verus!
