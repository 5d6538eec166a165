//! What SET and RESET leave behind, stated of the settings by their names and of the
//! roles that a session acts as.
use vstd::prelude::*;
use crate::error;
use crate::guc;
use crate::roles;
use crate::roles::{Expansion, RoleCatalog};
use crate::security;
use crate::session;
use crate::set_statements;
use crate::set_statements::{Assignment, SetStatement};
use crate::settings;

verus! {

/// The change at a place is the last of the setting with that name.
pub open spec fn is_last_change(
    changes: Seq<(String, Option<String>)>,
    name: Seq<char>,
    at: int,
) -> bool {
    &&& 0 <= at < changes.len()
    &&& changes[at].0@ == name
    &&& forall|k: int| at < k < changes.len() ==> (#[trigger] changes[k]).0@ != name
}

/// Of the changes of a setting the last counts: it sets it to its value or takes it
/// out. A setting that no change names stays as it is.
pub proof fn law_edited(
    m: Map<Seq<char>, Seq<char>>,
    changes: Seq<(String, Option<String>)>,
    name: Seq<char>,
    at: int,
)
    ensures
        is_last_change(changes, name, at) ==> settings::setting(
            set_statements::edited(m, changes),
            name,
        ) == error::view_option(changes[at].1),
        (forall|k: int| 0 <= k < changes.len() ==> (#[trigger] changes[k]).0@ != name)
            ==> settings::setting(set_statements::edited(m, changes), name) == settings::setting(
            m,
            name,
        ),
    decreases changes.len(),
{
    if changes.len() > 0 {
        let rest = changes.drop_last();
        law_edited(m, rest, name, at);
        assert(changes[changes.len() - 1] == changes.last());
        assert forall|k: int| 0 <= k < rest.len() implies #[trigger] rest[k] == changes[k] by {}
    }
}

/// An assignment that fails changes nothing. One that succeeds makes its changes, for
/// the transaction alone or for good, and touches neither the catalog nor the
/// savepoints.
pub proof fn law_assigned(v: session::SessionView, a: Assignment)
    ensures
        ({
            let outcome = set_statements::assigned(v, a);
            &&& outcome.error is Some <==> a.error is Some
            &&& a.error is Some ==> outcome.session == v
            &&& a.error is None ==> {
                &&& outcome.session.guc.gucs == set_statements::edited(v.guc.gucs, a.changes@)
                &&& outcome.session.guc.settings == (match a.settings {
                    Some(s) => s,
                    None => v.guc.settings,
                })
                &&& outcome.session.ddl == v.ddl
                &&& outcome.session.savepoints == v.savepoints
                &&& outcome.session.context == v.context
                &&& outcome.session.guc.start == v.guc.start
            }
        }),
{
}

/// Several assignments are made one after the other, up to the first that fails; what
/// was made before it stays.
pub proof fn law_assigned_each(v: session::SessionView, list: Seq<Assignment>, i: int)
    ensures
        set_statements::assigned_each(v, list).error is None <==> forall|k: int|
            0 <= k < list.len() ==> (#[trigger] list[k]).error is None,
        (0 <= i < list.len() && list[i].error is Some && forall|k: int|
            0 <= k < i ==> (#[trigger] list[k]).error is None) ==> set_statements::assigned_each(
            v,
            list,
        ).session == set_statements::assigned_each(v, list.take(i)).session,
    decreases list.len(),
{
    if list.len() > 0 {
        let rest = list.drop_last();
        law_assigned_each(v, rest, i);
        assert(list[list.len() - 1] == list.last());
        assert forall|k: int| 0 <= k < rest.len() implies #[trigger] rest[k] == list[k] by {}
        law_assigned(set_statements::assigned_each(v, rest).session, list.last());
        if forall|k: int| 0 <= k < list.len() ==> (#[trigger] list[k]).error is None {
            assert forall|k: int| 0 <= k < rest.len() implies (#[trigger] rest[k]).error is None by {
                assert(list[k].error is None);
            }
        }
        if set_statements::assigned_each(v, list).error is None {
            assert forall|k: int| 0 <= k < list.len() implies (#[trigger] list[k]).error is None by {
                if k < rest.len() {
                    assert(rest[k].error is None);
                }
            }
        }
        if 0 <= i < list.len() {
            if i < rest.len() {
                assert(rest.take(i) =~= list.take(i));
            } else {
                assert(list.take(i) =~= rest);
            }
        }
    }
}

/// SET of a transaction changes no setting, and of a snapshot is refused; a setting
/// takes one value, but for the search path; and a statement that is refused leaves
/// the session as it was, an authorization aside, which keeps in mind who connected.
pub proof fn law_set_refused(v: session::SessionView, c: RoleCatalog, set: SetStatement)
    ensures
        ({
            let outcome = set_statements::set_outcome(v, c, set);
            match set {
                SetStatement::Transaction { snapshot, modes_error } => outcome.session == v && (
                outcome.error is Some <==> snapshot || modes_error is Some),
                SetStatement::Single(a) => outcome.error is Some <==> a.error is Some || (
                a.setting@ != "search_path"@ && a.values != 1),
                SetStatement::Other(_) => outcome.error is Some,
                _ => true,
            }
        }),
        ({
            let outcome = set_statements::set_outcome(v, c, set);
            outcome.error is Some && !(set is SessionAuthorization) && !(set is Multiple)
                ==> outcome.session == v
        }),
{
}

/// A session acts as a role only where the role is there and the user that it was
/// authorized as is a superuser or may act as it; then that role is its current
/// user. Acting as none is always allowed and gives it its own user back.
pub proof fn law_set_role(
    v: session::SessionView,
    c: RoleCatalog,
    local: bool,
    role: Seq<char>,
)
    requires
        roles::normal_role(role).len() > 0,
    ensures
        ({
            let outcome = set_statements::role_set(v, c, local, Some(role));
            let name = roles::normal_role(role);
            let user = roles::session_user(v.guc.gucs);
            &&& name == "none"@ ==> outcome.error is None
            &&& name != "none"@ ==> (outcome.error is None <==> roles::role_named(
                roles::role_views(c.roles@),
                name,
            ) is Some && (user == roles::bootstrap_role() || roles::is_superuser(
                roles::role_views(c.roles@),
                user,
            ) || roles::reaches(
                roles::membership_views(c.memberships@),
                roles::role_views(c.roles@),
                Expansion::ActAs,
                user,
                name,
            )))
            &&& outcome.error is None && name != "none"@ ==> roles::current_user(
                outcome.session.guc.gucs,
            ) == name
            &&& outcome.error is None && name == "none"@ ==> roles::current_user(
                outcome.session.guc.gucs,
            ) == roles::session_user(outcome.session.guc.gucs)
            &&& outcome.error is Some ==> outcome.session == v
        }),
{
    roles::law_normal_role(role);
}

/// A session is authorized as another user than the one that connected only where that
/// user is a role and the one that connected is a superuser. It acts as nobody else
/// then.
pub proof fn law_set_authorization(
    v: session::SessionView,
    c: RoleCatalog,
    local: bool,
    user: Seq<char>,
)
    requires
        roles::normal_role(user).len() > 0,
    ensures
        ({
            let outcome = set_statements::authorization_set(v, c, local, Some(user));
            let name = roles::normal_role(user);
            let initial = roles::initial_session_user(v.guc.gucs);
            &&& outcome.error is None <==> name == initial || (roles::role_named(
                roles::role_views(c.roles@),
                name,
            ) is Some && (initial == roles::bootstrap_role() || roles::is_superuser(
                roles::role_views(c.roles@),
                initial,
            )))
            &&& outcome.error is None ==> roles::session_user(outcome.session.guc.gucs) == name
                && roles::current_user(outcome.session.guc.gucs) == name
        }),
{
    roles::law_normal_role(user);
    reveal_strlit("role");
    reveal_strlit("session_authorization");
    reveal_strlit("bicdb.initial_session_authorization");
    assert("role"@.len() == 4 && "session_authorization"@.len() == 21
        && "bicdb.initial_session_authorization"@.len() == 35);
}

/// Resetting a setting takes it out and leaves every other as it is; the typed
/// settings go back to their defaults, each by itself.
pub proof fn law_reset_one(v: session::SessionView, name: Seq<char>, other: Seq<char>)
    requires
        set_statements::reset_error(v, name) is None,
        name != "session_authorization"@,
    ensures
        ({
            let after = set_statements::one_reset(v, name);
            let typed = name == "bicdb.vector_search"@ || name == "bicdb.ef_search"@;
            &&& !typed ==> settings::setting(after.guc.gucs, name) is None
            &&& !typed ==> after.guc.settings == v.guc.settings
            &&& other != name ==> settings::setting(after.guc.gucs, other) == settings::setting(
                v.guc.gucs,
                other,
            )
            &&& name == "bicdb.vector_search"@ ==> after.guc.settings.vector_search
                == v.defaults.vector_search && after.guc.settings.ef_search
                == v.guc.settings.ef_search
            &&& name == "bicdb.ef_search"@ ==> after.guc.settings.ef_search == v.defaults.ef_search
                && after.guc.settings.vector_search == v.guc.settings.vector_search
            &&& after.ddl == v.ddl && after.savepoints == v.savepoints
        }),
{
    reveal_strlit("bicdb.vector_search");
    reveal_strlit("bicdb.ef_search");
    assert("bicdb.vector_search"@.len() == 19 && "bicdb.ef_search"@.len() == 15);
    lemma_plain_settings(name);
}

/// Resetting all settings leaves those that say who the session is and what the server
/// is, and no other; the typed settings are the defaults then.
pub proof fn law_reset_all(v: session::SessionView, name: Seq<char>)
    ensures
        ({
            let after = set_statements::all_reset(v);
            let stays = guc::is_identity(name) || security::is_protected(name) || name
                == "server_version"@ || name == "server_version_num"@ || name
                == "bicdb.postgres_version_banner"@;
            &&& stays ==> settings::setting(after.guc.gucs, name) == settings::setting(
                v.guc.gucs,
                name,
            )
            &&& !stays ==> settings::setting(after.guc.gucs, name) is None
            &&& after.guc.settings == v.defaults
        }),
{
}

/// No setting without a qualifier is one of the typed ones.
proof fn lemma_plain_settings(name: Seq<char>)
    ensures
        set_statements::plain_settings().contains(name) ==> name != "bicdb.vector_search"@ && name
            != "bicdb.ef_search"@,
{
    reveal_strlit("bicdb.vector_search");
    reveal_strlit("bicdb.ef_search");
    assert("bicdb.vector_search"@[5] == '.' && "bicdb.ef_search"@[5] == '.');
    assert("bicdb.vector_search"@.len() == 19 && "bicdb.ef_search"@.len() == 15);
    let plain = set_statements::plain_settings();
    reveal_strlit("application_name");
    reveal_strlit("client_encoding");
    reveal_strlit("client_min_messages");
    reveal_strlit("check_function_bodies");
    reveal_strlit("datestyle");
    reveal_strlit("default_table_access_method");
    reveal_strlit("default_tablespace");
    reveal_strlit("extra_float_digits");
    reveal_strlit("bytea_output");
    reveal_strlit("standard_conforming_strings");
    reveal_strlit("intervalstyle");
    reveal_strlit("xmloption");
    reveal_strlit("jit");
    reveal_strlit("statement_timeout");
    reveal_strlit("lock_timeout");
    reveal_strlit("idle_in_transaction_session_timeout");
    reveal_strlit("idle_session_timeout");
    reveal_strlit("transaction_timeout");
    reveal_strlit("restrict_nonsystem_relation_kind");
    reveal_strlit("row_security");
    reveal_strlit("search_path");
    reveal_strlit("synchronize_seqscans");
    reveal_strlit("timezone");
    assert(plain[0] == "application_name"@ && "application_name"@.len() == 16);
    assert(plain[1] == "client_encoding"@ && "client_encoding"@.len() == 15 && "client_encoding"@[5] == 't');
    assert(plain[2] == "client_min_messages"@ && "client_min_messages"@.len() == 19 && "client_min_messages"@[5] == 't');
    assert(plain[3] == "check_function_bodies"@ && "check_function_bodies"@.len() == 21);
    assert(plain[4] == "datestyle"@ && "datestyle"@.len() == 9);
    assert(plain[5] == "default_table_access_method"@ && "default_table_access_method"@.len() == 27);
    assert(plain[6] == "default_tablespace"@ && "default_tablespace"@.len() == 18);
    assert(plain[7] == "extra_float_digits"@ && "extra_float_digits"@.len() == 18);
    assert(plain[8] == "bytea_output"@ && "bytea_output"@.len() == 12);
    assert(plain[9] == "standard_conforming_strings"@ && "standard_conforming_strings"@.len() == 27);
    assert(plain[10] == "intervalstyle"@ && "intervalstyle"@.len() == 13);
    assert(plain[11] == "xmloption"@ && "xmloption"@.len() == 9);
    assert(plain[12] == "jit"@ && "jit"@.len() == 3);
    assert(plain[13] == "statement_timeout"@ && "statement_timeout"@.len() == 17);
    assert(plain[14] == "lock_timeout"@ && "lock_timeout"@.len() == 12);
    assert(plain[15] == "idle_in_transaction_session_timeout"@ && "idle_in_transaction_session_timeout"@.len() == 35);
    assert(plain[16] == "idle_session_timeout"@ && "idle_session_timeout"@.len() == 20);
    assert(plain[17] == "transaction_timeout"@ && "transaction_timeout"@.len() == 19 && "transaction_timeout"@[5] == 'a');
    assert(plain[18] == "restrict_nonsystem_relation_kind"@ && "restrict_nonsystem_relation_kind"@.len() == 32);
    assert(plain[19] == "row_security"@ && "row_security"@.len() == 12);
    assert(plain[20] == "search_path"@ && "search_path"@.len() == 11);
    assert(plain[21] == "synchronize_seqscans"@ && "synchronize_seqscans"@.len() == 20);
    assert(plain[22] == "timezone"@ && "timezone"@.len() == 8);
    if plain.contains(name) {
        let k = choose|k: int| 0 <= k < plain.len() && plain[k] == name;
        assert(name.len() > 5 ==> name[5] == name[5]);
    }
}

} // verus!
