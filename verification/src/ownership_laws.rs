//! Who may grant, revoke and change what, stated of the grants and the steps that a
//! statement comes to.
use vstd::prelude::*;
use crate::authority;
use crate::function_privileges;
use crate::function_privileges::{FunctionPrivilegeDdl, OwnedRoutine};
use crate::privileges::{GrantView, PrivilegeObjectType, TypePrivileges};
use crate::roles;
use crate::roles::{Expansion, Role, RoleCatalog};
use crate::text;
use crate::type_authority;
use crate::type_authority::{AlterUserType, NamedType, TypeChangeView, TypeStepView};

verus! {

/// A grant of EXECUTE on a routine to a role.
pub open spec fn lets_execute(g: GrantView, routine: Seq<char>, role: Seq<char>) -> bool {
    &&& g.object_type == PrivilegeObjectType::Function
    &&& g.column is None
    &&& g.object_name == routine
    &&& g.grantee == role
    &&& g.privilege == "EXECUTE"@
}

proof fn lemma_all_grants(grantees: Seq<Seq<char>>, routines: Seq<OwnedRoutine>, g: GrantView)
    ensures
        function_privileges::all_grants(grantees, routines).contains(g) <==> exists|i: int, j: int|
            0 <= i < grantees.len() && 0 <= j < routines.len() && #[trigger] lets_execute(
                g,
                routines[j].name@,
                grantees[i],
            ),
    decreases grantees.len(),
{
    if grantees.len() > 0 {
        let rest = grantees.drop_last();
        let last = grantees.len() - 1;
        lemma_all_grants(rest, routines, g);
        let before = function_privileges::all_grants(rest, routines);
        let own = function_privileges::grants_to(grantees.last(), routines);
        let all = function_privileges::all_grants(grantees, routines);
        assert(all == before + own);
        if all.contains(g) {
            let k = choose|k: int| 0 <= k < all.len() && all[k] == g;
            if k < before.len() {
                assert(before[k] == g);
                assert(before.contains(g));
                let (i, j) = choose|i: int, j: int|
                    0 <= i < rest.len() && 0 <= j < routines.len() && #[trigger] lets_execute(
                        g,
                        routines[j].name@,
                        rest[i],
                    );
                assert(rest[i] == grantees[i]);
                assert(lets_execute(g, routines[j].name@, grantees[i]));
            } else {
                let j = k - before.len();
                assert(own[j] == g);
                assert(lets_execute(g, routines[j].name@, grantees[last]));
            }
        }
        if exists|i: int, j: int|
            0 <= i < grantees.len() && 0 <= j < routines.len() && #[trigger] lets_execute(
                g,
                routines[j].name@,
                grantees[i],
            ) {
            let (i, j) = choose|i: int, j: int|
                0 <= i < grantees.len() && 0 <= j < routines.len() && #[trigger] lets_execute(
                    g,
                    routines[j].name@,
                    grantees[i],
                );
            if i < last {
                assert(rest[i] == grantees[i]);
                assert(lets_execute(g, routines[j].name@, rest[i]));
                let k = choose|k: int| 0 <= k < before.len() && before[k] == g;
                assert(all[k] == g);
            } else {
                assert(own[j] == g);
                assert(all[before.len() + j] == g);
            }
        }
    }
}

/// A statement on the privileges of functions is about EXECUTE on each of its
/// routines for each of its grantees, and nothing else: a grantee that stands for
/// the user of the session is that user.
pub proof fn law_function_statement(
    c: RoleCatalog,
    list: Seq<Role>,
    gucs: Map<Seq<char>, Seq<char>>,
    ddl: FunctionPrivilegeDdl,
    g: GrantView,
)
    ensures
        match function_privileges::function_grants(c, list, gucs, ddl) {
            Ok(grants) => grants.contains(g) <==> exists|i: int, j: int|
                0 <= i < ddl.grantees@.len() && 0 <= j < ddl.routines@.len()
                    && #[trigger] lets_execute(
                    g,
                    ddl.routines@[j].name@,
                    role_behind(gucs, ddl.grantees@[i]@),
                ),
            Err(_) => true,
        },
{
    let written = text::views(ddl.grantees@);
    let grantees = function_privileges::grantee_roles(gucs, written);
    reveal_strlit("CURRENT_USER");
    reveal_strlit("CURRENT_ROLE");
    reveal_strlit("SESSION_USER");
    assert("SESSION_USER"@[0] == 'S' && "CURRENT_USER"@[0] == 'C' && "CURRENT_ROLE"@[0] == 'C');
    lemma_all_grants(grantees, ddl.routines@, g);
    assert forall|i: int| 0 <= i < grantees.len() implies #[trigger] grantees[i] == role_behind(
        gucs,
        ddl.grantees@[i]@,
    ) by {
        assert(written[i] == ddl.grantees@[i]@);
    }
    if exists|i: int, j: int|
        0 <= i < grantees.len() && 0 <= j < ddl.routines@.len() && #[trigger] lets_execute(
            g,
            ddl.routines@[j].name@,
            grantees[i],
        ) {
        let (i, j) = choose|i: int, j: int|
            0 <= i < grantees.len() && 0 <= j < ddl.routines@.len() && #[trigger] lets_execute(
                g,
                ddl.routines@[j].name@,
                grantees[i],
            );
        assert(lets_execute(g, ddl.routines@[j].name@, role_behind(gucs, ddl.grantees@[i]@)));
    }
    if exists|i: int, j: int|
        0 <= i < ddl.grantees@.len() && 0 <= j < ddl.routines@.len() && #[trigger] lets_execute(
            g,
            ddl.routines@[j].name@,
            role_behind(gucs, ddl.grantees@[i]@),
        ) {
        let (i, j) = choose|i: int, j: int|
            0 <= i < ddl.grantees@.len() && 0 <= j < ddl.routines@.len() && #[trigger] lets_execute(
                g,
                ddl.routines@[j].name@,
                role_behind(gucs, ddl.grantees@[i]@),
            );
        assert(lets_execute(g, ddl.routines@[j].name@, grantees[i]));
    }
}

/// The role that a grantee stands for.
pub open spec fn role_behind(gucs: Map<Seq<char>, Seq<char>>, written: Seq<char>) -> Seq<char> {
    if written == "SESSION_USER"@ {
        roles::session_user(gucs)
    } else if written == "CURRENT_ROLE"@ || written == "CURRENT_USER"@ {
        roles::current_user(gucs)
    } else {
        written
    }
}

/// The right to pass a grant on is given only to those who are superusers or have
/// the privileges of the owner of each routine; and every grantee is everybody or
/// a known role.
pub proof fn law_function_statement_refused(
    c: RoleCatalog,
    list: Seq<Role>,
    gucs: Map<Seq<char>, Seq<char>>,
    ddl: FunctionPrivilegeDdl,
    i: int,
    j: int,
)
    requires
        0 <= i < ddl.grantees@.len(),
        function_privileges::function_grants(c, list, gucs, ddl) is Ok,
    ensures
        ({
            let role = role_behind(gucs, ddl.grantees@[i]@);
            &&& role == "public"@ || exists|k: int|
                0 <= k < list.len() && (#[trigger] list[k]).name@ == role
            &&& ddl.with_grant_option && 0 <= j < ddl.routines@.len() ==> {
                ||| role == roles::bootstrap_role()
                ||| exists|k: int|
                    0 <= k < list.len() && (#[trigger] list[k]).name@ == role && list[k].superuser
                ||| roles::reaches(
                    roles::membership_views(c.memberships@),
                    roles::role_views(c.roles@),
                    Expansion::Inherit,
                    role,
                    roles::normal_role(ddl.routines@[j].owner@),
                )
            }
        }),
{
    let written = text::views(ddl.grantees@);
    let grantees = function_privileges::grantee_roles(gucs, written);
    reveal_strlit("CURRENT_USER");
    reveal_strlit("CURRENT_ROLE");
    reveal_strlit("SESSION_USER");
    assert("SESSION_USER"@[0] == 'S' && "CURRENT_USER"@[0] == 'C' && "CURRENT_ROLE"@[0] == 'C');
    assert(written[i] == ddl.grantees@[i]@);
    assert(grantees[i] == role_behind(gucs, ddl.grantees@[i]@));
    lemma_none_unknown(list, grantees, 0, i);
    if ddl.with_grant_option && 0 <= j < ddl.routines@.len() {
        assert(function_privileges::may_pass_on(
            c,
            list,
            grantees[i],
            ddl.routines@[j].owner@,
        ));
    }
}

proof fn lemma_none_unknown(list: Seq<Role>, grantees: Seq<Seq<char>>, from: int, i: int)
    requires
        0 <= from <= i < grantees.len(),
        function_privileges::first_unknown(list, grantees, from) is None,
    ensures
        grantees[i] == "public"@ || function_privileges::known(list, grantees[i]),
    decreases i - from,
{
    if from < i {
        lemma_none_unknown(list, grantees, from + 1, i);
    }
}

/// A grant of USAGE on a type to a role.
pub open spec fn lets_use(g: GrantView, t: TypePrivileges, role: Seq<char>) -> bool {
    &&& g.object_type == PrivilegeObjectType::Type
    &&& g.column is None
    &&& g.object_name == t.schema_name@ + "."@ + t.name@
    &&& g.grantee == role
    &&& g.privilege == "USAGE"@
}

/// A step grants, or revokes, USAGE on a type.
pub open spec fn changes_use(
    step: TypeStepView,
    grant: bool,
    t: TypePrivileges,
    role: Seq<char>,
) -> bool {
    match step {
        TypeStepView::Grant(g) => grant && lets_use(g, t, role),
        TypeStepView::Revoke(g) => !grant && lets_use(g, t, role),
        TypeStepView::MarkExplicit(_) => false,
    }
}

proof fn lemma_changes_for(grantee: Seq<char>, types: Seq<NamedType>, grant: bool, i: int)
    requires
        0 <= i < types.len(),
        types[i].loaded is Some,
    ensures
        exists|k: int|
            0 <= k < type_authority::changes_for(grantee, types, grant).len() && changes_use(
                #[trigger] type_authority::changes_for(grantee, types, grant)[k],
                grant,
                types[i].loaded->0,
                grantee,
            ),
    decreases types.len(),
{
    let rest = types.drop_last();
    let all = type_authority::changes_for(grantee, types, grant);
    let before = type_authority::changes_for(grantee, rest, grant);
    if i < rest.len() {
        lemma_changes_for(grantee, rest, grant, i);
        let k = choose|k: int|
            0 <= k < before.len() && changes_use(
                #[trigger] before[k],
                grant,
                rest[i].loaded->0,
                grantee,
            );
        assert(all[k] == before[k]);
        assert(changes_use(all[k], grant, types[i].loaded->0, grantee));
    } else {
        assert(changes_use(all[before.len() as int], grant, types[i].loaded->0, grantee));
    }
}

proof fn lemma_changes(
    list: Seq<Role>,
    grantees: Seq<Seq<char>>,
    types: Seq<NamedType>,
    grant: bool,
    i: int,
    j: int,
)
    requires
        type_authority::changes(list, grantees, types, grant).1 is None,
        0 <= i < types.len(),
        types[i].loaded is Some,
        0 <= j < grantees.len(),
    ensures
        exists|k: int|
            0 <= k < type_authority::changes(list, grantees, types, grant).0.len() && changes_use(
                #[trigger] type_authority::changes(list, grantees, types, grant).0[k],
                grant,
                types[i].loaded->0,
                grantees[j],
            ),
        grantees[j] == "public"@ || function_privileges::known(list, grantees[j]),
    decreases grantees.len(),
{
    let rest = grantees.drop_last();
    let all = type_authority::changes(list, grantees, types, grant).0;
    let before = type_authority::changes(list, rest, types, grant).0;
    let own = type_authority::changes_for(grantees.last(), types, grant);
    assert(all == before + own);
    if j < rest.len() {
        lemma_changes(list, rest, types, grant, i, j);
        let k = choose|k: int|
            0 <= k < before.len() && changes_use(
                #[trigger] before[k],
                grant,
                types[i].loaded->0,
                rest[j],
            );
        assert(all[k] == before[k]);
        assert(changes_use(all[k], grant, types[i].loaded->0, grantees[j]));
    } else {
        lemma_changes_for(grantees.last(), types, grant, i);
        let k = choose|k: int|
            0 <= k < own.len() && changes_use(
                #[trigger] own[k],
                grant,
                types[i].loaded->0,
                grantees.last(),
            );
        assert(all[before.len() + k] == own[k]);
    }
}

proof fn lemma_prepared(c: RoleCatalog, user: Seq<char>, types: Seq<NamedType>, i: int)
    requires
        type_authority::prepared(c, user, types).1 is None,
        0 <= i < types.len(),
    ensures
        types[i].loaded is Some,
        type_authority::may_change_type(c, user, types[i].loaded->0),
    decreases types.len(),
{
    if i < types.len() - 1 {
        lemma_prepared(c, user, types.drop_last(), i);
    }
}

/// Where GRANT or REVOKE on types is carried out, every type is there and the user
/// may change it, every grantee is everybody or a known role, and USAGE on each
/// type is granted to, or revoked from, each of them.
pub proof fn law_type_statement(
    c: RoleCatalog,
    user: Seq<char>,
    list: Seq<Role>,
    types: Seq<NamedType>,
    grantees: Seq<Seq<char>>,
    grant: bool,
    i: int,
    j: int,
)
    requires
        type_authority::type_privilege_steps(c, user, list, types, grantees, grant).1 is None,
        0 <= i < types.len(),
        0 <= j < grantees.len(),
    ensures
        types[i].loaded is Some,
        may_change(c, user, types[i].loaded->0),
        grantees[j] == "public"@ || function_privileges::known(list, grantees[j]),
        exists|k: int|
            0 <= k < type_authority::type_privilege_steps(
                c,
                user,
                list,
                types,
                grantees,
                grant,
            ).0.len() && changes_use(
                #[trigger] type_authority::type_privilege_steps(
                    c,
                    user,
                    list,
                    types,
                    grantees,
                    grant,
                ).0[k],
                grant,
                types[i].loaded->0,
                grantees[j],
            ),
{
    lemma_prepared(c, user, types, i);
    lemma_changes(list, grantees, types, grant, i, j);
    let first = type_authority::prepared(c, user, types).0;
    let second = type_authority::changes(list, grantees, types, grant).0;
    let all = type_authority::type_privilege_steps(c, user, list, types, grantees, grant).0;
    let k = choose|k: int|
        0 <= k < second.len() && changes_use(
            #[trigger] second[k],
            grant,
            types[i].loaded->0,
            grantees[j],
        );
    assert(all[first.len() + k] == second[k]);
}

/// A user may change a type: it is a superuser, it is the owner, or it inherits the
/// privileges of the owner.
pub open spec fn may_change(c: RoleCatalog, user: Seq<char>, t: TypePrivileges) -> bool {
    ||| roles::is_superuser(roles::role_views(c.roles@), user)
    ||| text::lower(user) == text::lower(t.owner@)
    ||| roles::reaches(
        roles::membership_views(c.memberships@),
        roles::role_views(c.roles@),
        Expansion::Inherit,
        user,
        roles::normal_role(t.owner@),
    )
}

/// A type whose access list was never written down is open to everybody; before any
/// privilege on it is granted or revoked, that is written down for everybody and
/// for its owner.
pub proof fn law_type_access_written_down(
    c: RoleCatalog,
    user: Seq<char>,
    named: NamedType,
    t: TypePrivileges,
)
    requires
        named.loaded == Some(t),
        may_change(c, user, t),
    ensures
        ({
            let steps = type_authority::prepared(c, user, seq![named]).0;
            &&& t.acl_explicit ==> steps.len() == 0
            &&& !t.acl_explicit ==> steps.len() == 3 && changes_use(steps[0], true, t, "public"@)
                && changes_use(steps[1], true, t, t.owner@) && steps[2]
                == TypeStepView::MarkExplicit(0)
        }),
{
    reveal_with_fuel(type_authority::prepared, 2);
    assert(seq![named].drop_last() =~= Seq::empty());
}

/// A type is altered only where it is there, is of the kind that the statement names,
/// and the user may change it. A new owner is a known role that the user may act
/// as, unless the user is a superuser, and the grant of the old owner goes over to
/// the new one. A type moves to another schema that is known and has no type of
/// its name.
pub proof fn law_type_alteration(
    c: RoleCatalog,
    user: Seq<char>,
    list: Seq<Role>,
    grants: Seq<GrantView>,
    named: NamedType,
    domain: bool,
    alter: AlterUserType,
)
    requires
        type_authority::alteration(c, user, list, grants, named, domain, alter) is Ok,
    ensures
        named.loaded is Some,
        domain == named.is_domain,
        may_change(c, user, named.loaded->0),
        ({
            let done = type_authority::alteration(c, user, list, grants, named, domain, alter)->Ok_0;
            let t = named.loaded->0;
            match alter {
                AlterUserType::Owner(owner) => {
                    &&& roles::is_role(roles::role_views(list), owner@)
                    &&& roles::is_superuser(roles::role_views(c.roles@), user) || roles::reaches(
                        roles::membership_views(c.memberships@),
                        roles::role_views(c.roles@),
                        Expansion::ActAs,
                        user,
                        owner@,
                    )
                    &&& done matches TypeChangeView::Owner { owner: new_owner, moved } && new_owner
                        == owner@ && (match moved {
                        Some((from, to)) => t.acl_explicit && grants.contains(from) && lets_use(
                            from,
                            t,
                            t.owner@,
                        ) && lets_use(to, t, owner@),
                        None => true,
                    })
                },
                AlterUserType::SetSchema { schema_name, schema_known, taken } => {
                    &&& schema_known
                    &&& text::lower(schema_name@) == text::lower(t.schema_name@) ==> done
                        == TypeChangeView::Nothing
                    &&& text::lower(schema_name@) != text::lower(t.schema_name@) ==> done
                        == TypeChangeView::Relocate(schema_name@) && !taken
                },
            }
        }),
{
}

/// A superuser may manage roles, and so may a role that is stored with that right;
/// a role that is not stored may not. The bootstrap role may do both.
pub proof fn law_manages_roles(c: RoleCatalog, user: Seq<char>)
    requires
        roles::normal_role(user) == user,
    ensures
        authority::has_superuser(c, user) ==> authority::manages_roles(c, user),
        authority::has_superuser(c, roles::bootstrap_role()),
        user != roles::bootstrap_role() ==> (match roles::stored_role(
            roles::role_views(c.roles@),
            user,
            0,
        ) {
            Some(role) => (authority::manages_roles(c, user) <==> role.superuser
                || role.create_role) && (authority::has_superuser(c, user) <==> role.superuser),
            None => !authority::manages_roles(c, user) && !authority::has_superuser(c, user),
        }),
{
}

} // verus!
