//! What roles may do, stated of what a single grant, a single membership or a
//! single attribute changes.
use vstd::prelude::*;
use crate::error::ErrorView;
use crate::grants;
use crate::grants::{ActionKind, NamedObject, PrivilegeAction, acl_code, action_name, target_of,
    targets_of};
use crate::privileges;
use crate::privileges::{GrantView, PrivilegeObjectType, RelationInfo, TypePrivileges, is_privileged,
    may_execute, may_use_sequence, may_use_table, may_use_type};
use crate::reach;
use crate::roles;
use crate::roles::{Argument, Expansion, MembershipView, RoleCatalog, RoleView, leads_to,
    normal_role, reaches, role_views};
use crate::text;

verus! {

/// A grant to that grantee serves a role: it is to everybody, or to a role whose
/// privileges the role inherits.
pub open spec fn serves(c: RoleCatalog, role: Seq<char>, grantee: Seq<char>) -> bool {
    text::lower(grantee) == text::lower("public"@) || reaches(
        roles::membership_views(c.memberships@),
        role_views(c.roles@),
        Expansion::Inherit,
        normal_role(role),
        normal_role(grantee),
    )
}

/// The grant is on that table as a whole, and gives that privilege.
pub open spec fn is_on_table(g: GrantView, table: Seq<char>, privilege: Seq<char>) -> bool {
    &&& g.object_type == PrivilegeObjectType::Table
    &&& g.column is None
    &&& g.object_name == table
    &&& text::lower(g.privilege) == text::lower(privilege)
}

/// One more grant gives a role a privilege on a table exactly where it is on that
/// table as a whole, gives that privilege, and is to everybody or to a role whose
/// privileges the role inherits. A grant on one of its columns, on another table,
/// on an object of another kind, or to somebody else changes nothing.
pub proof fn law_one_more_table_grant(
    c: RoleCatalog,
    grants: Seq<GrantView>,
    g: GrantView,
    role: Seq<char>,
    relation: RelationInfo,
    privilege: Seq<char>,
)
    ensures
        is_on_table(g, relation.name@, privilege) && serves(c, role, g.grantee) && relation.exists
            ==> may_use_table(c, grants.push(g), role, relation, privilege),
        !is_on_table(g, relation.name@, privilege) || !serves(c, role, g.grantee)
            ==> may_use_table(c, grants.push(g), role, relation, privilege) == may_use_table(
            c,
            grants,
            role,
            relation,
            privilege,
        ),
        is_privileged(c, role) ==> may_use_table(c, grants, role, relation, privilege)
            == relation.exists,
        relation.exists && normal_role(privileges::relation_owner(relation)) == normal_role(role)
            ==> may_use_table(c, grants, role, relation, privilege),
{
    let name = normal_role(role);
    let more = grants.push(g);
    roles::law_normal_role(role);
    roles::law_reaches(
        roles::membership_views(c.memberships@),
        role_views(c.roles@),
        Expansion::Inherit,
        name,
        name,
    );
    if privileges::table_granted(c, grants, name, relation.name@, privilege) {
        let i = choose|i: int|
            0 <= i < grants.len() && privileges::table_grant_matches(
                #[trigger] grants[i],
                relation.name@,
                privilege,
            ) && privileges::granted_to(c, name, grants[i].grantee);
        assert(more[i] == grants[i]);
    }
    assert(more[grants.len() as int] == g);
    if privileges::table_granted(c, more, name, relation.name@, privilege) {
        let i = choose|i: int|
            0 <= i < more.len() && privileges::table_grant_matches(
                #[trigger] more[i],
                relation.name@,
                privilege,
            ) && privileges::granted_to(c, name, more[i].grantee);
        if i < grants.len() {
            assert(grants[i] == more[i]);
        }
    }
}

/// One more grant lets a role execute a routine exactly where it is EXECUTE on a
/// routine of that name and serves the role.
pub proof fn law_one_more_function_grant(
    c: RoleCatalog,
    grants: Seq<GrantView>,
    g: GrantView,
    role: Seq<char>,
    name: Seq<char>,
    owner: Option<Seq<char>>,
)
    ensures
        ({
            let applies = g.object_type == PrivilegeObjectType::Function && text::lower(
                g.object_name,
            ) == text::lower(name) && text::lower(g.privilege) == text::lower("EXECUTE"@)
                && serves(c, role, g.grantee);
            &&& applies ==> may_execute(c, grants.push(g), role, name, owner)
            &&& !applies ==> may_execute(c, grants.push(g), role, name, owner) == may_execute(
                c,
                grants,
                role,
                name,
                owner,
            )
        }),
        may_execute(c, Seq::empty(), role, name, owner) <==> is_privileged(c, role) || (owner is Some
            && reaches(
            roles::membership_views(c.memberships@),
            role_views(c.roles@),
            Expansion::Inherit,
            normal_role(role),
            normal_role(owner->0),
        )),
{
    let role_name = normal_role(role);
    let more = grants.push(g);
    assert forall|i: int|
        0 <= i < grants.len() && privileges::function_grant_matches(#[trigger] grants[i], name)
            && privileges::granted_to(c, role_name, grants[i].grantee) implies may_execute(
        c,
        more,
        role,
        name,
        owner,
    ) by {
        assert(more[i] == grants[i]);
    }
    assert(more[grants.len() as int] == g);
    assert forall|i: int|
        0 <= i < more.len() && privileges::function_grant_matches(#[trigger] more[i], name)
            && privileges::granted_to(c, role_name, more[i].grantee) implies i == grants.len()
        || may_execute(c, grants, role, name, owner) by {
        if i < grants.len() {
            assert(grants[i] == more[i]);
        }
    }
}

/// One more grant lets a role use a sequence exactly where it is one of the asked
/// privileges on that sequence and serves the role.
pub proof fn law_one_more_sequence_grant(
    c: RoleCatalog,
    grants: Seq<GrantView>,
    g: GrantView,
    role: Seq<char>,
    name: Seq<char>,
    owner: Seq<char>,
    asked: Seq<Seq<char>>,
)
    ensures
        ({
            let applies = g.object_type == PrivilegeObjectType::Sequence && g.object_name == name
                && (exists|k: int|
                0 <= k < asked.len() && text::lower(g.privilege) == text::lower(
                    #[trigger] asked[k],
                )) && serves(c, role, g.grantee);
            &&& applies ==> may_use_sequence(c, grants.push(g), role, name, owner, asked)
            &&& !applies ==> may_use_sequence(c, grants.push(g), role, name, owner, asked)
                == may_use_sequence(c, grants, role, name, owner, asked)
        }),
        is_privileged(c, role) || text::lower(owner) == text::lower(normal_role(role))
            ==> may_use_sequence(c, grants, role, name, owner, asked),
{
    let role_name = normal_role(role);
    let more = grants.push(g);
    assert(privileges::sequence_grant_matches(g, name, asked) <==> g.object_type
        == PrivilegeObjectType::Sequence && g.object_name == name && (exists|k: int|
        0 <= k < asked.len() && text::lower(g.privilege) == text::lower(#[trigger] asked[k]))) by {
        if exists|k: int|
            0 <= k < asked.len() && text::lower(g.privilege) == text::lower(#[trigger] asked[k]) {
            let k = choose|k: int|
                0 <= k < asked.len() && text::lower(g.privilege) == text::lower(
                    #[trigger] asked[k],
                );
            assert(text::same_ignoring_case(g.privilege, asked[k]));
        }
        if exists|k: int|
            0 <= k < asked.len() && text::same_ignoring_case(g.privilege, #[trigger] asked[k]) {
            let k = choose|k: int|
                0 <= k < asked.len() && text::same_ignoring_case(
                    g.privilege,
                    #[trigger] asked[k],
                );
            assert(text::lower(g.privilege) == text::lower(asked[k]));
        }
    }
    assert forall|i: int|
        0 <= i < grants.len() && privileges::sequence_grant_matches(
            #[trigger] grants[i],
            name,
            asked,
        ) && privileges::granted_to(c, role_name, grants[i].grantee) implies may_use_sequence(
        c,
        more,
        role,
        name,
        owner,
        asked,
    ) by {
        assert(more[i] == grants[i]);
    }
    assert(more[grants.len() as int] == g);
    assert forall|i: int|
        0 <= i < more.len() && privileges::sequence_grant_matches(#[trigger] more[i], name, asked)
            && privileges::granted_to(c, role_name, more[i].grantee) implies i == grants.len()
        || may_use_sequence(c, grants, role, name, owner, asked) by {
        if i < grants.len() {
            assert(grants[i] == more[i]);
        }
    }
}

/// Everybody may use a type whose access list was never changed. Of another, one
/// more grant lets a role use it exactly where it is USAGE on that type and
/// serves the role.
pub proof fn law_one_more_type_grant(
    c: RoleCatalog,
    grants: Seq<GrantView>,
    g: GrantView,
    role: Seq<char>,
    t: TypePrivileges,
)
    ensures
        !t.acl_explicit ==> may_use_type(c, grants, role, t),
        ({
            let applies = g.object_type == PrivilegeObjectType::Type && g.object_name
                == t.schema_name@ + "."@ + t.name@ && text::lower(g.privilege) == text::lower(
                "USAGE"@,
            ) && serves(c, role, g.grantee);
            &&& applies ==> may_use_type(c, grants.push(g), role, t)
            &&& !applies ==> may_use_type(c, grants.push(g), role, t) == may_use_type(
                c,
                grants,
                role,
                t,
            )
        }),
        is_privileged(c, role) || text::lower(t.owner@) == text::lower(normal_role(role))
            ==> may_use_type(c, grants, role, t),
        t.acl_explicit && !is_privileged(c, role) && text::lower(t.owner@) != text::lower(
            normal_role(role),
        ) && !serves(c, role, t.owner@) ==> !may_use_type(c, Seq::empty(), role, t),
{
    let role_name = normal_role(role);
    let more = grants.push(g);
    let object = privileges::type_object_name(t.schema_name@, t.name@);
    assert forall|i: int|
        0 <= i < grants.len() && privileges::type_grant_matches(#[trigger] grants[i], object)
            && privileges::granted_to(c, role_name, grants[i].grantee) implies may_use_type(
        c,
        more,
        role,
        t,
    ) by {
        assert(more[i] == grants[i]);
    }
    assert(more[grants.len() as int] == g);
    assert forall|i: int|
        0 <= i < more.len() && privileges::type_grant_matches(#[trigger] more[i], object)
            && privileges::granted_to(c, role_name, more[i].grantee) implies i == grants.len()
        || may_use_type(c, grants, role, t) by {
        if i < grants.len() {
            assert(grants[i] == more[i]);
        }
    }
}

/// What `has_schema_privilege` says of one grant more: it counts where it is that
/// privilege on that schema to that very role. The bootstrap role has every
/// privilege on the schemas that are built in, and on no other without a grant.
pub proof fn law_one_more_schema_grant(
    grants: Seq<GrantView>,
    g: GrantView,
    role: Seq<char>,
    schema: Seq<char>,
    privilege: Seq<char>,
)
    ensures
        ({
            let before = privileges::schema_answer(
                grants,
                Some(role),
                Some(schema),
                Some(privilege),
            );
            let after = privileges::schema_answer(
                grants.push(g),
                Some(role),
                Some(schema),
                Some(privilege),
            );
            let applies = privileges::schema_grant_matches(
                g,
                role,
                text::lower(schema),
                text::upper(privilege),
            );
            &&& after == (before || applies)
            &&& applies ==> g.object_type == PrivilegeObjectType::Schema && text::lower(g.grantee)
                == text::lower(role)
        }),
        privileges::schema_answer(Seq::empty(), Some(role), Some(schema), Some(privilege)) <==> role
            == roles::bootstrap_role() && privileges::is_built_in_schema(text::lower(schema)),
        !privileges::schema_answer(grants, Some(role), None, Some(privilege)),
        !privileges::schema_answer(grants, Some(role), Some(schema), None),
{
    let s = text::lower(schema);
    let p = text::upper(privilege);
    let more = grants.push(g);
    assert forall|i: int|
        0 <= i < grants.len() && privileges::schema_grant_matches(
            #[trigger] grants[i],
            role,
            s,
            p,
        ) implies privileges::schema_answer(more, Some(role), Some(schema), Some(privilege)) by {
        assert(more[i] == grants[i]);
    }
    assert(more[grants.len() as int] == g);
    assert forall|i: int|
        0 <= i < more.len() && privileges::schema_grant_matches(
            #[trigger] more[i],
            role,
            s,
            p,
        ) implies i == grants.len() || privileges::schema_answer(
        grants,
        Some(role),
        Some(schema),
        Some(privilege),
    ) by {
        if i < grants.len() {
            assert(grants[i] == more[i]);
        }
    }
}

/// Without a role, `has_table_privilege` asks of the bootstrap role; with a null
/// among its table and privilege it answers no; and with any other number of
/// arguments it fails.
pub proof fn law_table_privilege_arguments(
    c: RoleCatalog,
    grants: Seq<GrantView>,
    role: Argument,
    table: Argument,
    privilege: Argument,
    relation: RelationInfo,
    other: Seq<Argument>,
)
    ensures
        role.text is Some && role.text->0@ == roles::bootstrap_role()
            ==> privileges::table_privilege(c, grants, seq![table, privilege], relation)
            == privileges::table_privilege(c, grants, seq![role, table, privilege], relation),
        table.text is None || privilege.text is None ==> privileges::table_privilege(
            c,
            grants,
            seq![role, table, privilege],
            relation,
        ) == Ok::<bool, ErrorView>(false),
        privileges::table_privilege(c, grants, other, relation) is Err <==> other.len() != 2
            && other.len() != 3,
{
}

proof fn lemma_privilege_names()
    ensures
        "INSERT"@.len() == 6 && "INSERT"@[0] == 'I',
        "SELECT"@.len() == 6 && "SELECT"@[0] == 'S',
        "UPDATE"@.len() == 6 && "UPDATE"@[0] == 'U',
        "DELETE"@.len() == 6 && "DELETE"@[0] == 'D',
        "TRUNCATE"@.len() == 8 && "TRUNCATE"@[0] == 'T',
        "REFERENCES"@.len() == 10 && "REFERENCES"@[0] == 'R',
        "TRIGGER"@.len() == 7 && "TRIGGER"@[0] == 'T',
        "EXECUTE"@.len() == 7 && "EXECUTE"@[0] == 'E',
        "USAGE"@.len() == 5 && "USAGE"@[0] == 'U',
        "CREATE"@.len() == 6 && "CREATE"@[0] == 'C',
        "TEMPORARY"@.len() == 9 && "TEMPORARY"@[0] == 'T',
        "CONNECT"@.len() == 7 && "CONNECT"@[0] == 'C',
{
    reveal_strlit("INSERT");
    reveal_strlit("SELECT");
    reveal_strlit("UPDATE");
    reveal_strlit("DELETE");
    reveal_strlit("TRUNCATE");
    reveal_strlit("REFERENCES");
    reveal_strlit("TRIGGER");
    reveal_strlit("EXECUTE");
    reveal_strlit("USAGE");
    reveal_strlit("CREATE");
    reveal_strlit("TEMPORARY");
    reveal_strlit("CONNECT");
}

/// The letters of the privileges in an access list are those of the system
/// catalogs, whatever the case of the privilege.
pub proof fn law_access_letters(a: Seq<char>)
    ensures
        text::upper(a) == "INSERT"@ ==> acl_code(a) == "a"@,
        text::upper(a) == "SELECT"@ ==> acl_code(a) == "r"@,
        text::upper(a) == "UPDATE"@ ==> acl_code(a) == "w"@,
        text::upper(a) == "DELETE"@ ==> acl_code(a) == "d"@,
        text::upper(a) == "TRUNCATE"@ ==> acl_code(a) == "D"@,
        text::upper(a) == "REFERENCES"@ ==> acl_code(a) == "x"@,
        text::upper(a) == "TRIGGER"@ ==> acl_code(a) == "t"@,
        text::upper(a) == "EXECUTE"@ ==> acl_code(a) == "X"@,
        text::upper(a) == "USAGE"@ ==> acl_code(a) == "U"@,
        text::upper(a) == "CREATE"@ ==> acl_code(a) == "C"@,
        text::upper(a) == "TEMPORARY"@ ==> acl_code(a) == "T"@,
        text::upper(a) == "CONNECT"@ ==> acl_code(a) == "c"@,
{
    lemma_privilege_names();
}

/// A privilege has one name: two that are granted under the same name are of the
/// same kind. Those that list columns are refused, where they can list any, and
/// so are those on an object type and those that are not known.
pub proof fn law_action_names(a: PrivilegeAction, b: PrivilegeAction)
    ensures
        action_name(a) is Ok && action_name(a) == action_name(b) ==> a.kind == b.kind,
        action_name(a) is Err <==> a.kind == ActionKind::Other || (a.object && (a.kind
            == ActionKind::Create || a.kind == ActionKind::Execute)) || (a.columns && (a.kind
            == ActionKind::Select || a.kind == ActionKind::Insert || a.kind == ActionKind::Update
            || a.kind == ActionKind::References)),
{
    lemma_privilege_names();
}

/// The objects of a GRANT are those that it names, one each and in their order,
/// where each of them exists; else the first that does not, or that has no name,
/// is why it fails. A schema that is built in always exists.
pub proof fn law_grant_targets(
    kind: PrivilegeObjectType,
    objects: Seq<NamedObject>,
    from: int,
    found: Seq<Seq<char>>,
)
    requires
        0 <= from <= objects.len(),
    ensures
        targets_of(kind, objects, from, found) is Ok <==> forall|i: int|
            from <= i < objects.len() ==> (#[trigger] objects[i]).name is Ok && (objects[i].exists || (
            kind == PrivilegeObjectType::Schema && privileges::is_built_in_schema(
                objects[i].name->Ok_0@,
            ))),
        targets_of(kind, objects, from, found) matches Ok(names) ==> names.len() == found.len()
            + objects.len() - from && (forall|i: int|
            from <= i < objects.len() ==> #[trigger] names[found.len() + i - from]
                == objects[i].name->Ok_0@) && names.take(found.len() as int) == found,
    decreases objects.len() - from,
{
    if from < objects.len() {
        if let Ok(name) = target_of(kind, objects[from]) {
            law_grant_targets(kind, objects, from + 1, found.push(name));
            if let Ok(names) = targets_of(kind, objects, from + 1, found.push(name)) {
                assert(names.take(found.len() as int) =~= found) by {
                    assert(names.take(found.len() as int + 1) == found.push(name));
                    assert forall|k: int| 0 <= k < found.len() implies names[k] == found[k] by {
                        assert(names.take(found.len() as int + 1)[k] == found.push(name)[k]);
                    }
                }
                assert forall|i: int| from <= i < objects.len() implies #[trigger] names[found.len()
                    + i - from] == objects[i].name->Ok_0@ by {
                    if i == from {
                        assert(names.take(found.len() as int + 1)[found.len() as int] == name);
                    } else {
                        assert(names[found.push(name).len() + i - (from + 1)]
                            == objects[i].name->Ok_0@);
                    }
                }
            }
        }
    } else {
        if let Ok(names) = targets_of(kind, objects, from, found) {
            assert(names.take(found.len() as int) =~= found);
        }
    }
}

/// GRANT on all functions of schemas is on the functions in them, in their order,
/// and on no procedure.
pub proof fn law_functions_in_schemas(
    routines: Seq<grants::GrantRoutine>,
    schemas: Seq<Seq<char>>,
) -> (places: Seq<int>)
    ensures
        places.len() == grants::functions_in(routines, schemas).len(),
        forall|k: int|
            0 <= k < places.len() ==> 0 <= #[trigger] places[k] < routines.len()
                && grants::functions_in(routines, schemas)[k] == routines[places[k]].name@
                && is_function_in(routines[places[k]], schemas),
        forall|k: int, l: int| 0 <= k < l < places.len() ==> places[k] < places[l],
        forall|i: int|
            0 <= i < routines.len() && is_function_in(#[trigger] routines[i], schemas)
                ==> places.contains(i),
    decreases routines.len(),
{
    if routines.len() == 0 {
        Seq::empty()
    } else {
        let rest = routines.drop_last();
        let before = law_functions_in_schemas(rest, schemas);
        let last = routines.len() - 1;
        assert(grants::is_one_of(
            schemas,
            grants::routine_schema(routines[last].schema@, routines[last].definition@),
        ) <==> is_in_schema(routines[last], schemas)) by {
            lemma_one_of(
                schemas,
                grants::routine_schema(routines[last].schema@, routines[last].definition@),
            );
        }
        if is_function_in(routines[last], schemas) {
            let places = before.push(last);
            assert forall|i: int|
                0 <= i < routines.len() && is_function_in(
                    #[trigger] routines[i],
                    schemas,
                ) implies places.contains(i) by {
                if i < last {
                    assert(rest[i] == routines[i]);
                    let k = choose|k: int| 0 <= k < before.len() && before[k] == i;
                    assert(places[k] == i);
                } else {
                    assert(places[before.len() as int] == i);
                }
            }
            places
        } else {
            assert forall|i: int|
                0 <= i < routines.len() && is_function_in(
                    #[trigger] routines[i],
                    schemas,
                ) implies before.contains(i) by {
                assert(rest[i] == routines[i]);
            }
            before
        }
    }
}

/// A routine is in one of the schemas, whatever the case of the letters.
pub open spec fn is_in_schema(f: grants::GrantRoutine, schemas: Seq<Seq<char>>) -> bool {
    exists|s: int|
        0 <= s < schemas.len() && text::lower(#[trigger] schemas[s]) == text::lower(
            grants::routine_schema(f.schema@, f.definition@),
        )
}

/// A routine is a function in one of the schemas.
pub open spec fn is_function_in(f: grants::GrantRoutine, schemas: Seq<Seq<char>>) -> bool {
    f.function && is_in_schema(f, schemas)
}

proof fn lemma_one_of(names: Seq<Seq<char>>, name: Seq<char>)
    ensures
        grants::is_one_of(names, name) <==> exists|s: int|
            0 <= s < names.len() && text::lower(#[trigger] names[s]) == text::lower(name),
{
    if grants::is_one_of(names, name) {
        let i = choose|i: int|
            0 <= i < names.len() && text::same_ignoring_case(#[trigger] names[i], name);
        assert(text::lower(names[i]) == text::lower(name));
    }
    if exists|s: int| 0 <= s < names.len() && text::lower(#[trigger] names[s]) == text::lower(name) {
        let s = choose|s: int|
            0 <= s < names.len() && text::lower(#[trigger] names[s]) == text::lower(name);
        assert(text::same_ignoring_case(names[s], name));
    }
}

/// A membership leads from its member to its role: always where membership alone
/// counts; where the member acts as the role, if the membership lets it; and
/// where privileges are inherited, if the membership says so, or says nothing
/// and the member is not known to inherit nothing.
pub proof fn law_one_membership(
    memberships: Seq<MembershipView>,
    stored: Seq<RoleView>,
    i: int,
    expansion: Expansion,
)
    requires
        0 <= i < memberships.len(),
    ensures
        ({
            let m = memberships[i];
            let leads = match expansion {
                Expansion::Member => true,
                Expansion::ActAs => m.set_option,
                Expansion::Inherit => m.inherit_option == Some(true) || (m.inherit_option is None
                    && !(roles::role_named(stored, normal_role(m.member)) matches Some(r)
                    && !r.inherit)),
            };
            leads ==> reaches(memberships, stored, expansion, m.member, normal_role(m.role))
        }),
{
    let m = memberships[i];
    let member = normal_role(m.member);
    let seeds = roles::starts_at(member);
    let step = roles::membership_step(memberships, stored, expansion);
    reach::law_seed(seeds, step, member);
    if roles::leads_on(memberships[i], stored, member, expansion) {
        assert(leads_to(memberships, stored, expansion, member, normal_role(m.role)));
        assert(step(member, normal_role(m.role)));
        reach::law_step(seeds, step, member, normal_role(m.role));
    }
}

/// A role whose memberships let it neither inherit nor act reaches only itself:
/// one that is a member of nothing reaches nothing else, and one that may not
/// act as the roles it is in acts as none of them.
pub proof fn law_reaches_only_itself(
    memberships: Seq<MembershipView>,
    stored: Seq<RoleView>,
    expansion: Expansion,
    user: Seq<char>,
    role: Seq<char>,
)
    requires
        forall|i: int|
            0 <= i < memberships.len() && normal_role((#[trigger] memberships[i]).member)
                == normal_role(user) ==> match expansion {
                Expansion::Member => false,
                Expansion::ActAs => !memberships[i].set_option,
                Expansion::Inherit => memberships[i].inherit_option == Some(false),
            },
    ensures
        reaches(memberships, stored, expansion, user, role) <==> role == normal_role(user),
{
    let own = normal_role(user);
    let seeds = roles::starts_at(own);
    let step = roles::membership_step(memberships, stored, expansion);
    reach::law_seed(seeds, step, own);
    if reaches(memberships, stored, expansion, user, role) {
        let list = seq![own];
        assert(list[0] == own);
        assert forall|a: Seq<char>, b: Seq<char>|
            list.contains(a) && #[trigger] step(a, b) implies list.contains(b) by {
            assert(a == own);
            assert(leads_to(memberships, stored, expansion, a, b));
            let i = choose|i: int|
                0 <= i < memberships.len() && roles::leads_on(
                    #[trigger] memberships[i],
                    stored,
                    a,
                    expansion,
                ) && normal_role(memberships[i].role) == b;
            assert(normal_role(memberships[i].member) == own);
        }
        reach::law_closed(seeds, step, list, role);
        assert(role == own);
    }
}

/// Only a role that is stored as a superuser is one: the first that is stored under
/// its name decides, and the bootstrap role is privileged without being one.
pub proof fn law_superuser(stored: Seq<RoleView>, name: Seq<char>, i: int)
    ensures
        normal_role(name) == roles::bootstrap_role() ==> !roles::is_superuser(stored, name),
        (normal_role(name) != roles::bootstrap_role() && 0 <= i < stored.len() && stored[i].name
            == normal_role(name) && forall|k: int|
            0 <= k < i ==> (#[trigger] stored[k]).name != normal_role(name))
            ==> roles::is_superuser(stored, name) == stored[i].superuser,
        (normal_role(name) != roles::bootstrap_role() && forall|k: int|
            0 <= k < stored.len() ==> (#[trigger] stored[k]).name != normal_role(name))
            ==> !roles::is_superuser(stored, name),
{
    let n = normal_role(name);
    if 0 <= i < stored.len() && stored[i].name == n && forall|k: int|
        0 <= k < i ==> (#[trigger] stored[k]).name != n {
        lemma_first_stored(stored, n, 0, i);
    }
    if forall|k: int| 0 <= k < stored.len() ==> (#[trigger] stored[k]).name != n {
        lemma_none_stored(stored, n, 0);
    }
}

proof fn lemma_first_stored(stored: Seq<RoleView>, name: Seq<char>, from: int, i: int)
    requires
        0 <= from <= i < stored.len(),
        stored[i].name == name,
        forall|k: int| 0 <= k < i ==> (#[trigger] stored[k]).name != name,
    ensures
        roles::stored_role(stored, name, from) == Some(stored[i]),
    decreases i - from,
{
    if from < i {
        assert(stored[from].name != name);
        lemma_first_stored(stored, name, from + 1, i);
    }
}

proof fn lemma_none_stored(stored: Seq<RoleView>, name: Seq<char>, from: int)
    requires
        0 <= from,
        forall|k: int| 0 <= k < stored.len() ==> (#[trigger] stored[k]).name != name,
    ensures
        roles::stored_role(stored, name, from) is None,
    decreases stored.len() - from,
{
    if from < stored.len() {
        assert(stored[from].name != name);
        lemma_none_stored(stored, name, from + 1);
    }
}

/// A role is privileged exactly where its name is that of the bootstrap role or it
/// is a superuser; the case of its letters and quotes round it do not matter.
pub proof fn law_privileged(c: RoleCatalog, a: Seq<char>, b: Seq<char>)
    requires
        normal_role(a) == normal_role(b),
    ensures
        is_privileged(c, a) == is_privileged(c, b),
        normal_role(a) == roles::bootstrap_role() ==> is_privileged(c, a),
        c.roles@.len() == 0 ==> (is_privileged(c, a) <==> normal_role(a)
            == roles::bootstrap_role()),
{
    roles::law_normal_role(a);
    if c.roles@.len() == 0 {
        lemma_none_stored(role_views(c.roles@), normal_role(a), 0);
    }
}

/// `pg_has_role` says yes of a superuser whatever it asks for; of anybody else USAGE
/// and SET only where it says so of MEMBER, everybody is a member of itself, and
/// any other privilege is refused. A null is answered with no.
pub proof fn law_has_role(c: RoleCatalog, user: Seq<char>, role: Seq<char>, privilege: Seq<char>)
    ensures
        ({
            let answer = |p: Seq<char>| roles::has_role_answer(c, Some(user), Some(role), Some(p));
            let stored = role_views(c.roles@);
            &&& roles::is_superuser(stored, user) ==> answer(privilege) == Ok::<bool, ErrorView>(
                true,
            )
            &&& !roles::is_superuser(stored, user) ==> (answer(privilege) is Err <==> text::upper(
                privilege,
            ) != "MEMBER"@ && text::upper(privilege) != "SET"@ && text::upper(privilege)
                != "USAGE"@)
            &&& answer(privilege) == Ok::<bool, ErrorView>(true) && !roles::is_superuser(
                stored,
                user,
            ) ==> reaches(
                roles::membership_views(c.memberships@),
                stored,
                Expansion::Member,
                user,
                role,
            )
            &&& role == normal_role(user) && answer(privilege) is Ok ==> answer(privilege) == Ok::<
                bool,
                ErrorView,
            >(true)
            &&& !roles::is_superuser(stored, user) && text::upper(privilege) == "SET"@ ==> answer(
                privilege,
            ) == Ok::<bool, ErrorView>(
                reaches(
                    roles::membership_views(c.memberships@),
                    stored,
                    Expansion::ActAs,
                    user,
                    role,
                ),
            )
            &&& !roles::is_superuser(stored, user) && text::upper(privilege) == "USAGE"@ ==> answer(
                privilege,
            ) == Ok::<bool, ErrorView>(
                reaches(
                    roles::membership_views(c.memberships@),
                    stored,
                    Expansion::Inherit,
                    user,
                    role,
                ),
            )
        }),
        roles::has_role_answer(c, None, Some(role), Some(privilege)) == Ok::<bool, ErrorView>(
            false,
        ),
        roles::has_role_answer(c, Some(user), None, Some(privilege)) == Ok::<bool, ErrorView>(
            false,
        ),
        roles::has_role_answer(c, Some(user), Some(role), None) == Ok::<bool, ErrorView>(false),
{
    let stored = role_views(c.roles@);
    let memberships = roles::membership_views(c.memberships@);
    reveal_strlit("MEMBER");
    reveal_strlit("SET");
    reveal_strlit("USAGE");
    roles::law_reaches(memberships, stored, Expansion::Inherit, user, role);
    roles::law_reaches(memberships, stored, Expansion::ActAs, user, role);
    roles::law_reaches(memberships, stored, Expansion::Member, user, role);
}

} // verus!
