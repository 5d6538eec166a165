//! Privileges: the grants that are stored, what they allow, and how the catalog
//! shows them.
use vstd::prelude::*;
use crate::error;
use crate::error::{ErrorView, SqlError};
use crate::json;
use crate::roles;
use crate::roles::{Argument, Expansion, RoleCatalog};
use crate::sets;
use crate::text;

verus! {

#[derive(Clone, Copy, Debug, PartialEq, Eq, Structural)]
pub enum PrivilegeObjectType {
    Database,
    Schema,
    Table,
    Function,
    Sequence,
    Type,
}

pub open spec fn object_type_text(t: PrivilegeObjectType) -> Seq<char> {
    match t {
        PrivilegeObjectType::Database => "database"@,
        PrivilegeObjectType::Schema => "schema"@,
        PrivilegeObjectType::Table => "table"@,
        PrivilegeObjectType::Function => "function"@,
        PrivilegeObjectType::Sequence => "sequence"@,
        PrivilegeObjectType::Type => "type"@,
    }
}

pub fn privilege_object_type_name(t: PrivilegeObjectType) -> (r: &'static str)
    ensures
        r@ == object_type_text(t),
{
    match t {
        PrivilegeObjectType::Database => "database",
        PrivilegeObjectType::Schema => "schema",
        PrivilegeObjectType::Table => "table",
        PrivilegeObjectType::Function => "function",
        PrivilegeObjectType::Sequence => "sequence",
        PrivilegeObjectType::Type => "type",
    }
}

/// A privilege on an object, or on one of its columns, that a role was granted.
#[derive(Debug)]
pub struct PrivilegeGrant {
    pub column: Option<String>,
    pub object_type: PrivilegeObjectType,
    pub object_name: String,
    pub grantee: String,
    pub privilege: String,
}

#[verifier::ext_equal]
pub struct GrantView {
    pub column: Option<Seq<char>>,
    pub object_type: PrivilegeObjectType,
    pub object_name: Seq<char>,
    pub grantee: Seq<char>,
    pub privilege: Seq<char>,
}

impl View for PrivilegeGrant {
    type V = GrantView;

    open spec fn view(&self) -> GrantView {
        GrantView {
            column: error::view_option(self.column),
            object_type: self.object_type,
            object_name: self.object_name@,
            grantee: self.grantee@,
            privilege: self.privilege@,
        }
    }
}

pub open spec fn grant_views(v: Seq<PrivilegeGrant>) -> Seq<GrantView> {
    v.map_values(|g: PrivilegeGrant| g@)
}

/// The key that a grant is stored under.
pub open spec fn grant_key(g: GrantView) -> Seq<char> {
    let key = object_type_text(g.object_type) + ":"@ + g.object_name + ":"@ + g.grantee + ":"@
        + g.privilege;
    match g.column {
        Some(column) => key + ":column:"@ + json::serde_json_string(column),
        None => key,
    }
}

/// The key that a grant is stored under.
pub fn privilege_key(g: &PrivilegeGrant) -> (r: String)
    ensures
        r@ == grant_key(g@),
{
    let kind = privilege_object_type_name(g.object_type);
    let a = text::concat3(kind, ":", g.object_name.as_str());
    let b = text::concat3(a.as_str(), ":", g.grantee.as_str());
    let key = text::concat3(b.as_str(), ":", g.privilege.as_str());
    match &g.column {
        Some(column) => {
            let quoted = json::json_string(column.as_str());
            text::concat3(key.as_str(), ":column:", quoted.as_str())
        },
        None => key,
    }
}

/// A privilege that a role is granted on the objects of a kind that another
/// role will create in a schema, or in any where the schema is `*`.
#[derive(Debug)]
pub struct DefaultPrivilegeGrant {
    pub grantor: String,
    pub schema_name: String,
    pub object_type: PrivilegeObjectType,
    pub grantee: String,
    pub privilege: String,
}

/// The key that a default grant is stored under.
pub open spec fn default_grant_key(g: DefaultPrivilegeGrant) -> Seq<char> {
    g.grantor@ + ":"@ + g.schema_name@ + ":"@ + object_type_text(g.object_type) + ":"@ + g.grantee@
        + ":"@ + g.privilege@
}

/// The key that a default grant is stored under.
pub fn default_privilege_key(g: &DefaultPrivilegeGrant) -> (r: String)
    ensures
        r@ == default_grant_key(*g),
{
    let kind = privilege_object_type_name(g.object_type);
    let a = text::concat3(g.grantor.as_str(), ":", g.schema_name.as_str());
    let b = text::concat3(a.as_str(), ":", kind);
    let c = text::concat3(b.as_str(), ":", g.grantee.as_str());
    text::concat3(c.as_str(), ":", g.privilege.as_str())
}

/// The grantee of a grant is everybody or a role whose privileges the role
/// holds.
pub open spec fn granted_to(c: RoleCatalog, role: Seq<char>, grantee: Seq<char>) -> bool {
    text::same_ignoring_case(grantee, "public"@) || holds_role(
        c,
        role,
        roles::normal_role(grantee),
    )
}

/// The role holds the privileges of another one.
pub open spec fn holds_role(c: RoleCatalog, role: Seq<char>, other: Seq<char>) -> bool {
    roles::reaches(
        roles::membership_views(c.memberships@),
        roles::role_views(c.roles@),
        Expansion::Inherit,
        role,
        other,
    )
}

/// The role is the bootstrap role or a superuser.
pub open spec fn is_privileged(c: RoleCatalog, role: Seq<char>) -> bool {
    roles::normal_role(role) == roles::bootstrap_role() || roles::is_superuser(
        roles::role_views(c.roles@),
        roles::normal_role(role),
    )
}

fn privileged(c: &RoleCatalog, role: &str) -> (r: bool)
    ensures
        r == is_privileged(*c, role@),
{
    let name = roles::normalize_role_name(role);
    text::text_eq(name.as_str(), "bicdb") || roles::role_is_superuser(&c.roles, name.as_str())
}

fn grantee_held(inherited: &Vec<String>, grantee: &str) -> (r: bool)
    ensures
        r == (text::same_ignoring_case(grantee@, "public"@) || text::views(inherited@).contains(
            roles::normal_role(grantee@),
        )),
{
    if text::eq_ignore_case(grantee, "public") {
        return true;
    }
    let name = roles::normalize_role_name(grantee);
    sets::holds_text(inherited, name.as_str())
}

/// A relation: its name as it resolves, whether it exists, and its owner.
#[derive(Debug)]
pub struct RelationInfo {
    pub name: String,
    pub exists: bool,
    pub owner: Option<String>,
}

pub open spec fn relation_owner(relation: RelationInfo) -> Seq<char> {
    match relation.owner {
        Some(owner) => owner@,
        None => roles::bootstrap_role(),
    }
}

/// Some grant gives the privilege on the table as a whole to everybody or to a
/// role whose privileges the role holds.
pub open spec fn table_granted(
    c: RoleCatalog,
    grants: Seq<GrantView>,
    role: Seq<char>,
    table: Seq<char>,
    privilege: Seq<char>,
) -> bool {
    exists|i: int|
        0 <= i < grants.len() && table_grant_matches(#[trigger] grants[i], table, privilege)
            && granted_to(c, role, grants[i].grantee)
}

pub open spec fn table_grant_matches(g: GrantView, table: Seq<char>, privilege: Seq<char>) -> bool {
    g.object_type == PrivilegeObjectType::Table && g.column is None && g.object_name == table
        && text::same_ignoring_case(g.privilege, privilege)
}

/// The role has the privilege on the relation. A privileged role has it on any
/// that exists; the owner and those who hold the owner's privileges have it.
pub open spec fn may_use_table(
    c: RoleCatalog,
    grants: Seq<GrantView>,
    role: Seq<char>,
    relation: RelationInfo,
    privilege: Seq<char>,
) -> bool {
    let name = roles::normal_role(role);
    if is_privileged(c, role) {
        relation.exists
    } else {
        ||| text::same_ignoring_case(relation_owner(relation), name)
        ||| holds_role(c, name, roles::normal_role(relation_owner(relation)))
        ||| table_granted(c, grants, name, relation.name@, privilege)
    }
}

/// Whether a role has a privilege on a relation.
pub fn role_has_table_privilege(
    c: &RoleCatalog,
    grants: &Vec<PrivilegeGrant>,
    role: &str,
    relation: &RelationInfo,
    privilege: &str,
) -> (r: bool)
    ensures
        r == may_use_table(*c, grant_views(grants@), role@, *relation, privilege@),
{
    if privileged(c, role) {
        return relation.exists;
    }
    let name = roles::normalize_role_name(role);
    let owner = match &relation.owner {
        Some(owner) => owner.clone(),
        None => roles::current_role_name(),
    };
    assert(owner@ == relation_owner(*relation));
    if text::eq_ignore_case(owner.as_str(), name.as_str()) {
        return true;
    }
    let inherited = roles::role_privilege_closure(&c.memberships, &c.roles, name.as_str());
    let owner_name = roles::normalize_role_name(owner.as_str());
    if sets::holds_text(&inherited, owner_name.as_str()) {
        return true;
    }
    let ghost all = grant_views(grants@);
    let ghost lower = name@;
    let mut i: usize = 0;
    while i < grants.len()
        invariant
            i <= grants.len(),
            all == grant_views(grants@),
            lower == roles::normal_role(role@),
            !is_privileged(*c, role@),
            forall|x: Seq<char>| #[trigger]
                text::views(inherited@).contains(x) <==> holds_role(*c, lower, x),
            forall|k: int|
                0 <= k < i ==> !(table_grant_matches(
                    #[trigger] all[k],
                    relation.name@,
                    privilege@,
                ) && granted_to(*c, lower, all[k].grantee)),
        decreases grants.len() - i,
    {
        let g = &grants[i];
        assert(all[i as int] == g@);
        if g.object_type == PrivilegeObjectType::Table && g.column.is_none() && text::text_eq(
            g.object_name.as_str(),
            relation.name.as_str(),
        ) && text::eq_ignore_case(g.privilege.as_str(), privilege) && grantee_held(
            &inherited,
            g.grantee.as_str(),
        ) {
            assert(table_grant_matches(all[i as int], relation.name@, privilege@));
            return true;
        }
        i = i + 1;
    }
    false
}

pub open spec fn function_grant_matches(g: GrantView, name: Seq<char>) -> bool {
    g.object_type == PrivilegeObjectType::Function && text::same_ignoring_case(g.object_name, name)
        && text::same_ignoring_case(g.privilege, "EXECUTE"@)
}

/// The role may execute a routine with that name. `owner` is the owner of the
/// routine, where there is one with that name.
pub open spec fn may_execute(
    c: RoleCatalog,
    grants: Seq<GrantView>,
    role: Seq<char>,
    name: Seq<char>,
    owner: Option<Seq<char>>,
) -> bool {
    let role_name = roles::normal_role(role);
    ||| is_privileged(c, role)
    ||| owner is Some && holds_role(c, role_name, roles::normal_role(owner->0))
    ||| exists|i: int|
        0 <= i < grants.len() && function_grant_matches(#[trigger] grants[i], name) && granted_to(
            c,
            role_name,
            grants[i].grantee,
        )
}

/// Whether a role may execute a routine. `name` is the routine's bare name.
pub fn role_can_execute_routine(
    c: &RoleCatalog,
    grants: &Vec<PrivilegeGrant>,
    role: &str,
    name: &str,
    owner: Option<&str>,
) -> (r: bool)
    ensures
        r == may_execute(*c, grant_views(grants@), role@, name@, text::view_str(owner)),
{
    if privileged(c, role) {
        return true;
    }
    let role_name = roles::normalize_role_name(role);
    let inherited = roles::role_privilege_closure(&c.memberships, &c.roles, role_name.as_str());
    match owner {
        Some(owner) => {
            let owner_name = roles::normalize_role_name(owner);
            if sets::holds_text(&inherited, owner_name.as_str()) {
                return true;
            }
        },
        None => {},
    }
    let ghost all = grant_views(grants@);
    let ghost lower = role_name@;
    let ghost owned = text::view_str(owner);
    let mut i: usize = 0;
    while i < grants.len()
        invariant
            i <= grants.len(),
            all == grant_views(grants@),
            lower == roles::normal_role(role@),
            forall|x: Seq<char>| #[trigger]
                text::views(inherited@).contains(x) <==> holds_role(*c, lower, x),
            forall|k: int|
                0 <= k < i ==> !(function_grant_matches(#[trigger] all[k], name@) && granted_to(
                    *c,
                    lower,
                    all[k].grantee,
                )),
        decreases grants.len() - i,
    {
        let g = &grants[i];
        assert(all[i as int] == g@);
        if g.object_type == PrivilegeObjectType::Function && text::eq_ignore_case(
            g.object_name.as_str(),
            name,
        ) && text::eq_ignore_case(g.privilege.as_str(), "EXECUTE") && grantee_held(
            &inherited,
            g.grantee.as_str(),
        ) {
            assert(function_grant_matches(all[i as int], name@));
            return true;
        }
        i = i + 1;
    }
    false
}

pub open spec fn sequence_grant_matches(
    g: GrantView,
    name: Seq<char>,
    privileges: Seq<Seq<char>>,
) -> bool {
    g.object_type == PrivilegeObjectType::Sequence && g.object_name == name && exists|k: int|
        0 <= k < privileges.len() && text::same_ignoring_case(
            g.privilege,
            #[trigger] privileges[k],
        )
}

/// The role may use the sequence in one of the ways.
pub open spec fn may_use_sequence(
    c: RoleCatalog,
    grants: Seq<GrantView>,
    role: Seq<char>,
    name: Seq<char>,
    owner: Seq<char>,
    privileges: Seq<Seq<char>>,
) -> bool {
    let role_name = roles::normal_role(role);
    ||| is_privileged(c, role)
    ||| text::same_ignoring_case(owner, role_name)
    ||| holds_role(c, role_name, roles::normal_role(owner))
    ||| exists|i: int|
        0 <= i < grants.len() && sequence_grant_matches(#[trigger] grants[i], name, privileges)
            && granted_to(c, role_name, grants[i].grantee)
}

fn is_one_ignoring_case(s: &str, list: &[&str]) -> (r: bool)
    ensures
        r == exists|k: int|
            0 <= k < list@.len() && text::same_ignoring_case(
                s@,
                #[trigger] text::slice_views(list@)[k],
            ),
{
    let ghost all = text::slice_views(list@);
    let mut i: usize = 0;
    while i < list.len()
        invariant
            i <= list.len(),
            all == text::slice_views(list@),
            forall|k: int| 0 <= k < i ==> !text::same_ignoring_case(s@, #[trigger] all[k]),
        decreases list.len() - i,
    {
        assert(all[i as int] == list@[i as int]@);
        if text::eq_ignore_case(s, list[i]) {
            return true;
        }
        i = i + 1;
    }
    false
}

/// Whether a role may use a sequence in one of the ways.
pub fn role_can_use_sequence(
    c: &RoleCatalog,
    grants: &Vec<PrivilegeGrant>,
    role: &str,
    name: &str,
    owner: &str,
    privileges: &[&str],
) -> (r: bool)
    ensures
        r == may_use_sequence(
            *c,
            grant_views(grants@),
            role@,
            name@,
            owner@,
            text::slice_views(privileges@),
        ),
{
    let role_name = roles::normalize_role_name(role);
    if privileged(c, role) || text::eq_ignore_case(owner, role_name.as_str()) {
        return true;
    }
    let inherited = roles::role_privilege_closure(&c.memberships, &c.roles, role_name.as_str());
    let owner_name = roles::normalize_role_name(owner);
    if sets::holds_text(&inherited, owner_name.as_str()) {
        return true;
    }
    let ghost all = grant_views(grants@);
    let ghost lower = role_name@;
    let ghost wanted = text::slice_views(privileges@);
    let mut i: usize = 0;
    while i < grants.len()
        invariant
            i <= grants.len(),
            all == grant_views(grants@),
            wanted == text::slice_views(privileges@),
            lower == roles::normal_role(role@),
            forall|x: Seq<char>| #[trigger]
                text::views(inherited@).contains(x) <==> holds_role(*c, lower, x),
            forall|k: int|
                0 <= k < i ==> !(sequence_grant_matches(#[trigger] all[k], name@, wanted)
                    && granted_to(*c, lower, all[k].grantee)),
        decreases grants.len() - i,
    {
        let g = &grants[i];
        assert(all[i as int] == g@);
        if g.object_type == PrivilegeObjectType::Sequence && text::text_eq(
            g.object_name.as_str(),
            name,
        ) && is_one_ignoring_case(g.privilege.as_str(), privileges) && grantee_held(
            &inherited,
            g.grantee.as_str(),
        ) {
            assert(sequence_grant_matches(all[i as int], name@, wanted));
            return true;
        }
        i = i + 1;
    }
    false
}

/// The name that grants on a type carry.
pub open spec fn type_object_name(schema_name: Seq<char>, name: Seq<char>) -> Seq<char> {
    schema_name + "."@ + name
}

/// The name that grants on a type carry.
pub fn user_type_privilege_name(schema_name: &str, name: &str) -> (r: String)
    ensures
        r@ == type_object_name(schema_name@, name@),
{
    text::concat3(schema_name, ".", name)
}

/// A type as far as privileges concern it: its owner, and whether its access
/// list was ever changed.
#[derive(Debug)]
pub struct TypePrivileges {
    pub schema_name: String,
    pub name: String,
    pub owner: String,
    pub acl_explicit: bool,
}

pub open spec fn type_grant_matches(g: GrantView, object_name: Seq<char>) -> bool {
    g.object_type == PrivilegeObjectType::Type && g.object_name == object_name
        && text::same_ignoring_case(g.privilege, "USAGE"@)
}

/// The role may use the type. Everybody may, unless its access list says
/// otherwise.
pub open spec fn may_use_type(
    c: RoleCatalog,
    grants: Seq<GrantView>,
    role: Seq<char>,
    t: TypePrivileges,
) -> bool {
    let role_name = roles::normal_role(role);
    ||| is_privileged(c, role)
    ||| text::same_ignoring_case(t.owner@, role_name)
    ||| !t.acl_explicit
    ||| holds_role(c, role_name, roles::normal_role(t.owner@))
    ||| exists|i: int|
        0 <= i < grants.len() && type_grant_matches(
            #[trigger] grants[i],
            type_object_name(t.schema_name@, t.name@),
        ) && granted_to(c, role_name, grants[i].grantee)
}

/// Whether a role may use a type.
pub fn role_can_use_user_type(
    c: &RoleCatalog,
    grants: &Vec<PrivilegeGrant>,
    role: &str,
    t: &TypePrivileges,
) -> (r: bool)
    ensures
        r == may_use_type(*c, grant_views(grants@), role@, *t),
{
    let role_name = roles::normalize_role_name(role);
    if privileged(c, role) || text::eq_ignore_case(t.owner.as_str(), role_name.as_str()) {
        return true;
    }
    if !t.acl_explicit {
        return true;
    }
    let inherited = roles::role_privilege_closure(&c.memberships, &c.roles, role_name.as_str());
    let owner_name = roles::normalize_role_name(t.owner.as_str());
    if sets::holds_text(&inherited, owner_name.as_str()) {
        return true;
    }
    let object_name = user_type_privilege_name(t.schema_name.as_str(), t.name.as_str());
    let ghost all = grant_views(grants@);
    let ghost lower = role_name@;
    let mut i: usize = 0;
    while i < grants.len()
        invariant
            i <= grants.len(),
            all == grant_views(grants@),
            lower == roles::normal_role(role@),
            object_name@ == type_object_name(t.schema_name@, t.name@),
            forall|x: Seq<char>| #[trigger]
                text::views(inherited@).contains(x) <==> holds_role(*c, lower, x),
            forall|k: int|
                0 <= k < i ==> !(type_grant_matches(#[trigger] all[k], object_name@)
                    && granted_to(*c, lower, all[k].grantee)),
        decreases grants.len() - i,
    {
        let g = &grants[i];
        assert(all[i as int] == g@);
        if g.object_type == PrivilegeObjectType::Type && text::text_eq(
            g.object_name.as_str(),
            object_name.as_str(),
        ) && text::eq_ignore_case(g.privilege.as_str(), "USAGE") && grantee_held(
            &inherited,
            g.grantee.as_str(),
        ) {
            assert(type_grant_matches(all[i as int], object_name@));
            return true;
        }
        i = i + 1;
    }
    false
}

/// The schema is built in.
pub open spec fn is_built_in_schema(name: Seq<char>) -> bool {
    let lower = text::lower(name);
    lower == "public"@ || lower == "pg_catalog"@ || lower == "information_schema"@
}

/// Whether a schema is built in.
pub fn is_known_schema(name: &str) -> (r: bool)
    ensures
        r == is_built_in_schema(name@),
{
    let lower = text::to_lower(name);
    text::text_eq(lower.as_str(), "public") || text::text_eq(lower.as_str(), "pg_catalog")
        || text::text_eq(lower.as_str(), "information_schema")
}

pub open spec fn schema_grant_matches(
    g: GrantView,
    role: Seq<char>,
    schema: Seq<char>,
    privilege: Seq<char>,
) -> bool {
    g.object_type == PrivilegeObjectType::Schema && text::same_ignoring_case(g.grantee, role)
        && text::same_ignoring_case(g.object_name, schema) && text::same_ignoring_case(
        g.privilege,
        privilege,
    )
}

/// What `has_schema_privilege` answers about a role, a schema and a privilege.
pub open spec fn schema_answer(
    grants: Seq<GrantView>,
    role: Option<Seq<char>>,
    schema: Option<Seq<char>>,
    privilege: Option<Seq<char>>,
) -> bool {
    match (schema, privilege) {
        (Some(schema), Some(privilege)) => {
            let role = match role {
                Some(role) => role,
                None => roles::bootstrap_role(),
            };
            let schema = text::lower(schema);
            let privilege = text::upper(privilege);
            ||| role == roles::bootstrap_role() && is_built_in_schema(schema)
            ||| exists|i: int|
                0 <= i < grants.len() && schema_grant_matches(
                    #[trigger] grants[i],
                    role,
                    schema,
                    privilege,
                )
        },
        _ => false,
    }
}

/// What `has_schema_privilege` answers: of the bootstrap role, or of the role
/// that the first of three arguments names.
pub open spec fn schema_privilege(grants: Seq<GrantView>, args: Seq<Argument>) -> Result<
    bool,
    ErrorView,
> {
    if args.len() == 2 {
        Ok(
            schema_answer(
                grants,
                Some(roles::bootstrap_role()),
                error::view_option(args[0].text),
                error::view_option(args[1].text),
            ),
        )
    } else if args.len() == 3 {
        Ok(
            schema_answer(
                grants,
                error::view_option(args[0].text),
                error::view_option(args[1].text),
                error::view_option(args[2].text),
            ),
        )
    } else {
        Err(
            error::invalid_sql_error(
                "has_schema_privilege expects schema/privilege or role/schema/privilege"@,
            ),
        )
    }
}

/// What `has_schema_privilege` answers.
pub fn has_schema_privilege(grants: &Vec<PrivilegeGrant>, args: &Vec<Argument>) -> (r: Result<
    bool,
    SqlError,
>)
    ensures
        roles::truth_result(r, schema_privilege(grant_views(grants@), args@)),
{
    let n = args.len();
    if n != 2 && n != 3 {
        return Err(
            SqlError::invalid_sql(
                "has_schema_privilege expects schema/privilege or role/schema/privilege".to_owned(),
            ),
        );
    }
    let schema = match &args[n - 2].text {
        Some(t) => text::to_lower(t.as_str()),
        None => {
            return Ok(false);
        },
    };
    let privilege = match &args[n - 1].text {
        Some(t) => text::to_upper(t.as_str()),
        None => {
            return Ok(false);
        },
    };
    let role = if n == 2 {
        roles::current_role_name()
    } else {
        match &args[0].text {
            Some(t) => t.clone(),
            None => roles::current_role_name(),
        }
    };
    if text::text_eq(role.as_str(), "bicdb") && is_known_schema(schema.as_str()) {
        return Ok(true);
    }
    Ok(schema_granted(grants, role.as_str(), schema.as_str(), privilege.as_str()))
}

fn schema_granted(grants: &Vec<PrivilegeGrant>, role: &str, schema: &str, privilege: &str) -> (r:
    bool)
    ensures
        r == exists|i: int|
            0 <= i < grants@.len() && schema_grant_matches(
                #[trigger] grant_views(grants@)[i],
                role@,
                schema@,
                privilege@,
            ),
{
    let ghost all = grant_views(grants@);
    let mut i: usize = 0;
    while i < grants.len()
        invariant
            i <= grants.len(),
            all == grant_views(grants@),
            forall|k: int|
                0 <= k < i ==> !schema_grant_matches(
                    #[trigger] all[k],
                    role@,
                    schema@,
                    privilege@,
                ),
        decreases grants.len() - i,
    {
        let g = &grants[i];
        assert(all[i as int] == g@);
        if g.object_type == PrivilegeObjectType::Schema && text::eq_ignore_case(
            g.grantee.as_str(),
            role,
        ) && text::eq_ignore_case(g.object_name.as_str(), schema) && text::eq_ignore_case(
            g.privilege.as_str(),
            privilege,
        ) {
            assert(schema_grant_matches(all[i as int], role@, schema@, privilege@));
            return true;
        }
        i = i + 1;
    }
    false
}

/// The role has one of the listed privileges from there on. Empty places in the
/// list do not count.
pub open spec fn has_any_table_privilege(
    c: RoleCatalog,
    grants: Seq<GrantView>,
    role: Seq<char>,
    relation: RelationInfo,
    listed: Seq<Seq<char>>,
) -> bool {
    exists|i: int|
        0 <= i < listed.len() && text::trim(#[trigger] listed[i]).len() > 0 && may_use_table(
            c,
            grants,
            role,
            relation,
            text::trim(listed[i]),
        )
}

/// What `has_table_privilege` answers about a role and a list of privileges.
pub open spec fn table_answer(
    c: RoleCatalog,
    grants: Seq<GrantView>,
    role: Option<Seq<char>>,
    table: Option<Seq<char>>,
    relation: RelationInfo,
    privilege: Option<Seq<char>>,
) -> bool {
    match (table, privilege) {
        (Some(_), Some(privilege)) => has_any_table_privilege(
            c,
            grants,
            match role {
                Some(role) => role,
                None => roles::bootstrap_role(),
            },
            relation,
            text::pieces(privilege, ','),
        ),
        _ => false,
    }
}

/// What `has_table_privilege` answers. `relation` is the relation that the table
/// argument resolves to.
pub open spec fn table_privilege(
    c: RoleCatalog,
    grants: Seq<GrantView>,
    args: Seq<Argument>,
    relation: RelationInfo,
) -> Result<bool, ErrorView> {
    if args.len() == 2 {
        Ok(
            table_answer(
                c,
                grants,
                Some(roles::bootstrap_role()),
                error::view_option(args[0].text),
                relation,
                error::view_option(args[1].text),
            ),
        )
    } else if args.len() == 3 {
        Ok(
            table_answer(
                c,
                grants,
                error::view_option(args[0].text),
                error::view_option(args[1].text),
                relation,
                error::view_option(args[2].text),
            ),
        )
    } else {
        Err(
            error::invalid_sql_error(
                "has_table_privilege expects table/privilege or role/table/privilege"@,
            ),
        )
    }
}

/// What `has_table_privilege` answers. `relation` is the relation that the table
/// argument resolves to.
pub fn has_table_privilege(
    c: &RoleCatalog,
    grants: &Vec<PrivilegeGrant>,
    args: &Vec<Argument>,
    relation: &RelationInfo,
) -> (r: Result<bool, SqlError>)
    ensures
        roles::truth_result(r, table_privilege(*c, grant_views(grants@), args@, *relation)),
{
    let n = args.len();
    if n != 2 && n != 3 {
        return Err(
            SqlError::invalid_sql(
                "has_table_privilege expects table/privilege or role/table/privilege".to_owned(),
            ),
        );
    }
    if args[n - 2].text.is_none() {
        return Ok(false);
    }
    let listed = match &args[n - 1].text {
        Some(t) => text::split_on(t.as_str(), ','),
        None => {
            return Ok(false);
        },
    };
    let role = if n == 2 {
        roles::current_role_name()
    } else {
        match &args[0].text {
            Some(t) => t.clone(),
            None => roles::current_role_name(),
        }
    };
    Ok(any_table_privilege(c, grants, role.as_str(), relation, &listed))
}

fn any_table_privilege(
    c: &RoleCatalog,
    grants: &Vec<PrivilegeGrant>,
    role: &str,
    relation: &RelationInfo,
    listed: &Vec<String>,
) -> (r: bool)
    ensures
        r == has_any_table_privilege(
            *c,
            grant_views(grants@),
            role@,
            *relation,
            text::views(listed@),
        ),
{
    let ghost all = text::views(listed@);
    let mut i: usize = 0;
    while i < listed.len()
        invariant
            i <= listed.len(),
            all == text::views(listed@),
            forall|k: int|
                0 <= k < i ==> !(text::trim(#[trigger] all[k]).len() > 0 && may_use_table(
                    *c,
                    grant_views(grants@),
                    role@,
                    *relation,
                    text::trim(all[k]),
                )),
        decreases listed.len() - i,
    {
        assert(all[i as int] == listed@[i as int]@);
        let privilege = text::trimmed(listed[i].as_str());
        let chars = text::chars_of(privilege.as_str());
        if chars.len() > 0 && role_has_table_privilege(
            c,
            grants,
            role,
            relation,
            privilege.as_str(),
        ) {
            return true;
        }
        i = i + 1;
    }
    false
}

/// A routine as far as privileges concern it: its bare name, its owner, and
/// whether it is a function.
#[derive(Debug)]
pub struct RoutinePrivileges {
    pub name: String,
    pub owner: String,
    pub function: bool,
}

/// What `has_function_privilege` answers about a role, the routine that the
/// argument denotes, and a privilege.
pub open spec fn function_answer(
    c: RoleCatalog,
    grants: Seq<GrantView>,
    role: Option<Seq<char>>,
    routine: Option<RoutinePrivileges>,
    privilege: Option<Seq<char>>,
) -> Result<bool, ErrorView> {
    match (role, privilege) {
        (Some(role), Some(privilege)) => if !text::same_ignoring_case(privilege, "EXECUTE"@) {
            Err(error::invalid_sql_error("unrecognized privilege type: "@ + privilege))
        } else {
            match routine {
                Some(f) => Ok(
                    f.function && (text::same_ignoring_case(f.owner@, role) || may_execute(
                        c,
                        grants,
                        role,
                        f.name@,
                        Some(f.owner@),
                    )),
                ),
                None => Ok(false),
            }
        },
        _ => Ok(false),
    }
}

/// What `has_function_privilege` answers: of the bootstrap role, or of the role
/// that the first of three arguments denotes.
pub open spec fn function_privilege(
    c: RoleCatalog,
    grants: Seq<GrantView>,
    args: Seq<Argument>,
    routine: Option<RoutinePrivileges>,
) -> Result<bool, ErrorView> {
    if args.len() == 2 {
        function_answer(
            c,
            grants,
            Some(roles::bootstrap_role()),
            routine,
            error::view_option(args[1].text),
        )
    } else if args.len() == 3 {
        function_answer(
            c,
            grants,
            roles::argument_role(
                roles::roles_sorted(roles::known_roles(roles::role_views(c.roles@))),
                args[0],
            ),
            routine,
            error::view_option(args[2].text),
        )
    } else {
        Err(
            error::invalid_sql_error(
                "has_function_privilege expects function/privilege or role/function/privilege"@,
            ),
        )
    }
}

/// What `has_function_privilege` answers. `routine` is the routine that the
/// function argument denotes.
pub fn has_function_privilege(
    c: &RoleCatalog,
    grants: &Vec<PrivilegeGrant>,
    args: &Vec<Argument>,
    routine: &Option<RoutinePrivileges>,
) -> (r: Result<bool, SqlError>)
    ensures
        roles::truth_result(r, function_privilege(*c, grant_views(grants@), args@, *routine)),
{
    let n = args.len();
    if n != 2 && n != 3 {
        return Err(
            SqlError::invalid_sql(
                "has_function_privilege expects function/privilege or role/function/privilege".to_owned(),
            ),
        );
    }
    let role = if n == 2 {
        Some(roles::current_role_name())
    } else {
        let listed = roles::list_roles(&c.roles);
        roles::role_name_from_value(&listed, &args[0])
    };
    let role = match role {
        Some(role) => role,
        None => {
            return Ok(false);
        },
    };
    match &args[n - 1].text {
        Some(privilege) => {
            if !text::eq_ignore_case(privilege.as_str(), "EXECUTE") {
                return Err(
                    SqlError::invalid_sql(
                        text::concat("unrecognized privilege type: ", privilege.as_str()),
                    ),
                );
            }
        },
        None => {
            return Ok(false);
        },
    }
    match routine {
        Some(f) => {
            if !f.function {
                return Ok(false);
            }
            if text::eq_ignore_case(f.owner.as_str(), role.as_str()) {
                return Ok(true);
            }
            Ok(
                role_can_execute_routine(
                    c,
                    grants,
                    role.as_str(),
                    f.name.as_str(),
                    Some(f.owner.as_str()),
                ),
            )
        },
        None => Ok(false),
    }
}

/// What `has_type_privilege` answers about a role, the type that the argument
/// denotes, and a privilege.
pub open spec fn type_answer(
    c: RoleCatalog,
    grants: Seq<GrantView>,
    role: Seq<char>,
    user_type: Option<TypePrivileges>,
    privilege: Option<Seq<char>>,
) -> Result<bool, ErrorView> {
    match privilege {
        Some(privilege) => if !text::same_ignoring_case(privilege, "USAGE"@) {
            Err(error::invalid_sql_error("unrecognized privilege type: "@ + privilege))
        } else {
            match user_type {
                Some(t) => Ok(may_use_type(c, grants, role, t)),
                None => Ok(false),
            }
        },
        None => Ok(false),
    }
}

/// What `has_type_privilege` answers: of the current user, or of the role that
/// the first of three arguments denotes.
pub open spec fn type_privilege(
    c: RoleCatalog,
    grants: Seq<GrantView>,
    args: Seq<Argument>,
    current_user: Seq<char>,
    user_type: Option<TypePrivileges>,
) -> Result<bool, ErrorView> {
    if args.len() == 2 {
        type_answer(c, grants, current_user, user_type, error::view_option(args[1].text))
    } else if args.len() == 3 {
        let role = match roles::argument_role(
            roles::roles_sorted(roles::known_roles(roles::role_views(c.roles@))),
            args[0],
        ) {
            Some(role) => role,
            None => Seq::empty(),
        };
        type_answer(c, grants, role, user_type, error::view_option(args[2].text))
    } else {
        Err(
            error::invalid_sql_error(
                "has_type_privilege expects type/privilege or role/type/privilege"@,
            ),
        )
    }
}

/// What `has_type_privilege` answers. `user_type` is the type that the type
/// argument denotes.
pub fn has_type_privilege(
    c: &RoleCatalog,
    grants: &Vec<PrivilegeGrant>,
    args: &Vec<Argument>,
    current_user: &str,
    user_type: &Option<TypePrivileges>,
) -> (r: Result<bool, SqlError>)
    ensures
        roles::truth_result(
            r,
            type_privilege(*c, grant_views(grants@), args@, current_user@, *user_type),
        ),
{
    let n = args.len();
    if n != 2 && n != 3 {
        return Err(
            SqlError::invalid_sql(
                "has_type_privilege expects type/privilege or role/type/privilege".to_owned(),
            ),
        );
    }
    let role = if n == 2 {
        current_user.to_owned()
    } else {
        let listed = roles::list_roles(&c.roles);
        match roles::role_name_from_value(&listed, &args[0]) {
            Some(role) => role,
            None => String::new(),
        }
    };
    match &args[n - 1].text {
        Some(privilege) => {
            if !text::eq_ignore_case(privilege.as_str(), "USAGE") {
                return Err(
                    SqlError::invalid_sql(
                        text::concat("unrecognized privilege type: ", privilege.as_str()),
                    ),
                );
            }
        },
        None => {
            return Ok(false);
        },
    }
    match user_type {
        Some(t) => Ok(role_can_use_user_type(c, grants, role.as_str(), t)),
        None => Ok(false),
    }
}

/// A role that holds no more than itself: whatever it may do to a table, its
/// grants, its ownership or its superuser attribute say so.
pub proof fn law_no_grant_no_access(
    c: RoleCatalog,
    role: Seq<char>,
    relation: RelationInfo,
    privilege: Seq<char>,
)
    requires
        !is_privileged(c, role),
        !text::same_ignoring_case(relation_owner(relation), roles::normal_role(role)),
        !holds_role(
            c,
            roles::normal_role(role),
            roles::normal_role(relation_owner(relation)),
        ),
    ensures
        !may_use_table(c, Seq::empty(), role, relation, privilege),
{
}

/// A further grant takes no privilege away.
pub proof fn law_grants_only_add(
    c: RoleCatalog,
    grants: Seq<GrantView>,
    grant: GrantView,
    role: Seq<char>,
    relation: RelationInfo,
    privilege: Seq<char>,
)
    requires
        may_use_table(c, grants, role, relation, privilege),
    ensures
        may_use_table(c, grants.push(grant), role, relation, privilege),
{
    let name = roles::normal_role(role);
    let more = grants.push(grant);
    if table_granted(c, grants, name, relation.name@, privilege) {
        let i = choose|i: int|
            0 <= i < grants.len() && table_grant_matches(
                #[trigger] grants[i],
                relation.name@,
                privilege,
            ) && granted_to(c, name, grants[i].grantee);
        assert(more[i] == grants[i]);
        assert(table_grant_matches(more[i], relation.name@, privilege));
        assert(granted_to(c, name, more[i].grantee));
    }
}

} // verus!
