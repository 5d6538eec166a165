//! Who may change a type and who may use it, and what changing it does.
use vstd::prelude::*;
use crate::authority;
use crate::error;
use crate::error::{SqlError, SqlErrorKind};
use crate::function_privileges;
use crate::privileges;
use crate::privileges::{GrantView, PrivilegeGrant, PrivilegeObjectType, TypePrivileges};
use crate::roles;
use crate::roles::{Role, RoleCatalog};
use crate::session::SqlSession;
use crate::sets;
use crate::text;

verus! {

/// Whether a user may change a type: as its owner, as a superuser, or with the
/// privileges of its owner.
pub open spec fn may_change_type(c: RoleCatalog, user: Seq<char>, t: TypePrivileges) -> bool {
    roles::is_superuser(roles::role_views(c.roles@), user) || authority::holds_role(
        c,
        user,
        t.owner@,
    )
}

pub open spec fn type_owner_error(t: TypePrivileges) -> error::ErrorView {
    error::authorization_error(
        "must be owner of type "@ + privileges::type_object_name(t.schema_name@, t.name@),
    )
}

pub open spec fn undefined_type_error(schema_name: Seq<char>, name: Seq<char>) -> error::ErrorView {
    error::named_error(SqlErrorKind::UndefinedType, privileges::type_object_name(schema_name, name))
}

fn undefined_type(schema_name: &str, name: &str) -> (e: SqlError)
    ensures
        e@ == undefined_type_error(schema_name@, name@),
{
    SqlError::named(
        SqlErrorKind::UndefinedType,
        privileges::user_type_privilege_name(schema_name, name),
    )
}

/// The privilege to use a type.
pub open spec fn usage_grant(t: TypePrivileges, grantee: Seq<char>) -> GrantView {
    GrantView {
        column: None,
        object_type: PrivilegeObjectType::Type,
        object_name: privileges::type_object_name(t.schema_name@, t.name@),
        grantee,
        privilege: "USAGE"@,
    }
}

fn usage_grant_of(t: &TypePrivileges, grantee: &str) -> (g: PrivilegeGrant)
    ensures
        g@ == usage_grant(*t, grantee@),
{
    let g = PrivilegeGrant {
        column: None,
        object_type: PrivilegeObjectType::Type,
        object_name: privileges::user_type_privilege_name(t.schema_name.as_str(), t.name.as_str()),
        grantee: grantee.to_owned(),
        privilege: "USAGE".to_owned(),
    };
    assert(g@ =~= usage_grant(*t, grantee@));
    g
}

impl SqlSession {
    /// Refuses who may not change a type.
    pub fn ensure_user_type_owner(&self, c: &RoleCatalog, t: &TypePrivileges) -> (r: Result<
        (),
        SqlError,
    >)
        ensures
            match r {
                Ok(()) => may_change_type(*c, roles::current_user(self@.guc.gucs), *t),
                Err(e) => !may_change_type(*c, roles::current_user(self@.guc.gucs), *t) && e@
                    == type_owner_error(*t),
            },
    {
        let user = roles::current_user_from_gucs(self.session_gucs());
        if roles::role_is_superuser(&c.roles, user.as_str()) || self.current_user_holds_role(
            c,
            t.owner.as_str(),
        ) {
            return Ok(());
        }
        let name = privileges::user_type_privilege_name(t.schema_name.as_str(), t.name.as_str());
        Err(SqlError::authorization(text::concat("must be owner of type ", name.as_str())))
    }

    /// Refuses who may not use the type of a column. Of a type that is no longer there
    /// nobody but a superuser may.
    pub fn ensure_user_type_usage(
        &self,
        c: &RoleCatalog,
        grants: &Vec<PrivilegeGrant>,
        column_type: Option<i64>,
        loaded: Option<&TypePrivileges>,
    ) -> (r: Result<(), SqlError>)
        ensures
            match column_type {
                None => r is Ok,
                Some(oid) => match loaded {
                    None => if authority::has_superuser(*c, roles::current_user(self@.guc.gucs)) {
                        r is Ok
                    } else {
                        r is Err && r->Err_0@ == error::authorization_error(
                            "permission denied for type with oid "@ + text::signed_decimal(
                                oid as int,
                            ),
                        )
                    },
                    Some(t) => if privileges::may_use_type(
                        *c,
                        privileges::grant_views(grants@),
                        roles::current_user(self@.guc.gucs),
                        *t,
                    ) {
                        r is Ok
                    } else {
                        r is Err && r->Err_0@ == error::authorization_error(
                            "permission denied for type "@ + privileges::type_object_name(
                                t.schema_name@,
                                t.name@,
                            ),
                        )
                    },
                },
            },
    {
        let oid: i64 = match column_type {
            Some(oid) => oid,
            None => {
                return Ok(());
            },
        };
        match loaded {
            None => {
                if self.current_user_is_superuser(c) {
                    return Ok(());
                }
                let number = text::signed_text(oid);
                Err(
                    SqlError::authorization(
                        text::concat("permission denied for type with oid ", number.as_str()),
                    ),
                )
            },
            Some(t) => {
                let role = roles::current_user_from_gucs(self.session_gucs());
                if privileges::role_can_use_user_type(c, grants, role.as_str(), t) {
                    return Ok(());
                }
                let name = privileges::user_type_privilege_name(
                    t.schema_name.as_str(),
                    t.name.as_str(),
                );
                Err(
                    SqlError::authorization(
                        text::concat("permission denied for type ", name.as_str()),
                    ),
                )
            },
        }
    }
}

/// A type that a statement names, and what is kept of it, where it is there.
#[derive(Debug)]
pub struct NamedType {
    pub schema_name: String,
    pub name: String,
    pub loaded: Option<TypePrivileges>,
    pub is_domain: bool,
}

/// What GRANT and REVOKE on types do: they grant, they revoke, or they note that the
/// access list of the type at a place in the statement is its own now.
#[derive(Debug)]
pub enum TypeStep {
    Grant(PrivilegeGrant),
    Revoke(PrivilegeGrant),
    MarkExplicit(usize),
}

pub enum TypeStepView {
    Grant(GrantView),
    Revoke(GrantView),
    MarkExplicit(int),
}

impl View for TypeStep {
    type V = TypeStepView;

    open spec fn view(&self) -> TypeStepView {
        match *self {
            TypeStep::Grant(g) => TypeStepView::Grant(g@),
            TypeStep::Revoke(g) => TypeStepView::Revoke(g@),
            TypeStep::MarkExplicit(i) => TypeStepView::MarkExplicit(i as int),
        }
    }
}

pub open spec fn step_views(v: Seq<TypeStep>) -> Seq<TypeStepView> {
    v.map_values(|s: TypeStep| s@)
}

/// What is done before anything is granted or revoked: a type that everybody could use
/// so far gets that written down, for everybody and for its owner.
pub open spec fn prepared(c: RoleCatalog, user: Seq<char>, types: Seq<NamedType>) -> (
    Seq<TypeStepView>,
    Option<error::ErrorView>,
)
    decreases types.len(),
{
    if types.len() == 0 {
        (Seq::empty(), None)
    } else {
        let before = prepared(c, user, types.drop_last());
        let named = types.last();
        if before.1 is Some {
            before
        } else {
            match named.loaded {
                None => (before.0, Some(undefined_type_error(named.schema_name@, named.name@))),
                Some(t) => if !may_change_type(c, user, t) {
                    (before.0, Some(type_owner_error(t)))
                } else if t.acl_explicit {
                    before
                } else {
                    (
                        before.0.push(TypeStepView::Grant(usage_grant(t, "public"@))).push(
                            TypeStepView::Grant(usage_grant(t, t.owner@)),
                        ).push(TypeStepView::MarkExplicit(types.len() - 1)),
                        None,
                    )
                },
            }
        }
    }
}

pub open spec fn change(grant: bool, g: GrantView) -> TypeStepView {
    if grant {
        TypeStepView::Grant(g)
    } else {
        TypeStepView::Revoke(g)
    }
}

/// What is granted to or revoked from a grantee.
pub open spec fn changes_for(grantee: Seq<char>, types: Seq<NamedType>, grant: bool) -> Seq<
    TypeStepView,
>
    decreases types.len(),
{
    if types.len() == 0 {
        Seq::empty()
    } else {
        match types.last().loaded {
            Some(t) => changes_for(grantee, types.drop_last(), grant).push(
                change(grant, usage_grant(t, grantee)),
            ),
            None => changes_for(grantee, types.drop_last(), grant),
        }
    }
}

/// What is granted or revoked, up to a grantee that is neither everybody nor a known
/// role.
pub open spec fn changes(
    list: Seq<Role>,
    grantees: Seq<Seq<char>>,
    types: Seq<NamedType>,
    grant: bool,
) -> (Seq<TypeStepView>, Option<error::ErrorView>)
    decreases grantees.len(),
{
    if grantees.len() == 0 {
        (Seq::empty(), None)
    } else {
        let before = changes(list, grantees.drop_last(), types, grant);
        let grantee = grantees.last();
        if before.1 is Some {
            before
        } else if grantee != "public"@ && !function_privileges::known(list, grantee) {
            (before.0, Some(error::undefined_role_error(grantee)))
        } else {
            (before.0 + changes_for(grantee, types, grant), None)
        }
    }
}

/// What GRANT or REVOKE on types does, and the error that it ends with, if any.
pub open spec fn type_privilege_steps(
    c: RoleCatalog,
    user: Seq<char>,
    list: Seq<Role>,
    types: Seq<NamedType>,
    grantees: Seq<Seq<char>>,
    grant: bool,
) -> (Seq<TypeStepView>, Option<error::ErrorView>) {
    let first = prepared(c, user, types);
    if first.1 is Some {
        first
    } else {
        let second = changes(list, grantees, types, grant);
        (first.0 + second.0, second.1)
    }
}

pub open spec fn outcome_view(e: Option<SqlError>) -> Option<error::ErrorView> {
    match e {
        Some(e) => Some(e@),
        None => None,
    }
}

proof fn lemma_prepared_stays(c: RoleCatalog, user: Seq<char>, types: Seq<NamedType>, i: int)
    requires
        0 <= i <= types.len(),
        prepared(c, user, types.take(i)).1 is Some,
    ensures
        prepared(c, user, types) == prepared(c, user, types.take(i)),
    decreases types.len(),
{
    if i == types.len() {
        assert(types.take(i) =~= types);
    } else {
        assert(types.drop_last().take(i) =~= types.take(i));
        lemma_prepared_stays(c, user, types.drop_last(), i);
    }
}

proof fn lemma_changes_stay(
    list: Seq<Role>,
    grantees: Seq<Seq<char>>,
    types: Seq<NamedType>,
    grant: bool,
    i: int,
)
    requires
        0 <= i <= grantees.len(),
        changes(list, grantees.take(i), types, grant).1 is Some,
    ensures
        changes(list, grantees, types, grant) == changes(list, grantees.take(i), types, grant),
    decreases grantees.len(),
{
    if i == grantees.len() {
        assert(grantees.take(i) =~= grantees);
    } else {
        assert(grantees.drop_last().take(i) =~= grantees.take(i));
        lemma_changes_stay(list, grantees.drop_last(), types, grant, i);
    }
}

fn push_step(steps: &mut Vec<TypeStep>, step: TypeStep)
    ensures
        step_views(final(steps)@) == step_views(old(steps)@).push(step@),
{
    let ghost prior = steps@;
    let ghost view = step@;
    steps.push(step);
    assert(step_views(steps@) =~= step_views(prior).push(view));
}

impl SqlSession {
    fn prepare_types(&self, c: &RoleCatalog, types: &Vec<NamedType>) -> (r: (
        Vec<TypeStep>,
        Option<SqlError>,
    ))
        ensures
            (step_views((r.0)@), outcome_view(r.1)) == prepared(
                *c,
                roles::current_user(self@.guc.gucs),
                types@,
            ),
    {
        let ghost user = roles::current_user(self@.guc.gucs);
        let mut steps: Vec<TypeStep> = Vec::new();
        assert(step_views(steps@) =~= Seq::empty());
        let mut i: usize = 0;
        while i < types.len()
            invariant
                i <= types.len(),
                user == roles::current_user(self@.guc.gucs),
                prepared(*c, user, types@.take(i as int)) == (
                    step_views(steps@),
                    None::<error::ErrorView>,
                ),
            decreases types.len() - i,
        {
            assert(types@.take(i + 1).drop_last() =~= types@.take(i as int));
            assert(types@.take(i + 1).last() == types@[i as int]);
            match &types[i].loaded {
                None => {
                    proof {
                        lemma_prepared_stays(*c, user, types@, i + 1);
                    }
                    return (
                        steps,
                        Some(
                            undefined_type(types[i].schema_name.as_str(), types[i].name.as_str()),
                        ),
                    );
                },
                Some(t) => {
                    match self.ensure_user_type_owner(c, t) {
                        Err(e) => {
                            proof {
                                lemma_prepared_stays(*c, user, types@, i + 1);
                            }
                            return (steps, Some(e));
                        },
                        Ok(()) => {},
                    }
                    if !t.acl_explicit {
                        push_step(&mut steps, TypeStep::Grant(usage_grant_of(t, "public")));
                        push_step(&mut steps, TypeStep::Grant(usage_grant_of(t, t.owner.as_str())));
                        push_step(&mut steps, TypeStep::MarkExplicit(i));
                    }
                },
            }
            i = i + 1;
        }
        assert(types@.take(types@.len() as int) =~= types@);
        (steps, None)
    }

    /// What GRANT or REVOKE on types does, and the error that it ends with, if any.
    /// `list` has the roles that are known.
    pub fn execute_raw_type_privileges(
        &self,
        c: &RoleCatalog,
        list: &Vec<Role>,
        types: &Vec<NamedType>,
        grantees: &Vec<String>,
        grant: bool,
    ) -> (r: (Vec<TypeStep>, Option<SqlError>))
        ensures
            (step_views((r.0)@), outcome_view(r.1)) == type_privilege_steps(
                *c,
                roles::current_user(self@.guc.gucs),
                list@,
                types@,
                text::views(grantees@),
                grant,
            ),
    {
        let (first, failed) = self.prepare_types(c, types);
        let mut steps = first;
        if failed.is_some() {
            return (steps, failed);
        }
        let ghost start = step_views(steps@);
        let ghost all = text::views(grantees@);
        let mut i: usize = 0;
        assert(start + changes(list@, all.take(0), types@, grant).0 =~= start);
        while i < grantees.len()
            invariant
                i <= grantees.len(),
                all == text::views(grantees@),
                prepared(*c, roles::current_user(self@.guc.gucs), types@) == (
                    start,
                    None::<error::ErrorView>,
                ),
                changes(list@, all.take(i as int), types@, grant).1 is None,
                step_views(steps@) == start + changes(list@, all.take(i as int), types@, grant).0,
            decreases grantees.len() - i,
        {
            assert(all.take(i + 1).drop_last() =~= all.take(i as int));
            assert(all.take(i + 1).last() == grantees@[i as int]@);
            let grantee = grantees[i].as_str();
            if !text::text_eq(grantee, "public") && !function_privileges::role_is_known(
                list,
                grantee,
            ) {
                proof {
                    lemma_changes_stay(list@, all, types@, grant, i + 1);
                }
                return (steps, Some(SqlError::undefined_role(grantees[i].clone())));
            }
            let ghost before = step_views(steps@);
            let ghost so_far = changes(list@, all.take(i as int), types@, grant).0;
            let mut k: usize = 0;
            assert(before + changes_for(grantee@, types@.take(0), grant) =~= before);
            while k < types.len()
                invariant
                    k <= types.len(),
                    step_views(steps@) == before + changes_for(
                        grantee@,
                        types@.take(k as int),
                        grant,
                    ),
                decreases types.len() - k,
            {
                assert(types@.take(k + 1).drop_last() =~= types@.take(k as int));
                assert(types@.take(k + 1).last() == types@[k as int]);
                match &types[k].loaded {
                    Some(t) => {
                        let g = usage_grant_of(t, grantee);
                        let ghost view = change(grant, g@);
                        let step = if grant {
                            TypeStep::Grant(g)
                        } else {
                            TypeStep::Revoke(g)
                        };
                        push_step(&mut steps, step);
                        assert(step_views(steps@) =~= before + changes_for(
                            grantee@,
                            types@.take(k as int),
                            grant,
                        ).push(view));
                    },
                    None => {},
                }
                k = k + 1;
            }
            assert(types@.take(types@.len() as int) =~= types@);
            assert(start + (so_far + changes_for(grantee@, types@, grant)) =~= (start + so_far)
                + changes_for(grantee@, types@, grant));
            i = i + 1;
        }
        assert(all.take(all.len() as int) =~= all);
        (steps, None)
    }
}

/// What ALTER TYPE or ALTER DOMAIN asks for.
#[derive(Debug)]
pub enum AlterUserType {
    Owner(String),
    SetSchema { schema_name: String, schema_known: bool, taken: bool },
}

/// What is done to the type: it gets another owner, and the owner's grant with it where
/// that was written down; it moves to another schema; or nothing.
#[derive(Debug)]
pub enum TypeChange {
    Owner { owner: String, moved: Option<(PrivilegeGrant, PrivilegeGrant)> },
    Relocate(String),
    Nothing,
}

pub enum TypeChangeView {
    Owner { owner: Seq<char>, moved: Option<(GrantView, GrantView)> },
    Relocate(Seq<char>),
    Nothing,
}

impl View for TypeChange {
    type V = TypeChangeView;

    open spec fn view(&self) -> TypeChangeView {
        match *self {
            TypeChange::Owner { owner, moved } => TypeChangeView::Owner {
                owner: owner@,
                moved: match moved {
                    Some((a, b)) => Some((a@, b@)),
                    None => None,
                },
            },
            TypeChange::Relocate(schema) => TypeChangeView::Relocate(schema@),
            TypeChange::Nothing => TypeChangeView::Nothing,
        }
    }
}

pub open spec fn wrong_kind_error(schema_name: Seq<char>, name: Seq<char>) -> error::ErrorView {
    error::data_exception_error(
        "42809"@,
        privileges::type_object_name(schema_name, name) + " has the wrong object type"@,
        Some(name),
    )
}

pub open spec fn type_change(
    c: RoleCatalog,
    user: Seq<char>,
    list: Seq<Role>,
    grants: Seq<GrantView>,
    t: TypePrivileges,
    alter: AlterUserType,
) -> Result<TypeChangeView, error::ErrorView> {
    match alter {
        AlterUserType::Owner(owner) => {
            if !roles::is_role(roles::role_views(list), owner@) {
                Err(error::undefined_role_error(owner@))
            } else if !roles::is_superuser(roles::role_views(c.roles@), user)
                && !authority::may_act_as(c, user, owner@) {
                Err(
                    error::authorization_error(
                        "permission denied to change type owner to \""@ + owner@ + "\""@,
                    ),
                )
            } else {
                Ok(
                    TypeChangeView::Owner {
                        owner: owner@,
                        moved: if t.acl_explicit && grants.contains(usage_grant(t, t.owner@)) {
                            Some((usage_grant(t, t.owner@), usage_grant(t, owner@)))
                        } else {
                            None
                        },
                    },
                )
            }
        },
        AlterUserType::SetSchema { schema_name, schema_known, taken } => {
            if !schema_known {
                Err(error::invalid_collection_error(schema_name@))
            } else if text::same_ignoring_case(schema_name@, t.schema_name@) {
                Ok(TypeChangeView::Nothing)
            } else if taken {
                Err(
                    error::data_exception_error(
                        "42710"@,
                        "type \""@ + t.name@ + "\" already exists"@,
                        Some(t.name@),
                    ),
                )
            } else {
                Ok(TypeChangeView::Relocate(schema_name@))
            }
        },
    }
}

/// What ALTER TYPE or ALTER DOMAIN does, or why it is refused.
pub open spec fn alteration(
    c: RoleCatalog,
    user: Seq<char>,
    list: Seq<Role>,
    grants: Seq<GrantView>,
    named: NamedType,
    domain: bool,
    alter: AlterUserType,
) -> Result<TypeChangeView, error::ErrorView> {
    match named.loaded {
        None => Err(undefined_type_error(named.schema_name@, named.name@)),
        Some(t) => if domain != named.is_domain {
            Err(wrong_kind_error(named.schema_name@, named.name@))
        } else if !may_change_type(c, user, t) {
            Err(type_owner_error(t))
        } else {
            type_change(c, user, list, grants, t, alter)
        },
    }
}

fn same_option(a: &Option<String>, b: &Option<String>) -> (r: bool)
    ensures
        r == (error::view_option(*a) == error::view_option(*b)),
{
    match (a, b) {
        (Some(a), Some(b)) => text::text_eq(a.as_str(), b.as_str()),
        (None, None) => true,
        _ => false,
    }
}

fn has_grant(grants: &Vec<PrivilegeGrant>, g: &PrivilegeGrant) -> (r: bool)
    ensures
        r == privileges::grant_views(grants@).contains(g@),
{
    let ghost all = privileges::grant_views(grants@);
    let mut i: usize = 0;
    while i < grants.len()
        invariant
            i <= grants.len(),
            all == privileges::grant_views(grants@),
            forall|k: int| 0 <= k < i ==> #[trigger] all[k] != g@,
        decreases grants.len() - i,
    {
        assert(all[i as int] == grants@[i as int]@);
        if same_option(&grants[i].column, &g.column) && grants[i].object_type == g.object_type
            && text::text_eq(grants[i].object_name.as_str(), g.object_name.as_str())
            && text::text_eq(grants[i].grantee.as_str(), g.grantee.as_str()) && text::text_eq(
            grants[i].privilege.as_str(),
            g.privilege.as_str(),
        ) {
            assert(all[i as int] =~= g@);
            return true;
        }
        i = i + 1;
    }
    false
}

fn wrong_kind(named: &NamedType) -> (e: SqlError)
    ensures
        e@ == wrong_kind_error(named.schema_name@, named.name@),
{
    let full = privileges::user_type_privilege_name(
        named.schema_name.as_str(),
        named.name.as_str(),
    );
    SqlError::data_exception(
        "42809",
        text::concat(full.as_str(), " has the wrong object type"),
        Some(named.name.clone()),
    )
}

impl SqlSession {
    /// What ALTER TYPE or ALTER DOMAIN does, or why it is refused. `list` has the roles
    /// that are known, `grants` what has been granted.
    pub fn execute_raw_alter_user_type(
        &self,
        c: &RoleCatalog,
        list: &Vec<Role>,
        grants: &Vec<PrivilegeGrant>,
        named: &NamedType,
        domain: bool,
        alter: AlterUserType,
    ) -> (r: Result<TypeChange, SqlError>)
        ensures
            match (
                r,
                alteration(
                    *c,
                    roles::current_user(self@.guc.gucs),
                    list@,
                    privileges::grant_views(grants@),
                    *named,
                    domain,
                    alter,
                ),
            ) {
                (Ok(change), Ok(view)) => change@ == view,
                (Err(e), Err(view)) => e@ == view,
                _ => false,
            },
    {
        let t = match &named.loaded {
            None => {
                return Err(undefined_type(named.schema_name.as_str(), named.name.as_str()));
            },
            Some(t) => t,
        };
        if domain != named.is_domain {
            return Err(wrong_kind(named));
        }
        match self.ensure_user_type_owner(c, t) {
            Err(e) => {
                return Err(e);
            },
            Ok(()) => {},
        }
        match alter {
            AlterUserType::Owner(owner) => {
                match roles::ensure_known_role(list, owner.as_str()) {
                    Err(e) => {
                        return Err(e);
                    },
                    Ok(()) => {},
                }
                let user = roles::current_user_from_gucs(self.session_gucs());
                let settable = roles::settable_role_closure(
                    &c.memberships,
                    &c.roles,
                    user.as_str(),
                );
                if !roles::role_is_superuser(&c.roles, user.as_str()) && !sets::holds_text(
                    &settable,
                    owner.as_str(),
                ) {
                    return Err(
                        SqlError::authorization(
                            text::concat3(
                                "permission denied to change type owner to \"",
                                owner.as_str(),
                                "\"",
                            ),
                        ),
                    );
                }
                let old_grant = usage_grant_of(t, t.owner.as_str());
                let moved = if t.acl_explicit && has_grant(grants, &old_grant) {
                    let new_grant = usage_grant_of(t, owner.as_str());
                    Some((old_grant, new_grant))
                } else {
                    None
                };
                Ok(TypeChange::Owner { owner, moved })
            },
            AlterUserType::SetSchema { schema_name, schema_known, taken } => {
                if !schema_known {
                    return Err(SqlError::invalid_collection(schema_name));
                }
                if text::eq_ignore_case(schema_name.as_str(), t.schema_name.as_str()) {
                    return Ok(TypeChange::Nothing);
                }
                if taken {
                    return Err(
                        SqlError::data_exception(
                            "42710",
                            text::concat3("type \"", t.name.as_str(), "\" already exists"),
                            Some(t.name.clone()),
                        ),
                    );
                }
                Ok(TypeChange::Relocate(schema_name))
            },
        }
    }

    /// Whether COMMENT changes a type. One that is not there is passed over where the
    /// statement says so.
    pub fn comment_on_type(
        &self,
        c: &RoleCatalog,
        named: &NamedType,
        domain: bool,
        if_exists: bool,
    ) -> (r: Result<bool, SqlError>)
        ensures
            match named.loaded {
                None => if if_exists {
                    r == Ok::<bool, SqlError>(false)
                } else {
                    r is Err && r->Err_0@ == undefined_type_error(named.schema_name@, named.name@)
                },
                Some(t) => if domain != named.is_domain {
                    r is Err && r->Err_0@ == wrong_kind_error(named.schema_name@, named.name@)
                } else if !may_change_type(*c, roles::current_user(self@.guc.gucs), t) {
                    r is Err && r->Err_0@ == type_owner_error(t)
                } else {
                    r == Ok::<bool, SqlError>(true)
                },
            },
    {
        match &named.loaded {
            None => {
                if if_exists {
                    return Ok(false);
                }
                Err(undefined_type(named.schema_name.as_str(), named.name.as_str()))
            },
            Some(t) => {
                if domain != named.is_domain {
                    return Err(wrong_kind(named));
                }
                match self.ensure_user_type_owner(c, t) {
                    Ok(()) => Ok(true),
                    Err(e) => Err(e),
                }
            },
        }
    }
}

/// Which statements of a text that has only COMMENTs are about types, from their normal
/// forms; none where the text has none or something else.
pub open spec fn type_comments(normalized: Seq<Seq<char>>) -> Option<Seq<bool>> {
    if normalized.len() == 0 || exists|i: int|
        0 <= i < normalized.len() && !text::starts_with(#[trigger] normalized[i], "comment on "@) {
        None
    } else {
        Some(
            normalized.map_values(
                |s: Seq<char>|
                    text::starts_with(s, "comment on type "@) || text::starts_with(
                        s,
                        "comment on domain "@,
                    ),
            ),
        )
    }
}

/// Which statements of a text that has only COMMENTs are about types. COMMENT on other
/// objects is passed over.
pub fn execute_raw_comment(normalized: &Vec<String>) -> (r: Option<Vec<bool>>)
    ensures
        match (r, type_comments(text::views(normalized@))) {
            (Some(list), Some(view)) => list@ == view,
            (None, None) => true,
            _ => false,
        },
{
    let ghost all = text::views(normalized@);
    assert(all.len() == normalized@.len());
    if normalized.len() == 0 {
        return None;
    }
    let mut out: Vec<bool> = Vec::new();
    let mut i: usize = 0;
    while i < normalized.len()
        invariant
            i <= normalized.len(),
            all == text::views(normalized@),
            all.len() == normalized@.len(),
            out@.len() == i,
            forall|k: int|
                0 <= k < i ==> text::starts_with(#[trigger] all[k], "comment on "@) && out@[k] == (
                text::starts_with(all[k], "comment on type "@) || text::starts_with(
                    all[k],
                    "comment on domain "@,
                )),
        decreases normalized.len() - i,
    {
        assert(all[i as int] == normalized@[i as int]@);
        let s = normalized[i].as_str();
        if !text::has_prefix(s, "comment on ") {
            return None;
        }
        out.push(
            text::has_prefix(s, "comment on type ") || text::has_prefix(s, "comment on domain "),
        );
        i = i + 1;
    }
    proof {
        let view = all.map_values(
            |s: Seq<char>|
                text::starts_with(s, "comment on type "@) || text::starts_with(
                    s,
                    "comment on domain "@,
                ),
        );
        assert forall|k: int| 0 <= k < view.len() implies out@[k] == view[k] by {
            assert(text::starts_with(all[k], "comment on "@));
        }
        assert(out@ =~= view);
    }
    Some(out)
}

proof fn lemma_changes(
    list: Seq<Role>,
    grantees: Seq<Seq<char>>,
    types: Seq<NamedType>,
    grant: bool,
    k: int,
)
    requires
        0 <= k < changes(list, grantees, types, grant).0.len(),
    ensures
        grant ==> changes(list, grantees, types, grant).0[k] is Grant,
        !grant ==> changes(list, grantees, types, grant).0[k] is Revoke,
    decreases grantees.len(),
{
    if grantees.len() > 0 {
        let before = changes(list, grantees.drop_last(), types, grant);
        let now = changes(list, grantees, types, grant);
        if k < before.0.len() {
            lemma_changes(list, grantees.drop_last(), types, grant, k);
            assert(now.0[k] == before.0[k]);
        } else {
            lemma_changes_for(grantees.last(), types, grant, k - before.0.len());
        }
    }
}

proof fn lemma_changes_for(grantee: Seq<char>, types: Seq<NamedType>, grant: bool, k: int)
    requires
        0 <= k < changes_for(grantee, types, grant).len(),
    ensures
        grant ==> changes_for(grantee, types, grant)[k] is Grant,
        !grant ==> changes_for(grantee, types, grant)[k] is Revoke,
    decreases types.len(),
{
    if types.len() > 0 {
        if k < changes_for(grantee, types.drop_last(), grant).len() {
            lemma_changes_for(grantee, types.drop_last(), grant, k);
        }
    }
}

/// A statement that fails in preparing changes nothing else, and GRANT revokes nothing.
pub proof fn law_type_privileges(
    c: RoleCatalog,
    user: Seq<char>,
    list: Seq<Role>,
    types: Seq<NamedType>,
    grantees: Seq<Seq<char>>,
    k: int,
)
    requires
        0 <= k < type_privilege_steps(c, user, list, types, grantees, true).0.len(),
    ensures
        !(type_privilege_steps(c, user, list, types, grantees, true).0[k] is Revoke),
        prepared(c, user, types).1 is Some ==> type_privilege_steps(
            c,
            user,
            list,
            types,
            grantees,
            true,
        ) == prepared(c, user, types),
{
    let first = prepared(c, user, types);
    if k < first.0.len() {
        lemma_prepared(c, user, types, k);
    } else {
        lemma_changes(list, grantees, types, true, k - first.0.len());
    }
}

proof fn lemma_prepared(c: RoleCatalog, user: Seq<char>, types: Seq<NamedType>, k: int)
    requires
        0 <= k < prepared(c, user, types).0.len(),
    ensures
        !(prepared(c, user, types).0[k] is Revoke),
    decreases types.len(),
{
    if types.len() > 0 {
        let before = prepared(c, user, types.drop_last());
        if k < before.0.len() {
            lemma_prepared(c, user, types.drop_last(), k);
            assert(prepared(c, user, types).0[k] == before.0[k]);
        }
    }
}

} // verus!
