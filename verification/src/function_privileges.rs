//! GRANT and REVOKE of EXECUTE on functions.
use vstd::prelude::*;
use crate::error;
use crate::error::SqlError;
use crate::privileges;
use crate::privileges::{GrantView, PrivilegeGrant, PrivilegeObjectType};
use crate::roles;
use crate::roles::{Expansion, Role, RoleCatalog};
use crate::sets;
use crate::settings::Settings;
use crate::text;

verus! {

/// A routine, and the role that owns it.
#[derive(Debug)]
pub struct OwnedRoutine {
    pub name: String,
    pub owner: String,
}

/// The statement: the routines, to whom, and whether the grant may be passed on.
#[derive(Debug)]
pub struct FunctionPrivilegeDdl {
    pub routines: Vec<OwnedRoutine>,
    pub grantees: Vec<String>,
    pub with_grant_option: bool,
}

/// The role that a grantee is.
pub open spec fn grantee_role(gucs: Map<Seq<char>, Seq<char>>, grantee: Seq<char>) -> Seq<char> {
    if grantee == "CURRENT_USER"@ || grantee == "CURRENT_ROLE"@ {
        roles::current_user(gucs)
    } else if grantee == "SESSION_USER"@ {
        roles::session_user(gucs)
    } else {
        grantee
    }
}

pub open spec fn grantee_roles(
    gucs: Map<Seq<char>, Seq<char>>,
    grantees: Seq<Seq<char>>,
) -> Seq<Seq<char>> {
    grantees.map_values(|g: Seq<char>| grantee_role(gucs, g))
}

fn resolve_grantees(gucs: &Settings, grantees: &Vec<String>) -> (r: Vec<String>)
    ensures
        text::views(r@) == grantee_roles(gucs@, text::views(grantees@)),
{
    let mut out: Vec<String> = Vec::new();
    let mut i: usize = 0;
    while i < grantees.len()
        invariant
            i <= grantees.len(),
            out@.len() == i,
            forall|k: int|
                0 <= k < i ==> (#[trigger] out@[k])@ == grantee_role(gucs@, grantees@[k]@),
        decreases grantees.len() - i,
    {
        let name = grantees[i].as_str();
        let role = if text::text_eq(name, "CURRENT_USER") || text::text_eq(name, "CURRENT_ROLE") {
            roles::current_user_from_gucs(gucs)
        } else if text::text_eq(name, "SESSION_USER") {
            roles::session_user_from_gucs(gucs)
        } else {
            grantees[i].clone()
        };
        out.push(role);
        i = i + 1;
    }
    assert(text::views(out@) =~= grantee_roles(gucs@, text::views(grantees@)));
    out
}

/// Whether a role of exactly that name is known.
pub open spec fn known(list: Seq<Role>, name: Seq<char>) -> bool {
    exists|i: int| 0 <= i < list.len() && (#[trigger] list[i]).name@ == name
}

/// Whether a role of exactly that name is a superuser.
pub open spec fn known_superuser(list: Seq<Role>, name: Seq<char>) -> bool {
    name == roles::bootstrap_role() || exists|i: int|
        0 <= i < list.len() && (#[trigger] list[i]).name@ == name && list[i].superuser
}

/// Whether the role is known to be there.
pub fn role_is_known(list: &Vec<Role>, name: &str) -> (r: bool)
    ensures
        r == known(list@, name@),
{
    let mut i: usize = 0;
    while i < list.len()
        invariant
            i <= list.len(),
            forall|k: int| 0 <= k < i ==> (#[trigger] list@[k]).name@ != name@,
        decreases list.len() - i,
    {
        if text::text_eq(list[i].name.as_str(), name) {
            return true;
        }
        i = i + 1;
    }
    false
}

fn is_known_superuser(list: &Vec<Role>, name: &str) -> (r: bool)
    ensures
        r == known_superuser(list@, name@),
{
    let bootstrap = roles::current_role_name();
    if text::text_eq(name, bootstrap.as_str()) {
        return true;
    }
    let mut i: usize = 0;
    while i < list.len()
        invariant
            i <= list.len(),
            forall|k: int|
                0 <= k < i ==> !((#[trigger] list@[k]).name@ == name@ && list@[k].superuser),
        decreases list.len() - i,
    {
        if text::text_eq(list[i].name.as_str(), name) && list[i].superuser {
            return true;
        }
        i = i + 1;
    }
    false
}

/// Whether a role may be given the right to pass a grant on: it is a superuser, or has
/// the privileges of the owner anyway.
pub open spec fn may_pass_on(
    c: RoleCatalog,
    list: Seq<Role>,
    grantee: Seq<char>,
    owner: Seq<char>,
) -> bool {
    known_superuser(list, grantee) || (grantee != "public"@ && roles::reaches(
        roles::membership_views(c.memberships@),
        roles::role_views(c.roles@),
        Expansion::Inherit,
        grantee,
        roles::normal_role(owner),
    ))
}

/// Whether every grantee may be given the right to pass on the grant of every routine.
pub open spec fn all_may_pass_on(
    c: RoleCatalog,
    list: Seq<Role>,
    grantees: Seq<Seq<char>>,
    routines: Seq<OwnedRoutine>,
) -> bool {
    forall|i: int, j: int|
        0 <= i < grantees.len() && 0 <= j < routines.len() ==> may_pass_on(
            c,
            list,
            #[trigger] grantees[i],
            (#[trigger] routines[j]).owner@,
        )
}

fn every_may_pass_on(
    c: &RoleCatalog,
    list: &Vec<Role>,
    grantees: &Vec<String>,
    routines: &Vec<OwnedRoutine>,
) -> (r: bool)
    ensures
        r == all_may_pass_on(*c, list@, text::views(grantees@), routines@),
{
    let ghost all = text::views(grantees@);
    let mut i: usize = 0;
    while i < grantees.len()
        invariant
            i <= grantees.len(),
            all == text::views(grantees@),
            forall|a: int, b: int|
                0 <= a < i && 0 <= b < routines@.len() ==> may_pass_on(
                    *c,
                    list@,
                    #[trigger] all[a],
                    (#[trigger] routines@[b]).owner@,
                ),
        decreases grantees.len() - i,
    {
        assert(all[i as int] == grantees@[i as int]@);
        let grantee = grantees[i].as_str();
        let superuser = is_known_superuser(list, grantee);
        let held = roles::role_privilege_closure(&c.memberships, &c.roles, grantee);
        let public = text::text_eq(grantee, "public");
        let mut j: usize = 0;
        while j < routines.len()
            invariant
                j <= routines.len(),
                i < grantees.len(),
                all == text::views(grantees@),
                all[i as int] == grantee@,
                superuser == known_superuser(list@, grantee@),
                public == (grantee@ == "public"@),
                forall|role: Seq<char>| #[trigger]
                    text::views(held@).contains(role) <==> roles::reaches(
                        roles::membership_views(c.memberships@),
                        roles::role_views(c.roles@),
                        Expansion::Inherit,
                        grantee@,
                        role,
                    ),
                forall|b: int|
                    0 <= b < j ==> may_pass_on(
                        *c,
                        list@,
                        grantee@,
                        (#[trigger] routines@[b]).owner@,
                    ),
            decreases routines.len() - j,
        {
            let owner = roles::normalize_role_name(routines[j].owner.as_str());
            if !superuser && (public || !sets::holds_text(&held, owner.as_str())) {
                assert(!may_pass_on(*c, list@, all[i as int], routines@[j as int].owner@));
                return false;
            }
            j = j + 1;
        }
        i = i + 1;
    }
    true
}

/// The first grantee that is neither everybody nor a known role.
pub open spec fn first_unknown(list: Seq<Role>, grantees: Seq<Seq<char>>, from: int) -> Option<
    Seq<char>,
>
    decreases grantees.len() - from,
{
    if from < 0 || from >= grantees.len() {
        None
    } else if grantees[from] != "public"@ && !known(list, grantees[from]) {
        Some(grantees[from])
    } else {
        first_unknown(list, grantees, from + 1)
    }
}

pub open spec fn execute_grant(grantee: Seq<char>, routine: Seq<char>) -> GrantView {
    GrantView {
        column: None,
        object_type: PrivilegeObjectType::Function,
        object_name: routine,
        grantee,
        privilege: "EXECUTE"@,
    }
}

pub open spec fn grants_to(grantee: Seq<char>, routines: Seq<OwnedRoutine>) -> Seq<GrantView> {
    routines.map_values(|r: OwnedRoutine| execute_grant(grantee, r.name@))
}

pub open spec fn all_grants(grantees: Seq<Seq<char>>, routines: Seq<OwnedRoutine>) -> Seq<GrantView>
    decreases grantees.len(),
{
    if grantees.len() == 0 {
        Seq::empty()
    } else {
        all_grants(grantees.drop_last(), routines) + grants_to(grantees.last(), routines)
    }
}

pub open spec fn delegation_error() -> error::ErrorView {
    error::unsupported_error(
        "function grant options for non-owner roles require dependent-grant tracking"@,
    )
}

/// The grants that the statement is about: of every routine to every grantee.
pub open spec fn function_grants(
    c: RoleCatalog,
    list: Seq<Role>,
    gucs: Map<Seq<char>, Seq<char>>,
    ddl: FunctionPrivilegeDdl,
) -> Result<Seq<GrantView>, error::ErrorView> {
    let grantees = grantee_roles(gucs, text::views(ddl.grantees@));
    if ddl.with_grant_option && !all_may_pass_on(c, list, grantees, ddl.routines@) {
        Err(delegation_error())
    } else {
        match first_unknown(list, grantees, 0) {
            Some(name) => Err(error::undefined_role_error(name)),
            None => Ok(all_grants(grantees, ddl.routines@)),
        }
    }
}

/// The grants that GRANT or REVOKE of EXECUTE is about. `list` has the roles that are
/// known.
pub fn execute_raw_function_privileges(
    c: &RoleCatalog,
    list: &Vec<Role>,
    gucs: &Settings,
    ddl: &FunctionPrivilegeDdl,
) -> (r: Result<Vec<PrivilegeGrant>, SqlError>)
    ensures
        match (r, function_grants(*c, list@, gucs@, *ddl)) {
            (Ok(grants), Ok(view)) => privileges::grant_views(grants@) == view,
            (Err(e), Err(view)) => e@ == view,
            _ => false,
        },
{
    let grantees = resolve_grantees(gucs, &ddl.grantees);
    let ghost all = text::views(grantees@);
    if ddl.with_grant_option && !every_may_pass_on(c, list, &grantees, &ddl.routines) {
        return Err(
            SqlError::unsupported(
                "function grant options for non-owner roles require dependent-grant tracking".to_owned(),
            ),
        );
    }
    let mut i: usize = 0;
    while i < grantees.len()
        invariant
            i <= grantees.len(),
            all == text::views(grantees@),
            all == grantee_roles(gucs@, text::views(ddl.grantees@)),
            !(ddl.with_grant_option && !all_may_pass_on(*c, list@, all, ddl.routines@)),
            first_unknown(list@, all, 0) == first_unknown(list@, all, i as int),
        decreases grantees.len() - i,
    {
        assert(all[i as int] == grantees@[i as int]@);
        if !text::text_eq(grantees[i].as_str(), "public") && !role_is_known(
            list,
            grantees[i].as_str(),
        ) {
            return Err(SqlError::undefined_role(grantees[i].clone()));
        }
        i = i + 1;
    }
    let mut out: Vec<PrivilegeGrant> = Vec::new();
    assert(privileges::grant_views(out@) =~= Seq::empty());
    let mut j: usize = 0;
    while j < grantees.len()
        invariant
            j <= grantees.len(),
            all == text::views(grantees@),
            privileges::grant_views(out@) == all_grants(all.take(j as int), ddl.routines@),
        decreases grantees.len() - j,
    {
        assert(all.take(j + 1).drop_last() =~= all.take(j as int));
        assert(all.take(j + 1).last() == grantees@[j as int]@);
        let ghost before = privileges::grant_views(out@);
        let ghost own = grants_to(all[j as int], ddl.routines@);
        let mut k: usize = 0;
        assert(before + own.take(0) =~= before);
        while k < ddl.routines.len()
            invariant
                k <= ddl.routines.len(),
                j < grantees.len(),
                all == text::views(grantees@),
                own == grants_to(all[j as int], ddl.routines@),
                privileges::grant_views(out@) == before + own.take(k as int),
            decreases ddl.routines.len() - k,
        {
            let ghost prior = out@;
            assert(all[j as int] == grantees@[j as int]@);
            let grant = PrivilegeGrant {
                column: None,
                object_type: PrivilegeObjectType::Function,
                object_name: ddl.routines[k].name.clone(),
                grantee: grantees[j].clone(),
                privilege: "EXECUTE".to_owned(),
            };
            let ghost view = grant@;
            assert(view =~= execute_grant(all[j as int], ddl.routines@[k as int].name@));
            assert(own[k as int] == view);
            out.push(grant);
            assert(privileges::grant_views(out@) =~= privileges::grant_views(prior).push(view));
            assert(before + own.take(k + 1) =~= (before + own.take(k as int)).push(view));
            k = k + 1;
        }
        assert(own.take(own.len() as int) =~= own);
        j = j + 1;
    }
    assert(all.take(all.len() as int) =~= all);
    Ok(out)
}

/// Where the statement is carried out, every grantee is everybody or a known role, and
/// there is one grant for each grantee and each routine.
pub proof fn law_function_grants(
    c: RoleCatalog,
    list: Seq<Role>,
    gucs: Map<Seq<char>, Seq<char>>,
    ddl: FunctionPrivilegeDdl,
    i: int,
)
    requires
        function_grants(c, list, gucs, ddl) is Ok,
        0 <= i < ddl.grantees@.len(),
    ensures
        ({
            let grantee = grantee_roles(gucs, text::views(ddl.grantees@))[i];
            grantee == "public"@ || known(list, grantee)
        }),
        function_grants(c, list, gucs, ddl)->Ok_0.len() == ddl.grantees@.len()
            * ddl.routines@.len(),
{
    let grantees = grantee_roles(gucs, text::views(ddl.grantees@));
    lemma_no_unknown(list, grantees, 0, i);
    lemma_grant_count(grantees, ddl.routines@);
}

proof fn lemma_no_unknown(list: Seq<Role>, grantees: Seq<Seq<char>>, from: int, i: int)
    requires
        0 <= from <= i < grantees.len(),
        first_unknown(list, grantees, from) is None,
    ensures
        grantees[i] == "public"@ || known(list, grantees[i]),
    decreases grantees.len() - from,
{
    if from < i {
        lemma_no_unknown(list, grantees, from + 1, i);
    }
}

proof fn lemma_grant_count(grantees: Seq<Seq<char>>, routines: Seq<OwnedRoutine>)
    ensures
        all_grants(grantees, routines).len() == grantees.len() * routines.len(),
    decreases grantees.len(),
{
    if grantees.len() > 0 {
        lemma_grant_count(grantees.drop_last(), routines);
        let n = grantees.len();
        let m = routines.len();
        assert((n - 1) * m + m == n * m) by (nonlinear_arith);
    } else {
        assert(0 * routines.len() == 0) by (nonlinear_arith);
    }
}

} // verus!
