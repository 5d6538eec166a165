//! Roles: their names, who a session acts as, and which roles a user reaches
//! through memberships.
use vstd::prelude::*;
use crate::error;
use crate::error::{SqlError, SqlErrorKind};
use crate::order;
use crate::reach;
use crate::sets;
use crate::settings;
use crate::settings::Settings;
use crate::text;

verus! {

/// A role name without the quotes round it, in lower case.
pub open spec fn normal_role(name: Seq<char>) -> Seq<char> {
    text::lower(text::strip(name, '"'))
}

/// A role name without the quotes round it, in lower case.
pub fn normalize_role_name(name: &str) -> (r: String)
    ensures
        r@ == normal_role(name@),
{
    let bare = text::stripped(name, '"');
    text::to_lower(bare.as_str())
}

/// Normalizing a role name once is enough.
pub proof fn law_normal_role(name: Seq<char>)
    ensures
        normal_role(normal_role(name)) == normal_role(name),
{
    let bare = text::strip(name, '"');
    text::law_strip_twice(name, '"');
    text::law_strip_lower(bare, '"');
    text::law_lower_twice(bare);
}

/// The role that a new database starts with.
pub open spec fn bootstrap_role() -> Seq<char> {
    "bicdb"@
}

pub fn current_role_name() -> (r: String)
    ensures
        r@ == bootstrap_role(),
{
    "bicdb".to_owned()
}

fn is_bootstrap(name: &str) -> (r: bool)
    ensures
        r == (name@ == bootstrap_role()),
{
    text::text_eq(name, "bicdb")
}

/// The user that a setting names, unless it is empty.
pub open spec fn named_user(value: Option<Seq<char>>) -> Option<Seq<char>> {
    match value {
        Some(v) => if normal_role(v).len() == 0 {
            None
        } else {
            Some(normal_role(v))
        },
        None => None,
    }
}

fn user_in(value: Option<&str>) -> (r: Option<String>)
    ensures
        error::view_option(r) == named_user(text::view_str(value)),
{
    match value {
        Some(v) => {
            let name = normalize_role_name(v);
            let chars = text::chars_of(name.as_str());
            if chars.len() == 0 {
                None
            } else {
                Some(name)
            }
        },
        None => None,
    }
}

/// The user that a session was authorized as.
pub open spec fn session_user(gucs: Map<Seq<char>, Seq<char>>) -> Seq<char> {
    match named_user(settings::setting(gucs, "session_authorization"@)) {
        Some(user) => user,
        None => bootstrap_role(),
    }
}

/// The role that a session acts as. The role `none` is the session's own user.
pub open spec fn current_user(gucs: Map<Seq<char>, Seq<char>>) -> Seq<char> {
    match named_user(settings::setting(gucs, "role"@)) {
        Some(role) => if role == "none"@ {
            session_user(gucs)
        } else {
            role
        },
        None => session_user(gucs),
    }
}

/// The user that a session connected as.
pub open spec fn initial_session_user(gucs: Map<Seq<char>, Seq<char>>) -> Seq<char> {
    match named_user(settings::setting(gucs, "bicdb.initial_session_authorization"@)) {
        Some(user) => user,
        None => session_user(gucs),
    }
}

/// The role that row security is decided for.
pub open spec fn rls_check_user(gucs: Map<Seq<char>, Seq<char>>) -> Seq<char> {
    match named_user(settings::setting(gucs, "bicdb.rls_check_as"@)) {
        Some(user) => user,
        None => current_user(gucs),
    }
}

/// The user that a session was authorized as.
pub fn session_user_from_gucs(gucs: &Settings) -> (r: String)
    ensures
        r@ == session_user(gucs@),
{
    match user_in(gucs.get("session_authorization")) {
        Some(user) => user,
        None => current_role_name(),
    }
}

/// The role that a session acts as.
pub fn current_user_from_gucs(gucs: &Settings) -> (r: String)
    ensures
        r@ == current_user(gucs@),
{
    match user_in(gucs.get("role")) {
        Some(role) => if text::text_eq(role.as_str(), "none") {
            session_user_from_gucs(gucs)
        } else {
            role
        },
        None => session_user_from_gucs(gucs),
    }
}

/// The user that a session connected as.
pub fn initial_session_user_from_gucs(gucs: &Settings) -> (r: String)
    ensures
        r@ == initial_session_user(gucs@),
{
    match user_in(gucs.get("bicdb.initial_session_authorization")) {
        Some(user) => user,
        None => session_user_from_gucs(gucs),
    }
}

/// The role that row security is decided for.
pub fn rls_check_user_from_gucs(gucs: &Settings) -> (r: String)
    ensures
        r@ == rls_check_user(gucs@),
{
    match user_in(gucs.get("bicdb.rls_check_as")) {
        Some(user) => user,
        None => current_user_from_gucs(gucs),
    }
}

/// A role and its attributes.
#[derive(Debug)]
pub struct Role {
    pub name: String,
    pub superuser: bool,
    pub inherit: bool,
    pub create_role: bool,
    pub create_db: bool,
    pub can_login: bool,
    pub replication: bool,
    pub bypass_rls: bool,
    pub connection_limit: i64,
    pub password_set: bool,
    pub valid_until: Option<String>,
}

#[verifier::ext_equal]
pub struct RoleView {
    pub name: Seq<char>,
    pub superuser: bool,
    pub inherit: bool,
    pub create_role: bool,
    pub create_db: bool,
    pub can_login: bool,
    pub replication: bool,
    pub bypass_rls: bool,
    pub connection_limit: i64,
    pub password_set: bool,
    pub valid_until: Option<Seq<char>>,
}

impl View for Role {
    type V = RoleView;

    open spec fn view(&self) -> RoleView {
        RoleView {
            name: self.name@,
            superuser: self.superuser,
            inherit: self.inherit,
            create_role: self.create_role,
            create_db: self.create_db,
            can_login: self.can_login,
            replication: self.replication,
            bypass_rls: self.bypass_rls,
            connection_limit: self.connection_limit,
            password_set: self.password_set,
            valid_until: error::view_option(self.valid_until),
        }
    }
}

pub open spec fn role_views(v: Seq<Role>) -> Seq<RoleView> {
    v.map_values(|r: Role| r@)
}

/// A role that inherits and may do nothing else.
pub open spec fn default_role(name: Seq<char>) -> RoleView {
    RoleView {
        name: normal_role(name),
        superuser: false,
        inherit: true,
        create_role: false,
        create_db: false,
        can_login: false,
        replication: false,
        bypass_rls: false,
        connection_limit: -1i64,
        password_set: false,
        valid_until: None,
    }
}

/// The role that a new database starts with.
pub open spec fn bootstrap_schema() -> RoleView {
    RoleView { name: bootstrap_role(), can_login: true, ..default_role(bootstrap_role()) }
}

/// A role that inherits and may do nothing else.
pub fn default_role_schema(name: &str) -> (r: Role)
    ensures
        r@ == default_role(name@),
{
    let r = Role {
        name: normalize_role_name(name),
        superuser: false,
        inherit: true,
        create_role: false,
        create_db: false,
        can_login: false,
        replication: false,
        bypass_rls: false,
        connection_limit: -1,
        password_set: false,
        valid_until: None,
    };
    assert(r@ =~= default_role(name@));
    r
}

/// The role that a new database starts with.
pub fn current_role_schema() -> (r: Role)
    ensures
        r@ == bootstrap_schema(),
{
    let mut r = default_role_schema("bicdb");
    r.name = current_role_name();
    r.can_login = true;
    assert(r@ =~= bootstrap_schema());
    r
}

impl Role {
    /// The same role.
    pub fn copied(&self) -> (r: Role)
        ensures
            r@ == self@,
    {
        let valid_until = match &self.valid_until {
            Some(t) => Some(t.clone()),
            None => None,
        };
        let r = Role {
            name: self.name.clone(),
            superuser: self.superuser,
            inherit: self.inherit,
            create_role: self.create_role,
            create_db: self.create_db,
            can_login: self.can_login,
            replication: self.replication,
            bypass_rls: self.bypass_rls,
            connection_limit: self.connection_limit,
            password_set: self.password_set,
            valid_until,
        };
        assert(r@ =~= self@);
        r
    }
}

/// One of the roles has that name, whatever the case of its letters.
pub open spec fn is_role(roles: Seq<RoleView>, name: Seq<char>) -> bool {
    exists|i: int|
        0 <= i < roles.len() && text::same_ignoring_case((#[trigger] roles[i]).name, name)
}

fn has_role(roles: &Vec<Role>, name: &str) -> (r: bool)
    ensures
        r == is_role(role_views(roles@), name@),
{
    let ghost all = role_views(roles@);
    let mut i: usize = 0;
    while i < roles.len()
        invariant
            i <= roles.len(),
            all == role_views(roles@),
            forall|k: int|
                0 <= k < i ==> !text::same_ignoring_case((#[trigger] all[k]).name, name@),
        decreases roles.len() - i,
    {
        assert(all[i as int].name == roles@[i as int].name@);
        if text::eq_ignore_case(roles[i].name.as_str(), name) {
            return true;
        }
        i = i + 1;
    }
    false
}

/// Refuses a name that is no role's.
pub fn ensure_known_role(roles: &Vec<Role>, name: &str) -> (r: Result<(), SqlError>)
    ensures
        match r {
            Ok(()) => is_role(role_views(roles@), name@),
            Err(e) => !is_role(role_views(roles@), name@) && e@ == error::undefined_role_error(
                name@,
            ),
        },
{
    if has_role(roles, name) {
        Ok(())
    } else {
        Err(SqlError::undefined_role(name.to_owned()))
    }
}

/// The roles that are stored, behind the bootstrap role, without those whose
/// name came before.
pub open spec fn known_roles(stored: Seq<RoleView>) -> Seq<RoleView>
    decreases stored.len(),
{
    if stored.len() == 0 {
        seq![bootstrap_schema()]
    } else {
        let before = known_roles(stored.drop_last());
        if is_role(before, stored.last().name) {
            before
        } else {
            before.push(stored.last())
        }
    }
}

/// Roles in order with one more put in, behind those that do not come after it.
pub open spec fn role_put_in(list: Seq<RoleView>, r: RoleView) -> Seq<RoleView>
    decreases list.len(),
{
    if list.len() == 0 || !order::precedes(r.name, list.last().name) {
        list.push(r)
    } else {
        role_put_in(list.drop_last(), r).push(list.last())
    }
}

/// The roles in the order of their names.
pub open spec fn roles_sorted(list: Seq<RoleView>) -> Seq<RoleView>
    decreases list.len(),
{
    if list.len() == 0 {
        Seq::empty()
    } else {
        role_put_in(roles_sorted(list.drop_last()), list.last())
    }
}

proof fn lemma_role_put_in(list: Seq<RoleView>, r: RoleView, at: int)
    requires
        0 <= at <= list.len(),
        at == 0 || !order::precedes(r.name, list[at - 1].name),
        forall|k: int| at <= k < list.len() ==> order::precedes(r.name, (#[trigger] list[k]).name),
    ensures
        role_put_in(list, r) == list.insert(at, r),
    decreases list.len(),
{
    if at == list.len() {
        assert(list.insert(at, r) =~= list.push(r));
        if list.len() > 0 {
            assert(list.last() == list[at - 1]);
        }
    } else {
        let rest = list.drop_last();
        assert(list.last() == list[list.len() - 1]);
        assert forall|k: int| at <= k < rest.len() implies order::precedes(
            r.name,
            (#[trigger] rest[k]).name,
        ) by {
            assert(rest[k] == list[k]);
        }
        lemma_role_put_in(rest, r, at);
        assert(rest.insert(at, r).push(list.last()) =~= list.insert(at, r));
    }
}

fn put_role(list: &mut Vec<Role>, r: Role)
    ensures
        role_views(final(list)@) == role_put_in(role_views(old(list)@), r@),
{
    let ghost all = role_views(list@);
    let mut at: usize = list.len();
    while at > 0 && order::before(r.name.as_str(), list[at - 1].name.as_str())
        invariant
            at <= list.len(),
            all == role_views(list@),
            all == role_views(old(list)@),
            forall|k: int|
                at <= k < all.len() ==> order::precedes(r.name@, (#[trigger] all[k]).name),
        decreases at,
    {
        assert(all[at - 1].name == list@[at - 1].name@);
        at = at - 1;
    }
    proof {
        if at > 0 {
            assert(all[at - 1].name == list@[at - 1].name@);
        }
        lemma_role_put_in(all, r@, at as int);
    }
    let ghost shown = r@;
    list.insert(at, r);
    assert(role_views(list@) =~= all.insert(at as int, shown));
}

/// The roles of a database in the order of their names: the stored ones and the
/// bootstrap role.
pub fn list_roles(stored: &Vec<Role>) -> (r: Vec<Role>)
    ensures
        role_views(r@) == roles_sorted(known_roles(role_views(stored@))),
{
    let ghost all = role_views(stored@);
    let mut known: Vec<Role> = Vec::new();
    known.push(current_role_schema());
    let mut i: usize = 0;
    assert(all.take(0) =~= Seq::<RoleView>::empty());
    assert(role_views(known@) =~= known_roles(all.take(0)));
    while i < stored.len()
        invariant
            i <= stored.len(),
            all == role_views(stored@),
            role_views(known@) == known_roles(all.take(i as int)),
        decreases stored.len() - i,
    {
        assert(all.take(i as int + 1).drop_last() =~= all.take(i as int));
        assert(all.take(i as int + 1).last() == stored@[i as int]@);
        if !has_role(&known, stored[i].name.as_str()) {
            let copy = stored[i].copied();
            let ghost prior = known@;
            let ghost shown = copy@;
            known.push(copy);
            assert(role_views(known@) =~= role_views(prior).push(shown));
        }
        i = i + 1;
    }
    assert(all.take(all.len() as int) =~= all);
    let ghost unsorted = role_views(known@);
    let mut sorted: Vec<Role> = Vec::new();
    let mut j: usize = 0;
    assert(unsorted.take(0) =~= Seq::<RoleView>::empty());
    assert(role_views(sorted@) =~= roles_sorted(unsorted.take(0)));
    while j < known.len()
        invariant
            j <= known.len(),
            unsorted == role_views(known@),
            role_views(sorted@) == roles_sorted(unsorted.take(j as int)),
        decreases known.len() - j,
    {
        assert(unsorted.take(j as int + 1).drop_last() =~= unsorted.take(j as int));
        assert(unsorted.take(j as int + 1).last() == known@[j as int]@);
        put_role(&mut sorted, known[j].copied());
        j = j + 1;
    }
    assert(unsorted.take(unsorted.len() as int) =~= unsorted);
    sorted
}

/// The stored role with that name, searched from there on.
pub open spec fn stored_role(stored: Seq<RoleView>, name: Seq<char>, from: int) -> Option<RoleView>
    decreases stored.len() - from,
{
    if from < 0 || from >= stored.len() {
        None
    } else if stored[from].name == name {
        Some(stored[from])
    } else {
        stored_role(stored, name, from + 1)
    }
}

/// The role that a name denotes.
pub open spec fn role_named(stored: Seq<RoleView>, name: Seq<char>) -> Option<RoleView> {
    if normal_role(name) == bootstrap_role() {
        Some(bootstrap_schema())
    } else {
        stored_role(stored, normal_role(name), 0)
    }
}

/// The role that a name denotes.
pub fn load_role_schema(stored: &Vec<Role>, name: &str) -> (r: Option<Role>)
    ensures
        match (r, role_named(role_views(stored@), name@)) {
            (Some(role), Some(view)) => role@ == view,
            (None, None) => true,
            _ => false,
        },
{
    let ghost all = role_views(stored@);
    let wanted = normalize_role_name(name);
    if is_bootstrap(wanted.as_str()) {
        return Some(current_role_schema());
    }
    let mut i: usize = 0;
    while i < stored.len()
        invariant
            i <= stored.len(),
            all == role_views(stored@),
            wanted@ == normal_role(name@),
            wanted@ != bootstrap_role(),
            stored_role(all, wanted@, 0) == stored_role(all, wanted@, i as int),
        decreases stored.len() - i,
    {
        assert(all[i as int] == stored@[i as int]@);
        if text::text_eq(stored[i].name.as_str(), wanted.as_str()) {
            return Some(stored[i].copied());
        }
        i = i + 1;
    }
    None
}

/// Whether a name denotes a role.
pub fn role_exists(stored: &Vec<Role>, name: &str) -> (r: bool)
    ensures
        r == (role_named(role_views(stored@), name@) is Some),
{
    load_role_schema(stored, name).is_some()
}

/// Whether a role is created: it is, unless one with its name exists, which is
/// refused where that is not allowed for.
pub fn create_role_record(stored: &Vec<Role>, role: &Role, if_not_exists: bool) -> (r: Result<
    bool,
    SqlError,
>)
    ensures
        match r {
            Ok(create) => create == (role_named(role_views(stored@), role.name@) is None) && (create
                || if_not_exists),
            Err(e) => role_named(role_views(stored@), role.name@) is Some && !if_not_exists && e@
                == error::named_error(SqlErrorKind::DuplicateRole, role.name@),
        },
{
    if role_exists(stored, role.name.as_str()) {
        if if_not_exists {
            return Ok(false);
        }
        return Err(SqlError::named(SqlErrorKind::DuplicateRole, role.name.clone()));
    }
    Ok(true)
}

/// The role with that name is a superuser.
pub open spec fn is_superuser(stored: Seq<RoleView>, name: Seq<char>) -> bool {
    match role_named(stored, name) {
        Some(role) => role.superuser,
        None => false,
    }
}

pub fn role_is_superuser(stored: &Vec<Role>, name: &str) -> (r: bool)
    ensures
        r == is_superuser(role_views(stored@), name@),
{
    match load_role_schema(stored, name) {
        Some(role) => role.superuser,
        None => false,
    }
}

/// Whether the role that a session acts as is a superuser. The bootstrap role
/// is one.
pub fn session_role_is_superuser(stored: &Vec<Role>, gucs: &Settings) -> (r: bool)
    ensures
        r == (current_user(gucs@) == bootstrap_role() || is_superuser(
            role_views(stored@),
            current_user(gucs@),
        )),
{
    let role = current_user_from_gucs(gucs);
    is_bootstrap(role.as_str()) || role_is_superuser(stored, role.as_str())
}

/// A membership of one role in another. `inherit_option` overrides whether the
/// member inherits through it; `set_option` lets the member act as the role.
#[derive(Debug)]
pub struct RoleMembership {
    pub role: String,
    pub member: String,
    pub inherit_option: Option<bool>,
    pub set_option: bool,
    pub admin_option: bool,
}

#[verifier::ext_equal]
pub struct MembershipView {
    pub role: Seq<char>,
    pub member: Seq<char>,
    pub inherit_option: Option<bool>,
    pub set_option: bool,
    pub admin_option: bool,
}

impl View for RoleMembership {
    type V = MembershipView;

    open spec fn view(&self) -> MembershipView {
        MembershipView {
            role: self.role@,
            member: self.member@,
            inherit_option: self.inherit_option,
            set_option: self.set_option,
            admin_option: self.admin_option,
        }
    }
}

impl RoleMembership {
    /// The same membership.
    pub fn copied(&self) -> (m: RoleMembership)
        ensures
            m@ == self@,
    {
        let m = RoleMembership {
            role: self.role.clone(),
            member: self.member.clone(),
            inherit_option: self.inherit_option,
            set_option: self.set_option,
            admin_option: self.admin_option,
        };
        assert(m@ =~= self@);
        m
    }
}

pub open spec fn membership_views(v: Seq<RoleMembership>) -> Seq<MembershipView> {
    v.map_values(|m: RoleMembership| m@)
}

/// The key that a membership is stored under.
pub open spec fn membership_key(role: Seq<char>, member: Seq<char>) -> Seq<char> {
    normal_role(role) + ":"@ + normal_role(member)
}

/// The key that a membership is stored under.
pub fn role_membership_key(role: &str, member: &str) -> (r: String)
    ensures
        r@ == membership_key(role@, member@),
{
    let a = normalize_role_name(role);
    let b = normalize_role_name(member);
    text::concat3(a.as_str(), ":", b.as_str())
}

/// What leads from a member to a role: inheritance, the right to act as it, or
/// the membership alone.
#[derive(Clone, Copy, Debug, PartialEq, Eq, Structural)]
pub enum Expansion {
    Inherit,
    ActAs,
    Member,
}

/// The role inherits the privileges of those it is a member of, where the
/// membership does not say.
pub open spec fn inherits(stored: Seq<RoleView>, member: Seq<char>) -> bool {
    match role_named(stored, member) {
        Some(role) => role.inherit,
        None => true,
    }
}

/// The membership leads on from its member.
pub open spec fn leads_on(
    m: MembershipView,
    stored: Seq<RoleView>,
    member: Seq<char>,
    expansion: Expansion,
) -> bool {
    normal_role(m.member) == member && (match expansion {
        Expansion::Inherit => match m.inherit_option {
            Some(inherit) => inherit,
            None => inherits(stored, member),
        },
        Expansion::ActAs => m.set_option,
        Expansion::Member => true,
    })
}

/// Some membership leads from the member to the role.
pub open spec fn leads_to(
    memberships: Seq<MembershipView>,
    stored: Seq<RoleView>,
    expansion: Expansion,
    member: Seq<char>,
    role: Seq<char>,
) -> bool {
    exists|i: int|
        0 <= i < memberships.len() && leads_on(
            #[trigger] memberships[i],
            stored,
            member,
            expansion,
        ) && normal_role(memberships[i].role) == role
}

/// The user itself.
pub open spec fn starts_at(user: Seq<char>) -> spec_fn(Seq<char>) -> bool {
    |role: Seq<char>| role == user
}

/// The steps that memberships allow.
pub open spec fn membership_step(
    memberships: Seq<MembershipView>,
    stored: Seq<RoleView>,
    expansion: Expansion,
) -> spec_fn(Seq<char>, Seq<char>) -> bool {
    |member: Seq<char>, role: Seq<char>| leads_to(memberships, stored, expansion, member, role)
}

/// The user reaches the role through memberships.
pub open spec fn reaches(
    memberships: Seq<MembershipView>,
    stored: Seq<RoleView>,
    expansion: Expansion,
    user: Seq<char>,
    role: Seq<char>,
) -> bool {
    reach::reachable(
        starts_at(normal_role(user)),
        membership_step(memberships, stored, expansion),
        role,
    )
}

/// All that the search can come upon: the user and the roles of memberships.
spec fn universe(memberships: Seq<MembershipView>, user: Seq<char>) -> Seq<Seq<char>> {
    memberships.map_values(|m: MembershipView| normal_role(m.role)).push(user)
}

fn membership_leads_on(
    m: &RoleMembership,
    member: &str,
    inherit: bool,
    expansion: Expansion,
    stored: &Vec<Role>,
) -> (r: bool)
    requires
        inherit == inherits(role_views(stored@), member@),
    ensures
        r == leads_on(m@, role_views(stored@), member@, expansion),
{
    let name = normalize_role_name(m.member.as_str());
    if !text::text_eq(name.as_str(), member) {
        return false;
    }
    match expansion {
        Expansion::Inherit => match m.inherit_option {
            Some(own) => own,
            None => inherit,
        },
        Expansion::ActAs => m.set_option,
        Expansion::Member => true,
    }
}

/// Adds the roles that one member leads to.
fn expand(
    found: &mut Vec<String>,
    member: &str,
    memberships: &Vec<RoleMembership>,
    stored: &Vec<Role>,
    expansion: Expansion,
)
    ensures
        forall|x: Seq<char>| #[trigger]
            text::views(final(found)@).contains(x) <==> text::views(old(found)@).contains(x)
                || leads_to(
                membership_views(memberships@),
                role_views(stored@),
                expansion,
                member@,
                x,
            ),
        text::views(old(found)@).no_duplicates() ==> text::views(final(found)@).no_duplicates(),
        final(found)@.len() >= old(found)@.len(),
        forall|k: int| 0 <= k < old(found)@.len() ==> #[trigger] final(found)@[k] == old(found)@[k],
{
    let ghost ms = membership_views(memberships@);
    let ghost rs = role_views(stored@);
    let ghost before = text::views(found@);
    let ghost start = found@;
    let inherit = match load_role_schema(stored, member) {
        Some(role) => role.inherit,
        None => true,
    };
    let mut i: usize = 0;
    while i < memberships.len()
        invariant
            i <= memberships.len(),
            ms == membership_views(memberships@),
            rs == role_views(stored@),
            inherit == inherits(rs, member@),
            before == text::views(start),
            before.no_duplicates() ==> text::views(found@).no_duplicates(),
            found@.len() >= start.len(),
            forall|k: int| 0 <= k < start.len() ==> #[trigger] found@[k] == start[k],
            forall|x: Seq<char>| #[trigger]
                text::views(found@).contains(x) <==> before.contains(x) || exists|k: int|
                    0 <= k < i && leads_on(#[trigger] ms[k], rs, member@, expansion)
                        && normal_role(ms[k].role) == x,
        decreases memberships.len() - i,
    {
        let m = &memberships[i];
        assert(ms[i as int] == m@);
        let ghost prior = text::views(found@);
        let ghost list = found@;
        if membership_leads_on(m, member, inherit, expansion, stored) {
            let role = normalize_role_name(m.role.as_str());
            let ghost name = role@;
            sets::add_text(found, role);
            proof {
                if before.no_duplicates() {
                    sets::law_added(prior, name);
                }
                assert forall|x: Seq<char>| #[trigger]
                    text::views(found@).contains(x) <==> before.contains(x) || exists|k: int|
                        0 <= k < i + 1 && leads_on(#[trigger] ms[k], rs, member@, expansion)
                            && normal_role(ms[k].role) == x by {
                    sets::law_added_contains(prior, name, x);
                    if x == name {
                        assert(leads_on(ms[i as int], rs, member@, expansion));
                    }
                }
                assert forall|k: int| 0 <= k < start.len() implies #[trigger] found@[k]
                    == start[k] by {
                    assert(list[k] == start[k]);
                    assert(found@.take(list.len() as int)[k] == list[k]);
                }
            }
        } else {
            proof {
                assert forall|x: Seq<char>| #[trigger]
                    text::views(found@).contains(x) <==> before.contains(x) || exists|k: int|
                        0 <= k < i + 1 && leads_on(#[trigger] ms[k], rs, member@, expansion)
                            && normal_role(ms[k].role) == x by {
                    assert(prior.contains(x) <==> before.contains(x) || exists|k: int|
                        0 <= k < i && leads_on(#[trigger] ms[k], rs, member@, expansion)
                            && normal_role(ms[k].role) == x);
                }
            }
        }
        i = i + 1;
    }
}

/// The roles that a user reaches through memberships, the user first.
fn closure_of(
    memberships: &Vec<RoleMembership>,
    stored: &Vec<Role>,
    user: &str,
    expansion: Expansion,
) -> (r: Vec<String>)
    ensures
        text::views(r@).no_duplicates(),
        forall|role: Seq<char>| #[trigger]
            text::views(r@).contains(role) <==> reaches(
                membership_views(memberships@),
                role_views(stored@),
                expansion,
                user@,
                role,
            ),
{
    let ghost ms = membership_views(memberships@);
    let ghost rs = role_views(stored@);
    let first = normalize_role_name(user);
    let ghost start = first@;
    let ghost all = universe(ms, start);
    let mut found: Vec<String> = Vec::new();
    found.push(first);
    let mut i: usize = 0;
    proof {
        assert(text::views(found@) =~= seq![start]);
        assert(text::views(found@)[0] == start);
        assert(all[ms.len() as int] == start);
        assert forall|x: Seq<char>| #[trigger] text::views(found@).contains(x) implies x
            == start by {}
        reach::law_seed(starts_at(start), membership_step(ms, rs, expansion), start);
        sets::lemma_not_longer(text::views(found@), all);
    }
    while i < found.len()
        invariant
            i <= found.len(),
            ms == membership_views(memberships@),
            rs == role_views(stored@),
            all == universe(ms, start),
            text::views(found@).no_duplicates(),
            text::views(found@).contains(start),
            found@.len() <= all.len(),
            forall|x: Seq<char>| #[trigger]
                text::views(found@).contains(x) ==> all.contains(x) && reach::reachable(
                    starts_at(start),
                    membership_step(ms, rs, expansion),
                    x,
                ),
            forall|k: int, r: Seq<char>|
                0 <= k < i && #[trigger] leads_to(
                    ms,
                    rs,
                    expansion,
                    #[trigger] text::views(found@)[k],
                    r,
                ) ==> text::views(found@).contains(r),
        decreases all.len() - i,
    {
        let member = found[i].clone();
        let ghost before = text::views(found@);
        let ghost list = found@;
        assert(before[i as int] == member@);
        expand(&mut found, member.as_str(), memberships, stored, expansion);
        proof {
            let after = text::views(found@);
            assert(before.contains(member@));
            assert forall|x: Seq<char>| #[trigger] after.contains(x) implies all.contains(x)
                && reach::reachable(
                starts_at(start),
                membership_step(ms, rs, expansion),
                x,
            ) by {
                if !before.contains(x) {
                    assert(leads_to(ms, rs, expansion, member@, x));
                    let k = choose|k: int|
                        0 <= k < ms.len() && leads_on(#[trigger] ms[k], rs, member@, expansion)
                            && normal_role(ms[k].role) == x;
                    assert(all[k] == x);
                    reach::law_step(
                        starts_at(start),
                        membership_step(ms, rs, expansion),
                        member@,
                        x,
                    );
                }
            }
            sets::lemma_not_longer(after, all);
            assert forall|k: int, r: Seq<char>|
                0 <= k < i + 1 && #[trigger] leads_to(
                    ms,
                    rs,
                    expansion,
                    #[trigger] after[k],
                    r,
                ) implies after.contains(r) by {
                assert(found@[k] == list[k]);
                assert(after[k] == before[k]);
                if k < i {
                    assert(before.contains(r));
                }
            }
        }
        i = i + 1;
    }
    proof {
        let views = text::views(found@);
        assert forall|role: Seq<char>| #[trigger] views.contains(role) <==> reaches(
            ms,
            rs,
            expansion,
            user@,
            role,
        ) by {
            if reaches(ms, rs, expansion, user@, role) {
                let step = membership_step(ms, rs, expansion);
                assert forall|member: Seq<char>, r: Seq<char>|
                    views.contains(member) && #[trigger] step(member, r) implies views.contains(
                    r,
                ) by {
                    let k = choose|k: int| 0 <= k < views.len() && views[k] == member;
                    assert(leads_to(ms, rs, expansion, views[k], r));
                }
                reach::law_closed(starts_at(start), step, views, role);
            }
        }
    }
    found
}

/// The roles whose privileges a user holds, the user included. Each membership
/// says whether it is inherited through; where it does not, the member does.
pub fn role_privilege_closure(
    memberships: &Vec<RoleMembership>,
    stored: &Vec<Role>,
    user: &str,
) -> (r: Vec<String>)
    ensures
        text::views(r@).no_duplicates(),
        forall|role: Seq<char>| #[trigger]
            text::views(r@).contains(role) <==> reaches(
                membership_views(memberships@),
                role_views(stored@),
                Expansion::Inherit,
                user@,
                role,
            ),
{
    closure_of(memberships, stored, user, Expansion::Inherit)
}

/// The roles that a user may act as: every membership on the way allows it.
pub fn settable_role_closure(
    memberships: &Vec<RoleMembership>,
    stored: &Vec<Role>,
    user: &str,
) -> (r: Vec<String>)
    ensures
        text::views(r@).no_duplicates(),
        forall|role: Seq<char>| #[trigger]
            text::views(r@).contains(role) <==> reaches(
                membership_views(memberships@),
                role_views(stored@),
                Expansion::ActAs,
                user@,
                role,
            ),
{
    membership_closure(memberships, stored, user, true)
}

/// The roles that a user is a member of, or those of them that it may act as.
pub fn membership_closure(
    memberships: &Vec<RoleMembership>,
    stored: &Vec<Role>,
    user: &str,
    require_set: bool,
) -> (r: Vec<String>)
    ensures
        text::views(r@).no_duplicates(),
        forall|role: Seq<char>| #[trigger]
            text::views(r@).contains(role) <==> reaches(
                membership_views(memberships@),
                role_views(stored@),
                if require_set {
                    Expansion::ActAs
                } else {
                    Expansion::Member
                },
                user@,
                role,
            ),
{
    if require_set {
        closure_of(memberships, stored, user, Expansion::ActAs)
    } else {
        closure_of(memberships, stored, user, Expansion::Member)
    }
}

/// A user reaches itself, and whatever it inherits from or may act as it is a
/// member of.
pub proof fn law_reaches(
    memberships: Seq<MembershipView>,
    stored: Seq<RoleView>,
    expansion: Expansion,
    user: Seq<char>,
    role: Seq<char>,
)
    ensures
        reaches(memberships, stored, expansion, user, normal_role(user)),
        reaches(memberships, stored, expansion, user, role) ==> reaches(
            memberships,
            stored,
            Expansion::Member,
            user,
            role,
        ),
{
    let seeds = starts_at(normal_role(user));
    let step = membership_step(memberships, stored, expansion);
    let wider = membership_step(memberships, stored, Expansion::Member);
    reach::law_seed(seeds, step, normal_role(user));
    if reaches(memberships, stored, expansion, user, role) {
        assert forall|a: Seq<char>, b: Seq<char>| #[trigger] step(a, b) implies wider(a, b) by {
            let i = choose|i: int|
                0 <= i < memberships.len() && leads_on(
                    #[trigger] memberships[i],
                    stored,
                    a,
                    expansion,
                ) && normal_role(memberships[i].role) == b;
            assert(leads_on(memberships[i], stored, a, Expansion::Member));
        }
        reach::law_wider(seeds, step, wider, role);
    }
}

/// A hash of the bytes of a name.
pub open spec fn name_hash(bytes: Seq<u8>) -> int
    decreases bytes.len(),
{
    if bytes.len() == 0 {
        30_000
    } else {
        (name_hash(bytes.drop_last()) * 31 + bytes.last() as int) % 1_000_000
    }
}

/// The number of a role: a hash of its name, but for the bootstrap role.
pub open spec fn role_number(name: Seq<char>) -> int {
    if name == bootstrap_role() {
        10
    } else {
        name_hash(vstd::utf8::encode_utf8(name))
    }
}

/// The number of a role.
pub fn role_oid(name: &str) -> (r: i64)
    ensures
        r == role_number(name@),
{
    if is_bootstrap(name) {
        return 10;
    }
    let bytes = name.as_bytes();
    let mut hash: i64 = 30_000;
    let mut i: usize = 0;
    assert(bytes@.take(0) =~= Seq::<u8>::empty());
    while i < bytes.len()
        invariant
            i <= bytes.len(),
            0 <= hash < 1_000_000,
            hash == name_hash(bytes@.take(i as int)),
        decreases bytes.len() - i,
    {
        assert(bytes@.take(i as int + 1).drop_last() =~= bytes@.take(i as int));
        assert(bytes@.take(i as int + 1).last() == bytes@[i as int]);
        let byte: u8 = bytes[i];
        hash = (hash * 31 + byte as i64) % 1_000_000;
        i = i + 1;
    }
    assert(bytes@.take(bytes@.len() as int) =~= bytes@);
    hash
}

/// What functions on roles and privileges read of an argument: whether it is
/// null, the number that it is, and its text.
#[derive(Debug)]
pub struct Argument {
    pub null: bool,
    pub number: Option<i64>,
    pub text: Option<String>,
}

/// The first of the roles with that number, searched from there on.
pub open spec fn numbered_role(roles: Seq<RoleView>, oid: i64, from: int) -> Option<Seq<char>>
    decreases roles.len() - from,
{
    if from < 0 || from >= roles.len() {
        None
    } else if role_number(roles[from].name) == oid {
        Some(normal_role(roles[from].name))
    } else {
        numbered_role(roles, oid, from + 1)
    }
}

/// The name of the role that an argument denotes by its number or its name.
pub open spec fn argument_role(roles: Seq<RoleView>, value: Argument) -> Option<Seq<char>> {
    if value.null {
        None
    } else {
        match value.number {
            Some(oid) => numbered_role(roles, oid, 0),
            None => match value.text {
                Some(t) => Some(normal_role(t@)),
                None => None,
            },
        }
    }
}

/// The name of the role that an argument denotes by its number or its name.
/// `roles` are the roles of the database in order.
pub fn role_name_from_value(roles: &Vec<Role>, value: &Argument) -> (r: Option<String>)
    ensures
        error::view_option(r) == argument_role(role_views(roles@), *value),
{
    if value.null {
        return None;
    }
    match value.number {
        Some(oid) => {
            let ghost all = role_views(roles@);
            let mut i: usize = 0;
            while i < roles.len()
                invariant
                    i <= roles.len(),
                    all == role_views(roles@),
                    argument_role(all, *value) == numbered_role(all, oid, i as int),
                decreases roles.len() - i,
            {
                assert(all[i as int].name == roles@[i as int].name@);
                if role_oid(roles[i].name.as_str()) == oid {
                    return Some(normalize_role_name(roles[i].name.as_str()));
                }
                i = i + 1;
            }
            None
        },
        None => match &value.text {
            Some(t) => Some(normalize_role_name(t.as_str())),
            None => None,
        },
    }
}

/// The roles and the memberships of a cluster.
#[derive(Debug)]
pub struct RoleCatalog {
    pub roles: Vec<Role>,
    pub memberships: Vec<RoleMembership>,
}

/// What `pg_has_role` answers about a user, a role and a privilege.
pub open spec fn has_role_answer(
    c: RoleCatalog,
    user: Option<Seq<char>>,
    role: Option<Seq<char>>,
    privilege: Option<Seq<char>>,
) -> Result<bool, error::ErrorView> {
    let stored = role_views(c.roles@);
    let memberships = membership_views(c.memberships@);
    match (user, role, privilege) {
        (Some(user), Some(role), Some(privilege)) => if is_superuser(stored, user) {
            Ok(true)
        } else if text::upper(privilege) == "MEMBER"@ {
            Ok(reaches(memberships, stored, Expansion::Member, user, role))
        } else if text::upper(privilege) == "SET"@ {
            Ok(reaches(memberships, stored, Expansion::ActAs, user, role))
        } else if text::upper(privilege) == "USAGE"@ {
            Ok(reaches(memberships, stored, Expansion::Inherit, user, role))
        } else {
            Err(
                error::invalid_sql_error(
                    "unrecognized privilege type: "@ + text::upper(privilege),
                ),
            )
        },
        _ => Ok(false),
    }
}

/// A truth value or an error, and the outcome that it has to be.
pub open spec fn truth_result(
    r: Result<bool, SqlError>,
    v: Result<bool, error::ErrorView>,
) -> bool {
    match (r, v) {
        (Ok(b), Ok(view)) => b == view,
        (Err(e), Err(view)) => e@ == view,
        _ => false,
    }
}

/// What `pg_has_role` answers: of the current user, or of the user that the
/// first of three arguments denotes.
pub open spec fn has_role_of(
    c: RoleCatalog,
    args: Seq<Argument>,
    current_user: Seq<char>,
) -> Result<bool, error::ErrorView> {
    let roles = roles_sorted(known_roles(role_views(c.roles@)));
    if args.len() == 2 {
        has_role_answer(
            c,
            Some(current_user),
            argument_role(roles, args[0]),
            error::view_option(args[1].text),
        )
    } else if args.len() == 3 {
        has_role_answer(
            c,
            argument_role(roles, args[0]),
            argument_role(roles, args[1]),
            error::view_option(args[2].text),
        )
    } else {
        Err(
            error::invalid_sql_error(
                "pg_has_role expects role/privilege or user/role/privilege"@,
            ),
        )
    }
}

/// What `pg_has_role` answers.
pub fn pg_has_role(c: &RoleCatalog, args: &Vec<Argument>, current_user: &str) -> (r: Result<
    bool,
    SqlError,
>)
    ensures
        truth_result(r, has_role_of(*c, args@, current_user@)),
{
    let roles = list_roles(&c.roles);
    let n = args.len();
    if n != 2 && n != 3 {
        return Err(
            SqlError::invalid_sql(
                "pg_has_role expects role/privilege or user/role/privilege".to_owned(),
            ),
        );
    }
    let user = if n == 2 {
        Some(current_user.to_owned())
    } else {
        role_name_from_value(&roles, &args[0])
    };
    let role = role_name_from_value(&roles, &args[n - 2]);
    let user = match user {
        Some(user) => user,
        None => {
            return Ok(false);
        },
    };
    let role = match role {
        Some(role) => role,
        None => {
            return Ok(false);
        },
    };
    let privilege = match &args[n - 1].text {
        Some(privilege) => text::to_upper(privilege.as_str()),
        None => {
            return Ok(false);
        },
    };
    if role_is_superuser(&c.roles, user.as_str()) {
        return Ok(true);
    }
    let found = if text::text_eq(privilege.as_str(), "MEMBER") {
        membership_closure(&c.memberships, &c.roles, user.as_str(), false)
    } else if text::text_eq(privilege.as_str(), "SET") {
        settable_role_closure(&c.memberships, &c.roles, user.as_str())
    } else if text::text_eq(privilege.as_str(), "USAGE") {
        role_privilege_closure(&c.memberships, &c.roles, user.as_str())
    } else {
        return Err(
            SqlError::invalid_sql(
                text::concat("unrecognized privilege type: ", privilege.as_str()),
            ),
        );
    };
    Ok(sets::holds_text(&found, role.as_str()))
}

/// The stored roles without those of a name.
pub open spec fn without_named(stored: Seq<RoleView>, name: Seq<char>) -> Seq<RoleView>
    decreases stored.len(),
{
    if stored.len() == 0 {
        Seq::empty()
    } else if stored.last().name == name {
        without_named(stored.drop_last(), name)
    } else {
        without_named(stored.drop_last(), name).push(stored.last())
    }
}

/// The stored roles with one put in front of them, in the place of those under its
/// name and under its normal name.
pub open spec fn with_role(stored: Seq<RoleView>, r: RoleView) -> Seq<RoleView> {
    seq![r] + without_named(without_named(stored, normal_role(r.name)), r.name)
}

/// The stored roles with the given ones put in, but for the bootstrap role.
pub open spec fn with_roles(stored: Seq<RoleView>, given: Seq<RoleView>) -> Seq<RoleView>
    decreases given.len(),
{
    if given.len() == 0 {
        stored
    } else {
        let before = with_roles(stored, given.drop_last());
        if given.last().name == bootstrap_role() {
            before
        } else {
            with_role(before, given.last())
        }
    }
}

/// A role cannot be put in: its name comes to that of the bootstrap role and is not
/// that name.
pub open spec fn poses_as_bootstrap(r: RoleView) -> bool {
    r.name != bootstrap_role() && normal_role(r.name) == bootstrap_role()
}

/// The first of the given roles that cannot be put in.
pub open spec fn first_refused(given: Seq<RoleView>, from: int) -> Option<int>
    decreases given.len() - from,
{
    if from < 0 || from >= given.len() {
        None
    } else if poses_as_bootstrap(given[from]) {
        Some(from)
    } else {
        first_refused(given, from + 1)
    }
}

/// The last of some roles with a name.
pub open spec fn last_named(given: Seq<RoleView>, name: Seq<char>) -> Option<RoleView>
    decreases given.len(),
{
    if given.len() == 0 {
        None
    } else if given.last().name == name {
        Some(given.last())
    } else {
        last_named(given.drop_last(), name)
    }
}

proof fn lemma_stored_first(stored: Seq<RoleView>, name: Seq<char>, from: int)
    requires
        0 <= from < stored.len(),
    ensures
        stored_role(stored, name, from + 1) == stored_role(stored.skip(1), name, from),
    decreases stored.len() - from,
{
    if from + 1 < stored.len() {
        assert(stored.skip(1)[from] == stored[from + 1]);
        lemma_stored_first(stored, name, from + 1);
    }
}

proof fn lemma_stored_last(stored: Seq<RoleView>, name: Seq<char>, from: int)
    requires
        0 <= from < stored.len(),
    ensures
        stored_role(stored, name, from) == (match stored_role(stored.drop_last(), name, from) {
            Some(r) => Some(r),
            None => if stored.last().name == name {
                Some(stored.last())
            } else {
                None
            },
        }),
    decreases stored.len() - from,
{
    reveal_with_fuel(stored_role, 2);
    if from + 1 < stored.len() {
        assert(stored.drop_last()[from] == stored[from]);
        lemma_stored_last(stored, name, from + 1);
    }
}

proof fn lemma_without_named(stored: Seq<RoleView>, key: Seq<char>, name: Seq<char>)
    ensures
        stored_role(without_named(stored, key), name, 0) == (if name == key {
            None
        } else {
            stored_role(stored, name, 0)
        }),
    decreases stored.len(),
{
    if stored.len() > 0 {
        let rest = without_named(stored.drop_last(), key);
        lemma_without_named(stored.drop_last(), key, name);
        lemma_stored_last(stored, name, 0);
        if stored.last().name != key {
            assert(rest.push(stored.last()).drop_last() =~= rest);
            lemma_stored_last(rest.push(stored.last()), name, 0);
        }
    }
}

proof fn lemma_with_role(stored: Seq<RoleView>, r: RoleView, name: Seq<char>)
    requires
        normal_role(r.name) == r.name,
    ensures
        stored_role(with_role(stored, r), name, 0) == (if name == r.name {
            Some(r)
        } else {
            stored_role(stored, name, 0)
        }),
{
    let once = without_named(stored, r.name);
    let rest = without_named(once, r.name);
    let result = with_role(stored, r);
    assert(result =~= seq![r] + rest);
    assert(result[0] == r);
    assert(result.skip(1) =~= rest);
    lemma_without_named(stored, r.name, name);
    lemma_without_named(once, r.name, name);
    lemma_stored_first(result, name, 0);
}

/// After the roles of a cluster are copied, a name leads to the role that it leads to
/// in the source where there is one, and else where it led before. The names of the
/// source are in their normal form.
pub proof fn law_copied_roles(stored: Seq<RoleView>, given: Seq<RoleView>, name: Seq<char>)
    requires
        forall|i: int| 0 <= i < given.len() ==> normal_role((#[trigger] given[i]).name) == given[i].name,
        name != bootstrap_role(),
    ensures
        stored_role(with_roles(stored, given), name, 0) == (match last_named(given, name) {
            Some(r) => Some(r),
            None => stored_role(stored, name, 0),
        }),
    decreases given.len(),
{
    if given.len() > 0 {
        let rest = given.drop_last();
        assert forall|i: int| 0 <= i < rest.len() implies normal_role((#[trigger] rest[i]).name)
            == rest[i].name by {
            assert(rest[i] == given[i]);
        }
        assert(given.last() == given[given.len() - 1]);
        law_copied_roles(stored, rest, name);
        if given.last().name != bootstrap_role() {
            lemma_with_role(with_roles(stored, rest), given.last(), name);
        }
    }
}

fn take_out(stored: &mut Vec<Role>, name: &str)
    ensures
        role_views(final(stored)@) == without_named(role_views(old(stored)@), name@),
{
    let ghost all = role_views(stored@);
    let mut out: Vec<Role> = Vec::new();
    let mut i: usize = 0;
    assert(all.take(0) =~= Seq::<RoleView>::empty());
    assert(role_views(out@) =~= Seq::<RoleView>::empty());
    while i < stored.len()
        invariant
            i <= stored.len(),
            all == role_views(stored@),
            role_views(out@) == without_named(all.take(i as int), name@),
        decreases stored.len() - i,
    {
        let ghost prior = role_views(out@);
        assert(all.take(i + 1).drop_last() =~= all.take(i as int));
        assert(all.take(i + 1).last() == stored@[i as int]@);
        if !text::text_eq(stored[i].name.as_str(), name) {
            out.push(stored[i].copied());
            assert(role_views(out@) =~= prior.push(all[i as int]));
        }
        i = i + 1;
    }
    assert(all.take(all.len() as int) =~= all);
    *stored = out;
}

fn put_in_place(stored: &mut Vec<Role>, r: Role)
    ensures
        role_views(final(stored)@) == with_role(role_views(old(stored)@), r@),
{
    let normal = normalize_role_name(r.name.as_str());
    take_out(stored, normal.as_str());
    take_out(stored, r.name.as_str());
    let ghost rest = role_views(stored@);
    let ghost shown = r@;
    stored.insert(0, r);
    assert(role_views(stored@) =~= seq![shown] + rest);
}

/// Copies the roles of a cluster, which all of its databases share, into the
/// catalog of a new database: each role of the source but the bootstrap role
/// takes the place of that with its name, and the memberships of the source take
/// the place of all there are. A role whose name comes to that of the bootstrap role
/// is refused; the roles before it are copied by then.
pub fn copy_cluster_role_catalog(source: &RoleCatalog, target: &mut RoleCatalog) -> (r: Result<
    (),
    SqlError,
>)
    ensures
        ({
            let given = roles_sorted(known_roles(role_views(source.roles@)));
            let stored = role_views(old(target).roles@);
            match (r, first_refused(given, 0)) {
                (Ok(_), None) => {
                    &&& role_views(final(target).roles@) == with_roles(stored, given)
                    &&& membership_views(final(target).memberships@) == membership_views(
                        source.memberships@,
                    )
                },
                (Err(e), Some(k)) => {
                    &&& e@ == error::named_error(SqlErrorKind::DuplicateRole, given[k].name)
                    &&& role_views(final(target).roles@) == without_named(
                        with_roles(stored, given.take(k)),
                        bootstrap_role(),
                    )
                    &&& final(target).memberships@ == old(target).memberships@
                },
                _ => false,
            }
        }),
{
    let ghost start = role_views(target.roles@);
    let given = list_roles(&source.roles);
    let ghost all = role_views(given@);
    let mut i: usize = 0;
    assert(all.take(0) =~= Seq::<RoleView>::empty());
    while i < given.len()
        invariant
            i <= given.len(),
            all == role_views(given@),
            all == roles_sorted(known_roles(role_views(source.roles@))),
            start == role_views(old(target).roles@),
            target.memberships@ == old(target).memberships@,
            first_refused(all, 0) == first_refused(all, i as int),
            role_views(target.roles@) == with_roles(start, all.take(i as int)),
        decreases given.len() - i,
    {
        assert(all.take(i as int + 1).drop_last() =~= all.take(i as int));
        assert(all.take(i as int + 1).last() == given@[i as int]@);
        assert(all[i as int] == given@[i as int]@);
        if !is_bootstrap(given[i].name.as_str()) {
            let normal = normalize_role_name(given[i].name.as_str());
            if is_bootstrap(normal.as_str()) {
                take_out(&mut target.roles, normal.as_str());
                return Err(SqlError::named(SqlErrorKind::DuplicateRole, given[i].name.clone()));
            }
            put_in_place(&mut target.roles, given[i].copied());
        }
        i = i + 1;
    }
    assert(all.take(all.len() as int) =~= all);
    let ghost kept = membership_views(source.memberships@);
    let mut memberships: Vec<RoleMembership> = Vec::new();
    let mut j: usize = 0;
    assert(membership_views(memberships@) =~= kept.take(0));
    while j < source.memberships.len()
        invariant
            j <= source.memberships.len(),
            kept == membership_views(source.memberships@),
            membership_views(memberships@) == kept.take(j as int),
        decreases source.memberships.len() - j,
    {
        let copy = source.memberships[j].copied();
        let ghost prior = memberships@;
        memberships.push(copy);
        assert(membership_views(memberships@) =~= membership_views(prior).push(
            kept[j as int],
        ));
        assert(kept.take(j as int + 1) =~= kept.take(j as int).push(kept[j as int]));
        j = j + 1;
    }
    assert(kept.take(kept.len() as int) =~= kept);
    target.memberships = memberships;
    Ok(())
}

} // verus!
