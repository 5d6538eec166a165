//! What the user of a session may do.
//!
//! Authority goes by the role that the session acts as, so that acting as a role
//! drops what the role does not have. Only whether a session may act as a role
//! goes by the user that it was authorized as.
use vstd::prelude::*;
use crate::ddl_indexes;
use crate::ddl_indexes::TableIndexes;
use crate::error;
use crate::error::SqlError;
use crate::guc;
use crate::roles;
use crate::roles::{Expansion, Role, RoleCatalog};
use crate::session;
use crate::session::SqlSession;
use crate::sets;
use crate::settings;
use crate::text;

verus! {

/// Whether a user is a superuser.
pub open spec fn has_superuser(c: RoleCatalog, user: Seq<char>) -> bool {
    user == roles::bootstrap_role() || roles::is_superuser(roles::role_views(c.roles@), user)
}

/// Whether a user may manage roles.
pub open spec fn manages_roles(c: RoleCatalog, user: Seq<char>) -> bool {
    user == roles::bootstrap_role() || (match roles::role_named(
        roles::role_views(c.roles@),
        user,
    ) {
        Some(role) => role.superuser || role.create_role,
        None => false,
    })
}

/// Whether a user is a role or holds its privileges through memberships.
pub open spec fn holds_role(c: RoleCatalog, user: Seq<char>, role: Seq<char>) -> bool {
    text::same_ignoring_case(user, role) || roles::reaches(
        roles::membership_views(c.memberships@),
        roles::role_views(c.roles@),
        Expansion::Inherit,
        user,
        roles::normal_role(role),
    )
}

/// Whether a user may act as a role.
pub open spec fn may_act_as(c: RoleCatalog, user: Seq<char>, role: Seq<char>) -> bool {
    roles::reaches(
        roles::membership_views(c.memberships@),
        roles::role_views(c.roles@),
        Expansion::ActAs,
        user,
        role,
    )
}

pub fn user_has_superuser(c: &RoleCatalog, user: &str) -> (r: bool)
    ensures
        r == has_superuser(*c, user@),
{
    let bootstrap = roles::current_role_name();
    text::text_eq(user, bootstrap.as_str()) || roles::role_is_superuser(&c.roles, user)
}

fn user_manages_roles(c: &RoleCatalog, user: &str) -> (r: bool)
    ensures
        r == manages_roles(*c, user@),
{
    let bootstrap = roles::current_role_name();
    text::text_eq(user, bootstrap.as_str()) || (match roles::load_role_schema(&c.roles, user) {
        Some(role) => role.superuser || role.create_role,
        None => false,
    })
}

/// What a relation is, and the role that owns it where one is kept.
#[derive(Debug)]
pub enum RelationOwner {
    Table(Option<String>),
    Query(Option<String>),
    Missing,
}

/// The owner of a relation. Where none is kept it is the bootstrap role.
pub open spec fn owner_of(relation: RelationOwner) -> Option<Seq<char>> {
    match relation {
        RelationOwner::Table(owner) | RelationOwner::Query(owner) => Some(
            match error::view_option(owner) {
                Some(owner) => owner,
                None => roles::bootstrap_role(),
            },
        ),
        RelationOwner::Missing => None,
    }
}

/// A relation that an index may belong to: a view and the names of its indexes.
#[derive(Debug)]
pub struct ViewIndexes {
    pub view: String,
    pub indexes: Vec<String>,
}

/// An index that carries out what it is for, and its collection.
#[derive(Debug)]
pub struct CollectionIndex {
    pub name: String,
    pub collection: String,
}

/// Whether a list has a name, without the case of its letters.
pub open spec fn has_ignoring_case(names: Seq<Seq<char>>, name: Seq<char>) -> bool {
    exists|k: int| 0 <= k < names.len() && text::same_ignoring_case(#[trigger] names[k], name)
}

pub fn contains_ignoring_case(names: &Vec<String>, name: &str) -> (r: bool)
    ensures
        r == has_ignoring_case(text::views(names@), name@),
{
    let ghost all = text::views(names@);
    let mut i: usize = 0;
    while i < names.len()
        invariant
            i <= names.len(),
            all == text::views(names@),
            forall|k: int| 0 <= k < i ==> !text::same_ignoring_case(#[trigger] all[k], name@),
        decreases names.len() - i,
    {
        assert(all[i as int] == names@[i as int]@);
        if text::eq_ignore_case(names[i].as_str(), name) {
            return true;
        }
        i = i + 1;
    }
    false
}

/// The first table that lists an index.
pub open spec fn listing_table(
    tables: Seq<ddl_indexes::TableIndexesView>,
    index: Seq<char>,
    from: int,
) -> Option<Seq<char>>
    decreases tables.len() - from,
{
    if from < 0 || from >= tables.len() {
        None
    } else if ddl_indexes::listed(tables[from].indexes, index, 0) is Some {
        Some(tables[from].table)
    } else {
        listing_table(tables, index, from + 1)
    }
}

/// The first view that lists an index.
pub open spec fn listing_view(views: Seq<ViewIndexes>, index: Seq<char>, from: int) -> Option<
    Seq<char>,
>
    decreases views.len() - from,
{
    if from < 0 || from >= views.len() {
        None
    } else if has_ignoring_case(text::views(views[from].indexes@), index) {
        Some(views[from].view@)
    } else {
        listing_view(views, index, from + 1)
    }
}

/// The collection of the first index with a name.
pub open spec fn indexed_collection(
    definitions: Seq<CollectionIndex>,
    index: Seq<char>,
    from: int,
) -> Option<Seq<char>>
    decreases definitions.len() - from,
{
    if from < 0 || from >= definitions.len() {
        None
    } else if text::same_ignoring_case(definitions[from].name@, index) {
        Some(definitions[from].collection@)
    } else {
        indexed_collection(definitions, index, from + 1)
    }
}

/// The relation that an index belongs to: the table or else the view that lists
/// it, or else the collection that it is on.
pub open spec fn index_relation(
    tables: Seq<ddl_indexes::TableIndexesView>,
    views: Seq<ViewIndexes>,
    definitions: Seq<CollectionIndex>,
    index: Seq<char>,
) -> Option<Seq<char>> {
    match listing_table(tables, index, 0) {
        Some(table) => Some(table),
        None => match listing_view(views, index, 0) {
            Some(view) => Some(view),
            None => indexed_collection(definitions, index, 0),
        },
    }
}

fn table_listing(tables: &Vec<TableIndexes>, index: &str) -> (r: Option<String>)
    ensures
        error::view_option(r) == listing_table(ddl_indexes::table_views(tables@), index@, 0),
{
    let ghost all = ddl_indexes::table_views(tables@);
    let mut i: usize = 0;
    while i < tables.len()
        invariant
            i <= tables.len(),
            all == ddl_indexes::table_views(tables@),
            listing_table(all, index@, 0) == listing_table(all, index@, i as int),
        decreases tables.len() - i,
    {
        assert(all[i as int] == tables@[i as int]@);
        if ddl_indexes::find_listed(&tables[i].indexes, index).is_some() {
            return Some(tables[i].table.clone());
        }
        i = i + 1;
    }
    None
}

fn view_listing(views: &Vec<ViewIndexes>, index: &str) -> (r: Option<String>)
    ensures
        error::view_option(r) == listing_view(views@, index@, 0),
{
    let mut i: usize = 0;
    while i < views.len()
        invariant
            i <= views.len(),
            listing_view(views@, index@, 0) == listing_view(views@, index@, i as int),
        decreases views.len() - i,
    {
        if contains_ignoring_case(&views[i].indexes, index) {
            return Some(views[i].view.clone());
        }
        i = i + 1;
    }
    None
}

/// The relation that an index belongs to.
pub fn table_owning_index(
    tables: &Vec<TableIndexes>,
    views: &Vec<ViewIndexes>,
    definitions: &Vec<CollectionIndex>,
    index: &str,
) -> (r: Option<String>)
    ensures
        error::view_option(r) == index_relation(
            ddl_indexes::table_views(tables@),
            views@,
            definitions@,
            index@,
        ),
{
    match table_listing(tables, index) {
        Some(table) => {
            return Some(table);
        },
        None => {},
    }
    match view_listing(views, index) {
        Some(view) => {
            return Some(view);
        },
        None => {},
    }
    let mut i: usize = 0;
    while i < definitions.len()
        invariant
            i <= definitions.len(),
            indexed_collection(definitions@, index@, 0) == indexed_collection(
                definitions@,
                index@,
                i as int,
            ),
            listing_table(ddl_indexes::table_views(tables@), index@, 0) is None,
            listing_view(views@, index@, 0) is None,
        decreases definitions.len() - i,
    {
        if text::eq_ignore_case(definitions[i].name.as_str(), index) {
            return Some(definitions[i].collection.clone());
        }
        i = i + 1;
    }
    None
}

/// The tables that foreign keys of a table refer to, but for the table itself.
pub open spec fn referenced_tables(child: Seq<char>, foreign: Seq<Seq<char>>) -> Seq<Seq<char>>
    decreases foreign.len(),
{
    if foreign.len() == 0 {
        Seq::empty()
    } else {
        let before = referenced_tables(child, foreign.drop_last());
        if text::same_ignoring_case(foreign.last(), child) {
            before
        } else {
            before.push(foreign.last())
        }
    }
}

/// The tables on which the maker of foreign keys needs the privilege REFERENCES.
pub fn require_reference_privilege(child_table: &str, foreign_tables: &Vec<String>) -> (r: Vec<String>)
    ensures
        text::views(r@) == referenced_tables(child_table@, text::views(foreign_tables@)),
{
    let ghost all = text::views(foreign_tables@);
    let mut out: Vec<String> = Vec::new();
    let mut i: usize = 0;
    while i < foreign_tables.len()
        invariant
            i <= foreign_tables.len(),
            all == text::views(foreign_tables@),
            text::views(out@) == referenced_tables(child_table@, all.take(i as int)),
        decreases foreign_tables.len() - i,
    {
        assert(all.take(i + 1).drop_last() =~= all.take(i as int));
        assert(all.take(i + 1).last() == foreign_tables@[i as int]@);
        let ghost prior = out@;
        if !text::eq_ignore_case(foreign_tables[i].as_str(), child_table) {
            out.push(foreign_tables[i].clone());
            assert(text::views(out@) =~= text::views(prior).push(foreign_tables@[i as int]@));
        }
        i = i + 1;
    }
    assert(all.take(all.len() as int) =~= all);
    out
}

pub open spec fn owner_error(object: Seq<char>, action: Seq<char>) -> error::ErrorView {
    error::authorization_error("must be owner of "@ + object + " to "@ + action)
}

pub open spec fn role_attributes_error(action: Seq<char>) -> error::ErrorView {
    error::authorization_error(
        "must be superuser to "@ + action
            + " SUPERUSER, BYPASSRLS, CREATEROLE, or REPLICATION"@,
    )
}

pub open spec fn privileged_role_error(action: Seq<char>, role: Seq<char>) -> error::ErrorView {
    error::authorization_error(
        "must be superuser to "@ + action + " privileged role \""@ + role + "\""@,
    )
}

pub open spec fn set_role_error(role: Seq<char>) -> error::ErrorView {
    error::authorization_error("permission denied to set role \""@ + role + "\""@)
}

pub open spec fn new_owner_error(object: Seq<char>, owner: Seq<char>) -> error::ErrorView {
    error::authorization_error(
        "permission denied to change owner of "@ + object + " to \""@ + owner + "\""@,
    )
}

/// Whether a role has an attribute that only a superuser may handle.
pub open spec fn is_privileged(role: roles::RoleView) -> bool {
    role.superuser || role.bypass_rls || role.create_role || role.replication
}

/// What acting as a role makes of a session's settings.
pub open spec fn acting_as(gucs: Map<Seq<char>, Seq<char>>, role: Seq<char>) -> Map<
    Seq<char>,
    Seq<char>,
> {
    if roles::normal_role(role) == "none"@ {
        gucs.remove("role"@)
    } else {
        gucs.insert("role"@, roles::normal_role(role))
    }
}

/// The error of acting as a role, if there is one.
pub open spec fn acting_error(c: RoleCatalog, gucs: Map<Seq<char>, Seq<char>>, role: Seq<char>) -> Option<
    error::ErrorView,
> {
    let normal = roles::normal_role(role);
    if normal == "none"@ {
        None
    } else if roles::role_named(roles::role_views(c.roles@), normal) is None {
        Some(error::undefined_role_error(normal))
    } else if has_superuser(c, roles::session_user(gucs)) || may_act_as(
        c,
        roles::session_user(gucs),
        normal,
    ) {
        None
    } else {
        Some(set_role_error(normal))
    }
}

/// The settings that keep the user that a session connected as.
pub open spec fn with_initial(gucs: Map<Seq<char>, Seq<char>>) -> Map<Seq<char>, Seq<char>> {
    if gucs.dom().contains("bicdb.initial_session_authorization"@) {
        gucs
    } else {
        gucs.insert(
            "bicdb.initial_session_authorization"@,
            roles::initial_session_user(gucs),
        )
    }
}

/// The user that a session is to be authorized as.
pub open spec fn authorization_target(
    gucs: Map<Seq<char>, Seq<char>>,
    user: Option<Seq<char>>,
) -> Seq<char> {
    match user {
        Some(user) => roles::normal_role(user),
        None => roles::initial_session_user(gucs),
    }
}

/// The error of authorizing a session as a user, if there is one. The user that
/// it connected as is always allowed; another one must be a role, and only a
/// superuser may take it.
pub open spec fn authorization_target_error(
    c: RoleCatalog,
    gucs: Map<Seq<char>, Seq<char>>,
    user: Option<Seq<char>>,
) -> Option<error::ErrorView> {
    let initial = roles::initial_session_user(gucs);
    let target = authorization_target(gucs, user);
    if target == initial {
        None
    } else if roles::role_named(roles::role_views(c.roles@), target) is None {
        Some(error::undefined_role_error(target))
    } else if has_superuser(c, initial) {
        None
    } else {
        Some(error::authorization_error("permission denied to set session authorization"@))
    }
}

impl SqlSession {
    pub fn session_user_is_superuser(&self, c: &RoleCatalog) -> (r: bool)
        ensures
            r == has_superuser(*c, roles::session_user(self@.guc.gucs)),
    {
        let user = roles::session_user_from_gucs(self.session_gucs());
        user_has_superuser(c, user.as_str())
    }

    pub fn current_user_is_superuser(&self, c: &RoleCatalog) -> (r: bool)
        ensures
            r == has_superuser(*c, roles::current_user(self@.guc.gucs)),
    {
        let user = roles::current_user_from_gucs(self.session_gucs());
        user_has_superuser(c, user.as_str())
    }

    pub fn current_user_can_manage_roles(&self, c: &RoleCatalog) -> (r: bool)
        ensures
            r == manages_roles(*c, roles::current_user(self@.guc.gucs)),
    {
        let user = roles::current_user_from_gucs(self.session_gucs());
        user_manages_roles(c, user.as_str())
    }

    pub fn session_user_can_manage_roles(&self, c: &RoleCatalog) -> (r: bool)
        ensures
            r == manages_roles(*c, roles::session_user(self@.guc.gucs)),
    {
        let user = roles::session_user_from_gucs(self.session_gucs());
        user_manages_roles(c, user.as_str())
    }

    pub fn require_role_management_privilege(&self, c: &RoleCatalog, action: &str) -> (r: Result<
        (),
        SqlError,
    >)
        ensures
            match r {
                Ok(()) => manages_roles(*c, roles::current_user(self@.guc.gucs)),
                Err(e) => !manages_roles(*c, roles::current_user(self@.guc.gucs)) && e@
                    == error::authorization_error("permission denied to "@ + action@),
            },
    {
        if self.current_user_can_manage_roles(c) {
            Ok(())
        } else {
            Err(SqlError::authorization(text::concat("permission denied to ", action)))
        }
    }

    /// Whether the session acts as a role or holds its privileges.
    pub fn current_user_holds_role(&self, c: &RoleCatalog, role: &str) -> (r: bool)
        ensures
            r == holds_role(*c, roles::current_user(self@.guc.gucs), role@),
    {
        let user = roles::current_user_from_gucs(self.session_gucs());
        if text::eq_ignore_case(user.as_str(), role) {
            return true;
        }
        let held = roles::role_privilege_closure(&c.memberships, &c.roles, user.as_str());
        let wanted = roles::normalize_role_name(role);
        sets::holds_text(&held, wanted.as_str())
    }

    /// Refuses who does not own an object.
    pub fn require_object_ownership(
        &self,
        c: &RoleCatalog,
        owner: &str,
        object: &str,
        action: &str,
    ) -> (r: Result<(), SqlError>)
        ensures
            match r {
                Ok(()) => owns(*c, self@.guc.gucs, owner@),
                Err(e) => !owns(*c, self@.guc.gucs, owner@) && e@ == owner_error(object@, action@),
            },
    {
        if self.current_user_is_superuser(c) || self.current_user_holds_role(c, owner) {
            Ok(())
        } else {
            let most = text::concat3("must be owner of ", object, " to ");
            Err(SqlError::authorization(text::concat(most.as_str(), action)))
        }
    }

    /// Refuses who does not own a relation. What does not exist is nobody's to
    /// refuse.
    pub fn require_table_ownership(
        &self,
        c: &RoleCatalog,
        table: &str,
        relation: &RelationOwner,
        action: &str,
    ) -> (r: Result<(), SqlError>)
        ensures
            match (r, owner_of(*relation)) {
                (Ok(()), Some(owner)) => owns(*c, self@.guc.gucs, owner),
                (Err(e), Some(owner)) => !owns(*c, self@.guc.gucs, owner) && e@ == owner_error(
                    "relation "@ + table@,
                    action@,
                ),
                (Ok(()), None) => true,
                (Err(_), None) => false,
            },
    {
        let owner = match relation {
            RelationOwner::Table(owner) | RelationOwner::Query(owner) => match owner {
                Some(owner) => owner.clone(),
                None => roles::current_role_name(),
            },
            RelationOwner::Missing => {
                return Ok(());
            },
        };
        let object = text::concat("relation ", table);
        self.require_object_ownership(c, owner.as_str(), object.as_str(), action)
    }

    /// Refuses who does not own a table or view.
    pub fn require_relation_ownership(
        &self,
        c: &RoleCatalog,
        name: &str,
        relation: &RelationOwner,
        action: &str,
    ) -> (r: Result<(), SqlError>)
        ensures
            match (r, owner_of(*relation)) {
                (Ok(()), Some(owner)) => owns(*c, self@.guc.gucs, owner),
                (Err(e), Some(owner)) => !owns(*c, self@.guc.gucs, owner) && e@ == owner_error(
                    "relation "@ + name@,
                    action@,
                ),
                (Ok(()), None) => true,
                (Err(_), None) => false,
            },
    {
        self.require_table_ownership(c, name, relation, action)
    }

    pub fn require_superuser_for_admin_operation(&self, c: &RoleCatalog, operation: &str) -> (r:
        Result<(), SqlError>)
        ensures
            match r {
                Ok(()) => has_superuser(*c, roles::current_user(self@.guc.gucs)),
                Err(e) => !has_superuser(*c, roles::current_user(self@.guc.gucs)) && e@
                    == error::authorization_error("must be superuser to "@ + operation@),
            },
    {
        if self.current_user_is_superuser(c) {
            Ok(())
        } else {
            Err(SqlError::authorization(text::concat("must be superuser to ", operation)))
        }
    }

    /// Refuses to hand an object to a role that the session may not act as.
    pub fn require_settable_new_owner(&self, c: &RoleCatalog, new_owner: &str, object: &str) -> (r:
        Result<(), SqlError>)
        ensures
            match r {
                Ok(()) => may_hand_over(*c, self@.guc.gucs, new_owner@),
                Err(e) => !may_hand_over(*c, self@.guc.gucs, new_owner@) && e@ == new_owner_error(
                    object@,
                    new_owner@,
                ),
            },
    {
        if self.current_user_is_superuser(c) {
            return Ok(());
        }
        let user = roles::current_user_from_gucs(self.session_gucs());
        let settable = roles::settable_role_closure(&c.memberships, &c.roles, user.as_str());
        let wanted = roles::normalize_role_name(new_owner);
        if sets::holds_text(&settable, wanted.as_str()) {
            return Ok(());
        }
        let most = text::concat3("permission denied to change owner of ", object, " to \"");
        Err(SqlError::authorization(text::concat3(most.as_str(), new_owner, "\"")))
    }

    pub fn require_superuser_for_privileged_role_attributes(&self, c: &RoleCatalog, action: &str) -> (r:
        Result<(), SqlError>)
        ensures
            match r {
                Ok(()) => has_superuser(*c, roles::current_user(self@.guc.gucs)),
                Err(e) => !has_superuser(*c, roles::current_user(self@.guc.gucs)) && e@
                    == role_attributes_error(action@),
            },
    {
        if self.current_user_is_superuser(c) {
            Ok(())
        } else {
            Err(
                SqlError::authorization(
                    text::concat3(
                        "must be superuser to ",
                        action,
                        " SUPERUSER, BYPASSRLS, CREATEROLE, or REPLICATION",
                    ),
                ),
            )
        }
    }

    /// Refuses who may not handle a privileged role.
    pub fn ensure_role_target_manageable(&self, c: &RoleCatalog, role: &Role, action: &str) -> (r:
        Result<(), SqlError>)
        ensures
            match r {
                Ok(()) => has_superuser(*c, roles::current_user(self@.guc.gucs)) || !is_privileged(
                    role@,
                ),
                Err(e) => !has_superuser(*c, roles::current_user(self@.guc.gucs)) && is_privileged(
                    role@,
                ) && e@ == privileged_role_error(action@, role.name@),
            },
    {
        if self.current_user_is_superuser(c) || (!role.superuser && !role.bypass_rls
            && !role.create_role && !role.replication) {
            return Ok(());
        }
        let most = text::concat3("must be superuser to ", action, " privileged role \"");
        Err(SqlError::authorization(text::concat3(most.as_str(), role.name.as_str(), "\"")))
    }

    /// Has the session act as a role, or as its own user where the role is `none`.
    pub fn apply_set_role(&mut self, c: &RoleCatalog, role: &str) -> (r: Result<(), SqlError>)
        ensures
            match (r, acting_error(*c, old(self)@.guc.gucs, role@)) {
                (Ok(()), None) => final(self)@ == with_gucs(
                    old(self)@,
                    acting_as(old(self)@.guc.gucs, role@),
                ),
                (Err(e), Some(view)) => e@ == view && final(self)@ == old(self)@,
                _ => false,
            },
    {
        let normal = roles::normalize_role_name(role);
        if text::text_eq(normal.as_str(), "none") {
            self.guc.remove_guc("role");
            return Ok(());
        }
        if !roles::role_exists(&c.roles, normal.as_str()) {
            return Err(SqlError::undefined_role(normal));
        }
        let user = roles::session_user_from_gucs(self.session_gucs());
        let allowed = user_has_superuser(c, user.as_str()) || {
            let settable = roles::settable_role_closure(&c.memberships, &c.roles, user.as_str());
            sets::holds_text(&settable, normal.as_str())
        };
        if !allowed {
            return Err(
                SqlError::authorization(
                    text::concat3("permission denied to set role \"", normal.as_str(), "\""),
                ),
            );
        }
        self.guc.put_guc("role", normal);
        Ok(())
    }

    /// Authorizes the session as a user, or again as the one that it connected as.
    /// What that is is kept from the first time on.
    pub fn apply_set_session_authorization(&mut self, c: &RoleCatalog, user: Option<&str>) -> (r:
        Result<(), SqlError>)
        ensures
            match (
                r,
                authorization_target_error(*c, old(self)@.guc.gucs, text::view_str(user)),
            ) {
                (Ok(()), None) => final(self)@ == with_gucs(
                    old(self)@,
                    with_initial(old(self)@.guc.gucs).insert(
                        "session_authorization"@,
                        authorization_target(old(self)@.guc.gucs, text::view_str(user)),
                    ).remove("role"@),
                ),
                (Err(e), Some(view)) => e@ == view && final(self)@ == with_gucs(
                    old(self)@,
                    with_initial(old(self)@.guc.gucs),
                ),
                _ => false,
            },
    {
        let initial = roles::initial_session_user_from_gucs(self.session_gucs());
        let kept = self.session_gucs().get("bicdb.initial_session_authorization").is_some();
        if !kept {
            self.guc.put_guc("bicdb.initial_session_authorization", initial.clone());
        }
        let target = match user {
            Some(user) => roles::normalize_role_name(user),
            None => initial.clone(),
        };
        let same = text::text_eq(target.as_str(), initial.as_str());
        if !same && !roles::role_exists(&c.roles, target.as_str()) {
            return Err(SqlError::undefined_role(target));
        }
        if !same && !user_has_superuser(c, initial.as_str()) {
            return Err(
                SqlError::authorization("permission denied to set session authorization".to_owned()),
            );
        }
        self.guc.put_guc("session_authorization", target);
        self.guc.remove_guc("role");
        Ok(())
    }
}

/// A session with other settings.
pub open spec fn with_gucs(v: session::SessionView, gucs: Map<Seq<char>, Seq<char>>) -> session::SessionView {
    session::SessionView { guc: guc::GucView { gucs, ..v.guc }, ..v }
}

/// Whether a session owns what a role owns.
pub open spec fn owns(c: RoleCatalog, gucs: Map<Seq<char>, Seq<char>>, owner: Seq<char>) -> bool {
    has_superuser(c, roles::current_user(gucs)) || holds_role(
        c,
        roles::current_user(gucs),
        owner,
    )
}

/// Whether a session may hand an object to a role.
pub open spec fn may_hand_over(c: RoleCatalog, gucs: Map<Seq<char>, Seq<char>>, owner: Seq<char>) -> bool {
    has_superuser(c, roles::current_user(gucs)) || may_act_as(
        c,
        roles::current_user(gucs),
        roles::normal_role(owner),
    )
}

proof fn lemma_identity_settings()
    ensures
        "role"@ != "session_authorization"@,
        "role"@ != "bicdb.initial_session_authorization"@,
        "session_authorization"@ != "bicdb.initial_session_authorization"@,
{
    reveal_strlit("role");
    reveal_strlit("session_authorization");
    reveal_strlit("bicdb.initial_session_authorization");
    assert("role"@.len() == 4);
    assert("session_authorization"@.len() == 21);
    assert("bicdb.initial_session_authorization"@.len() == 35);
}

/// To act as a role that is no superuser drops the authority of one, whoever the
/// session was authorized as.
pub proof fn law_acting_drops_authority(
    c: RoleCatalog,
    gucs: Map<Seq<char>, Seq<char>>,
    role: Seq<char>,
)
    requires
        roles::normal_role(role) != "none"@,
        roles::normal_role(role).len() > 0,
        !has_superuser(c, roles::normal_role(role)),
    ensures
        roles::current_user(acting_as(gucs, role)) == roles::normal_role(role),
        !has_superuser(c, roles::current_user(acting_as(gucs, role))),
        roles::session_user(acting_as(gucs, role)) == roles::session_user(gucs),
{
    roles::law_normal_role(role);
    lemma_identity_settings();
}

/// Acting as no role gives a session back the user that it was authorized as.
pub proof fn law_acting_as_none(gucs: Map<Seq<char>, Seq<char>>, role: Seq<char>)
    requires
        roles::normal_role(role) == "none"@,
    ensures
        roles::current_user(acting_as(gucs, role)) == roles::session_user(gucs),
{
    lemma_identity_settings();
}

/// Whatever a session is authorized as, it can always go back to the user that it
/// connected as, unless the setting that keeps that user is there and empty.
pub proof fn law_authorization_returns(
    c: RoleCatalog,
    gucs: Map<Seq<char>, Seq<char>>,
    user: Option<Seq<char>>,
)
    requires
        settings::setting(gucs, "bicdb.initial_session_authorization"@) is Some
            ==> roles::named_user(
            settings::setting(gucs, "bicdb.initial_session_authorization"@),
        ) is Some,
    ensures
        authorization_target_error(c, gucs, None) is None,
        ({
            let assumed = with_initial(gucs).insert(
                "session_authorization"@,
                authorization_target(gucs, user),
            ).remove("role"@);
            authorization_target(assumed, None) == roles::initial_session_user(gucs)
        }),
{
    lemma_identity_settings();
    lemma_initial_is_normal(gucs);
}

proof fn lemma_initial_is_normal(gucs: Map<Seq<char>, Seq<char>>)
    ensures
        roles::normal_role(roles::initial_session_user(gucs)) == roles::initial_session_user(gucs),
        roles::initial_session_user(gucs).len() > 0,
        settings::setting(gucs, "bicdb.initial_session_authorization"@) is Some ==> (
        roles::named_user(settings::setting(gucs, "bicdb.initial_session_authorization"@)) is Some
            ==> roles::named_user(
            settings::setting(gucs, "bicdb.initial_session_authorization"@),
        ) == Some(roles::initial_session_user(gucs))),
{
    reveal_strlit("bicdb");
    let b = roles::bootstrap_role();
    reveal_with_fuel(text::strip_start, 2);
    reveal_with_fuel(text::strip_end, 2);
    assert(text::strip(b, '"') =~= b);
    assert(text::lower(b) =~= b);
    match settings::setting(gucs, "bicdb.initial_session_authorization"@) {
        Some(v) => roles::law_normal_role(v),
        None => {},
    }
    match settings::setting(gucs, "session_authorization"@) {
        Some(v) => roles::law_normal_role(v),
        None => {},
    }
}

} // verus!
