//! A session: its settings, its transaction and what it may do.
use vstd::prelude::*;
use crate::ddl;
use crate::ddl::DdlCatalog;
use crate::ddl_session;
use crate::ddl_session::{DdlSession, SqlSessionDdlUndoLog};
use crate::error;
use crate::error::SqlError;
use crate::guc;
use crate::guc::{SqlSessionGucState, SqlSettings};
use crate::roles;
use crate::security;
use crate::security::SecurityContext;
use crate::settings::Settings;
use crate::text;

verus! {

/// What a connection keeps from one session to the next: for each database the
/// names of the schemas that it has read, at a generation of the catalog.
#[derive(Debug)]
pub struct SqlSessionCatalogCache {
    pub schema_cache_generation: u64,
    pub schema_cache: Vec<Vec<String>>,
}

/// How many schemas the caches hold together.
pub open spec fn cached_schemas(caches: Seq<Vec<String>>) -> nat
    decreases caches.len(),
{
    if caches.len() == 0 {
        0
    } else {
        cached_schemas(caches.drop_last()) + caches.last()@.len()
    }
}

proof fn lemma_cached_schemas(caches: Seq<Vec<String>>, i: int)
    requires
        0 <= i <= caches.len(),
    ensures
        cached_schemas(caches.take(i)) <= cached_schemas(caches),
    decreases caches.len(),
{
    if i == caches.len() {
        assert(caches.take(i) =~= caches);
    } else {
        lemma_cached_schemas(caches.drop_last(), i);
        assert(caches.drop_last().take(i) =~= caches.take(i));
    }
}

impl SqlSessionCatalogCache {
    pub fn new(schema_cache_generation: u64) -> (c: SqlSessionCatalogCache)
        ensures
            c.schema_cache_generation == schema_cache_generation,
            c.schema_cache@.len() == 0,
    {
        SqlSessionCatalogCache { schema_cache_generation, schema_cache: Vec::new() }
    }

    pub fn schema_cache_len(&self) -> (r: usize)
        requires
            cached_schemas(self.schema_cache@) <= usize::MAX,
        ensures
            r == cached_schemas(self.schema_cache@),
    {
        let mut sum: usize = 0;
        let mut i: usize = 0;
        while i < self.schema_cache.len()
            invariant
                i <= self.schema_cache.len(),
                cached_schemas(self.schema_cache@) <= usize::MAX,
                sum == cached_schemas(self.schema_cache@.take(i as int)),
            decreases self.schema_cache.len() - i,
        {
            let ghost all = self.schema_cache@;
            assert(all.take(i + 1).drop_last() =~= all.take(i as int));
            assert(all.take(i + 1).last() == all[i as int]);
            proof {
                lemma_cached_schemas(all, i + 1);
            }
            sum = sum + self.schema_cache[i].len();
            i = i + 1;
        }
        assert(self.schema_cache@.take(self.schema_cache@.len() as int) =~= self.schema_cache@);
        sum
    }
}

/// A savepoint: its name, the place in the transaction that the store knows by a
/// number, the length of the undo log, and the settings.
#[derive(Debug)]
pub struct SavepointMark {
    pub name: String,
    pub transaction: u64,
    pub ddl_undo_len: usize,
    pub state: SqlSessionGucState,
}

pub struct MarkView {
    pub name: Seq<char>,
    pub transaction: u64,
    pub ddl_undo_len: nat,
    pub state: guc::GucView,
}

impl View for SavepointMark {
    type V = MarkView;

    open spec fn view(&self) -> MarkView {
        MarkView {
            name: self.name@,
            transaction: self.transaction,
            ddl_undo_len: self.ddl_undo_len as nat,
            state: self.state@,
        }
    }
}

pub open spec fn mark_views(v: Seq<SavepointMark>) -> Seq<MarkView> {
    v.map_values(|m: SavepointMark| m@)
}

/// A session on a database. Parameters are the values bound to `$1` and on, each
/// as its text or null; grants are the mutation grants of relations, each known
/// by its number.
#[derive(Debug)]
pub struct SqlSession {
    pub ddl: DdlSession,
    pub guc: SqlSessionGucState,
    pub defaults: SqlSettings,
    pub security_context: Option<SecurityContext>,
    pub defer_commit: bool,
    pub snapshot_floor: u64,
    pub savepoints: Vec<SavepointMark>,
    pub parameters: Vec<(String, Option<String>)>,
    pub signed_mutation_grants: Vec<(String, u64)>,
    pub signed_application_security_guc_compatibility: bool,
    pub trigger_depth: usize,
    pub cache: SqlSessionCatalogCache,
}

pub struct CacheView {
    pub generation: u64,
    pub schemas: Seq<Vec<String>>,
}

#[verifier::ext_equal]
pub struct SessionView {
    pub ddl: ddl_session::DdlView,
    pub guc: guc::GucView,
    pub defaults: SqlSettings,
    pub context: Option<security::ContextView>,
    pub defer_commit: bool,
    pub snapshot_floor: u64,
    pub savepoints: Seq<MarkView>,
    pub parameters: Seq<(Seq<char>, Option<Seq<char>>)>,
    pub grants: Seq<(Seq<char>, u64)>,
    pub application_compatibility: bool,
    pub trigger_depth: nat,
    pub cache: CacheView,
}

pub open spec fn parameter_views(v: Seq<(String, Option<String>)>) -> Seq<
    (Seq<char>, Option<Seq<char>>),
> {
    v.map_values(|p: (String, Option<String>)| (p.0@, error::view_option(p.1)))
}

pub open spec fn grant_views(v: Seq<(String, u64)>) -> Seq<(Seq<char>, u64)> {
    v.map_values(|g: (String, u64)| (g.0@, g.1))
}

impl View for SqlSession {
    type V = SessionView;

    open spec fn view(&self) -> SessionView {
        SessionView {
            ddl: self.ddl@,
            guc: self.guc@,
            defaults: self.defaults,
            context: security::context_view(self.security_context),
            defer_commit: self.defer_commit,
            snapshot_floor: self.snapshot_floor,
            savepoints: mark_views(self.savepoints@),
            parameters: parameter_views(self.parameters@),
            grants: grant_views(self.signed_mutation_grants@),
            application_compatibility: self.signed_application_security_guc_compatibility,
            trigger_depth: self.trigger_depth as nat,
            cache: CacheView {
                generation: self.cache.schema_cache_generation,
                schemas: self.cache.schema_cache@,
            },
        }
    }
}

/// What a session starts from: the catalog, its generation, and the typed
/// settings that are the defaults.
#[derive(Debug)]
pub struct SessionStart {
    pub catalog: DdlCatalog,
    pub schema_cache_generation: u64,
    pub defaults: SqlSettings,
}

/// A new session.
pub open spec fn fresh_session(
    start: SessionStart,
    exclusive: bool,
    context: Option<security::ContextView>,
) -> SessionView {
    SessionView {
        ddl: ddl_session::DdlView {
            exclusive,
            transaction: None,
            catalog: start.catalog@,
            log: Seq::empty(),
        },
        guc: guc::rebound(guc::fresh_state(start.defaults, Map::empty()), context),
        defaults: start.defaults,
        context,
        defer_commit: false,
        snapshot_floor: 0,
        savepoints: Seq::empty(),
        parameters: Seq::empty(),
        grants: Seq::empty(),
        application_compatibility: false,
        trigger_depth: 0,
        cache: CacheView { generation: start.schema_cache_generation, schemas: Seq::empty() },
    }
}

/// The role that a session without authority runs as. It is never the bootstrap
/// role.
pub open spec fn unprivileged_role(role: Seq<char>) -> Seq<char> {
    let normal = roles::normal_role(role);
    if normal.len() == 0 || normal == roles::bootstrap_role() {
        "bicdb_restricted"@
    } else {
        normal
    }
}

/// The settings that give a session a role to be.
pub open spec fn with_identity(m: Map<Seq<char>, Seq<char>>, role: Seq<char>) -> Map<
    Seq<char>,
    Seq<char>,
> {
    m.insert("session_authorization"@, role).insert(
        "bicdb.initial_session_authorization"@,
        role,
    ).insert("role"@, role)
}

/// A session that has been given a role without authority.
pub open spec fn unprivileged(v: SessionView, role: Seq<char>) -> SessionView {
    SessionView {
        guc: guc::GucView { gucs: with_identity(v.guc.gucs, unprivileged_role(role)), ..v.guc },
        ..v
    }
}

impl SqlSession {
    pub(crate) fn from_parts(
        start: SessionStart,
        exclusive: bool,
        security_context: Option<SecurityContext>,
    ) -> (s: SqlSession)
        ensures
            s@ == fresh_session(start, exclusive, security::context_view(security_context)),
    {
        let mut guc = SqlSessionGucState::with_settings(start.defaults, Settings::new());
        guc.rebind_trusted_security_settings(&security_context);
        let s = SqlSession {
            ddl: DdlSession {
                exclusive,
                transaction: None,
                catalog: start.catalog,
                log: SqlSessionDdlUndoLog::new(),
            },
            guc,
            defaults: start.defaults,
            security_context,
            defer_commit: false,
            snapshot_floor: 0,
            savepoints: Vec::new(),
            parameters: Vec::new(),
            signed_mutation_grants: Vec::new(),
            signed_application_security_guc_compatibility: false,
            trigger_depth: 0,
            cache: SqlSessionCatalogCache::new(start.schema_cache_generation),
        };
        assert(s@.savepoints =~= Seq::empty());
        assert(s@.parameters =~= Seq::empty());
        assert(s@.grants =~= Seq::empty());
        assert(s@.cache.schemas =~= Seq::empty());
        s
    }

    /// A session with exclusive access.
    pub fn new(start: SessionStart) -> (s: SqlSession)
        ensures
            s@ == fresh_session(start, true, None),
    {
        SqlSession::from_parts(start, true, None)
    }

    /// A session that runs as a role without authority.
    pub fn new_unprivileged(start: SessionStart, role: &str) -> (s: SqlSession)
        ensures
            s@ == unprivileged(fresh_session(start, true, None), role@),
    {
        let mut s = SqlSession::new(start);
        s.assume_unprivileged_role(role);
        s
    }

    /// A session with shared access that runs as a role without authority.
    pub fn new_shared_unprivileged(start: SessionStart, role: &str) -> (s: SqlSession)
        ensures
            s@ == unprivileged(fresh_session(start, false, None), role@),
    {
        let mut s = SqlSession::new_shared(start);
        s.assume_unprivileged_role(role);
        s
    }

    fn assume_unprivileged_role(&mut self, role: &str)
        ensures
            final(self)@ == unprivileged(old(self)@, role@),
    {
        let normal = roles::normalize_role_name(role);
        let bootstrap = roles::current_role_name();
        let role = if normal.as_str().unicode_len() == 0 || text::text_eq(
            normal.as_str(),
            bootstrap.as_str(),
        ) {
            "bicdb_restricted".to_owned()
        } else {
            normal
        };
        self.guc.put_guc("session_authorization", role.clone());
        self.guc.put_guc("bicdb.initial_session_authorization", role.clone());
        self.guc.put_guc("role", role);
    }

    /// A session with the identity that a host has established.
    pub fn new_secure(start: SessionStart, ctx: SecurityContext) -> (s: SqlSession)
        ensures
            s@ == fresh_session(start, true, Some(ctx@)),
    {
        SqlSession::from_parts(start, true, Some(ctx))
    }

    /// A session with shared access: it changes nothing that needs exclusive
    /// access.
    pub fn new_shared(start: SessionStart) -> (s: SqlSession)
        ensures
            s@ == fresh_session(start, false, None),
    {
        SqlSession::from_parts(start, false, None)
    }

    /// A session with shared access and the identity that a host has established.
    pub fn new_shared_secure(start: SessionStart, ctx: SecurityContext) -> (s: SqlSession)
        ensures
            s@ == fresh_session(start, false, Some(ctx@)),
    {
        SqlSession::from_parts(start, false, Some(ctx))
    }

    pub fn in_transaction(&self) -> (r: bool)
        ensures
            r == (self@.ddl.transaction is Some),
    {
        self.ddl.transaction.is_some()
    }

    /// Replaces the identity that the host has established.
    pub fn with_security_context(self, security_context: Option<SecurityContext>) -> (s: SqlSession)
        ensures
            s@ == (SessionView {
                context: security::context_view(security_context),
                guc: guc::rebound(self@.guc, security::context_view(security_context)),
                ..self@
            }),
    {
        let mut s = self;
        s.guc.rebind_trusted_security_settings(&security_context);
        s.security_context = security_context;
        s
    }

    pub fn with_session_gucs(self, session_gucs: Settings) -> (s: SqlSession)
        ensures
            s@ == (SessionView {
                guc: guc::rebound(
                    guc::GucView { gucs: session_gucs@, ..self@.guc },
                    self@.context,
                ),
                ..self@
            }),
    {
        let mut s = self;
        s.guc.replace_gucs(session_gucs);
        s.guc.rebind_trusted_security_settings(&s.security_context);
        s
    }

    pub fn with_session_guc_state(self, state: SqlSessionGucState) -> (s: SqlSession)
        ensures
            s@ == (SessionView { guc: guc::rebound(state@, self@.context), ..self@ }),
    {
        let mut s = self;
        s.install_session_guc_state(state);
        s
    }

    pub(crate) fn install_session_guc_state(&mut self, state: SqlSessionGucState)
        ensures
            final(self)@ == (SessionView {
                guc: guc::rebound(state@, old(self)@.context),
                ..old(self)@
            }),
    {
        self.guc = state;
        self.guc.rebind_trusted_security_settings(&self.security_context);
    }

    /// Takes the protected settings out that no context gave, before the state is
    /// changed and bound again.
    pub(crate) fn loosen_session_guc_state(&mut self)
        ensures
            final(self)@ == (SessionView {
                guc: loosened(old(self)@.guc, old(self)@.context),
                ..old(self)@
            }),
    {
        let keep = self.postgres_compatibility_security_gucs_enabled();
        if !keep {
            self.guc.strip_protected_security_settings();
        }
    }

    pub fn postgres_compatibility_security_gucs_enabled(&self) -> (r: bool)
        ensures
            r == guc::keeps_protected(self@.guc, self@.context),
    {
        self.security_context.is_none() && security::postgres_compatibility_gucs_enabled(
            self.guc.session_gucs(),
        )
    }

    /// Leaves the transaction of a procedure call to the caller to commit.
    pub fn with_deferred_commit(self) -> (s: SqlSession)
        ensures
            s@ == (SessionView { defer_commit: true, ..self@ }),
    {
        let mut s = self;
        s.defer_commit = true;
        s
    }

    /// Has transactions read no older a state than this.
    pub fn with_snapshot_floor(self, floor: u64) -> (s: SqlSession)
        ensures
            s@ == (SessionView { snapshot_floor: floor, ..self@ }),
    {
        let mut s = self;
        s.snapshot_floor = floor;
        s
    }

    /// Takes the transaction that is left to the caller.
    pub fn take_pending_transaction(&mut self) -> (r: Option<u64>)
        ensures
            r == old(self)@.ddl.transaction,
            final(self)@ == (SessionView {
                ddl: ddl_session::DdlView { transaction: None, ..old(self)@.ddl },
                ..old(self)@
            }),
    {
        self.ddl.transaction.take()
    }

    /// Goes on with a transaction that an outer session owns.
    pub fn with_pending_transaction(self, tx: u64) -> (s: SqlSession)
        ensures
            s@ == (SessionView {
                ddl: ddl_session::DdlView { transaction: Some(tx), ..self@.ddl },
                ..self@
            }),
    {
        let mut s = self;
        s.ddl.transaction = Some(tx);
        s
    }

    /// Binds values to `$1` and on.
    pub fn with_positional_parameters(self, parameters: Vec<Option<String>>) -> (s: SqlSession)
        requires
            parameters@.len() <= u64::MAX,
        ensures
            s@ == (SessionView {
                parameters: numbered_parameters(
                    parameters@.map_values(|p: Option<String>| error::view_option(p)),
                ),
                ..self@
            }),
    {
        let mut s = self;
        s.parameters = number_parameters(&parameters);
        s
    }

    pub fn with_signed_mutation_grants(self, grants: Vec<(String, u64)>) -> (s: SqlSession)
        ensures
            s@ == (SessionView { grants: grant_views(grants@), ..self@ }),
    {
        let mut s = self;
        s.signed_mutation_grants = grants;
        s
    }

    pub fn with_signed_application_security_guc_compatibility(self) -> (s: SqlSession)
        ensures
            s@ == (SessionView { application_compatibility: true, ..self@ }),
    {
        let mut s = self;
        s.signed_application_security_guc_compatibility = true;
        s
    }

    /// The grant for a relation, whose name counts without the case of its
    /// letters.
    pub fn signed_mutation_grant(&self, table: &str) -> (r: Option<u64>)
        ensures
            r == grant_for(self@.grants, table@, 0),
    {
        let ghost all = grant_views(self.signed_mutation_grants@);
        let mut i: usize = 0;
        while i < self.signed_mutation_grants.len()
            invariant
                i <= self.signed_mutation_grants.len(),
                all == grant_views(self.signed_mutation_grants@),
                grant_for(all, table@, 0) == grant_for(all, table@, i as int),
            decreases self.signed_mutation_grants.len() - i,
        {
            assert(all[i as int] == (
                self.signed_mutation_grants@[i as int].0@,
                self.signed_mutation_grants@[i as int].1,
            ));
            if text::eq_ignore_case(self.signed_mutation_grants[i].0.as_str(), table) {
                return Some(self.signed_mutation_grants[i].1);
            }
            i = i + 1;
        }
        None
    }

    pub fn with_catalog_cache(self, cache: SqlSessionCatalogCache) -> (s: SqlSession)
        ensures
            s@ == (SessionView {
                cache: CacheView {
                    generation: cache.schema_cache_generation,
                    schemas: cache.schema_cache@,
                },
                ..self@
            }),
    {
        let mut s = self;
        s.cache = cache;
        s
    }

    pub fn with_ddl_undo_log(self, log: SqlSessionDdlUndoLog) -> (s: SqlSession)
        ensures
            s@ == (SessionView {
                ddl: ddl_session::DdlView { log: log@, ..self@.ddl },
                ..self@
            }),
    {
        let mut s = self;
        s.ddl.log = log;
        s
    }

    pub fn take_ddl_undo_log(&mut self) -> (r: SqlSessionDdlUndoLog)
        ensures
            r@ == old(self)@.ddl.log,
            final(self)@ == (SessionView {
                ddl: ddl_session::DdlView { log: Seq::empty(), ..old(self)@.ddl },
                ..old(self)@
            }),
    {
        let mut log = SqlSessionDdlUndoLog::new();
        std::mem::swap(&mut log, &mut self.ddl.log);
        log
    }

    pub fn rollback_ddl_undo_to_len(&mut self, len: usize) -> (r: Result<(), SqlError>)
        ensures
            final(self)@ == (SessionView { ddl: final(self)@.ddl, ..old(self)@ }),
            ddl_rolled_back(old(self)@.ddl, final(self)@.ddl, len as nat, r),
    {
        self.ddl.rollback_ddl_to_len(len)
    }

    pub fn into_catalog_cache(self) -> (c: SqlSessionCatalogCache)
        ensures
            c.schema_cache_generation == self@.cache.generation,
            c.schema_cache@ == self@.cache.schemas,
    {
        self.cache
    }

    pub fn session_gucs(&self) -> (r: &Settings)
        ensures
            r@ == self@.guc.gucs,
    {
        self.guc.session_gucs()
    }

    pub fn session_guc_state(&self) -> (s: SqlSessionGucState)
        ensures
            s@ == self@.guc,
    {
        self.guc.copied()
    }
}

/// The state that is changed and bound again: without protected settings, unless
/// the session keeps them.
pub open spec fn loosened(v: guc::GucView, context: Option<security::ContextView>) -> guc::GucView {
    if guc::keeps_protected(v, context) {
        v
    } else {
        guc::stripped_state(v)
    }
}

/// Values under the names `$1` and on.
pub open spec fn numbered_parameters(values: Seq<Option<Seq<char>>>) -> Seq<
    (Seq<char>, Option<Seq<char>>),
> {
    Seq::new(values.len(), |i: int| ("$"@ + text::decimal((i + 1) as nat), values[i]))
}

fn number_parameters(values: &Vec<Option<String>>) -> (r: Vec<(String, Option<String>)>)
    requires
        values@.len() <= u64::MAX,
    ensures
        parameter_views(r@) == numbered_parameters(
            values@.map_values(|p: Option<String>| error::view_option(p)),
        ),
{
    let ghost all = values@.map_values(|p: Option<String>| error::view_option(p));
    let mut out: Vec<(String, Option<String>)> = Vec::new();
    let mut i: usize = 0;
    while i < values.len()
        invariant
            i <= values.len(),
            values@.len() <= u64::MAX,
            all == values@.map_values(|p: Option<String>| error::view_option(p)),
            out@.len() == i,
            forall|k: int|
                0 <= k < i ==> (#[trigger] out@[k]).0@ == "$"@ + text::decimal((k + 1) as nat)
                    && error::view_option(out@[k].1) == all[k],
        decreases values.len() - i,
    {
        let number = text::decimal_text(i as u64 + 1);
        out.push((text::concat("$", number.as_str()), guc::copied_option(&values[i])));
        i = i + 1;
    }
    assert(parameter_views(out@) =~= numbered_parameters(all));
    out
}

/// The grant of the first relation with a name, without the case of its letters.
pub open spec fn grant_for(grants: Seq<(Seq<char>, u64)>, table: Seq<char>, from: int) -> Option<u64>
    decreases grants.len() - from,
{
    if from < 0 || from >= grants.len() {
        None
    } else if text::same_ignoring_case(grants[from].0, table) {
        Some(grants[from].1)
    } else {
        grant_for(grants, table, from + 1)
    }
}

/// What rolling the undo log back to a length comes to.
pub open spec fn ddl_rolled_back(
    before: ddl_session::DdlView,
    after: ddl_session::DdlView,
    len: nat,
    r: Result<(), SqlError>,
) -> bool {
    match r {
        Ok(()) => {
            &&& before.log.len() <= len || before.exclusive
            &&& after == (ddl_session::DdlView {
                catalog: ddl::undone_to(before.catalog, before.log, len as int),
                log: if before.log.len() <= len {
                    before.log
                } else {
                    before.log.take(len as int)
                },
                ..before
            })
        },
        Err(e) => {
            &&& before.log.len() > len && !before.exclusive
            &&& e@ == ddl_session::exclusive_error()
            &&& after == (ddl_session::DdlView { log: before.log.drop_last(), ..before })
        },
    }
}

proof fn lemma_restricted_role()
    ensures
        "bicdb_restricted"@ != roles::bootstrap_role(),
        roles::normal_role("bicdb_restricted"@) == "bicdb_restricted"@,
        "bicdb_restricted"@.len() > 0,
        "bicdb_restricted"@ != "none"@,
{
    reveal_strlit("bicdb_restricted");
    reveal_strlit("bicdb");
    reveal_strlit("none");
    let s = "bicdb_restricted"@;
    reveal_with_fuel(text::strip_start, 2);
    reveal_with_fuel(text::strip_end, 2);
    assert(text::strip(s, '"') =~= s);
    assert(text::lower(s) =~= s);
}

/// A session without an identity never has authority: whatever role it is given,
/// its user is not the bootstrap role.
pub proof fn law_unprivileged_is_not_bootstrap(v: SessionView, role: Seq<char>)
    ensures
        unprivileged_role(role) != roles::bootstrap_role(),
        roles::session_user(unprivileged(v, role).guc.gucs) != roles::bootstrap_role(),
        roles::current_user(unprivileged(v, role).guc.gucs) != roles::bootstrap_role(),
{
    lemma_restricted_role();
    roles::law_normal_role(role);
    reveal_strlit("session_authorization");
    reveal_strlit("role");
    reveal_strlit("bicdb.initial_session_authorization");
}

} // verus!
