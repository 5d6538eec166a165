//! Statements that set and reset what a session has.
use vstd::prelude::*;
use crate::authority;
use crate::error;
use crate::error::SqlError;
use crate::guc;
use crate::guc::{GucAssignmentTargets, SqlSessionGucState, SqlSettings};
use crate::roles;
use crate::roles::RoleCatalog;
use crate::security;
use crate::session;
use crate::session::SqlSession;
use crate::settings;
use crate::settings::Settings;
use crate::text;

verus! {

/// What an assignment does: its scope, the setting in lower case, how many values
/// it gives, and what it makes of the settings. An error is what comes of a value
/// that the setting does not take.
#[derive(Debug)]
pub struct Assignment {
    pub local: bool,
    pub setting: String,
    pub values: usize,
    pub changes: Vec<(String, Option<String>)>,
    pub settings: Option<SqlSettings>,
    pub error: Option<SqlError>,
}

/// A SET statement.
#[derive(Debug)]
pub enum SetStatement {
    Transaction { snapshot: bool, modes_error: Option<SqlError> },
    Single(Assignment),
    Multiple(Vec<Assignment>),
    TimeZone(Assignment),
    Role { local: bool, role: Option<String> },
    SessionAuthorization { local: bool, user: Option<String> },
    Other(String),
}

/// Settings after changes: each sets a setting or takes it out.
pub open spec fn edited(
    m: Map<Seq<char>, Seq<char>>,
    changes: Seq<(String, Option<String>)>,
) -> Map<Seq<char>, Seq<char>>
    decreases changes.len(),
{
    if changes.len() == 0 {
        m
    } else {
        let before = edited(m, changes.drop_last());
        match changes.last().1 {
            Some(value) => before.insert(changes.last().0@, value@),
            None => before.remove(changes.last().0@),
        }
    }
}

/// What a statement comes to: the session after it, and its error if there is
/// one.
pub struct Outcome {
    pub session: session::SessionView,
    pub error: Option<error::ErrorView>,
}

pub open spec fn done(session: session::SessionView) -> Outcome {
    Outcome { session, error: None }
}

pub open spec fn failed(session: session::SessionView, error: error::ErrorView) -> Outcome {
    Outcome { session, error: Some(error) }
}

/// Whether a result and the session after it are what an outcome says.
pub open spec fn comes_to<T>(
    r: Result<T, SqlError>,
    after: session::SessionView,
    outcome: Outcome,
) -> bool {
    &&& after == outcome.session
    &&& match (r, outcome.error) {
        (Ok(_), None) => true,
        (Err(e), Some(view)) => e@ == view,
        _ => false,
    }
}

/// A session after a change within a scope has been noted.
pub open spec fn noted(
    before: session::SessionView,
    after: session::SessionView,
    local: bool,
    setting: Seq<char>,
) -> session::SessionView {
    session::SessionView {
        guc: guc::scoped(
            after.guc,
            before.guc.gucs,
            before.guc.settings,
            local,
            guc::setting_targets(setting),
        ),
        ..after
    }
}

/// What an assignment comes to.
pub open spec fn assigned(v: session::SessionView, a: Assignment) -> Outcome {
    match a.error {
        Some(e) => failed(v, e@),
        None => {
            let changed = session::SessionView {
                guc: guc::GucView {
                    gucs: edited(v.guc.gucs, a.changes@),
                    settings: match a.settings {
                        Some(s) => s,
                        None => v.guc.settings,
                    },
                    ..v.guc
                },
                ..v
            };
            done(noted(v, changed, a.local, a.setting@))
        },
    }
}

/// What assignments come to, one after the other, up to the first that fails.
pub open spec fn assigned_each(v: session::SessionView, list: Seq<Assignment>) -> Outcome
    decreases list.len(),
{
    if list.len() == 0 {
        done(v)
    } else {
        let before = assigned_each(v, list.drop_last());
        if before.error is Some {
            before
        } else {
            assigned(before.session, list.last())
        }
    }
}

pub open spec fn role_wanted(role: Option<Seq<char>>) -> Seq<char> {
    match role {
        Some(role) => role,
        None => "none"@,
    }
}

/// What acting as a role within a scope comes to.
pub open spec fn role_set(
    v: session::SessionView,
    c: RoleCatalog,
    local: bool,
    role: Option<Seq<char>>,
) -> Outcome {
    match authority::acting_error(c, v.guc.gucs, role_wanted(role)) {
        Some(e) => failed(v, e),
        None => done(
            noted(
                v,
                authority::with_gucs(v, authority::acting_as(v.guc.gucs, role_wanted(role))),
                local,
                "role"@,
            ),
        ),
    }
}

/// A session that has been authorized as a user.
pub open spec fn authorized(v: session::SessionView, user: Option<Seq<char>>) -> session::SessionView {
    authority::with_gucs(
        v,
        authority::with_initial(v.guc.gucs).insert(
            "session_authorization"@,
            authority::authorization_target(v.guc.gucs, user),
        ).remove("role"@),
    )
}

/// What authorizing a session as a user within a scope comes to.
pub open spec fn authorization_set(
    v: session::SessionView,
    c: RoleCatalog,
    local: bool,
    user: Option<Seq<char>>,
) -> Outcome {
    match authority::authorization_target_error(c, v.guc.gucs, user) {
        Some(e) => failed(
            authority::with_gucs(v, authority::with_initial(v.guc.gucs)),
            e,
        ),
        None => done(noted(v, authorized(v, user), local, "session_authorization"@)),
    }
}

/// What a SET statement comes to.
pub open spec fn set_outcome(v: session::SessionView, c: RoleCatalog, set: SetStatement) -> Outcome {
    match set {
        SetStatement::Transaction { snapshot, modes_error } => if snapshot {
            failed(v, error::unsupported_error("transaction snapshots are not supported"@))
        } else {
            match modes_error {
                Some(e) => failed(v, e@),
                None => done(v),
            }
        },
        SetStatement::Single(a) => if a.setting@ != "search_path"@ && a.values != 1 {
            failed(v, error::unsupported_error("SET supports one value per BicDB setting"@))
        } else {
            assigned(v, a)
        },
        SetStatement::Multiple(list) => assigned_each(v, list@),
        SetStatement::TimeZone(a) => assigned(v, a),
        SetStatement::Role { local, role } => role_set(v, c, local, error::view_option(role)),
        SetStatement::SessionAuthorization { local, user } => authorization_set(
            v,
            c,
            local,
            error::view_option(user),
        ),
        SetStatement::Other(written) => failed(
            v,
            error::unsupported_error("unsupported SET statement "@ + written@),
        ),
    }
}

fn edit(given: &mut Settings, changes: &Vec<(String, Option<String>)>)
    ensures
        final(given)@ == edited(old(given)@, changes@),
{
    let mut i: usize = 0;
    while i < changes.len()
        invariant
            i <= changes.len(),
            given@ == edited(old(given)@, changes@.take(i as int)),
        decreases changes.len() - i,
    {
        assert(changes@.take(i + 1).drop_last() =~= changes@.take(i as int));
        assert(changes@.take(i + 1).last() == changes@[i as int]);
        match &changes[i].1 {
            Some(value) => given.insert(changes[i].0.clone(), value.clone()),
            None => given.remove(changes[i].0.as_str()),
        }
        i = i + 1;
    }
    assert(changes@.take(changes@.len() as int) =~= changes@);
}

fn as_text(s: &Option<String>) -> (r: Option<&str>)
    ensures
        text::view_str(r) == error::view_option(*s),
{
    match s {
        Some(s) => Some(s.as_str()),
        None => None,
    }
}

impl SqlSession {
    /// Notes a change that has been made within a scope.
    fn note(&mut self, previous: &SqlSessionGucState, local: bool, setting: &str)
        ensures
            final(self)@ == (session::SessionView {
                guc: guc::scoped(
                    old(self)@.guc,
                    previous@.gucs,
                    previous@.settings,
                    local,
                    guc::setting_targets(setting@),
                ),
                ..old(self)@
            }),
    {
        let targets = GucAssignmentTargets::setting(setting);
        self.guc.note_scoped_guc_change(
            previous.session_gucs(),
            previous.settings(),
            local,
            &targets,
        );
    }

    /// Makes an assignment within its scope.
    pub fn apply_scoped_guc_change(&mut self, a: &Assignment) -> (r: Result<(), SqlError>)
        ensures
            comes_to(r, final(self)@, assigned(old(self)@, *a)),
    {
        match &a.error {
            Some(e) => {
                return Err(e.copied());
            },
            None => {},
        }
        let previous = self.guc.copied();
        let mut gucs = previous.session_gucs().copied();
        edit(&mut gucs, &a.changes);
        self.guc.replace_gucs(gucs);
        match a.settings {
            Some(s) => self.guc.replace_settings(s),
            None => {},
        }
        self.note(&previous, a.local, a.setting.as_str());
        Ok(())
    }

    fn apply_each(&mut self, list: &Vec<Assignment>) -> (r: Result<(), SqlError>)
        ensures
            comes_to(r, final(self)@, assigned_each(old(self)@, list@)),
    {
        let mut i: usize = 0;
        while i < list.len()
            invariant
                i <= list.len(),
                assigned_each(old(self)@, list@.take(i as int)) == done(self@),
            decreases list.len() - i,
        {
            assert(list@.take(i + 1).drop_last() =~= list@.take(i as int));
            assert(list@.take(i + 1).last() == list@[i as int]);
            match self.apply_scoped_guc_change(&list[i]) {
                Ok(()) => {},
                Err(e) => {
                    proof {
                        lemma_failed_stays(old(self)@, list@, i + 1);
                    }
                    return Err(e);
                },
            }
            i = i + 1;
        }
        assert(list@.take(list@.len() as int) =~= list@);
        Ok(())
    }

    /// Runs a SET statement.
    pub fn execute_set(&mut self, c: &RoleCatalog, set: &SetStatement) -> (r: Result<(), SqlError>)
        ensures
            comes_to(r, final(self)@, set_outcome(old(self)@, *c, *set)),
    {
        match set {
            SetStatement::Transaction { snapshot, modes_error } => {
                if *snapshot {
                    return Err(
                        SqlError::unsupported("transaction snapshots are not supported".to_owned()),
                    );
                }
                match modes_error {
                    Some(e) => Err(e.copied()),
                    None => Ok(()),
                }
            },
            SetStatement::Single(a) => {
                if !text::text_eq(a.setting.as_str(), "search_path") && a.values != 1 {
                    return Err(
                        SqlError::unsupported("SET supports one value per BicDB setting".to_owned()),
                    );
                }
                self.apply_scoped_guc_change(a)
            },
            SetStatement::Multiple(list) => self.apply_each(list),
            SetStatement::TimeZone(a) => self.apply_scoped_guc_change(a),
            SetStatement::Role { local, role } => {
                let previous = self.guc.copied();
                let wanted = match role {
                    Some(role) => role.as_str(),
                    None => "none",
                };
                match self.apply_set_role(c, wanted) {
                    Ok(()) => {
                        self.note(&previous, *local, "role");
                        Ok(())
                    },
                    Err(e) => Err(e),
                }
            },
            SetStatement::SessionAuthorization { local, user } => {
                let previous = self.guc.copied();
                match self.apply_set_session_authorization(c, as_text(user)) {
                    Ok(()) => {
                        self.note(&previous, *local, "session_authorization");
                        Ok(())
                    },
                    Err(e) => Err(e),
                }
            },
            SetStatement::Other(written) => Err(
                SqlError::unsupported(
                    text::concat("unsupported SET statement ", written.as_str()),
                ),
            ),
        }
    }
}

proof fn lemma_failed_stays(v: session::SessionView, list: Seq<Assignment>, i: int)
    requires
        0 <= i <= list.len(),
        assigned_each(v, list.take(i)).error is Some,
    ensures
        assigned_each(v, list) == assigned_each(v, list.take(i)),
    decreases list.len(),
{
    if i == list.len() {
        assert(list.take(i) =~= list);
    } else {
        assert(list.drop_last().take(i) =~= list.take(i));
        lemma_failed_stays(v, list.drop_last(), i);
    }
}

/// The settings that a RESET statement may name without a qualifier, but for the
/// identity of the session.
pub open spec fn plain_settings() -> Seq<Seq<char>> {
    seq![
        "application_name"@,
        "client_encoding"@,
        "client_min_messages"@,
        "check_function_bodies"@,
        "datestyle"@,
        "default_table_access_method"@,
        "default_tablespace"@,
        "extra_float_digits"@,
        "bytea_output"@,
        "standard_conforming_strings"@,
        "intervalstyle"@,
        "xmloption"@,
        "jit"@,
        "statement_timeout"@,
        "lock_timeout"@,
        "idle_in_transaction_session_timeout"@,
        "idle_session_timeout"@,
        "transaction_timeout"@,
        "restrict_nonsystem_relation_kind"@,
        "row_security"@,
        "search_path"@,
        "synchronize_seqscans"@,
        "timezone"@,
    ]
}

fn is_plain_setting(name: &str) -> (r: bool)
    ensures
        r == plain_settings().contains(name@),
{
    let names = [
        "application_name",
        "client_encoding",
        "client_min_messages",
        "check_function_bodies",
        "datestyle",
        "default_table_access_method",
        "default_tablespace",
        "extra_float_digits",
        "bytea_output",
        "standard_conforming_strings",
        "intervalstyle",
        "xmloption",
        "jit",
        "statement_timeout",
        "lock_timeout",
        "idle_in_transaction_session_timeout",
        "idle_session_timeout",
        "transaction_timeout",
        "restrict_nonsystem_relation_kind",
        "row_security",
        "search_path",
        "synchronize_seqscans",
        "timezone",
    ];
    assert(text::slice_views(names@) =~= plain_settings());
    text::one_of(name, &names)
}

/// A RESET statement: as it is written, in its normal form, and the setting that
/// it names where that has no qualifier.
#[derive(Debug)]
pub struct ResetStatement {
    pub written: String,
    pub normalized: String,
    pub bare_name: String,
}

/// What a statement in its normal form resets.
pub open spec fn reset_subject(normalized: Seq<char>) -> Option<Seq<char>> {
    if text::starts_with(normalized, "reset "@) {
        Some(text::trim(normalized.skip("reset "@.len() as int)))
    } else {
        None
    }
}

/// A text up to its first space.
pub open spec fn first_word(s: Seq<char>) -> Seq<char>
    decreases s.len(),
{
    if s.len() == 0 || text::is_space(s[0]) {
        Seq::empty()
    } else {
        seq![s[0]] + first_word(s.drop_first())
    }
}

/// The setting that a subject names.
pub open spec fn reset_name(subject: Seq<char>, bare_name: Seq<char>) -> Seq<char> {
    if first_word(subject).contains('.') {
        text::lower(text::strip(first_word(subject), '"'))
    } else {
        bare_name
    }
}

/// Whether resetting all settings leaves one alone.
pub open spec fn outlives_reset(name: Seq<char>) -> bool {
    guc::is_identity(name) || name == "server_version"@ || name == "server_version_num"@ || name
        == "bicdb.postgres_version_banner"@ || security::is_protected(name)
}

/// A session after all its settings have been reset.
pub open spec fn all_reset(v: session::SessionView) -> session::SessionView {
    session::SessionView {
        guc: guc::GucView {
            gucs: v.guc.gucs.restrict(
                v.guc.gucs.dom().filter(|name: Seq<char>| outlives_reset(name)),
            ),
            settings: v.defaults,
            ..v.guc
        },
        ..v
    }
}

/// The error of resetting a setting, if there is one.
pub open spec fn reset_error(v: session::SessionView, name: Seq<char>) -> Option<error::ErrorView> {
    if name == "bicdb.postgres_version_banner"@ || (security::is_protected(name)
        && !guc::keeps_protected(v.guc, v.context)) {
        Some(security::protected_setting_error(name))
    } else if plain_settings().contains(name) || name == "bicdb.vector_search"@ || name
        == "bicdb.ef_search"@ || name == "role"@ || name == "session_authorization"@ {
        None
    } else if name == "bicdb.initial_session_authorization"@ || name == "bicdb.rls_check_as"@ {
        Some(error::authorization_error("parameter \""@ + name + "\" cannot be changed"@))
    } else if name.contains('.') {
        None
    } else {
        Some(error::unsupported_error("RESET "@ + name + " is not supported"@))
    }
}

/// A session after a setting has been reset.
pub open spec fn one_reset(v: session::SessionView, name: Seq<char>) -> session::SessionView {
    if plain_settings().contains(name) {
        authority::with_gucs(v, v.guc.gucs.remove(name))
    } else if name == "bicdb.vector_search"@ {
        session::SessionView {
            guc: guc::GucView {
                settings: SqlSettings {
                    vector_search: v.defaults.vector_search,
                    ..v.guc.settings
                },
                ..v.guc
            },
            ..v
        }
    } else if name == "bicdb.ef_search"@ {
        session::SessionView {
            guc: guc::GucView {
                settings: SqlSettings { ef_search: v.defaults.ef_search, ..v.guc.settings },
                ..v.guc
            },
            ..v
        }
    } else if name == "session_authorization"@ {
        authorized(v, None)
    } else {
        authority::with_gucs(v, v.guc.gucs.remove(name))
    }
}

/// A session after a reset has been noted.
pub open spec fn reset_noted(
    before: session::SessionView,
    after: session::SessionView,
    targets: guc::TargetsView,
) -> session::SessionView {
    session::SessionView {
        guc: guc::scoped(after.guc, before.guc.gucs, before.guc.settings, false, targets),
        ..after
    }
}

/// What a RESET statement comes to.
pub open spec fn reset_outcome(v: session::SessionView, s: ResetStatement) -> Outcome {
    match reset_subject(s.normalized@) {
        None => failed(v, error::invalid_sql_error("invalid RESET statement "@ + s.written@)),
        Some(subject) => if text::same_ignoring_case(subject, "session authorization"@) {
            done(
                reset_noted(
                    v,
                    authorized(v, None),
                    guc::setting_targets("session_authorization"@),
                ),
            )
        } else if text::same_ignoring_case(subject, "all"@) {
            done(reset_noted(v, all_reset(v), guc::reset_all_targets(v.guc.local)))
        } else {
            let name = reset_name(subject, s.bare_name@);
            match reset_error(v, name) {
                Some(e) => failed(v, e),
                None => done(reset_noted(v, one_reset(v, name), guc::setting_targets(name))),
            }
        },
    }
}

/// What RESET statements come to, one after the other, up to the first that
/// fails.
pub open spec fn reset_each(v: session::SessionView, list: Seq<ResetStatement>) -> Outcome
    decreases list.len(),
{
    if list.len() == 0 {
        done(v)
    } else {
        let before = reset_each(v, list.drop_last());
        if before.error is Some {
            before
        } else {
            reset_outcome(before.session, list.last())
        }
    }
}

/// Whether statements are all RESET statements.
pub open spec fn all_resets(list: Seq<ResetStatement>) -> bool {
    forall|k: int|
        0 <= k < list.len() ==> text::starts_with((#[trigger] list[k]).normalized@, "reset "@)
}

fn word_at_start(s: &str) -> (r: String)
    ensures
        r@ == first_word(s@),
{
    let chars = text::chars_of(s);
    assert(s@.skip(0) =~= s@);
    assert(s@.take(0) + first_word(s@) =~= first_word(s@));
    let mut i: usize = 0;
    while i < chars.len() && !text::space(chars[i])
        invariant
            i <= chars.len(),
            chars@ == s@,
            first_word(s@) == s@.take(i as int) + first_word(s@.skip(i as int)),
        decreases chars.len() - i,
    {
        proof {
            let rest = s@.skip(i as int);
            assert(rest[0] == s@[i as int]);
            assert(rest.drop_first() =~= s@.skip(i + 1));
            assert(s@.take(i + 1) =~= s@.take(i as int).push(s@[i as int]));
            assert(s@.take(i as int) + (seq![rest[0]] + first_word(rest.drop_first()))
                =~= s@.take(i + 1) + first_word(s@.skip(i + 1)));
        }
        i = i + 1;
    }
    proof {
        let rest = s@.skip(i as int);
        assert(first_word(rest) =~= Seq::empty());
        assert(first_word(s@) =~= s@.take(i as int));
        assert(chars@.subrange(0, i as int) =~= s@.take(i as int));
    }
    text::string_range(chars.as_slice(), 0, i)
}

pub fn has_char(s: &str, c: char) -> (r: bool)
    ensures
        r == s@.contains(c),
{
    let chars = text::chars_of(s);
    let mut i: usize = 0;
    while i < chars.len()
        invariant
            i <= chars.len(),
            chars@ == s@,
            forall|k: int| 0 <= k < i ==> s@[k] != c,
        decreases chars.len() - i,
    {
        if chars[i] == c {
            return true;
        }
        i = i + 1;
    }
    false
}

fn name_reset(subject: &str, bare_name: &str) -> (r: String)
    ensures
        r@ == reset_name(subject@, bare_name@),
{
    let word = word_at_start(subject);
    if has_char(word.as_str(), '.') {
        let bare = text::stripped(word.as_str(), '"');
        text::to_lower(bare.as_str())
    } else {
        bare_name.to_owned()
    }
}

fn setting_outlives_reset(name: &str) -> (r: bool)
    ensures
        r == outlives_reset(name@),
{
    guc::is_identity_setting(name) || text::text_eq(name, "server_version") || text::text_eq(
        name,
        "server_version_num",
    ) || text::text_eq(name, "bicdb.postgres_version_banner")
        || security::is_protected_security_setting(name)
}

fn keep_identity(given: &Settings) -> (r: Settings)
    ensures
        r@ == given@.restrict(given@.dom().filter(|name: Seq<char>| outlives_reset(name))),
{
    let names = given.names();
    let ghost all = text::views(names@);
    let mut out = Settings::new();
    let mut i: usize = 0;
    while i < names.len()
        invariant
            i <= names.len(),
            all == text::views(names@),
            forall|name: Seq<char>| #[trigger]
                out@.dom().contains(name) ==> given@.dom().contains(name) && out@[name] == given@[name]
                    && outlives_reset(name),
            forall|k: int|
                0 <= k < i && given@.dom().contains(#[trigger] all[k]) && outlives_reset(all[k])
                    ==> out@.dom().contains(all[k]),
        decreases names.len() - i,
    {
        assert(all[i as int] == names@[i as int]@);
        if setting_outlives_reset(names[i].as_str()) {
            match given.get(names[i].as_str()) {
                Some(v) => {
                    out.insert(names[i].clone(), v.to_owned());
                },
                None => {},
            }
        }
        i = i + 1;
    }
    proof {
        let kept = given@.restrict(given@.dom().filter(|name: Seq<char>| outlives_reset(name)));
        assert forall|name: Seq<char>| out@.dom().contains(name) <==> kept.dom().contains(name) by {
            if kept.dom().contains(name) {
                assert(all.contains(name));
                let k = choose|k: int| 0 <= k < all.len() && all[k] == name;
                assert(out@.dom().contains(all[k]));
            }
        }
        assert(out@ =~= kept);
    }
    out
}

impl SqlSession {
    /// Resets a setting and says what that set for good.
    fn reset_one(&mut self, c: &RoleCatalog, name: &str) -> (r: Result<(), SqlError>)
        ensures
            match (r, reset_error(old(self)@, name@)) {
                (Ok(()), None) => final(self)@ == one_reset(old(self)@, name@),
                (Err(e), Some(view)) => e@ == view && final(self)@ == old(self)@,
                _ => false,
            },
    {
        if text::text_eq(name, "bicdb.postgres_version_banner") || (
        security::is_protected_security_setting(name)
            && !self.postgres_compatibility_security_gucs_enabled()) {
            return Err(security::protected_security_setting_error(name));
        }
        if is_plain_setting(name) {
            self.guc.remove_guc(name);
            return Ok(());
        }
        if text::text_eq(name, "bicdb.vector_search") {
            let now = self.guc.settings();
            self.guc.replace_settings(
                SqlSettings {
                    vector_search: self.defaults.vector_search,
                    ef_search: now.ef_search,
                },
            );
            return Ok(());
        }
        if text::text_eq(name, "bicdb.ef_search") {
            let now = self.guc.settings();
            self.guc.replace_settings(
                SqlSettings {
                    vector_search: now.vector_search,
                    ef_search: self.defaults.ef_search,
                },
            );
            return Ok(());
        }
        if text::text_eq(name, "session_authorization") {
            return self.apply_set_session_authorization(c, None);
        }
        if text::text_eq(name, "role") {
            self.guc.remove_guc("role");
            return Ok(());
        }
        if text::text_eq(name, "bicdb.initial_session_authorization") || text::text_eq(
            name,
            "bicdb.rls_check_as",
        ) {
            return Err(
                SqlError::authorization(
                    text::concat3("parameter \"", name, "\" cannot be changed"),
                ),
            );
        }
        if has_char(name, '.') {
            self.guc.remove_guc(name);
            return Ok(());
        }
        Err(SqlError::unsupported(text::concat3("RESET ", name, " is not supported")))
    }

    /// Runs a RESET statement.
    pub fn reset_setting(&mut self, c: &RoleCatalog, s: &ResetStatement) -> (r: Result<(), SqlError>)
        ensures
            comes_to(r, final(self)@, reset_outcome(old(self)@, *s)),
    {
        let rest = match text::without_prefix(s.normalized.as_str(), "reset ") {
            Some(rest) => rest,
            None => {
                return Err(
                    SqlError::invalid_sql(
                        text::concat("invalid RESET statement ", s.written.as_str()),
                    ),
                );
            },
        };
        let subject = text::trimmed(rest.as_str());
        let previous = self.guc.copied();
        let targets: GucAssignmentTargets;
        if text::eq_ignore_case(subject.as_str(), "session authorization") {
            match self.apply_set_session_authorization(c, None) {
                Ok(()) => {},
                Err(e) => {
                    return Err(e);
                },
            }
            targets = GucAssignmentTargets::setting("session_authorization");
        } else if text::eq_ignore_case(subject.as_str(), "all") {
            targets = self.guc.reset_all_targets();
            self.guc.replace_gucs(keep_identity(previous.session_gucs()));
            self.guc.replace_settings(self.defaults);
        } else {
            let name = name_reset(subject.as_str(), s.bare_name.as_str());
            match self.reset_one(c, name.as_str()) {
                Ok(()) => {},
                Err(e) => {
                    return Err(e);
                },
            }
            targets = GucAssignmentTargets::setting(name.as_str());
        }
        self.guc.note_scoped_guc_change(
            previous.session_gucs(),
            previous.settings(),
            false,
            &targets,
        );
        Ok(())
    }

    /// Runs statements that are all RESET statements. Others are left alone.
    pub fn execute_raw_reset(&mut self, c: &RoleCatalog, list: &Vec<ResetStatement>) -> (r: Result<
        bool,
        SqlError,
    >)
        ensures
            if list@.len() == 0 || !all_resets(list@) {
                r == Ok::<bool, SqlError>(false) && final(self)@ == old(self)@
            } else {
                comes_to(r, final(self)@, reset_each(old(self)@, list@)) && (r is Ok ==> r->Ok_0)
            },
    {
        if list.len() == 0 {
            return Ok(false);
        }
        let mut i: usize = 0;
        while i < list.len()
            invariant
                i <= list.len(),
                self@ == old(self)@,
                forall|k: int|
                    0 <= k < i ==> text::starts_with(
                        (#[trigger] list@[k]).normalized@,
                        "reset "@,
                    ),
            decreases list.len() - i,
        {
            if !text::has_prefix(list[i].normalized.as_str(), "reset ") {
                assert(!text::starts_with(list@[i as int].normalized@, "reset "@));
                return Ok(false);
            }
            i = i + 1;
        }
        i = 0;
        while i < list.len()
            invariant
                i <= list.len(),
                list@.len() > 0,
                all_resets(list@),
                reset_each(old(self)@, list@.take(i as int)) == done(self@),
            decreases list.len() - i,
        {
            assert(list@.take(i + 1).drop_last() =~= list@.take(i as int));
            assert(list@.take(i + 1).last() == list@[i as int]);
            match self.reset_setting(c, &list[i]) {
                Ok(()) => {},
                Err(e) => {
                    proof {
                        lemma_failed_reset_stays(old(self)@, list@, i + 1);
                    }
                    return Err(e);
                },
            }
            i = i + 1;
        }
        assert(list@.take(list@.len() as int) =~= list@);
        Ok(true)
    }

    /// Gives up all that the session has set. In a transaction that is refused.
    pub fn discard_all(&mut self) -> (r: Result<(), SqlError>)
        ensures
            match r {
                Ok(()) => old(self)@.ddl.transaction is None && final(self)@ == discarded(
                    old(self)@,
                ),
                Err(e) => old(self)@.ddl.transaction is Some && final(self)@ == old(self)@ && e@
                    == error::invalid_sql_error(
                    "DISCARD ALL cannot run inside a transaction block"@,
                ),
            },
    {
        if self.in_transaction() {
            return Err(
                SqlError::invalid_sql(
                    "DISCARD ALL cannot run inside a transaction block".to_owned(),
                ),
            );
        }
        let mut kept = Settings::new();
        keep_setting(&mut kept, self.session_gucs(), "database", "database");
        keep_setting(
            &mut kept,
            self.session_gucs(),
            "bicdb.initial_session_authorization",
            "bicdb.initial_session_authorization",
        );
        keep_setting(
            &mut kept,
            self.session_gucs(),
            "bicdb.initial_session_authorization",
            "session_authorization",
        );
        keep_setting(
            &mut kept,
            self.session_gucs(),
            "bicdb.postgres_version_banner",
            "bicdb.postgres_version_banner",
        );
        keep_setting(&mut kept, self.session_gucs(), "server_version", "server_version");
        keep_setting(&mut kept, self.session_gucs(), "server_version_num", "server_version_num");
        let state = SqlSessionGucState::with_settings(self.defaults, kept);
        self.install_session_guc_state(state);
        Ok(())
    }
}

/// Settings with one that others have under a name, if they have it.
pub open spec fn with_kept(
    m: Map<Seq<char>, Seq<char>>,
    from: Map<Seq<char>, Seq<char>>,
    name: Seq<char>,
    under: Seq<char>,
) -> Map<Seq<char>, Seq<char>> {
    match settings::setting(from, name) {
        Some(value) => m.insert(under, value),
        None => m,
    }
}

fn keep_setting(kept: &mut Settings, from: &Settings, name: &str, under: &str)
    ensures
        final(kept)@ == with_kept(old(kept)@, from@, name@, under@),
{
    match from.get(name) {
        Some(value) => kept.insert(under.to_owned(), value.to_owned()),
        None => {},
    }
}

/// What is left of the settings when all is discarded: the database, the user
/// that the session connected as, who is its user again, and what the server says
/// of itself.
pub open spec fn kept_settings(m: Map<Seq<char>, Seq<char>>) -> Map<Seq<char>, Seq<char>> {
    let initial = "bicdb.initial_session_authorization"@;
    let banner = "bicdb.postgres_version_banner"@;
    let database = with_kept(Map::empty(), m, "database"@, "database"@);
    let identity = with_kept(
        with_kept(database, m, initial, initial),
        m,
        initial,
        "session_authorization"@,
    );
    let compatible = with_kept(identity, m, banner, banner);
    with_kept(
        with_kept(compatible, m, "server_version"@, "server_version"@),
        m,
        "server_version_num"@,
        "server_version_num"@,
    )
}

/// A session after all that it has set has been given up.
pub open spec fn discarded(v: session::SessionView) -> session::SessionView {
    session::SessionView {
        guc: guc::rebound(guc::fresh_state(v.defaults, kept_settings(v.guc.gucs)), v.context),
        ..v
    }
}

proof fn lemma_failed_reset_stays(v: session::SessionView, list: Seq<ResetStatement>, i: int)
    requires
        0 <= i <= list.len(),
        reset_each(v, list.take(i)).error is Some,
    ensures
        reset_each(v, list) == reset_each(v, list.take(i)),
    decreases list.len(),
{
    if i == list.len() {
        assert(list.take(i) =~= list);
    } else {
        assert(list.drop_last().take(i) =~= list.take(i));
        lemma_failed_reset_stays(v, list.drop_last(), i);
    }
}

/// Resetting all settings leaves the identity of the session in place.
pub proof fn law_reset_all_keeps_identity(v: session::SessionView)
    ensures
        roles::current_user(all_reset(v).guc.gucs) == roles::current_user(v.guc.gucs),
        roles::session_user(all_reset(v).guc.gucs) == roles::session_user(v.guc.gucs),
        roles::initial_session_user(all_reset(v).guc.gucs) == roles::initial_session_user(
            v.guc.gucs,
        ),
{
    assert(outlives_reset("role"@));
    assert(outlives_reset("session_authorization"@));
    assert(outlives_reset("bicdb.initial_session_authorization"@));
}

/// Where a session keeps no protected settings of its own, no RESET changes one:
/// to reset it is refused, and to reset all leaves it alone.
pub proof fn law_reset_refuses_protected(v: session::SessionView, name: Seq<char>)
    requires
        security::is_protected(name),
        !guc::keeps_protected(v.guc, v.context),
    ensures
        reset_error(v, name) == Some(security::protected_setting_error(name)),
        settings::setting(all_reset(v).guc.gucs, name) == settings::setting(v.guc.gucs, name),
{
    assert(outlives_reset(name));
}

} // verus!
