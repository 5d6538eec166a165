//! The settings of a session across its transactions.
use vstd::prelude::*;
use crate::counted::Counted;
use crate::error;
use crate::memory;
use crate::named;
use crate::security;
use crate::settings;
use crate::settings::Settings;
use crate::text;

verus! {

/// The typed settings of a session. A search mode is known by its number.
#[derive(Clone, Copy, Debug, PartialEq, Eq, Structural)]
pub struct SqlSettings {
    pub vector_search: u8,
    pub ef_search: usize,
}

/// The typed settings to go back to when the transaction ends.
#[derive(Clone, Copy, Debug, PartialEq, Eq, Structural)]
pub struct SqlSettingsRestore {
    pub vector_search: Option<u8>,
    pub ef_search: Option<usize>,
}

/// The settings as they were when the transaction began.
#[derive(Debug)]
pub struct SqlSessionGucSnapshot {
    pub settings: SqlSettings,
    pub session_gucs: Settings,
}

/// The settings of a session: the typed ones, the named ones, what they were
/// when the transaction began and the second at which it began, what goes back
/// when it commits, and the values that sequences gave last.
#[derive(Debug)]
pub struct SqlSessionGucState {
    pub(crate) settings: SqlSettings,
    pub(crate) session_gucs: Settings,
    pub(crate) transaction_start: Option<SqlSessionGucSnapshot>,
    pub(crate) transaction_timestamp_seconds: Option<i64>,
    pub(crate) local_restore: Counted<Option<String>>,
    pub(crate) local_settings_restore: SqlSettingsRestore,
    pub(crate) currvals: Counted<i64>,
}

pub struct SnapshotView {
    pub settings: SqlSettings,
    pub gucs: Map<Seq<char>, Seq<char>>,
}

#[verifier::ext_equal]
pub struct GucView {
    pub settings: SqlSettings,
    pub gucs: Map<Seq<char>, Seq<char>>,
    pub start: Option<SnapshotView>,
    pub timestamp: Option<i64>,
    pub local: Map<Seq<char>, Option<Seq<char>>>,
    pub restore: SqlSettingsRestore,
    pub currvals: Map<Seq<char>, i64>,
}

impl View for SqlSessionGucSnapshot {
    type V = SnapshotView;

    open spec fn view(&self) -> SnapshotView {
        SnapshotView { settings: self.settings, gucs: self.session_gucs@ }
    }
}

pub open spec fn snapshot_view(s: Option<SqlSessionGucSnapshot>) -> Option<SnapshotView> {
    match s {
        Some(s) => Some(s@),
        None => None,
    }
}

/// The texts that strings are.
pub open spec fn local_texts(m: Map<Seq<char>, Option<String>>) -> Map<
    Seq<char>,
    Option<Seq<char>>,
> {
    Map::new(
        |name: Seq<char>| m.dom().contains(name),
        |name: Seq<char>| error::view_option(m[name]),
    )
}

impl View for SqlSessionGucState {
    type V = GucView;

    closed spec fn view(&self) -> GucView {
        GucView {
            settings: self.settings,
            gucs: self.session_gucs@,
            start: snapshot_view(self.transaction_start),
            timestamp: self.transaction_timestamp_seconds,
            local: local_texts(self.local_restore@),
            restore: self.local_settings_restore,
            currvals: self.currvals@,
        }
    }
}

/// The memory that a state holds: its own size, its settings, those from before the
/// transaction, those to go back to, and the values of its sequences.
pub(crate) open spec fn parts_held(state: SqlSessionGucState) -> nat {
    vstd::layout::size_of::<SqlSessionGucState>() + state.session_gucs.held() + (
    match state.transaction_start {
        Some(snapshot) => vstd::layout::size_of::<SqlSessionGucSnapshot>()
            + snapshot.session_gucs.held(),
        None => 0,
    }) + state.local_restore.held() + state.currvals.held()
}

/// What a state is seen as holds what its parts are seen as.
pub(crate) proof fn lemma_parts(state: SqlSessionGucState)
    ensures
        state@.gucs == state.session_gucs@,
        state@.start == snapshot_view(state.transaction_start),
        state@.local == local_texts(state.local_restore@),
        state@.currvals == state.currvals@,
        state.held() == parts_held(state),
{
}

pub open spec fn nothing_to_restore() -> SqlSettingsRestore {
    SqlSettingsRestore { vector_search: None, ef_search: None }
}

/// The state of a session with nothing but these settings.
pub open spec fn fresh_state(settings: SqlSettings, gucs: Map<Seq<char>, Seq<char>>) -> GucView {
    GucView {
        settings,
        gucs,
        start: None,
        timestamp: None,
        local: Map::empty(),
        restore: nothing_to_restore(),
        currvals: Map::empty(),
    }
}

/// The name under which the last value of a sequence is kept.
pub open spec fn lastval_key() -> Seq<char> {
    "bicdb.lastval"@
}

/// Settings with the last sequence value that others have.
pub open spec fn with_lastval(
    m: Map<Seq<char>, Seq<char>>,
    from: Map<Seq<char>, Seq<char>>,
) -> Map<Seq<char>, Seq<char>> {
    match settings::setting(from, lastval_key()) {
        Some(value) => m.insert(lastval_key(), value),
        None => m.remove(lastval_key()),
    }
}

/// The state after a transaction has begun at a second. In a transaction nothing
/// changes.
pub open spec fn begun(v: GucView, now: i64) -> GucView {
    if v.start is Some {
        v
    } else {
        GucView {
            start: Some(SnapshotView { settings: v.settings, gucs: v.gucs }),
            timestamp: Some(now),
            ..v
        }
    }
}

/// What a state holds once a transaction has begun: what it held before, and the
/// settings of before once more.
pub open spec fn begins(before: SqlSessionGucState, after: SqlSessionGucState) -> bool {
    if before@.start is Some {
        after.held() == before.held()
    } else {
        after.held() >= before.held() + vstd::layout::size_of::<SqlSessionGucSnapshot>()
            + memory::saturated(settings::least_held(before@.gucs))
    }
}

/// Settings after those that a transaction set for itself have gone back.
pub open spec fn localless(
    m: Map<Seq<char>, Seq<char>>,
    local: Map<Seq<char>, Option<Seq<char>>>,
) -> Map<Seq<char>, Seq<char>> {
    Map::new(
        |name: Seq<char>|
            if local.dom().contains(name) {
                local[name] is Some
            } else {
                m.dom().contains(name)
            },
        |name: Seq<char>|
            if local.dom().contains(name) {
                local[name]->0
            } else {
                m[name]
            },
    )
}

/// Typed settings after those that a transaction set for itself have gone back.
pub open spec fn localless_settings(s: SqlSettings, restore: SqlSettingsRestore) -> SqlSettings {
    SqlSettings {
        vector_search: match restore.vector_search {
            Some(v) => v,
            None => s.vector_search,
        },
        ef_search: match restore.ef_search {
            Some(v) => v,
            None => s.ef_search,
        },
    }
}

/// The state after a commit.
pub open spec fn committed(v: GucView) -> GucView {
    GucView {
        settings: localless_settings(v.settings, v.restore),
        gucs: localless(v.gucs, v.local),
        start: None,
        timestamp: None,
        local: Map::empty(),
        restore: nothing_to_restore(),
        currvals: v.currvals,
    }
}

/// The state after a rollback: what was when the transaction began, but for the
/// last value of a sequence.
pub open spec fn rolled_back(v: GucView) -> GucView {
    GucView {
        settings: match v.start {
            Some(s) => s.settings,
            None => v.settings,
        },
        gucs: match v.start {
            Some(s) => with_lastval(s.gucs, v.gucs),
            None => v.gucs,
        },
        start: None,
        timestamp: None,
        local: Map::empty(),
        restore: nothing_to_restore(),
        currvals: v.currvals,
    }
}

/// The state after going back to a savepoint: all of it, but for the values of
/// sequences.
pub open spec fn restored(v: GucView, savepoint: GucView) -> GucView {
    GucView {
        gucs: with_lastval(savepoint.gucs, v.gucs),
        currvals: v.currvals,
        ..savepoint
    }
}

pub fn copied_option(s: &Option<String>) -> (r: Option<String>)
    ensures
        error::view_option(r) == error::view_option(*s),
{
    match s {
        Some(s) => Some(s.clone()),
        None => None,
    }
}

impl SqlSessionGucSnapshot {
    pub fn copied(&self) -> (s: SqlSessionGucSnapshot)
        ensures
            s@ == self@,
    {
        SqlSessionGucSnapshot {
            settings: self.settings,
            session_gucs: self.session_gucs.copied(),
        }
    }
}

fn copied_snapshot(s: &Option<SqlSessionGucSnapshot>) -> (r: Option<SqlSessionGucSnapshot>)
    ensures
        snapshot_view(r) == snapshot_view(*s),
{
    match s {
        Some(s) => Some(s.copied()),
        None => None,
    }
}

fn copied_local(m: &Counted<Option<String>>) -> (r: Counted<Option<String>>)
    ensures
        local_texts(r@) == local_texts(m@),
{
    let names = m.names();
    let ghost all = text::views(names@);
    let mut out: Counted<Option<String>> = Counted::new();
    let mut i: usize = 0;
    while i < names.len()
        invariant
            i <= names.len(),
            all == text::views(names@),
            forall|name: Seq<char>| #[trigger]
                out@.dom().contains(name) ==> m@.dom().contains(name) && error::view_option(
                    out@[name],
                ) == error::view_option(m@[name]),
            forall|k: int| 0 <= k < i && m@.dom().contains(#[trigger] all[k])
                ==> out@.dom().contains(all[k]),
        decreases names.len() - i,
    {
        assert(all[i as int] == names@[i as int]@);
        match m.get(names[i].as_str()) {
            Some(v) => {
                out.insert(names[i].clone(), copied_option(v));
            },
            None => {},
        }
        i = i + 1;
    }
    proof {
        assert forall|name: Seq<char>| out@.dom().contains(name) <==> m@.dom().contains(name) by {
            if m@.dom().contains(name) {
                assert(all.contains(name));
                let k = choose|k: int| 0 <= k < all.len() && all[k] == name;
                assert(out@.dom().contains(all[k]));
            }
        }
        assert(local_texts(out@) =~= local_texts(m@));
    }
    out
}

/// Gives settings the last sequence value that was kept.
fn keep_lastval(given: &mut Settings, lastval: Option<String>)
    ensures
        final(given)@ == (match error::view_option(lastval) {
            Some(value) => old(given)@.insert(lastval_key(), value),
            None => old(given)@.remove(lastval_key()),
        }),
{
    match lastval {
        Some(value) => given.insert("bicdb.lastval".to_owned(), value),
        None => given.remove("bicdb.lastval"),
    }
}

fn lastval_of(given: &Settings) -> (r: Option<String>)
    ensures
        error::view_option(r) == settings::setting(given@, lastval_key()),
{
    match given.get("bicdb.lastval") {
        Some(v) => Some(v.to_owned()),
        None => None,
    }
}

proof fn lemma_push_contains<T>(list: Seq<T>, item: T, other: T)
    ensures
        list.push(item).contains(other) <==> list.contains(other) || other == item,
{
    let more = list.push(item);
    if list.contains(other) {
        let k = choose|k: int| 0 <= k < list.len() && list[k] == other;
        assert(more[k] == other);
    }
    assert(more[list.len() as int] == item);
}

/// Puts back what a transaction set for itself.
fn put_back(given: &mut Settings, local: &Counted<Option<String>>)
    ensures
        final(given)@ == localless(old(given)@, local_texts(local@)),
{
    let names = local.names();
    let ghost all = text::views(names@);
    let ghost before = given@;
    let ghost texts = local_texts(local@);
    let ghost target = localless(before, texts);
    assert forall|k: int| 0 <= k < all.len() implies texts.dom().contains(#[trigger] all[k]) by {
        assert(all.contains(all[k]));
    }
    let mut i: usize = 0;
    while i < names.len()
        invariant
            i <= names.len(),
            all == text::views(names@),
            texts == local_texts(local@),
            target == localless(before, texts),
            forall|k: int| 0 <= k < all.len() ==> texts.dom().contains(#[trigger] all[k]),
            forall|name: Seq<char>| #[trigger]
                settings::setting(given@, name) == (if all.take(i as int).contains(name) {
                    settings::setting(target, name)
                } else {
                    settings::setting(before, name)
                }),
        decreases names.len() - i,
    {
        let ghost name = all[i as int];
        assert(name == names@[i as int]@);
        let ghost was = given@;
        match local.get(names[i].as_str()) {
            Some(prior) => {
                match prior {
                    Some(value) => given.insert(names[i].clone(), value.clone()),
                    None => given.remove(names[i].as_str()),
                }
            },
            None => {},
        }
        proof {
            assert(all.take(i + 1) =~= all.take(i as int).push(name));
            assert forall|other: Seq<char>| #[trigger]
                settings::setting(given@, other) == (if all.take(i + 1).contains(other) {
                    settings::setting(target, other)
                } else {
                    settings::setting(before, other)
                }) by {
                lemma_push_contains(all.take(i as int), name, other);
                if other != name {
                    assert(settings::setting(given@, other) == settings::setting(was, other));
                }
            }
        }
        i = i + 1;
    }
    proof {
        assert(all.take(all.len() as int) =~= all);
        assert forall|name: Seq<char>| settings::setting(given@, name) == settings::setting(
            target,
            name,
        ) by {
            assert(settings::setting(given@, name) == (if all.contains(name) {
                settings::setting(target, name)
            } else {
                settings::setting(before, name)
            }));
            if !all.contains(name) {
                assert(!texts.dom().contains(name));
            }
        }
        security::lemma_same_settings(given@, target);
    }
}

impl SqlSessionGucState {
    /// A state with typed settings and named ones.
    pub fn with_settings(settings: SqlSettings, session_gucs: Settings) -> (s: SqlSessionGucState)
        ensures
            s@ == fresh_state(settings, session_gucs@),
    {
        let s = SqlSessionGucState {
            settings,
            session_gucs,
            transaction_start: None,
            transaction_timestamp_seconds: None,
            local_restore: Counted::new(),
            local_settings_restore: SqlSettingsRestore { vector_search: None, ef_search: None },
            currvals: Counted::new(),
        };
        assert(s@.local =~= Map::empty());
        s
    }

    /// The state of a new session. It has no protected settings.
    pub fn from_session_gucs(session_gucs: Settings, settings: SqlSettings) -> (s:
        SqlSessionGucState)
        ensures
            s@ == fresh_state(settings, security::stripped(session_gucs@)),
    {
        let mut given = session_gucs;
        security::strip_protected_security_settings(&mut given);
        SqlSessionGucState::with_settings(settings, given)
    }

    pub fn session_gucs(&self) -> (r: &Settings)
        ensures
            r@ == self@.gucs,
    {
        &self.session_gucs
    }

    /// The typed settings.
    pub fn settings(&self) -> (r: SqlSettings)
        ensures
            r == self@.settings,
    {
        self.settings
    }

    /// Sets a setting, whatever it is.
    pub(crate) fn put_guc(&mut self, name: &str, value: String)
        ensures
            final(self)@ == (GucView { gucs: old(self)@.gucs.insert(name@, value@), ..old(self)@ }),
    {
        self.session_gucs.insert(name.to_owned(), value);
    }

    /// Takes a setting out, whatever it is.
    pub(crate) fn remove_guc(&mut self, name: &str)
        ensures
            final(self)@ == (GucView { gucs: old(self)@.gucs.remove(name@), ..old(self)@ }),
    {
        self.session_gucs.remove(name);
    }

    /// Replaces the named settings.
    pub(crate) fn replace_gucs(&mut self, gucs: Settings)
        ensures
            final(self)@ == (GucView { gucs: gucs@, ..old(self)@ }),
    {
        self.session_gucs = gucs;
    }

    /// Replaces the typed settings.
    pub(crate) fn replace_settings(&mut self, settings: SqlSettings)
        ensures
            final(self)@ == (GucView { settings, ..old(self)@ }),
    {
        self.settings = settings;
    }

    /// Sets a setting, unless it is protected.
    pub fn insert_session_guc(&mut self, key: String, value: String)
        ensures
            final(self)@ == (GucView {
                gucs: if security::is_protected(key@) {
                    old(self)@.gucs
                } else {
                    old(self)@.gucs.insert(key@, value@)
                },
                ..old(self)@
            }),
    {
        if !security::is_protected_security_setting(key.as_str()) {
            self.session_gucs.insert(key, value);
        }
    }

    pub fn transaction_active(&self) -> (r: bool)
        ensures
            r == (self@.start is Some),
    {
        self.transaction_start.is_some()
    }

    /// The memory that the state holds.
    pub closed spec fn held(&self) -> nat {
        parts_held(*self)
    }

    /// Begins a transaction at the second `now`.
    pub fn begin_transaction(&mut self, now: i64)
        ensures
            final(self)@ == begun(old(self)@, now),
            begins(*old(self), *final(self)),
    {
        if self.transaction_start.is_none() {
            self.transaction_start = Some(
                SqlSessionGucSnapshot {
                    settings: self.settings,
                    session_gucs: self.session_gucs.copied(),
                },
            );
            self.transaction_timestamp_seconds = Some(now);
        }
    }

    pub fn commit_transaction(&mut self)
        ensures
            final(self)@ == committed(old(self)@),
    {
        let ghost before = self@;
        put_back(&mut self.session_gucs, &self.local_restore);
        self.local_restore = Counted::new();
        match self.local_settings_restore.vector_search {
            Some(v) => {
                self.settings = SqlSettings { vector_search: v, ef_search: self.settings.ef_search };
            },
            None => {},
        }
        match self.local_settings_restore.ef_search {
            Some(v) => {
                self.settings = SqlSettings {
                    vector_search: self.settings.vector_search,
                    ef_search: v,
                };
            },
            None => {},
        }
        self.local_settings_restore = SqlSettingsRestore { vector_search: None, ef_search: None };
        self.transaction_start = None;
        self.transaction_timestamp_seconds = None;
        assert(self@.local =~= Map::empty());
    }

    pub fn rollback_transaction(&mut self)
        ensures
            final(self)@ == rolled_back(old(self)@),
    {
        let start = self.transaction_start.take();
        match start {
            Some(start) => {
                let lastval = lastval_of(&self.session_gucs);
                self.settings = start.settings;
                self.session_gucs = start.session_gucs;
                keep_lastval(&mut self.session_gucs, lastval);
            },
            None => {},
        }
        self.local_restore = Counted::new();
        self.local_settings_restore = SqlSettingsRestore { vector_search: None, ef_search: None };
        self.transaction_timestamp_seconds = None;
        assert(self@.local =~= Map::empty());
    }

    pub fn restore_savepoint(&mut self, savepoint: &SqlSessionGucState)
        ensures
            final(self)@ == restored(old(self)@, savepoint@),
    {
        let lastval = lastval_of(&self.session_gucs);
        self.settings = savepoint.settings;
        self.session_gucs = savepoint.session_gucs.copied();
        self.transaction_start = copied_snapshot(&savepoint.transaction_start);
        self.transaction_timestamp_seconds = savepoint.transaction_timestamp_seconds;
        self.local_restore = copied_local(&savepoint.local_restore);
        self.local_settings_restore = savepoint.local_settings_restore;
        keep_lastval(&mut self.session_gucs, lastval);
    }
}

/// The state after going back to a savepoint in a transaction that goes on.
pub open spec fn set_back(v: GucView, mark: GucView) -> GucView {
    GucView {
        settings: mark.settings,
        gucs: with_lastval(mark.gucs, v.gucs),
        local: mark.local,
        restore: mark.restore,
        ..v
    }
}

/// The state that a statement that failed leaves: the one from before it, with
/// the sequence values of now.
pub open spec fn without_statement(v: GucView, mark: GucView) -> GucView {
    GucView { currvals: v.currvals, ..mark }
}

/// Settings with a sequence value that others have, if they have one.
pub open spec fn with_later_lastval(
    m: Map<Seq<char>, Seq<char>>,
    from: Map<Seq<char>, Seq<char>>,
) -> Map<Seq<char>, Seq<char>> {
    match settings::setting(from, lastval_key()) {
        Some(value) => m.insert(lastval_key(), value),
        None => m,
    }
}

impl SqlSessionGucState {
    /// Goes back to a savepoint in a transaction that goes on.
    pub fn set_back(&mut self, mark: &SqlSessionGucState)
        ensures
            final(self)@ == set_back(old(self)@, mark@),
    {
        let lastval = lastval_of(&self.session_gucs);
        self.settings = mark.settings;
        self.session_gucs = mark.session_gucs.copied();
        keep_lastval(&mut self.session_gucs, lastval);
        self.local_restore = copied_local(&mark.local_restore);
        self.local_settings_restore = mark.local_settings_restore;
    }

    /// The state from before a statement, with the sequence values of now, and the
    /// last of them.
    pub fn without_statement(&self, mark: &SqlSessionGucState) -> (r: (
        SqlSessionGucState,
        Option<String>,
    ))
        ensures
            (r.0)@ == without_statement(self@, mark@),
            error::view_option(r.1) == settings::setting(self@.gucs, lastval_key()),
    {
        let mut state = mark.copied();
        state.currvals = copied_numbers(&self.currvals);
        (state, lastval_of(&self.session_gucs))
    }

    /// Keeps a sequence value as the last one, if there is one.
    pub fn put_lastval(&mut self, lastval: Option<String>)
        ensures
            final(self)@ == (GucView {
                gucs: match error::view_option(lastval) {
                    Some(value) => old(self)@.gucs.insert(lastval_key(), value),
                    None => old(self)@.gucs,
                },
                ..old(self)@
            }),
    {
        match lastval {
            Some(value) => self.session_gucs.insert("bicdb.lastval".to_owned(), value),
            None => {},
        }
    }

    /// The second at which the transaction began.
    pub fn transaction_timestamp(&self) -> (r: Option<i64>)
        ensures
            r == self@.timestamp,
    {
        self.transaction_timestamp_seconds
    }
}

/// What goes back at the end of a transaction after a change of the settings
/// from `before` to `after`. A local change has the settings go back that it
/// changed, to what they were before the first such change; another change takes
/// them out of those that go back.
pub open spec fn reconciled_local(
    before: Map<Seq<char>, Seq<char>>,
    after: Map<Seq<char>, Seq<char>>,
    local: Map<Seq<char>, Option<Seq<char>>>,
    is_local: bool,
) -> Map<Seq<char>, Option<Seq<char>>> {
    Map::new(
        |name: Seq<char>|
            if settings::setting(before, name) == settings::setting(after, name) {
                local.dom().contains(name)
            } else {
                is_local
            },
        |name: Seq<char>|
            if local.dom().contains(name) {
                local[name]
            } else {
                settings::setting(before, name)
            },
    )
}

/// As `reconciled_local`, for one typed setting.
pub open spec fn reconciled_one<T>(before: T, after: T, restore: Option<T>, is_local: bool) -> Option<
    T,
> {
    if before == after {
        restore
    } else if !is_local {
        None
    } else if restore is Some {
        restore
    } else {
        Some(before)
    }
}

/// The state after a change from `before` has been noted.
pub open spec fn reconciled(
    v: GucView,
    before: Map<Seq<char>, Seq<char>>,
    settings: SqlSettings,
    is_local: bool,
) -> GucView {
    GucView {
        local: reconciled_local(before, v.gucs, v.local, is_local),
        restore: SqlSettingsRestore {
            vector_search: reconciled_one(
                settings.vector_search,
                v.settings.vector_search,
                v.restore.vector_search,
                is_local,
            ),
            ef_search: reconciled_one(
                settings.ef_search,
                v.settings.ef_search,
                v.restore.ef_search,
                is_local,
            ),
        },
        ..v
    }
}

fn same_value(a: Option<&str>, b: Option<&str>) -> (r: bool)
    ensures
        r == (text::view_str(a) == text::view_str(b)),
{
    match (a, b) {
        (Some(a), Some(b)) => text::text_eq(a, b),
        (None, None) => true,
        _ => false,
    }
}

/// Notes a change of one setting.
fn reconcile_name(
    before: &Settings,
    after: &Settings,
    local: &mut Counted<Option<String>>,
    name: &str,
    is_local: bool,
)
    ensures
        forall|other: Seq<char>|
            other != name@ ==> #[trigger] named::value(local_texts(final(local)@), other)
                == named::value(local_texts(old(local)@), other),
        named::value(local_texts(final(local)@), name@) == (if settings::setting(before@, name@)
            == settings::setting(after@, name@) {
            named::value(local_texts(old(local)@), name@)
        } else if !is_local {
            None
        } else if old(local)@.dom().contains(name@) {
            named::value(local_texts(old(local)@), name@)
        } else {
            Some(settings::setting(before@, name@))
        }),
{
    let was = before.get(name);
    if same_value(was, after.get(name)) {
        return ;
    }
    if !is_local {
        local.remove(name);
        return ;
    }
    let absent = local.get(name).is_none();
    if absent {
        let prior = match was {
            Some(v) => Some(v.to_owned()),
            None => None,
        };
        local.insert(name.to_owned(), prior);
    }
}

proof fn lemma_same_local(
    a: Map<Seq<char>, Option<Seq<char>>>,
    b: Map<Seq<char>, Option<Seq<char>>>,
)
    requires
        forall|name: Seq<char>| named::value(a, name) == named::value(b, name),
    ensures
        a == b,
{
    assert forall|name: Seq<char>| a.dom().contains(name) <==> b.dom().contains(name) by {
        assert(named::value(a, name) == named::value(b, name));
    }
    assert forall|name: Seq<char>| a.dom().contains(name) implies a[name] == b[name] by {
        assert(named::value(a, name) == named::value(b, name));
    }
    assert(a =~= b);
}

/// Notes a change of the settings with some of the names.
fn reconcile_names(
    before: &Settings,
    after: &Settings,
    local: &mut Counted<Option<String>>,
    names: &Vec<String>,
    is_local: bool,
)
    ensures
        forall|name: Seq<char>| #[trigger]
            named::value(local_texts(final(local)@), name) == (if text::views(names@).contains(name) {
                named::value(
                    reconciled_local(before@, after@, local_texts(old(local)@), is_local),
                    name,
                )
            } else {
                named::value(local_texts(old(local)@), name)
            }),
{
    let ghost all = text::views(names@);
    let ghost given = local_texts(local@);
    let ghost target = reconciled_local(before@, after@, given, is_local);
    let mut i: usize = 0;
    while i < names.len()
        invariant
            i <= names.len(),
            all == text::views(names@),
            given == local_texts(old(local)@),
            target == reconciled_local(before@, after@, given, is_local),
            forall|name: Seq<char>| #[trigger]
                named::value(local_texts(local@), name) == (if all.take(i as int).contains(name) {
                    named::value(target, name)
                } else {
                    named::value(given, name)
                }),
        decreases names.len() - i,
    {
        let ghost name = all[i as int];
        assert(name == names@[i as int]@);
        let ghost was = local_texts(local@);
        let ghost held = local@.dom().contains(name);
        assert(held == (named::value(was, name) is Some));
        reconcile_name(before, after, local, names[i].as_str(), is_local);
        proof {
            assert(all.take(i + 1) =~= all.take(i as int).push(name));
            assert forall|other: Seq<char>| #[trigger]
                named::value(local_texts(local@), other) == (if all.take(i + 1).contains(other) {
                    named::value(target, other)
                } else {
                    named::value(given, other)
                }) by {
                lemma_push_contains(all.take(i as int), name, other);
                assert(named::value(was, name) == (if all.take(i as int).contains(name) {
                    named::value(target, name)
                } else {
                    named::value(given, name)
                }));
                if other != name {
                    assert(named::value(local_texts(local@), other) == named::value(was, other));
                }
            }
        }
        i = i + 1;
    }
    assert(all.take(all.len() as int) =~= all);
}

impl SqlSessionGucState {
    /// Notes a change of the settings from what they were before.
    pub fn reconcile_guc_assignments(
        &mut self,
        previous_gucs: &Settings,
        previous_settings: SqlSettings,
        local: bool,
    )
        ensures
            final(self)@ == reconciled(old(self)@, previous_gucs@, previous_settings, local),
    {
        let ghost given = local_texts(self.local_restore@);
        let ghost target = reconciled_local(previous_gucs@, self.session_gucs@, given, local);
        let names = previous_gucs.names();
        let more = self.session_gucs.names();
        reconcile_names(
            previous_gucs,
            &self.session_gucs,
            &mut self.local_restore,
            &names,
            local,
        );
        let ghost between = local_texts(self.local_restore@);
        reconcile_names(
            previous_gucs,
            &self.session_gucs,
            &mut self.local_restore,
            &more,
            local,
        );
        proof {
            let now = local_texts(self.local_restore@);
            assert forall|name: Seq<char>| named::value(now, name) == named::value(target, name) by {
                let first = named::value(between, name);
                assert(first == (if text::views(names@).contains(name) {
                    named::value(target, name)
                } else {
                    named::value(given, name)
                }));
                let again = reconciled_local(previous_gucs@, self.session_gucs@, between, local);
                assert(named::value(now, name) == (if text::views(more@).contains(name) {
                    named::value(again, name)
                } else {
                    named::value(between, name)
                }));
            }
            lemma_same_local(now, target);
        }
        let restore = self.local_settings_restore;
        let mut vector_search = restore.vector_search;
        if previous_settings.vector_search != self.settings.vector_search {
            if !local {
                vector_search = None;
            } else if vector_search.is_none() {
                vector_search = Some(previous_settings.vector_search);
            }
        }
        let mut ef_search = restore.ef_search;
        if previous_settings.ef_search != self.settings.ef_search {
            if !local {
                ef_search = None;
            } else if ef_search.is_none() {
                ef_search = Some(previous_settings.ef_search);
            }
        }
        self.local_settings_restore = SqlSettingsRestore { vector_search, ef_search };
    }
}

/// A local change is gone after the commit: the settings are then what a commit
/// without the change had made them.
pub proof fn law_local_change_ends(v: GucView, gucs: Map<Seq<char>, Seq<char>>, settings: SqlSettings)
    ensures
        committed(reconciled(GucView { gucs, settings, ..v }, v.gucs, v.settings, true)) == committed(
            v,
        ),
{
    let r = reconciled(GucView { gucs, settings, ..v }, v.gucs, v.settings, true);
    let a = committed(r).gucs;
    let b = committed(v).gucs;
    assert forall|name: Seq<char>| settings::setting(a, name) == settings::setting(b, name) by {
        assert(settings::setting(v.gucs, name) == settings::setting(gucs, name)
            || settings::setting(v.gucs, name) != settings::setting(gucs, name));
    }
    security::lemma_same_settings(a, b);
}

/// A change that is not local outlives the commit, for each setting that it
/// changes.
pub proof fn law_session_change_stays(
    v: GucView,
    gucs: Map<Seq<char>, Seq<char>>,
    settings: SqlSettings,
    name: Seq<char>,
)
    requires
        settings::setting(v.gucs, name) != settings::setting(gucs, name),
    ensures
        settings::setting(
            committed(reconciled(GucView { gucs, settings, ..v }, v.gucs, v.settings, false)).gucs,
            name,
        ) == settings::setting(gucs, name),
{
}

/// The state without protected settings.
pub open spec fn stripped_state(v: GucView) -> GucView {
    GucView {
        gucs: security::stripped(v.gucs),
        start: match v.start {
            Some(s) => Some(SnapshotView { gucs: security::stripped(s.gucs), ..s }),
            None => None,
        },
        local: security::stripped(v.local),
        ..v
    }
}

/// Whether a session keeps protected settings that no context gave it.
pub open spec fn keeps_protected(v: GucView, context: Option<security::ContextView>) -> bool {
    context is None && security::offers_compatibility(v.gucs)
}

/// The state bound to a security context.
pub open spec fn rebound(v: GucView, context: Option<security::ContextView>) -> GucView {
    GucView {
        gucs: security::bound(v.gucs, context),
        start: match v.start {
            Some(s) => Some(SnapshotView { gucs: security::bound(s.gucs, context), ..s }),
            None => None,
        },
        local: if keeps_protected(v, context) {
            v.local
        } else {
            security::stripped(v.local)
        },
        ..v
    }
}

fn strip_local(local: &mut Counted<Option<String>>)
    ensures
        local_texts(final(local)@) == security::stripped(local_texts(old(local)@)),
{
    let names = local.names();
    let ghost all = text::views(names@);
    let ghost before = local@;
    let mut i: usize = 0;
    while i < names.len()
        invariant
            i <= names.len(),
            all == text::views(names@),
            before == old(local)@,
            forall|name: Seq<char>| #[trigger] local@.dom().contains(name) ==> before.dom().contains(
                name,
            ) && local@[name] == before[name],
            forall|name: Seq<char>|
                before.dom().contains(name) && !security::is_protected(name)
                    ==> #[trigger] local@.dom().contains(name),
            forall|k: int|
                0 <= k < i && security::is_protected(#[trigger] all[k]) ==> !local@.dom().contains(
                    all[k],
                ),
        decreases names.len() - i,
    {
        assert(all[i as int] == names@[i as int]@);
        if security::is_protected_security_setting(names[i].as_str()) {
            local.remove(names[i].as_str());
        }
        i = i + 1;
    }
    proof {
        assert forall|name: Seq<char>| local@.dom().contains(name) implies !security::is_protected(
            name,
        ) by {
            assert(all.contains(name));
            let k = choose|k: int| 0 <= k < all.len() && all[k] == name;
            assert(all[k] == name);
        }
        assert(local_texts(local@) =~= security::stripped(local_texts(before)));
    }
}

impl SqlSessionGucState {
    /// Takes the protected settings out.
    pub fn strip_protected_security_settings(&mut self)
        ensures
            final(self)@ == stripped_state(old(self)@),
    {
        security::strip_protected_security_settings(&mut self.session_gucs);
        match self.transaction_start.take() {
            Some(start) => {
                let mut snapshot = start;
                security::strip_protected_security_settings(&mut snapshot.session_gucs);
                self.transaction_start = Some(snapshot);
            },
            None => {},
        }
        strip_local(&mut self.local_restore);
    }

    /// Binds the protected settings to a security context.
    pub fn rebind_trusted_security_settings(&mut self, context: &Option<security::SecurityContext>)
        ensures
            final(self)@ == rebound(old(self)@, security::context_view(*context)),
    {
        let keep = context.is_none() && security::postgres_compatibility_gucs_enabled(
            &self.session_gucs,
        );
        security::bind_trusted_security_settings(&mut self.session_gucs, context);
        match self.transaction_start.take() {
            Some(start) => {
                let mut snapshot = start;
                security::bind_trusted_security_settings(&mut snapshot.session_gucs, context);
                self.transaction_start = Some(snapshot);
            },
            None => {},
        }
        if !keep {
            strip_local(&mut self.local_restore);
        }
    }

    /// The same state.
    pub fn copied(&self) -> (s: SqlSessionGucState)
        ensures
            s@ == self@,
    {
        let s = SqlSessionGucState {
            settings: self.settings,
            session_gucs: self.session_gucs.copied(),
            transaction_start: copied_snapshot(&self.transaction_start),
            transaction_timestamp_seconds: self.transaction_timestamp_seconds,
            local_restore: copied_local(&self.local_restore),
            local_settings_restore: self.local_settings_restore,
            currvals: copied_numbers(&self.currvals),
        };
        s
    }
}

fn copied_numbers(m: &Counted<i64>) -> (r: Counted<i64>)
    ensures
        r@ == m@,
{
    let names = m.names();
    let ghost all = text::views(names@);
    let mut out: Counted<i64> = Counted::new();
    let mut i: usize = 0;
    while i < names.len()
        invariant
            i <= names.len(),
            all == text::views(names@),
            forall|name: Seq<char>| #[trigger]
                out@.dom().contains(name) ==> m@.dom().contains(name) && out@[name] == m@[name],
            forall|k: int| 0 <= k < i && m@.dom().contains(#[trigger] all[k])
                ==> out@.dom().contains(all[k]),
        decreases names.len() - i,
    {
        assert(all[i as int] == names@[i as int]@);
        match m.get(names[i].as_str()) {
            Some(v) => {
                out.insert(names[i].clone(), *v);
            },
            None => {},
        }
        i = i + 1;
    }
    proof {
        assert forall|name: Seq<char>| out@.dom().contains(name) <==> m@.dom().contains(name) by {
            if m@.dom().contains(name) {
                assert(all.contains(name));
                let k = choose|k: int| 0 <= k < all.len() && all[k] == name;
                assert(out@.dom().contains(all[k]));
            }
        }
        assert(out@ =~= m@);
    }
    out
}

/// What an assignment sets for good: the settings that no longer go back.
#[derive(Debug)]
pub struct GucAssignmentTargets {
    pub gucs: Vec<String>,
    pub vector_search: bool,
    pub ef_search: bool,
}

pub struct TargetsView {
    pub gucs: Set<Seq<char>>,
    pub vector_search: bool,
    pub ef_search: bool,
}

impl View for GucAssignmentTargets {
    type V = TargetsView;

    open spec fn view(&self) -> TargetsView {
        TargetsView {
            gucs: text::views(self.gucs@).to_set(),
            vector_search: self.vector_search,
            ef_search: self.ef_search,
        }
    }
}

/// What an assignment to a setting sets. One that sets the session's
/// authorization also sets the role.
pub open spec fn setting_targets(setting: Seq<char>) -> TargetsView {
    if setting == "bicdb.vector_search"@ {
        TargetsView { gucs: Set::empty(), vector_search: true, ef_search: false }
    } else if setting == "bicdb.ef_search"@ {
        TargetsView { gucs: Set::empty(), vector_search: false, ef_search: true }
    } else if setting == "session_authorization"@ {
        TargetsView {
            gucs: set!["session_authorization"@, "role"@],
            vector_search: false,
            ef_search: false,
        }
    } else {
        TargetsView { gucs: set![setting], vector_search: false, ef_search: false }
    }
}

/// The settings that make up the identity of a session.
pub open spec fn is_identity(name: Seq<char>) -> bool {
    name == "session_authorization"@ || name == "role"@ || name
        == "bicdb.initial_session_authorization"@
}

/// What resetting all settings sets: all but the identity of the session.
pub open spec fn reset_all_targets(local: Map<Seq<char>, Option<Seq<char>>>) -> TargetsView {
    TargetsView {
        gucs: local.dom().filter(|name: Seq<char>| !is_identity(name)),
        vector_search: true,
        ef_search: true,
    }
}

/// The state in which what an assignment set no longer goes back.
pub open spec fn cleared(v: GucView, targets: TargetsView) -> GucView {
    GucView {
        local: v.local.restrict(v.local.dom().difference(targets.gucs)),
        restore: SqlSettingsRestore {
            vector_search: if targets.vector_search {
                None
            } else {
                v.restore.vector_search
            },
            ef_search: if targets.ef_search {
                None
            } else {
                v.restore.ef_search
            },
        },
        ..v
    }
}

/// The state after a change within a scope has been noted.
pub open spec fn scoped(
    v: GucView,
    before: Map<Seq<char>, Seq<char>>,
    settings: SqlSettings,
    is_local: bool,
    targets: TargetsView,
) -> GucView {
    let noted = reconciled(v, before, settings, is_local);
    if is_local {
        noted
    } else {
        cleared(noted, targets)
    }
}

pub fn is_identity_setting(name: &str) -> (r: bool)
    ensures
        r == is_identity(name@),
{
    text::text_eq(name, "session_authorization") || text::text_eq(name, "role") || text::text_eq(
        name,
        "bicdb.initial_session_authorization",
    )
}

impl GucAssignmentTargets {
    pub fn setting(setting: &str) -> (t: GucAssignmentTargets)
        ensures
            t@ == setting_targets(setting@),
    {
        let mut gucs: Vec<String> = Vec::new();
        let vector_search = text::text_eq(setting, "bicdb.vector_search");
        let ef_search = !vector_search && text::text_eq(setting, "bicdb.ef_search");
        assert(text::views(gucs@) =~= Seq::empty());
        if vector_search || ef_search {
        } else if text::text_eq(setting, "session_authorization") {
            gucs.push("session_authorization".to_owned());
            gucs.push("role".to_owned());
            assert(text::views(gucs@) =~= seq!["session_authorization"@, "role"@]);
            assert(text::views(gucs@)[0] == "session_authorization"@);
            assert(text::views(gucs@)[1] == "role"@);
        } else {
            gucs.push(setting.to_owned());
            assert(text::views(gucs@) =~= seq![setting@]);
            assert(text::views(gucs@)[0] == setting@);
        }
        assert(text::views(gucs@).to_set() =~= setting_targets(setting@).gucs);
        GucAssignmentTargets { gucs, vector_search, ef_search }
    }
}

impl SqlSessionGucState {
    /// What resetting all settings sets.
    pub fn reset_all_targets(&self) -> (t: GucAssignmentTargets)
        ensures
            t@ == reset_all_targets(self@.local),
    {
        let names = self.local_restore.names();
        let ghost all = text::views(names@);
        let ghost local = local_texts(self.local_restore@);
        let mut gucs: Vec<String> = Vec::new();
        assert(text::views(gucs@) =~= Seq::empty());
        let mut i: usize = 0;
        while i < names.len()
            invariant
                i <= names.len(),
                all == text::views(names@),
                forall|name: Seq<char>| #[trigger]
                    text::views(gucs@).contains(name) <==> all.take(i as int).contains(name)
                        && !is_identity(name),
            decreases names.len() - i,
        {
            assert(all[i as int] == names@[i as int]@);
            assert(all.take(i + 1) =~= all.take(i as int).push(all[i as int]));
            let ghost prior = gucs@;
            if !is_identity_setting(names[i].as_str()) {
                gucs.push(names[i].clone());
                assert(text::views(gucs@) =~= text::views(prior).push(all[i as int]));
            }
            proof {
                assert forall|name: Seq<char>| #[trigger] text::views(gucs@).contains(name)
                    <==> all.take(i + 1).contains(name) && !is_identity(name) by {
                    lemma_push_contains(all.take(i as int), all[i as int], name);
                    lemma_push_contains(text::views(prior), all[i as int], name);
                }
            }
            i = i + 1;
        }
        assert(all.take(all.len() as int) =~= all);
        assert(text::views(gucs@).to_set() =~= reset_all_targets(local).gucs);
        GucAssignmentTargets { gucs, vector_search: true, ef_search: true }
    }

    /// Has what an assignment set no longer go back.
    pub fn clear_local_restore(&mut self, targets: &GucAssignmentTargets)
        ensures
            final(self)@ == cleared(old(self)@, targets@),
    {
        let ghost all = text::views(targets.gucs@);
        let ghost before = self@;
        let mut i: usize = 0;
        while i < targets.gucs.len()
            invariant
                i <= targets.gucs.len(),
                all == text::views(targets.gucs@),
                before == old(self)@,
                self@ == (GucView { local: self@.local, ..before }),
                self@.local == before.local.restrict(
                    before.local.dom().difference(all.take(i as int).to_set()),
                ),
            decreases targets.gucs.len() - i,
        {
            let ghost was = self.local_restore@;
            assert(all[i as int] == targets.gucs@[i as int]@);
            assert(all.take(i + 1) =~= all.take(i as int).push(all[i as int]));
            self.local_restore.remove(targets.gucs[i].as_str());
            proof {
                assert(local_texts(self.local_restore@) =~= local_texts(was).remove(all[i as int]));
                assert forall|name: Seq<char>| all.take(i + 1).contains(name) <==> all.take(
                    i as int,
                ).contains(name) || name == all[i as int] by {
                    lemma_push_contains(all.take(i as int), all[i as int], name);
                }
                assert(self@.local =~= before.local.restrict(
                    before.local.dom().difference(all.take(i + 1).to_set()),
                ));
            }
            i = i + 1;
        }
        assert(all.take(all.len() as int) =~= all);
        let restore = self.local_settings_restore;
        self.local_settings_restore = SqlSettingsRestore {
            vector_search: if targets.vector_search {
                None
            } else {
                restore.vector_search
            },
            ef_search: if targets.ef_search {
                None
            } else {
                restore.ef_search
            },
        };
    }

    /// Notes a change within a scope.
    pub fn note_scoped_guc_change(
        &mut self,
        previous_gucs: &Settings,
        previous_settings: SqlSettings,
        local: bool,
        targets: &GucAssignmentTargets,
    )
        ensures
            final(self)@ == scoped(
                old(self)@,
                previous_gucs@,
                previous_settings,
                local,
                targets@,
            ),
    {
        self.reconcile_guc_assignments(previous_gucs, previous_settings, local);
        if !local {
            self.clear_local_restore(targets);
        }
    }
}

/// What a session assigns for good outlives the commit, even where a local
/// assignment came before it in the transaction.
pub proof fn law_assignment_stays(
    v: GucView,
    gucs: Map<Seq<char>, Seq<char>>,
    settings: SqlSettings,
    targets: TargetsView,
    name: Seq<char>,
)
    requires
        targets.gucs.contains(name),
    ensures
        settings::setting(
            committed(
                scoped(GucView { gucs, settings, ..v }, v.gucs, v.settings, false, targets),
            ).gucs,
            name,
        ) == settings::setting(gucs, name),
{
}

/// Binding a state twice to one context is binding it once.
pub proof fn law_rebound_twice(v: GucView, context: Option<security::ContextView>)
    ensures
        rebound(rebound(v, context), context) == rebound(v, context),
{
    security::law_bound_twice(v.gucs, context);
    if v.start is Some {
        security::law_bound_twice(v.start->0.gucs, context);
    }
    security::law_stripped(v.local);
    security::law_stripped(security::stripped(v.local));
}

/// A transaction that has begun does not begin again.
pub proof fn law_begin_twice(v: GucView, first: i64, second: i64)
    ensures
        begun(begun(v, first), second) == begun(v, first),
        begun(v, first).start is Some,
{
}

/// Whatever a transaction does to the settings, its rollback brings back what
/// was before it began, but for the values of sequences.
pub proof fn law_rollback(v: GucView, now: i64, later: GucView, name: Seq<char>)
    requires
        v.start is None,
        later.start == begun(v, now).start,
    ensures
        rolled_back(later).settings == v.settings,
        name != lastval_key() ==> settings::setting(rolled_back(later).gucs, name)
            == settings::setting(v.gucs, name),
        settings::setting(rolled_back(later).gucs, lastval_key()) == settings::setting(
            later.gucs,
            lastval_key(),
        ),
        rolled_back(later).start is None,
{
}

/// A transaction that sets nothing leaves the settings as they were, however it
/// ends.
pub proof fn law_idle_transaction(v: GucView, now: i64)
    requires
        v == fresh_state(v.settings, v.gucs),
    ensures
        committed(begun(v, now)) == v,
        rolled_back(begun(v, now)) == v,
{
    assert(localless(v.gucs, Map::empty()) =~= v.gucs);
    assert(with_lastval(v.gucs, v.gucs) =~= v.gucs);
}

/// A transaction ends once: to commit or to roll back again changes nothing.
pub proof fn law_end_twice(v: GucView)
    ensures
        committed(committed(v)) == committed(v),
        rolled_back(rolled_back(v)) == rolled_back(v),
        committed(rolled_back(v)) == rolled_back(v),
        rolled_back(committed(v)) == committed(v),
{
    let c = committed(v);
    assert(localless(c.gucs, Map::empty()) =~= c.gucs);
    let r = rolled_back(v);
    assert(localless(r.gucs, Map::empty()) =~= r.gucs);
}

/// Going back to a savepoint a second time changes nothing, and no savepoint
/// takes a sequence back.
pub proof fn law_savepoint(v: GucView, savepoint: GucView)
    ensures
        restored(restored(v, savepoint), savepoint) == restored(v, savepoint),
        restored(v, savepoint).currvals == v.currvals,
        settings::setting(restored(v, savepoint).gucs, lastval_key()) == settings::setting(
            v.gucs,
            lastval_key(),
        ),
        restored(v, v) == v,
{
    assert(with_lastval(savepoint.gucs, with_lastval(savepoint.gucs, v.gucs)) =~= with_lastval(
        savepoint.gucs,
        v.gucs,
    ));
    assert(with_lastval(v.gucs, v.gucs) =~= v.gucs);
}

} // verus!
