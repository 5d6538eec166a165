//! The transactions and statements of a session.
use vstd::prelude::*;
use crate::ddl;
use crate::ddl_session;
use crate::error;
use crate::error::{SqlError, SqlErrorKind};
use crate::guc;
use crate::guc::SqlSessionGucState;
use crate::session;
use crate::session::{SavepointMark, SqlSession};
use crate::settings;
use crate::text;

verus! {

/// A session whose settings have begun a transaction at a second.
pub open spec fn guc_begun(v: session::SessionView, now: i64) -> session::SessionView {
    session::SessionView {
        guc: guc::rebound(guc::begun(session::loosened(v.guc, v.context), now), v.context),
        ..v
    }
}

/// A session whose settings have committed.
pub open spec fn guc_committed(v: session::SessionView) -> session::SessionView {
    session::SessionView {
        guc: guc::rebound(guc::committed(session::loosened(v.guc, v.context)), v.context),
        ..v
    }
}

/// A session whose settings have been rolled back.
pub open spec fn guc_rolled_back(v: session::SessionView) -> session::SessionView {
    session::SessionView {
        guc: guc::rebound(guc::rolled_back(session::loosened(v.guc, v.context)), v.context),
        ..v
    }
}

/// What a statement runs in: whether it began a transaction of its own for the
/// settings, the second that it runs at, the time zone, and how intervals are
/// written.
#[derive(Debug)]
pub struct StatementScope {
    pub started: bool,
    pub timestamp: i64,
    pub timezone: String,
    pub interval_style: String,
}

pub struct ScopeView {
    pub started: bool,
    pub timestamp: i64,
    pub timezone: Seq<char>,
    pub interval_style: Seq<char>,
}

impl View for StatementScope {
    type V = ScopeView;

    open spec fn view(&self) -> ScopeView {
        ScopeView {
            started: self.started,
            timestamp: self.timestamp,
            timezone: self.timezone@,
            interval_style: self.interval_style@,
        }
    }
}

/// A setting, or its default, or else a fallback.
pub open spec fn setting_or(
    m: Map<Seq<char>, Seq<char>>,
    name: Seq<char>,
    default: Option<Seq<char>>,
    fallback: Seq<char>,
) -> Seq<char> {
    match settings::setting(m, name) {
        Some(value) => value,
        None => match default {
            Some(value) => value,
            None => fallback,
        },
    }
}

fn setting_value(
    given: &settings::Settings,
    name: &str,
    default: &Option<String>,
    fallback: &str,
) -> (r: String)
    ensures
        r@ == setting_or(given@, name@, error::view_option(*default), fallback@),
{
    match given.get(name) {
        Some(value) => value.to_owned(),
        None => match default {
            Some(value) => value.clone(),
            None => fallback.to_owned(),
        },
    }
}

/// The last savepoint with a name.
pub open spec fn last_named(marks: Seq<session::MarkView>, name: Seq<char>) -> Option<int>
    decreases marks.len(),
{
    if marks.len() == 0 {
        None
    } else if marks.last().name == name {
        Some(marks.len() - 1)
    } else {
        last_named(marks.drop_last(), name)
    }
}

fn find_savepoint(marks: &Vec<SavepointMark>, name: &str) -> (r: Option<usize>)
    ensures
        match (r, last_named(session::mark_views(marks@), name@)) {
            (Some(at), Some(view)) => at == view && at < marks@.len(),
            (None, None) => true,
            _ => false,
        },
{
    let ghost all = session::mark_views(marks@);
    let mut i: usize = marks.len();
    assert(all.take(i as int) =~= all);
    while i > 0
        invariant
            i <= marks.len(),
            all == session::mark_views(marks@),
            last_named(all, name@) == last_named(all.take(i as int), name@),
        decreases i,
    {
        assert(all.take(i as int).last() == marks@[i - 1]@);
        assert(all.take(i as int).drop_last() =~= all.take(i - 1));
        if text::text_eq(marks[i - 1].name.as_str(), name) {
            return Some(i - 1);
        }
        i = i - 1;
    }
    None
}

fn keep_first(marks: &mut Vec<SavepointMark>, len: usize)
    ensures
        session::mark_views(final(marks)@) == (if old(marks)@.len() <= len {
            session::mark_views(old(marks)@)
        } else {
            session::mark_views(old(marks)@).take(len as int)
        }),
{
    let ghost before = marks@;
    marks.truncate(len);
    assert(before.len() > len ==> session::mark_views(marks@) =~= session::mark_views(before).take(
        len as int,
    ));
}

pub open spec fn transaction_state_error(message: Seq<char>) -> error::ErrorView {
    error::plain_error(SqlErrorKind::InvalidTransactionState, message)
}

pub open spec fn savepoint_error(name: Seq<char>) -> error::ErrorView {
    error::named_error(SqlErrorKind::InvalidSavepoint, name)
}

/// A session after its transaction has been given up: the settings are what they
/// were, and no savepoint is left.
pub open spec fn given_up(v: session::SessionView, ddl: ddl_session::DdlView) -> session::SessionView {
    guc_rolled_back(session::SessionView { ddl, savepoints: Seq::empty(), ..v })
}

/// The undo of what a session did to the catalog, when its transaction is over.
pub open spec fn ddl_given_up(
    before: ddl_session::DdlView,
    after: ddl_session::DdlView,
    r: Result<(), SqlError>,
) -> bool {
    session::ddl_rolled_back(
        ddl_session::DdlView { transaction: None, ..before },
        after,
        0,
        r,
    )
}

/// A statement's mark: the length of the undo log, the number of savepoints, and
/// the settings.
#[derive(Debug)]
pub struct StatementMark {
    pub ddl_undo_len: usize,
    pub savepoint_len: usize,
    pub state: SqlSessionGucState,
}

impl SqlSession {
    pub fn begin_guc_transaction(&mut self, now: i64)
        ensures
            final(self)@ == guc_begun(old(self)@, now),
    {
        self.loosen_session_guc_state();
        self.guc.begin_transaction(now);
        self.guc.rebind_trusted_security_settings(&self.security_context);
    }

    pub fn commit_guc_transaction(&mut self)
        ensures
            final(self)@ == guc_committed(old(self)@),
    {
        self.loosen_session_guc_state();
        self.guc.commit_transaction();
        self.guc.rebind_trusted_security_settings(&self.security_context);
    }

    pub fn rollback_guc_transaction(&mut self)
        ensures
            final(self)@ == guc_rolled_back(old(self)@),
    {
        self.loosen_session_guc_state();
        self.guc.rollback_transaction();
        self.guc.rebind_trusted_security_settings(&self.security_context);
    }

    /// Starts a statement at the second `now`. Outside a transaction the settings
    /// begin one of their own.
    pub fn start_statement(
        &mut self,
        now: i64,
        default_timezone: &Option<String>,
        default_interval_style: &Option<String>,
    ) -> (r: StatementScope)
        ensures
            final(self)@ == (if old(self)@.guc.start is None {
                guc_begun(old(self)@, now)
            } else {
                old(self)@
            }),
            r@ == (ScopeView {
                started: old(self)@.guc.start is None,
                timestamp: match final(self)@.guc.timestamp {
                    Some(t) => t,
                    None => now,
                },
                timezone: setting_or(
                    final(self)@.guc.gucs,
                    "timezone"@,
                    error::view_option(*default_timezone),
                    "UTC"@,
                ),
                interval_style: setting_or(
                    final(self)@.guc.gucs,
                    "intervalstyle"@,
                    error::view_option(*default_interval_style),
                    "postgres"@,
                ),
            }),
    {
        let started = !self.guc.transaction_active();
        if started {
            self.begin_guc_transaction(now);
        }
        let timestamp = match self.guc.transaction_timestamp() {
            Some(t) => t,
            None => now,
        };
        let timezone = setting_value(self.session_gucs(), "timezone", default_timezone, "UTC");
        let interval_style = setting_value(
            self.session_gucs(),
            "intervalstyle",
            default_interval_style,
            "postgres",
        );
        StatementScope { started, timestamp, timezone, interval_style }
    }

    /// Ends a statement. The settings that it began a transaction for are committed
    /// where it succeeded outside a transaction, and rolled back where it failed.
    pub fn finish_statement(&mut self, started: bool, succeeded: bool)
        ensures
            final(self)@ == (if !started {
                old(self)@
            } else if !succeeded {
                guc_rolled_back(old(self)@)
            } else if old(self)@.ddl.transaction is None {
                guc_committed(old(self)@)
            } else {
                old(self)@
            }),
    {
        if started {
            if !succeeded {
                self.rollback_guc_transaction();
            } else if !self.in_transaction() {
                self.commit_guc_transaction();
            }
        }
    }

    /// Gives the transaction up.
    fn give_up(&mut self) -> (r: Result<(), SqlError>)
        ensures
            ddl_given_up(old(self)@.ddl, final(self)@.ddl, r),
            final(self)@ == given_up(old(self)@, final(self)@.ddl),
    {
        self.ddl.transaction = None;
        let r = self.ddl.rollback_ddl_to_len(0);
        self.savepoints = Vec::new();
        assert(self@.savepoints =~= Seq::empty());
        self.rollback_guc_transaction();
        r
    }

    /// Rolls the transaction back. `tx_rollback` is what the store made of it; its
    /// error comes first, then that of the catalog.
    pub fn rollback_current_transaction(&mut self, tx_rollback: Result<(), SqlError>) -> (r: Result<
        (),
        SqlError,
    >)
        ensures
            final(self)@ == given_up(old(self)@, final(self)@.ddl),
            exists|undo: Result<(), SqlError>| #[trigger]
                ddl_given_up(old(self)@.ddl, final(self)@.ddl, undo) && (match tx_rollback {
                    Ok(()) => r == undo,
                    Err(e) => r == Err::<(), SqlError>(e),
                }),
    {
        let undo = self.give_up();
        match tx_rollback {
            Ok(()) => undo,
            Err(e) => Err(e),
        }
    }

    /// Commits the transaction. `failure` is the error of a deferred trigger or of
    /// the store's own commit; with it the transaction is given up.
    pub fn commit(&mut self, failure: Option<SqlError>) -> (r: Result<(), SqlError>)
        ensures
            match (failure, old(self)@.ddl.transaction) {
                (Some(e), Some(_)) => {
                    &&& r == Err::<(), SqlError>(e)
                    &&& final(self)@ == given_up(old(self)@, final(self)@.ddl)
                    &&& exists|undo: Result<(), SqlError>| #[trigger]
                        ddl_given_up(old(self)@.ddl, final(self)@.ddl, undo)
                },
                _ => {
                    &&& r is Ok
                    &&& final(self)@ == guc_committed(
                        session::SessionView {
                            ddl: ddl_session::DdlView {
                                transaction: None,
                                log: Seq::empty(),
                                ..old(self)@.ddl
                            },
                            savepoints: Seq::empty(),
                            ..old(self)@
                        },
                    )
                },
            },
    {
        if self.in_transaction() {
            match failure {
                Some(e) => {
                    let _undo = self.give_up();
                    return Err(e);
                },
                None => {},
            }
        }
        self.ddl.transaction = None;
        let _ = self.take_ddl_undo_log();
        self.savepoints = Vec::new();
        assert(self@.savepoints =~= Seq::empty());
        self.commit_guc_transaction();
        Ok(())
    }

    /// Marks a savepoint. `place` is where the transaction stands.
    pub fn create_savepoint(&mut self, name: &str, place: u64) -> (r: Result<(), SqlError>)
        ensures
            match r {
                Ok(()) => {
                    &&& old(self)@.ddl.transaction is Some
                    &&& final(self)@ == (session::SessionView {
                        savepoints: old(self)@.savepoints.push(
                            session::MarkView {
                                name: name@,
                                transaction: place,
                                ddl_undo_len: old(self)@.ddl.log.len(),
                                state: old(self)@.guc,
                            },
                        ),
                        ..old(self)@
                    })
                },
                Err(e) => {
                    &&& old(self)@.ddl.transaction is None
                    &&& e@ == transaction_state_error(
                        "SAVEPOINT can only be used in transaction blocks"@,
                    )
                    &&& final(self)@ == old(self)@
                },
            },
    {
        if !self.in_transaction() {
            return Err(
                SqlError::plain(
                    SqlErrorKind::InvalidTransactionState,
                    "SAVEPOINT can only be used in transaction blocks".to_owned(),
                ),
            );
        }
        let mark = SavepointMark {
            name: name.to_owned(),
            transaction: place,
            ddl_undo_len: self.ddl.log.len(),
            state: self.guc.copied(),
        };
        let ghost before = self.savepoints@;
        let ghost view = mark@;
        self.savepoints.push(mark);
        assert(session::mark_views(self.savepoints@) =~= session::mark_views(before).push(view));
        Ok(())
    }

    /// The place in the transaction that a savepoint marks.
    pub fn savepoint_place(&self, name: &str) -> (r: Result<u64, SqlError>)
        ensures
            match (r, last_named(self@.savepoints, name@)) {
                (Ok(place), Some(at)) => self@.ddl.transaction is Some && place
                    == self@.savepoints[at].transaction,
                (Err(e), at) => if self@.ddl.transaction is None {
                    e@ == transaction_state_error(
                        "ROLLBACK TO SAVEPOINT can only be used in transaction blocks"@,
                    )
                } else {
                    at is None && e@ == savepoint_error(name@)
                },
                _ => false,
            },
    {
        if !self.in_transaction() {
            return Err(
                SqlError::plain(
                    SqlErrorKind::InvalidTransactionState,
                    "ROLLBACK TO SAVEPOINT can only be used in transaction blocks".to_owned(),
                ),
            );
        }
        match find_savepoint(&self.savepoints, name) {
            Some(at) => {
                assert(session::mark_views(self.savepoints@)[at as int]
                    == self.savepoints@[at as int]@);
                Ok(self.savepoints[at].transaction)
            },
            None => Err(SqlError::named(SqlErrorKind::InvalidSavepoint, name.to_owned())),
        }
    }

    /// Goes back to the last savepoint with a name, which stays. `write_rollback`
    /// is what the store made of it; its error comes first, then that of the
    /// catalog.
    pub fn rollback_to_savepoint(&mut self, name: &str, write_rollback: Result<(), SqlError>) -> (r:
        Result<(), SqlError>)
        ensures
            match last_named(old(self)@.savepoints, name@) {
                Some(at) if old(self)@.ddl.transaction is Some => {
                    let mark = old(self)@.savepoints[at];
                    &&& final(self)@ == (session::SessionView {
                        ddl: final(self)@.ddl,
                        guc: guc::set_back(old(self)@.guc, mark.state),
                        savepoints: old(self)@.savepoints.take(at + 1),
                        ..old(self)@
                    })
                    &&& exists|undo: Result<(), SqlError>| #[trigger]
                        session::ddl_rolled_back(
                            old(self)@.ddl,
                            final(self)@.ddl,
                            mark.ddl_undo_len,
                            undo,
                        ) && (match write_rollback {
                            Ok(()) => r == undo,
                            Err(e) => r == Err::<(), SqlError>(e),
                        })
                },
                at => {
                    &&& final(self)@ == old(self)@
                    &&& r matches Err(e) && (if old(self)@.ddl.transaction is None {
                        e@ == transaction_state_error(
                            "ROLLBACK TO SAVEPOINT can only be used in transaction blocks"@,
                        )
                    } else {
                        e@ == savepoint_error(name@)
                    })
                },
            },
    {
        match self.savepoint_place(name) {
            Ok(_) => {},
            Err(e) => {
                return Err(e);
            },
        }
        let ghost marks = session::mark_views(self.savepoints@);
        match find_savepoint(&self.savepoints, name) {
            Some(at) => {
                assert(marks[at as int] == self.savepoints@[at as int]@);
                let count = self.savepoints.len();
                assert(at < count);
                let undo = self.ddl.rollback_ddl_to_len(self.savepoints[at].ddl_undo_len);
                self.guc.set_back(&self.savepoints[at].state);
                keep_first(&mut self.savepoints, at + 1);
                assert(marks.take(marks.len() as int) =~= marks);
                assert(session::ddl_rolled_back(
                    old(self)@.ddl,
                    self@.ddl,
                    marks[at as int].ddl_undo_len,
                    undo,
                ));
                match write_rollback {
                    Ok(()) => undo,
                    Err(e) => Err(e),
                }
            },
            None => Err(SqlError::named(SqlErrorKind::InvalidSavepoint, name.to_owned())),
        }
    }

    /// Forgets the last savepoint with a name and those after it.
    pub fn release_savepoint(&mut self, name: &str) -> (r: Result<(), SqlError>)
        ensures
            match r {
                Ok(()) => {
                    &&& old(self)@.ddl.transaction is Some
                    &&& last_named(old(self)@.savepoints, name@) is Some
                    &&& final(self)@ == (session::SessionView {
                        savepoints: old(self)@.savepoints.take(
                            last_named(old(self)@.savepoints, name@)->0,
                        ),
                        ..old(self)@
                    })
                },
                Err(e) => {
                    &&& final(self)@ == old(self)@
                    &&& if old(self)@.ddl.transaction is None {
                        e@ == transaction_state_error(
                            "RELEASE SAVEPOINT can only be used in transaction blocks"@,
                        )
                    } else {
                        last_named(old(self)@.savepoints, name@) is None && e@
                            == savepoint_error(name@)
                    }
                },
            },
    {
        if !self.in_transaction() {
            return Err(
                SqlError::plain(
                    SqlErrorKind::InvalidTransactionState,
                    "RELEASE SAVEPOINT can only be used in transaction blocks".to_owned(),
                ),
            );
        }
        match find_savepoint(&self.savepoints, name) {
            Some(at) => {
                keep_first(&mut self.savepoints, at);
                Ok(())
            },
            None => Err(SqlError::named(SqlErrorKind::InvalidSavepoint, name.to_owned())),
        }
    }

    /// Marks where a statement begins in a transaction.
    pub fn statement_mark(&self) -> (m: StatementMark)
        ensures
            m.ddl_undo_len == self@.ddl.log.len(),
            m.savepoint_len == self@.savepoints.len(),
            m.state@ == self@.guc,
    {
        StatementMark {
            ddl_undo_len: self.ddl.log.len(),
            savepoint_len: self.savepoints.len(),
            state: self.guc.copied(),
        }
    }

    /// Takes back what a statement did that failed in a transaction. What it took
    /// from sequences stays taken.
    pub fn undo_statement(&mut self, mark: &StatementMark) -> (r: Result<(), SqlError>)
        ensures
            session::ddl_rolled_back(
                old(self)@.ddl,
                final(self)@.ddl,
                mark.ddl_undo_len as nat,
                r,
            ),
            match r {
                Ok(()) => final(self)@ == statement_undone(
                    old(self)@,
                    final(self)@.ddl,
                    mark.savepoint_len as nat,
                    mark.state@,
                ),
                Err(_) => final(self)@ == (session::SessionView {
                    ddl: final(self)@.ddl,
                    ..old(self)@
                }),
            },
    {
        match self.ddl.rollback_ddl_to_len(mark.ddl_undo_len) {
            Ok(()) => {},
            Err(e) => {
                return Err(e);
            },
        }
        keep_first(&mut self.savepoints, mark.savepoint_len);
        let (state, lastval) = self.guc.without_statement(&mark.state);
        self.install_session_guc_state(state);
        self.guc.put_lastval(lastval);
        Ok(())
    }
}

/// A session after a statement has been taken back.
pub open spec fn statement_undone(
    v: session::SessionView,
    ddl: ddl_session::DdlView,
    savepoint_len: nat,
    mark: guc::GucView,
) -> session::SessionView {
    let bound = guc::rebound(guc::without_statement(v.guc, mark), v.context);
    session::SessionView {
        ddl,
        savepoints: if v.savepoints.len() <= savepoint_len {
            v.savepoints
        } else {
            v.savepoints.take(savepoint_len as int)
        },
        guc: guc::GucView {
            gucs: guc::with_later_lastval(bound.gucs, v.guc.gucs),
            ..bound
        },
        ..v
    }
}

/// Going back to a savepoint that has just been marked changes nothing: the
/// catalog, the log, the settings and the savepoints are as they were.
pub proof fn law_fresh_savepoint(
    v: session::SessionView,
    name: Seq<char>,
    place: u64,
    after: session::SessionView,
)
    requires
        v.ddl.transaction is Some,
        after.savepoints == v.savepoints.push(
            session::MarkView {
                name,
                transaction: place,
                ddl_undo_len: v.ddl.log.len(),
                state: v.guc,
            },
        ),
        after.ddl == v.ddl,
        after.guc == v.guc,
    ensures
        last_named(after.savepoints, name) == Some(v.savepoints.len() as int),
        after.savepoints.take(v.savepoints.len() as int) == v.savepoints,
        guc::set_back(after.guc, v.guc) == v.guc,
        ddl::undone_to(after.ddl.catalog, after.ddl.log, v.ddl.log.len() as int)
            == v.ddl.catalog,
{
    assert(after.savepoints.take(v.savepoints.len() as int) =~= v.savepoints);
    assert(guc::with_lastval(v.guc.gucs, v.guc.gucs) =~= v.guc.gucs);
}

/// A statement that begins a transaction of its own and fails leaves every
/// setting as it was that is not protected and holds no sequence value.
pub proof fn law_failed_statement(
    v: session::SessionView,
    now: i64,
    during: session::SessionView,
    name: Seq<char>,
)
    requires
        v.guc.start is None,
        during.context == v.context,
        during.guc.start == guc_begun(v, now).guc.start,
        !crate::security::is_protected(name),
        name != guc::lastval_key(),
    ensures
        settings::setting(guc_rolled_back(during).guc.gucs, name) == settings::setting(
            v.guc.gucs,
            name,
        ),
        guc_rolled_back(during).guc.settings == v.guc.settings,
{
    let loose = session::loosened(v.guc, v.context);
    crate::security::law_stripped(v.guc.gucs);
    assert(settings::setting(loose.gucs, name) == settings::setting(v.guc.gucs, name));
    let begun = guc::begun(loose, now);
    let bound = guc_begun(v, now).guc.start->0;
    crate::security::law_bound_keeps_others(loose.gucs, v.context, name);
    assert(settings::setting(bound.gucs, name) == settings::setting(v.guc.gucs, name));
    let loosened = session::loosened(during.guc, during.context);
    crate::security::law_stripped(bound.gucs);
    assert(settings::setting(loosened.start->0.gucs, name) == settings::setting(bound.gucs, name));
    let back = guc::rolled_back(loosened);
    crate::security::law_bound_keeps_others(back.gucs, during.context, name);
}

} // verus!
