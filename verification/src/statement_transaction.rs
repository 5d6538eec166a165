//! A statement that changes data runs in one transaction as a whole: in that of the
//! session, where there is one, and otherwise in one of its own.
use vstd::prelude::*;
use crate::ddl_session;
use crate::error::SqlError;
use crate::session;
use crate::session::SqlSession;
use crate::session_tx;
use crate::session_tx::StatementMark;

verus! {

/// Where a statement stands: in the transaction of its session, from a mark on, or
/// in one that it began.
#[derive(Debug)]
pub enum StatementPlace {
    Marked(StatementMark),
    Began,
}

/// What the store is asked for when a statement is over.
#[derive(Clone, Copy, Debug, PartialEq, Eq, Structural)]
pub enum StatementEnd {
    /// Nothing.
    Keep,
    /// To take back what the statement wrote in the transaction.
    UndoWrites,
    Commit,
    Rollback,
}

/// What the store is asked for when a statement is over. The statement that began a
/// transaction commits it, unless that is left to somebody else.
pub open spec fn end_of(v: session::SessionView, place: StatementPlace, succeeded: bool) -> StatementEnd {
    match place {
        StatementPlace::Marked(_) => if succeeded || v.ddl.transaction is None {
            StatementEnd::Keep
        } else {
            StatementEnd::UndoWrites
        },
        StatementPlace::Began => if !succeeded {
            StatementEnd::Rollback
        } else if v.defer_commit {
            StatementEnd::Keep
        } else {
            StatementEnd::Commit
        },
    }
}

/// A session that has begun a transaction.
pub open spec fn with_transaction(v: session::SessionView, tx: u64) -> session::SessionView {
    session::SessionView {
        ddl: ddl_session::DdlView { transaction: Some(tx), ..v.ddl },
        ..v
    }
}

/// A session after its transaction has been committed.
pub open spec fn committed(v: session::SessionView) -> session::SessionView {
    session_tx::guc_committed(
        session::SessionView {
            ddl: ddl_session::DdlView { transaction: None, log: Seq::empty(), ..v.ddl },
            savepoints: Seq::empty(),
            ..v
        },
    )
}

/// What becomes of a statement that failed in the transaction of its session: what
/// the store could not take back comes first, then what the catalog could not, and
/// otherwise its own error.
pub open spec fn taken_back(
    before: session::SessionView,
    after: session::SessionView,
    mark: StatementMark,
    e: SqlError,
    store: Result<(), SqlError>,
    r: Result<(), SqlError>,
) -> bool {
    match store {
        Err(s) if before.ddl.transaction is Some => after == before && r == Err::<(), SqlError>(s),
        _ => exists|undo: Result<(), SqlError>| #[trigger]
            session::ddl_rolled_back(before.ddl, after.ddl, mark.ddl_undo_len as nat, undo) && (
            match undo {
                Ok(()) => r == Err::<(), SqlError>(e) && after == session_tx::statement_undone(
                    before,
                    after.ddl,
                    mark.savepoint_len as nat,
                    mark.state@,
                ),
                Err(u) => r == Err::<(), SqlError>(u) && after == (session::SessionView {
                    ddl: after.ddl,
                    ..before
                }),
            }),
    }
}

/// What becomes of a statement that failed in a transaction of its own: the
/// transaction is given up. What the store or the catalog could not take back comes
/// before its own error.
pub open spec fn rolled_back(
    before: session::SessionView,
    after: session::SessionView,
    e: SqlError,
    store: Result<(), SqlError>,
    r: Result<(), SqlError>,
) -> bool {
    &&& after == session_tx::given_up(before, after.ddl)
    &&& exists|undo: Result<(), SqlError>| #[trigger]
        session_tx::ddl_given_up(before.ddl, after.ddl, undo) && r == (match (store, undo) {
            (Err(s), _) => Err::<(), SqlError>(s),
            (Ok(()), Err(u)) => Err::<(), SqlError>(u),
            (Ok(()), Ok(())) => Err::<(), SqlError>(e),
        })
}

impl SqlSession {
    /// Opens a statement that changes data. `begun` is the transaction that the
    /// store began for it, and is looked at only where the session has none.
    pub fn open_statement(&mut self, begun: Result<u64, SqlError>) -> (r: Result<
        StatementPlace,
        SqlError,
    >)
        ensures
            match (r, old(self)@.ddl.transaction) {
                (Ok(StatementPlace::Marked(m)), Some(_)) => {
                    &&& final(self)@ == old(self)@
                    &&& m.ddl_undo_len == old(self)@.ddl.log.len()
                    &&& m.savepoint_len == old(self)@.savepoints.len()
                    &&& m.state@ == old(self)@.guc
                },
                (Ok(StatementPlace::Began), None) => match begun {
                    Ok(tx) => final(self)@ == with_transaction(old(self)@, tx),
                    Err(_) => false,
                },
                (Err(e), None) => begun == Err::<u64, SqlError>(e) && final(self)@ == old(self)@,
                _ => false,
            },
    {
        if self.in_transaction() {
            return Ok(StatementPlace::Marked(self.statement_mark()));
        }
        match begun {
            Ok(tx) => {
                self.ddl.transaction = Some(tx);
                Ok(StatementPlace::Began)
            },
            Err(e) => Err(e),
        }
    }

    /// What the store is asked for now that a statement is over.
    pub fn statement_end(&self, place: &StatementPlace, succeeded: bool) -> (r: StatementEnd)
        ensures
            r == end_of(self@, *place, succeeded),
    {
        match place {
            StatementPlace::Marked(_) => {
                if succeeded || !self.in_transaction() {
                    StatementEnd::Keep
                } else {
                    StatementEnd::UndoWrites
                }
            },
            StatementPlace::Began => {
                if !succeeded {
                    StatementEnd::Rollback
                } else if self.defer_commit {
                    StatementEnd::Keep
                } else {
                    StatementEnd::Commit
                }
            },
        }
    }

    /// Closes a statement. `failure` is the error that it ended with, and `store`
    /// what the store made of what it was asked for.
    pub fn close_statement(
        &mut self,
        place: &StatementPlace,
        failure: Option<SqlError>,
        store: Result<(), SqlError>,
    ) -> (r: Result<(), SqlError>)
        ensures
            match (*place, failure) {
                (StatementPlace::Marked(_), None) => r is Ok && final(self)@ == old(self)@,
                (StatementPlace::Marked(mark), Some(e)) => taken_back(
                    old(self)@,
                    final(self)@,
                    mark,
                    e,
                    store,
                    r,
                ),
                (StatementPlace::Began, None) => if old(self)@.defer_commit {
                    r is Ok && final(self)@ == old(self)@
                } else {
                    match (store, old(self)@.ddl.transaction) {
                        (Err(s), Some(_)) => {
                            &&& r == Err::<(), SqlError>(s)
                            &&& final(self)@ == session_tx::given_up(old(self)@, final(self)@.ddl)
                            &&& exists|undo: Result<(), SqlError>| #[trigger]
                                session_tx::ddl_given_up(old(self)@.ddl, final(self)@.ddl, undo)
                        },
                        _ => r is Ok && final(self)@ == committed(old(self)@),
                    }
                },
                (StatementPlace::Began, Some(e)) => rolled_back(
                    old(self)@,
                    final(self)@,
                    e,
                    store,
                    r,
                ),
            },
    {
        match (place, failure) {
            (StatementPlace::Marked(_), None) => Ok(()),
            (StatementPlace::Marked(mark), Some(e)) => {
                if self.in_transaction() {
                    match store {
                        Err(s) => {
                            return Err(s);
                        },
                        Ok(()) => {},
                    }
                }
                let undo = self.undo_statement(mark);
                assert(session::ddl_rolled_back(
                    old(self)@.ddl,
                    self@.ddl,
                    mark.ddl_undo_len as nat,
                    undo,
                ));
                match undo {
                    Ok(()) => Err(e),
                    Err(u) => Err(u),
                }
            },
            (StatementPlace::Began, None) => {
                if self.defer_commit {
                    return Ok(());
                }
                match store {
                    Ok(()) => self.commit(None),
                    Err(s) => self.commit(Some(s)),
                }
            },
            (StatementPlace::Began, Some(e)) => {
                match self.rollback_current_transaction(store) {
                    Ok(()) => Err(e),
                    Err(x) => Err(x),
                }
            },
        }
    }
}

/// A statement that fails in a transaction of its own leaves the session without
/// one, without savepoints, and with an error.
pub proof fn law_failed_alone(
    before: session::SessionView,
    after: session::SessionView,
    e: SqlError,
    store: Result<(), SqlError>,
    r: Result<(), SqlError>,
)
    requires
        rolled_back(before, after, e, store, r),
    ensures
        r is Err,
        after.ddl.transaction is None,
        after.savepoints.len() == 0,
        store is Err ==> r->Err_0 == store->Err_0,
{
}

/// A statement in the transaction of its session never ends that transaction, and
/// one that began a transaction keeps it open only where the commit is left to
/// somebody else.
pub proof fn law_who_ends_a_transaction(
    v: session::SessionView,
    place: StatementPlace,
    succeeded: bool,
)
    ensures
        place is Marked ==> end_of(v, place, succeeded) !is Commit && end_of(v, place, succeeded)
            !is Rollback,
        place is Began && end_of(v, place, succeeded) is Keep ==> succeeded && v.defer_commit,
{
}

} // verus!
