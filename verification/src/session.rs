//! Focus sessions: a start time, an optional end time, whether the session
//! was started by a schedule, and a distraction budget with the seconds of
//! it already used. At most one session is open at a time; that invariant is
//! maintained by the focus manager.

use vstd::prelude::*;
use crate::clock;
use crate::error::AppError;
use crate::store::{
    Store, db_sessions, row_open, row_with_ended, row_with_used, session_matches_row,
    spec_has_open,
};

verus! {

#[derive(Debug, Clone)]
pub struct FocusSession {
    pub id: Option<i64>,
    pub started_at: i64,
    pub ended_at: Option<i64>,
    pub scheduled: bool,
    pub distraction_budget: i32,
    pub distraction_used: i32,
}

/// The remaining budget: `budget - used`, floored at zero and clamped into
/// `i32` range.
pub open spec fn spec_budget_remaining(budget: int, used: int) -> int {
    if budget - used < 0 {
        0
    } else if budget - used > i32::MAX {
        i32::MAX as int
    } else {
        budget - used
    }
}

impl FocusSession {
    /// A fresh, unsaved session starting now with the given budget.
    pub fn new(distraction_budget_secs: i32, scheduled: bool) -> (r: FocusSession)
        ensures
            r.id is None,
            r.started_at >= 0,
            r.ended_at is None,
            r.scheduled == scheduled,
            r.distraction_budget == distraction_budget_secs,
            r.distraction_used == 0,
    {
        FocusSession {
            id: None,
            started_at: clock::now_secs(),
            ended_at: None,
            scheduled,
            distraction_budget: distraction_budget_secs,
            distraction_used: 0,
        }
    }

    /// Seconds of distraction budget left; never negative, even when more
    /// than the budget has been used.
    pub fn budget_remaining(&self) -> (r: i32)
        ensures
            r == spec_budget_remaining(self.distraction_budget as int, self.distraction_used as int),
            r >= 0,
            self.distraction_used >= 0 ==> r == (if self.distraction_budget >= self.distraction_used {
                self.distraction_budget - self.distraction_used
            } else {
                0
            }),
    {
        let d: i64 = self.distraction_budget as i64 - self.distraction_used as i64;
        if d < 0 {
            0
        } else if d > i32::MAX as i64 {
            i32::MAX
        } else {
            d as i32
        }
    }

    /// Whether the used time has reached or passed the budget.
    pub fn is_budget_exhausted(&self) -> (r: bool)
        ensures
            r == (self.distraction_used >= self.distraction_budget),
    {
        self.distraction_used >= self.distraction_budget
    }

    /// Persists this session as a new row and records the assigned id.
    pub fn save(&mut self, store: &mut Store) -> (r: Result<(), AppError>)
        ensures
            final(self).started_at == old(self).started_at,
            final(self).ended_at == old(self).ended_at,
            final(self).scheduled == old(self).scheduled,
            final(self).distraction_budget == old(self).distraction_budget,
            final(self).distraction_used == old(self).distraction_used,
            r is Ok ==> (final(self).id matches Some(id) && db_sessions(final(store).conn)
                == db_sessions(old(store).conn).push(
                (
                    id,
                    old(self).started_at,
                    old(self).ended_at,
                    old(self).scheduled,
                    old(self).distraction_budget,
                    old(self).distraction_used,
                ),
            )),
            r is Err ==> *final(self) == *old(self) && db_sessions(final(store).conn)
                == db_sessions(old(store).conn),
    {
        match store.insert_session(
            self.started_at,
            self.ended_at,
            self.scheduled,
            self.distraction_budget,
            self.distraction_used,
        ) {
            Ok(id) => {
                self.id = Some(id);
                Ok(())
            },
            Err(e) => Err(AppError::Database(e)),
        }
    }

    /// The open session, if one exists: the row with no `ended_at` and the
    /// greatest start time.
    pub fn find_active(store: &Store) -> (r: Result<Option<FocusSession>, AppError>)
        ensures
            r matches Ok(opt) ==> match opt {
                None => !spec_has_open(db_sessions(store.conn)),
                Some(s) => exists|i: int|
                    0 <= i < db_sessions(store.conn).len() && row_open(db_sessions(store.conn)[i])
                        && session_matches_row(s, db_sessions(store.conn)[i]) && forall|j: int|
                        0 <= j < db_sessions(store.conn).len() && row_open(
                            db_sessions(store.conn)[j],
                        ) ==> db_sessions(store.conn)[j].1 <= db_sessions(store.conn)[i].1,
            },
    {
        match store.find_active_session() {
            Ok(opt) => Ok(opt),
            Err(e) => Err(AppError::Database(e)),
        }
    }

    /// Ends the session: stamps `ended_at` now, here and in the store.
    /// Fails on a session that was never saved.
    pub fn end(&mut self, store: &mut Store) -> (r: Result<(), AppError>)
        ensures
            final(self).id == old(self).id,
            final(self).started_at == old(self).started_at,
            final(self).scheduled == old(self).scheduled,
            final(self).distraction_budget == old(self).distraction_budget,
            final(self).distraction_used == old(self).distraction_used,
            r is Ok ==> (old(self).id matches Some(id) && final(self).ended_at matches Some(t) && t
                >= 0 && db_sessions(final(store).conn).len() == db_sessions(old(store).conn).len()
                && forall|i: int|
                0 <= i < db_sessions(old(store).conn).len() ==> db_sessions(final(store).conn)[i]
                    == (if db_sessions(old(store).conn)[i].0 == id {
                    row_with_ended(db_sessions(old(store).conn)[i], t)
                } else {
                    db_sessions(old(store).conn)[i]
                })),
            r is Err ==> db_sessions(final(store).conn) == db_sessions(old(store).conn),
            old(self).id is None ==> r is Err,
    {
        match self.id {
            None => Err(AppError::Unsaved { entity: "session" }),
            Some(id) => {
                let now = clock::now_secs();
                match store.set_session_ended(id, now) {
                    Ok(()) => {
                        self.ended_at = Some(now);
                        Ok(())
                    },
                    Err(e) => Err(AppError::Database(e)),
                }
            },
        }
    }

    /// Adds to the used distraction time, here and in the store; the sum
    /// saturates at the integer limit. Fails on a session that was never
    /// saved.
    pub fn add_distraction_time(&mut self, store: &mut Store, secs: i32) -> (r: Result<
        (),
        AppError,
    >)
        requires
            secs >= 0,
        ensures
            final(self).id == old(self).id,
            final(self).started_at == old(self).started_at,
            final(self).ended_at == old(self).ended_at,
            final(self).scheduled == old(self).scheduled,
            final(self).distraction_budget == old(self).distraction_budget,
            r is Ok ==> (old(self).id matches Some(id) && final(self).distraction_used == (if old(
                self,
            ).distraction_used + secs > i32::MAX {
                i32::MAX as int
            } else {
                old(self).distraction_used + secs
            }) && db_sessions(final(store).conn).len() == db_sessions(old(store).conn).len()
                && forall|i: int|
                0 <= i < db_sessions(old(store).conn).len() ==> db_sessions(final(store).conn)[i]
                    == (if db_sessions(old(store).conn)[i].0 == id {
                    row_with_used(db_sessions(old(store).conn)[i], final(self).distraction_used)
                } else {
                    db_sessions(old(store).conn)[i]
                })),
            r is Err ==> final(self).distraction_used == old(self).distraction_used && db_sessions(
                final(store).conn,
            ) == db_sessions(old(store).conn),
            old(self).id is None ==> r is Err,
    {
        match self.id {
            None => Err(AppError::Unsaved { entity: "session" }),
            Some(id) => {
                let new_used: i32 = if self.distraction_used > i32::MAX - secs {
                    i32::MAX
                } else {
                    self.distraction_used + secs
                };
                match store.set_session_used(id, new_used) {
                    Ok(()) => {
                        self.distraction_used = new_used;
                        Ok(())
                    },
                    Err(e) => Err(AppError::Database(e)),
                }
            },
        }
    }
}

} // verus!
