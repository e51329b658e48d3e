//! The focus manager: starting and ending sessions manually, rate-limited
//! distraction budget accounting, domain blocking while a session runs, and
//! the reconciliation of schedules against the wall clock. It maintains the
//! invariant that at most one session is open at any time.

use vstd::prelude::*;
use crate::clock;
use crate::error::AppError;
use crate::schedule::FocusSchedule;
use crate::session::{FocusSession, spec_budget_remaining};
use crate::store::{
    ScheduleRow, SessionRow, Store, blocked_patterns_correspond, db_categories, db_rules,
    db_schedules, db_sessions, row_open, row_with_ended, sched_row_active_at,
    schedule_matches_row, session_matches_row, spec_at_most_one_open, spec_has_open,
    spec_is_blocked_pattern,
};
use crate::text::{
    chars_vec, ends_with_chars, eq_chars, spec_ends_with, spec_strip_prefix_rep,
    strip_prefix_rep_index, subvec,
};

verus! {

/// Minimum seconds between two accepted `use_distraction_time` calls.
pub const DISTRACTION_TIME_RATE_LIMIT_SECS: i64 = 25;

/// A snapshot of the focus state, as handed to the GUI and the extension.
#[derive(Debug, Clone)]
pub struct FocusState {
    pub active: bool,
    pub budget_remaining: i32,
    pub blocked_domains: Vec<String>,
    pub session_duration_secs: Option<i64>,
}

/// A call at `now` is rate limited when the previous accepted call lies
/// less than the limit in the past.
pub open spec fn spec_rate_limited(last: Option<i64>, now: i64) -> bool {
    last matches Some(t) && t <= now < t + DISTRACTION_TIME_RATE_LIMIT_SECS
}

/// Some enabled schedule row is active at the given day and time.
pub open spec fn spec_active_schedule_exists(
    scheds: Seq<ScheduleRow>,
    day: u32,
    time: Seq<char>,
) -> bool {
    exists|j: int| 0 <= j < scheds.len() && sched_row_active_at(#[trigger] scheds[j], day, time)
}

/// A domain is blocked by a pattern when it ends with the pattern or
/// equals the pattern with every leading `*.` marker removed.
pub open spec fn spec_domain_blocked_by(domain: Seq<char>, pat: Seq<char>) -> bool {
    spec_ends_with(domain, pat) || domain == spec_strip_prefix_rep(pat, seq!['*', '.'])
}

pub open spec fn spec_abs_diff(a: int, b: int) -> int {
    if a >= b {
        a - b
    } else {
        b - a
    }
}

/// The session rows after stamping one ending: every row sharing the
/// ended row's id gets `ended_at` set to `t`, every other row is kept
/// exactly as it was. (Row ids are a primary key, so in practice only the
/// one row moves.)
pub open spec fn spec_ended_map(old_ss: Seq<SessionRow>, ai: int, t: i64) -> Seq<SessionRow> {
    Seq::new(
        old_ss.len(),
        |i: int|
            if old_ss[i].0 == old_ss[ai].0 {
                row_with_ended(old_ss[i], t)
            } else {
                old_ss[i]
            },
    )
}

/// A freshly started scheduled session row: open, tagged scheduled,
/// nothing used, with the budget of some schedule active at the given day
/// and time.
pub open spec fn spec_new_scheduled_row(
    row: SessionRow,
    scheds: Seq<ScheduleRow>,
    day: u32,
    time: Seq<char>,
) -> bool {
    row.2 is None && row.3 == true && row.5 == 0 && row.1 >= 0 && (exists|j: int|
        0 <= j < scheds.len() && sched_row_active_at(#[trigger] scheds[j], day, time) && row.4
            == scheds[j].4)
}

/// A reconciliation pass started a scheduled session with nothing
/// running: the new row is appended and every existing row is untouched.
pub open spec fn started_fresh_outcome(
    old_ss: Seq<SessionRow>,
    new_ss: Seq<SessionRow>,
    scheds: Seq<ScheduleRow>,
    day: u32,
    time: Seq<char>,
) -> bool {
    new_ss.len() == old_ss.len() + 1 && new_ss == old_ss.push(new_ss.last())
        && spec_new_scheduled_row(new_ss.last(), scheds, day, time)
}

/// A reconciliation pass ended the running session: its row (and any row
/// sharing its id) keeps every field and gets `ended_at` stamped, every
/// other row is unchanged, and nothing stays open.
pub open spec fn ended_outcome(old_ss: Seq<SessionRow>, new_ss: Seq<SessionRow>) -> bool {
    (exists|ai: int, t: i64|
        #![trigger spec_ended_map(old_ss, ai, t)]
        0 <= ai < old_ss.len() && row_open(old_ss[ai]) && t >= 0 && new_ss == spec_ended_map(
            old_ss,
            ai,
            t,
        )) && (forall|i: int| 0 <= i < new_ss.len() ==> !row_open(#[trigger] new_ss[i]))
}

/// A reconciliation pass replaced a drifted scheduled session: the old
/// row stamped closed, a fresh scheduled row appended, every other row
/// kept as it was.
pub open spec fn restarted_outcome(
    old_ss: Seq<SessionRow>,
    new_ss: Seq<SessionRow>,
    scheds: Seq<ScheduleRow>,
    day: u32,
    time: Seq<char>,
) -> bool {
    new_ss.len() == old_ss.len() + 1 && (exists|ai: int, t: i64|
        #![trigger spec_ended_map(old_ss, ai, t)]
        0 <= ai < old_ss.len() && row_open(old_ss[ai]) && t >= 0 && new_ss == spec_ended_map(
            old_ss,
            ai,
            t,
        ).push(new_ss.last())) && spec_new_scheduled_row(new_ss.last(), scheds, day, time) && (
    forall|i: int| 0 <= i < new_ss.len() - 1 ==> !row_open(#[trigger] new_ss[i]))
}

/// The store after a session start: the open row (if any) stamped closed
/// and one fresh row appended; every other row is untouched.
pub open spec fn spec_after_start(old_ss: Seq<SessionRow>, new_ss: Seq<SessionRow>) -> bool {
    new_ss.len() == old_ss.len() + 1 && (if spec_has_open(old_ss) {
        exists|ai: int, t: i64|
            #![trigger spec_ended_map(old_ss, ai, t)]
            0 <= ai < old_ss.len() && row_open(old_ss[ai]) && t >= 0 && new_ss == spec_ended_map(
                old_ss,
                ai,
                t,
            ).push(new_ss.last())
    } else {
        new_ss == old_ss.push(new_ss.last())
    })
}

/// What one reconciliation pass does when a session row `ai` was open:
/// manual sessions are never touched; a scheduled session ends when no
/// schedule is active, is replaced when the active schedule's budget
/// drifted by more than 60 seconds, and stays put otherwise.
pub open spec fn spec_check_outcome_with_open(
    old_ss: Seq<SessionRow>,
    new_ss: Seq<SessionRow>,
    scheds: Seq<ScheduleRow>,
    day: u32,
    time: Seq<char>,
    ai: int,
) -> bool {
    let a = old_ss[ai];
    if !a.3 {
        new_ss == old_ss
    } else if !spec_active_schedule_exists(scheds, day, time) {
        ended_outcome(old_ss, new_ss)
    } else {
        exists|j: int|
            0 <= j < scheds.len() && sched_row_active_at(#[trigger] scheds[j], day, time) && (
            if spec_abs_diff(scheds[j].4 as int, a.4 as int) > 60 {
                restarted_outcome(old_ss, new_ss, scheds, day, time)
            } else {
                new_ss == old_ss
            })
    }
}

/// The reconciliation truth table over (active schedule, open session,
/// session kind), stated for stores holding at most one open session.
pub open spec fn spec_check_outcome(
    old_ss: Seq<SessionRow>,
    new_ss: Seq<SessionRow>,
    scheds: Seq<ScheduleRow>,
    day: u32,
    time: Seq<char>,
) -> bool {
    spec_at_most_one_open(old_ss) ==> if !spec_has_open(old_ss) {
        if spec_active_schedule_exists(scheds, day, time) {
            started_fresh_outcome(old_ss, new_ss, scheds, day, time)
        } else {
            new_ss == old_ss
        }
    } else {
        forall|ai: int|
            0 <= ai < old_ss.len() && row_open(#[trigger] old_ss[ai])
                ==> spec_check_outcome_with_open(old_ss, new_ss, scheds, day, time, ai)
    }
}

/// Stamping the found open session yields exactly the ended map: the open
/// row closed with its fields kept, everything else untouched, nothing
/// open afterwards.
proof fn lemma_ended_outcome(
    old_ss: Seq<SessionRow>,
    new_ss: Seq<SessionRow>,
    sess0: FocusSession,
    id: i64,
    t: i64,
)
    requires
        spec_at_most_one_open(old_ss),
        exists|i: int|
            0 <= i < old_ss.len() && row_open(#[trigger] old_ss[i]) && session_matches_row(
                sess0,
                old_ss[i],
            ),
        sess0.id == Some(id),
        t >= 0,
        new_ss.len() == old_ss.len(),
        forall|i: int|
            0 <= i < old_ss.len() ==> #[trigger] new_ss[i] == (if old_ss[i].0 == id {
                row_with_ended(old_ss[i], t)
            } else {
                old_ss[i]
            }),
    ensures
        ended_outcome(old_ss, new_ss),
        exists|ai: int|
            0 <= ai < old_ss.len() && row_open(#[trigger] old_ss[ai]) && sess0.id == Some(
                old_ss[ai].0,
            ) && sess0.started_at == old_ss[ai].1 && sess0.scheduled == old_ss[ai].3
                && sess0.distraction_budget == old_ss[ai].4 && sess0.distraction_used
                == old_ss[ai].5,
{
    let i0 = choose|i0: int|
        0 <= i0 < old_ss.len() && row_open(#[trigger] old_ss[i0]) && session_matches_row(
            sess0,
            old_ss[i0],
        );
    assert(old_ss[i0].0 == id);
    assert forall|i: int| 0 <= i < new_ss.len() implies !row_open(#[trigger] new_ss[i]) by {
        if row_open(new_ss[i]) {
            assert(old_ss[i].0 != id);
            assert(row_open(old_ss[i]));
            assert(i == i0);
        }
    }
    assert(new_ss =~= spec_ended_map(old_ss, i0, t));
    assert(0 <= i0 < old_ss.len() && row_open(old_ss[i0]) && t >= 0 && new_ss == spec_ended_map(
        old_ss,
        i0,
        t,
    ));
}

/// Appending the fresh row to the store that just had its open session
/// ended (or had none) is exactly the after-start shape.
proof fn lemma_after_start(
    old_ss: Seq<SessionRow>,
    mid_ss: Seq<SessionRow>,
    new_ss: Seq<SessionRow>,
)
    requires
        spec_at_most_one_open(old_ss) ==> ((spec_has_open(old_ss) ==> ended_outcome(
            old_ss,
            mid_ss,
        )) && (!spec_has_open(old_ss) ==> mid_ss == old_ss) && mid_ss.len() == old_ss.len()),
        new_ss == mid_ss.push(new_ss.last()),
    ensures
        spec_at_most_one_open(old_ss) ==> spec_after_start(old_ss, new_ss),
{
    if spec_at_most_one_open(old_ss) {
        if spec_has_open(old_ss) {
            let (ai, t) = choose|ai: int, t: i64|
                #![trigger spec_ended_map(old_ss, ai, t)]
                0 <= ai < old_ss.len() && row_open(old_ss[ai]) && t >= 0 && mid_ss
                    == spec_ended_map(old_ss, ai, t);
            assert(new_ss == spec_ended_map(old_ss, ai, t).push(new_ss.last()));
        }
    }
}

/// At most one session is open in a store where every row but the last is
/// closed: the shape every session start leaves behind, so starting a
/// session preserves the one-open-session invariant.
pub proof fn lemma_at_most_one_open_after_start(ss: Seq<SessionRow>)
    requires
        forall|i: int| 0 <= i < ss.len() - 1 ==> !row_open(#[trigger] ss[i]),
    ensures
        spec_at_most_one_open(ss),
{
    assert forall|i: int, j: int|
        0 <= i < ss.len() && 0 <= j < ss.len() && i != j implies !(row_open(ss[i]) && row_open(
        ss[j],
    )) by {
        if i < j {
            assert(!row_open(ss[i]));
        } else {
            assert(!row_open(ss[j]));
        }
    }
}

pub struct FocusManager {
    last_distraction_request: Option<i64>,
}

impl FocusManager {
    /// The time of the last accepted distraction deduction, if any.
    pub closed spec fn spec_last_request(&self) -> Option<i64> {
        self.last_distraction_request
    }

    /// A manager with no deduction accepted yet.
    pub fn new() -> (r: FocusManager)
        ensures
            r.spec_last_request() is None,
    {
        FocusManager { last_distraction_request: None }
    }

    /// Forgets the rate-limit state, so the next deduction is accepted.
    pub fn reset_rate_limit(&mut self)
        ensures
            final(self).spec_last_request() is None,
    {
        self.last_distraction_request = None;
    }

    /// Ends any open session and starts a fresh manual one with the given
    /// budget and no used time; afterwards it is the only open session.
    pub fn start_session(&self, store: &mut Store, distraction_budget_secs: i32) -> (r: Result<
        FocusSession,
        AppError,
    >)
        ensures
            r matches Ok(s) ==> (s.scheduled == false && s.distraction_budget
                == distraction_budget_secs && s.distraction_used == 0 && s.ended_at is None
                && s.id is Some && (spec_at_most_one_open(db_sessions(old(store).conn)) ==> {
                let new_ss = db_sessions(final(store).conn);
                new_ss.len() == db_sessions(old(store).conn).len() + 1 && row_open(new_ss.last())
                    && session_matches_row(s, new_ss.last()) && spec_after_start(
                    db_sessions(old(store).conn),
                    new_ss,
                ) && (forall|i: int| 0 <= i < new_ss.len() - 1 ==> !row_open(#[trigger] new_ss[i]))
            })),
            r is Err ==> (spec_at_most_one_open(db_sessions(old(store).conn))
                ==> spec_at_most_one_open(db_sessions(final(store).conn))),
    {
        let ghost old_ss = db_sessions(store.conn);
        end_open_session(store)?;
        let ghost mid_ss = db_sessions(store.conn);
        let mut session = FocusSession::new(distraction_budget_secs, false);
        session.save(store)?;
        proof {
            lemma_after_start(old_ss, mid_ss, db_sessions(store.conn));
        }
        Ok(session)
    }

    /// Like `start_session`, but the new session is tagged as started by a
    /// schedule.
    pub fn start_scheduled_session(&self, store: &mut Store, distraction_budget_secs: i32) -> (r:
        Result<FocusSession, AppError>)
        ensures
            r matches Ok(s) ==> (s.scheduled == true && s.distraction_budget
                == distraction_budget_secs && s.distraction_used == 0 && s.ended_at is None
                && s.id is Some && (spec_at_most_one_open(db_sessions(old(store).conn)) ==> {
                let new_ss = db_sessions(final(store).conn);
                new_ss.len() == db_sessions(old(store).conn).len() + 1 && row_open(new_ss.last())
                    && session_matches_row(s, new_ss.last()) && spec_after_start(
                    db_sessions(old(store).conn),
                    new_ss,
                ) && (forall|i: int| 0 <= i < new_ss.len() - 1 ==> !row_open(#[trigger] new_ss[i]))
            })),
            r is Err ==> (spec_at_most_one_open(db_sessions(old(store).conn))
                ==> spec_at_most_one_open(db_sessions(final(store).conn))),
    {
        let ghost old_ss = db_sessions(store.conn);
        end_open_session(store)?;
        let ghost mid_ss = db_sessions(store.conn);
        let mut session = FocusSession::new(distraction_budget_secs, true);
        session.save(store)?;
        proof {
            lemma_after_start(old_ss, mid_ss, db_sessions(store.conn));
        }
        Ok(session)
    }

    /// Ends the open session if one exists and returns it; `None` when no
    /// session was running.
    pub fn end_session(&self, store: &mut Store) -> (r: Result<Option<FocusSession>, AppError>)
        ensures
            r matches Ok(opt) ==> match opt {
                None => !spec_has_open(db_sessions(old(store).conn)) && db_sessions(
                    final(store).conn,
                ) == db_sessions(old(store).conn),
                Some(s) => s.ended_at is Some && (spec_at_most_one_open(
                    db_sessions(old(store).conn),
                ) ==> (ended_outcome(db_sessions(old(store).conn), db_sessions(final(store).conn))
                    && exists|ai: int|
                    0 <= ai < db_sessions(old(store).conn).len() && row_open(
                        #[trigger] db_sessions(old(store).conn)[ai],
                    ) && s.id == Some(db_sessions(old(store).conn)[ai].0) && s.started_at
                        == db_sessions(old(store).conn)[ai].1 && s.scheduled == db_sessions(
                        old(store).conn,
                    )[ai].3 && s.distraction_budget == db_sessions(old(store).conn)[ai].4
                        && s.distraction_used == db_sessions(old(store).conn)[ai].5)),
            },
            r is Err ==> (spec_at_most_one_open(db_sessions(old(store).conn))
                ==> spec_at_most_one_open(db_sessions(final(store).conn))),
    {
        let ghost old_ss = db_sessions(store.conn);
        match FocusSession::find_active(store)? {
            Some(mut session) => {
                let ghost sess0 = session;
                session.end(store)?;
                proof {
                    if spec_at_most_one_open(old_ss) {
                        let i0 = choose|i0: int|
                            0 <= i0 < old_ss.len() && row_open(#[trigger] old_ss[i0])
                                && session_matches_row(sess0, old_ss[i0]);
                        let t = choose|t: i64| session.ended_at == Some(t);
                        lemma_ended_outcome(old_ss, db_sessions(store.conn), sess0, old_ss[i0].0, t);
                        assert(0 <= i0 < old_ss.len() && row_open(old_ss[i0]) && session.id == Some(
                            old_ss[i0].0,
                        ) && session.started_at == old_ss[i0].1 && session.scheduled
                            == old_ss[i0].3 && session.distraction_budget == old_ss[i0].4
                            && session.distraction_used == old_ss[i0].5);
                    }
                }
                Ok(Some(session))
            },
            None => Ok(None),
        }
    }

    /// The current focus state: whether a session runs, its remaining
    /// budget and elapsed time, and every blocked domain pattern.
    pub fn get_state(&self, store: &Store) -> (r: Result<FocusState, AppError>)
        ensures
            r matches Ok(st) ==> st.active == spec_has_open(db_sessions(store.conn))
                && blocked_patterns_correspond(
                st.blocked_domains@,
                db_rules(store.conn),
                db_categories(store.conn),
            ) && (st.session_duration_secs is Some <==> st.active) && (
            st.session_duration_secs matches Some(d) ==> d >= 0) && (!st.active
                ==> st.budget_remaining == 0) && (st.active && spec_at_most_one_open(
                db_sessions(store.conn),
            ) ==> exists|i: int|
                0 <= i < db_sessions(store.conn).len() && row_open(
                    #[trigger] db_sessions(store.conn)[i],
                ) && st.budget_remaining == spec_budget_remaining(
                    db_sessions(store.conn)[i].4 as int,
                    db_sessions(store.conn)[i].5 as int,
                )),
    {
        let session = FocusSession::find_active(store)?;
        let blocked_domains = match store.blocked_domain_patterns() {
            Ok(v) => v,
            Err(e) => {
                return Err(AppError::Database(e));
            },
        };
        match session {
            Some(s) => {
                let now = clock::now_secs();
                let started = if s.started_at < 0 {
                    0
                } else {
                    s.started_at
                };
                let duration: i64 = if now > started {
                    now - started
                } else {
                    0
                };
                Ok(
                    FocusState {
                        active: true,
                        budget_remaining: s.budget_remaining(),
                        blocked_domains,
                        session_duration_secs: Some(duration),
                    },
                )
            },
            None => Ok(
                FocusState {
                    active: false,
                    budget_remaining: 0,
                    blocked_domains,
                    session_duration_secs: None,
                },
            ),
        }
    }

    /// Whether this domain is blocked right now: never while no session
    /// runs; while one runs, exactly when some blocked pattern matches the
    /// domain by suffix or star-stripped equality.
    pub fn is_domain_blocked(&self, store: &Store, domain: &str) -> (r: Result<bool, AppError>)
        ensures
            r matches Ok(b) ==> (!spec_has_open(db_sessions(store.conn)) ==> !b) && (spec_has_open(
                db_sessions(store.conn),
            ) ==> b == exists|p: Seq<char>|
                #[trigger] spec_is_blocked_pattern(
                    db_rules(store.conn),
                    db_categories(store.conn),
                    p,
                ) && spec_domain_blocked_by(domain@, p)),
    {
        let state = self.get_state(store)?;
        if !state.active {
            return Ok(false);
        }
        let dv = chars_vec(domain);
        let ghost patterns = state.blocked_domains@;
        let n = state.blocked_domains.len();
        let mut k: usize = 0;
        while k < n
            invariant
                n == patterns.len(),
                patterns == state.blocked_domains@,
                dv@ == domain@,
                k <= n,
                spec_has_open(db_sessions(store.conn)),
                blocked_patterns_correspond(
                    patterns,
                    db_rules(store.conn),
                    db_categories(store.conn),
                ),
                forall|j: int|
                    0 <= j < k ==> !spec_domain_blocked_by(domain@, (#[trigger] patterns[j])@),
            decreases n - k,
        {
            let pv = chars_vec(state.blocked_domains[k].as_str());
            if ends_with_chars(&dv, &pv) {
                proof {
                    assert(spec_domain_blocked_by(domain@, patterns[k as int]@));
                    assert(spec_is_blocked_pattern(
                        db_rules(store.conn),
                        db_categories(store.conn),
                        patterns[k as int]@,
                    ));
                }
                return Ok(true);
            }
            let star_dot = star_dot_chars();
            let at = strip_prefix_rep_index(&pv, &star_dot);
            let stripped = subvec(&pv, at, pv.len());
            if eq_chars(&dv, &stripped) {
                proof {
                    assert(spec_domain_blocked_by(domain@, patterns[k as int]@));
                    assert(spec_is_blocked_pattern(
                        db_rules(store.conn),
                        db_categories(store.conn),
                        patterns[k as int]@,
                    ));
                }
                return Ok(true);
            }
            k = k + 1;
        }
        proof {
            assert forall|p: Seq<char>|
                #[trigger] spec_is_blocked_pattern(
                    db_rules(store.conn),
                    db_categories(store.conn),
                    p,
                ) implies !spec_domain_blocked_by(domain@, p) by {
                let i = choose|i: int| 0 <= i < patterns.len() && (#[trigger] patterns[i])@ == p;
                assert(!spec_domain_blocked_by(domain@, patterns[i]@));
            }
        }
        Ok(false)
    }

    /// Deducts distraction time from the running session's budget and
    /// returns the remaining budget, unless a deduction was accepted less
    /// than the limit ago; a rate-limited call returns the current
    /// remaining budget without deducting. `None` when no session runs.
    pub fn use_distraction_time(&mut self, store: &mut Store, secs: i32) -> (r: Result<
        Option<i32>,
        AppError,
    >)
        requires
            secs >= 0,
        ensures
            r matches Ok(opt) ==> (opt is Some <==> spec_has_open(db_sessions(old(store).conn))),
            r is Err ==> db_sessions(final(store).conn) == db_sessions(old(store).conn),
            spec_at_most_one_open(db_sessions(old(store).conn)) ==> spec_at_most_one_open(
                db_sessions(final(store).conn),
            ),
    {
        let now = clock::now_secs();
        self.use_distraction_time_at(store, secs, now)
    }

    /// The deduction step at a known time; the exact contract behind
    /// `use_distraction_time`.
    pub fn use_distraction_time_at(&mut self, store: &mut Store, secs: i32, now: i64) -> (r:
        Result<Option<i32>, AppError>)
        requires
            secs >= 0,
        ensures
            r matches Ok(opt) ==> (opt is Some <==> spec_has_open(db_sessions(old(store).conn))),
            spec_rate_limited(old(self).spec_last_request(), now) ==> (final(self).spec_last_request()
                == old(self).spec_last_request() && db_sessions(
                final(store).conn,
            ) == db_sessions(old(store).conn) && (r matches Ok(opt) ==> (opt matches Some(rem)
                ==> (spec_at_most_one_open(db_sessions(old(store).conn)) ==> exists|i: int|
                0 <= i < db_sessions(old(store).conn).len() && row_open(
                    #[trigger] db_sessions(old(store).conn)[i],
                ) && rem == spec_budget_remaining(
                    db_sessions(old(store).conn)[i].4 as int,
                    db_sessions(old(store).conn)[i].5 as int,
                ))))),
            !spec_rate_limited(old(self).spec_last_request(), now)
                ==> final(self).spec_last_request() == Some(now),
            !spec_rate_limited(old(self).spec_last_request(), now) ==> (r matches Ok(opt)
                ==> match opt {
                None => !spec_has_open(db_sessions(old(store).conn)) && db_sessions(
                    final(store).conn,
                ) == db_sessions(old(store).conn),
                Some(rem) => spec_at_most_one_open(db_sessions(old(store).conn)) ==> exists|i: int|
                    #![trigger db_sessions(old(store).conn)[i]]
                    {
                        let old_ss = db_sessions(old(store).conn);
                        let new_ss = db_sessions(final(store).conn);
                        let nu = if old_ss[i].5 + secs > i32::MAX {
                            i32::MAX as int
                        } else {
                            old_ss[i].5 + secs
                        };
                        0 <= i < old_ss.len() && row_open(old_ss[i]) && new_ss.len()
                            == old_ss.len() && new_ss[i] == crate::store::row_with_used(
                            old_ss[i],
                            nu as i32,
                        ) && rem == spec_budget_remaining(old_ss[i].4 as int, nu) && (forall|m: int|
                            0 <= m < old_ss.len() && m != i ==> (#[trigger] new_ss[m]).2
                                == old_ss[m].2)
                    
                    },
            }),
            r is Err ==> db_sessions(final(store).conn) == db_sessions(old(store).conn),
            spec_at_most_one_open(db_sessions(old(store).conn)) ==> spec_at_most_one_open(
                db_sessions(final(store).conn),
            ),
    {
        let limited = match self.last_distraction_request {
            Some(t) => {
                let d: i128 = now as i128 - t as i128;
                0 <= d && d < DISTRACTION_TIME_RATE_LIMIT_SECS as i128
            },
            None => false,
        };
        if limited {
            // Rate limited: report the current budget without deducting.
            match FocusSession::find_active(store)? {
                Some(session) => Ok(Some(session.budget_remaining())),
                None => Ok(None),
            }
        } else {
            self.last_distraction_request = Some(now);
            match FocusSession::find_active(store)? {
                Some(mut session) => {
                    session.add_distraction_time(store, secs)?;
                    Ok(Some(session.budget_remaining()))
                },
                None => Ok(None),
            }
        }
    }
}

impl FocusManager {
    /// The first enabled schedule active at the given day and time;
    /// `None` exactly when no enabled schedule row is active then.
    pub fn get_active_schedule_at(&self, store: &Store, day: u32, time: &str) -> (r: Result<
        Option<FocusSchedule>,
        AppError,
    >)
        ensures
            r matches Ok(opt) ==> match opt {
                Some(sch) => sch.enabled && crate::schedule::spec_schedule_active_at(
                    sch.days_of_week@,
                    sch.start_time@,
                    sch.end_time@,
                    sch.enabled,
                    day,
                    time@,
                ) && exists|j: int|
                    0 <= j < db_schedules(store.conn).len() && sched_row_active_at(
                        #[trigger] db_schedules(store.conn)[j],
                        day,
                        time@,
                    ) && schedule_matches_row(sch, db_schedules(store.conn)[j]),
                None => !spec_active_schedule_exists(db_schedules(store.conn), day, time@),
            },
    {
        let schedules = FocusSchedule::find_enabled(store)?;
        let ghost scheds_v = schedules@;
        let ghost rows = db_schedules(store.conn);
        let n = schedules.len();
        let mut k: usize = 0;
        while k < n
            invariant
                n == scheds_v.len(),
                scheds_v == schedules@,
                rows == db_schedules(store.conn),
                crate::store::enabled_schedules_correspond(scheds_v, rows),
                k <= n,
                forall|i: int|
                    0 <= i < k ==> !crate::schedule::spec_schedule_active_at(
                        (#[trigger] scheds_v[i]).days_of_week@,
                        scheds_v[i].start_time@,
                        scheds_v[i].end_time@,
                        scheds_v[i].enabled,
                        day,
                        time@,
                    ),
            decreases n - k,
        {
            if schedules[k].is_active_at(day, time) {
                let sch = schedules[k].clone();
                proof {
                    let j = choose|j: int|
                        0 <= j < rows.len() && schedule_matches_row(scheds_v[k as int], #[trigger] rows[j]);
                    assert(sched_row_active_at(rows[j], day, time@));
                    assert(schedule_matches_row(sch, rows[j]));
                }
                return Ok(Some(sch));
            }
            k = k + 1;
        }
        proof {
            if spec_active_schedule_exists(rows, day, time@) {
                let j = choose|j: int|
                    0 <= j < rows.len() && sched_row_active_at(#[trigger] rows[j], day, time@);
                assert(rows[j].5);
                let i = choose|i: int|
                    0 <= i < scheds_v.len() && schedule_matches_row(#[trigger] scheds_v[i], rows[j]);
                assert(!crate::schedule::spec_schedule_active_at(
                    scheds_v[i].days_of_week@,
                    scheds_v[i].start_time@,
                    scheds_v[i].end_time@,
                    scheds_v[i].enabled,
                    day,
                    time@,
                ));
            }
        }
        Ok(None)
    }

    /// The currently active schedule, if any, read from the host clock.
    pub fn get_active_schedule(&self, store: &Store) -> (r: Result<Option<FocusSchedule>, AppError>)
        ensures
            r matches Ok(opt) ==> (opt matches Some(sch) ==> sch.enabled && exists|j: int|
                0 <= j < db_schedules(store.conn).len() && schedule_matches_row(
                    sch,
                    #[trigger] db_schedules(store.conn)[j],
                )),
    {
        let (day, time) = clock::get_current_day_and_time();
        self.get_active_schedule_at(store, day, time.as_str())
    }

    /// One reconciliation pass at the current wall time; the exact truth
    /// table is the contract of `check_schedules_at`.
    pub fn check_schedules(&self, store: &mut Store) -> (r: Result<(), AppError>)
        ensures
            spec_at_most_one_open(db_sessions(old(store).conn)) ==> spec_at_most_one_open(
                db_sessions(final(store).conn),
            ),
    {
        let (day, time) = clock::get_current_day_and_time();
        self.check_schedules_at(store, day, time.as_str())
    }

    /// One reconciliation pass at a known day and time. On success the
    /// store moves exactly as the reconciliation table says: an active
    /// schedule with no session starts a scheduled session; a scheduled
    /// session with no active schedule ends; a budget drift over 60
    /// seconds restarts the scheduled session; manual sessions are never
    /// touched; otherwise nothing changes.
    pub fn check_schedules_at(&self, store: &mut Store, day: u32, time: &str) -> (r: Result<
        (),
        AppError,
    >)
        ensures
            r is Ok ==> spec_check_outcome(
                db_sessions(old(store).conn),
                db_sessions(final(store).conn),
                db_schedules(old(store).conn),
                day,
                time@,
            ),
            spec_at_most_one_open(db_sessions(old(store).conn)) ==> spec_at_most_one_open(
                db_sessions(final(store).conn),
            ),
    {
        let ghost old_ss = db_sessions(store.conn);
        let ghost scheds = db_schedules(store.conn);
        let active_schedule = self.get_active_schedule_at(store, day, time)?;
        let active_session = FocusSession::find_active(store)?;
        match (active_schedule, active_session) {
            (Some(schedule), None) => {
                // Schedule active, nothing running: start a scheduled session.
                let mut session = FocusSession::new(schedule.distraction_budget, true);
                session.save(store)?;
                proof {
                    if spec_at_most_one_open(old_ss) {
                        let new_ss = db_sessions(store.conn);
                        let j = choose|j: int|
                            0 <= j < scheds.len() && sched_row_active_at(
                                #[trigger] scheds[j],
                                day,
                                time@,
                            ) && schedule_matches_row(schedule, scheds[j]);
                        assert(new_ss.last().4 == scheds[j].4);
                        assert(new_ss == old_ss.push(new_ss.last()));
                        assert(started_fresh_outcome(old_ss, new_ss, scheds, day, time@));
                    }
                }
                Ok(())
            },
            (None, Some(mut session)) => {
                if session.scheduled {
                    // No schedule active any more: end the scheduled session.
                    let ghost sess0 = session;
                    session.end(store)?;
                    proof {
                        if spec_at_most_one_open(old_ss) {
                            let i0 = choose|i0: int|
                                0 <= i0 < old_ss.len() && row_open(#[trigger] old_ss[i0])
                                    && session_matches_row(sess0, old_ss[i0]);
                            let t = choose|t: i64| session.ended_at == Some(t);
                            lemma_ended_outcome(
                                old_ss,
                                db_sessions(store.conn),
                                sess0,
                                old_ss[i0].0,
                                t,
                            );
                            assert forall|ai: int|
                                0 <= ai < old_ss.len() && row_open(#[trigger] old_ss[ai]) implies
                                old_ss[ai].3 == true by {
                                assert(ai == i0);
                            }
                        }
                    }
                    Ok(())
                } else {
                    // Manual sessions are never touched by reconciliation.
                    Ok(())
                }
            },
            (Some(schedule), Some(session)) => {
                if session.scheduled {
                    let diff: i64 = schedule.distraction_budget as i64
                        - session.distraction_budget as i64;
                    let drifted = diff > 60 || diff < -60;
                    if drifted {
                        // Budget drifted: replace the scheduled session.
                        let ghost sess0 = session;
                        let mut ending = session;
                        ending.end(store)?;
                        let ghost mid_ss = db_sessions(store.conn);
                        proof {
                            if spec_at_most_one_open(old_ss) {
                                let i0 = choose|i0: int|
                                    0 <= i0 < old_ss.len() && row_open(#[trigger] old_ss[i0])
                                        && session_matches_row(sess0, old_ss[i0]);
                                let t = choose|t: i64| ending.ended_at == Some(t);
                                lemma_ended_outcome(old_ss, mid_ss, sess0, old_ss[i0].0, t);
                            }
                        }
                        let mut new_session = FocusSession::new(schedule.distraction_budget, true);
                        new_session.save(store)?;
                        proof {
                            if spec_at_most_one_open(old_ss) {
                                let new_ss = db_sessions(store.conn);
                                let (ai0, t0) = choose|ai0: int, t0: i64|
                                    #![trigger spec_ended_map(old_ss, ai0, t0)]
                                    0 <= ai0 < old_ss.len() && row_open(old_ss[ai0]) && t0 >= 0
                                        && mid_ss == spec_ended_map(old_ss, ai0, t0);
                                assert(new_ss == spec_ended_map(old_ss, ai0, t0).push(
                                    new_ss.last(),
                                ));
                                let j = choose|j: int|
                                    0 <= j < scheds.len() && sched_row_active_at(
                                        #[trigger] scheds[j],
                                        day,
                                        time@,
                                    ) && schedule_matches_row(schedule, scheds[j]);
                                assert(new_ss.last().4 == scheds[j].4);
                                assert forall|i: int|
                                    0 <= i < new_ss.len() - 1 implies !row_open(
                                    #[trigger] new_ss[i],
                                ) by {
                                    assert(new_ss[i] == mid_ss[i]);
                                }
                                assert(restarted_outcome(old_ss, new_ss, scheds, day, time@));
                                assert forall|ai: int|
                                    0 <= ai < old_ss.len() && row_open(#[trigger] old_ss[ai])
                                        implies spec_check_outcome_with_open(
                                    old_ss,
                                    new_ss,
                                    scheds,
                                    day,
                                    time@,
                                    ai,
                                ) by {
                                    let i0 = choose|i0: int|
                                        0 <= i0 < old_ss.len() && row_open(#[trigger] old_ss[i0])
                                            && session_matches_row(sess0, old_ss[i0]);
                                    assert(ai == i0);
                                    assert(spec_abs_diff(scheds[j].4 as int, old_ss[ai].4 as int)
                                        > 60);
                                }
                            }
                        }
                        Ok(())
                    } else {
                        // Budget close enough: avoid thrash, change nothing.
                        proof {
                            if spec_at_most_one_open(old_ss) {
                                assert forall|ai: int|
                                    0 <= ai < old_ss.len() && row_open(#[trigger] old_ss[ai])
                                        implies spec_check_outcome_with_open(
                                    old_ss,
                                    old_ss,
                                    scheds,
                                    day,
                                    time@,
                                    ai,
                                ) by {
                                    let i0 = choose|i0: int|
                                        0 <= i0 < old_ss.len() && row_open(#[trigger] old_ss[i0])
                                            && session_matches_row(session, old_ss[i0]);
                                    assert(ai == i0);
                                    let j = choose|j: int|
                                        0 <= j < scheds.len() && sched_row_active_at(
                                            #[trigger] scheds[j],
                                            day,
                                            time@,
                                        ) && schedule_matches_row(schedule, scheds[j]);
                                    assert(spec_abs_diff(scheds[j].4 as int, old_ss[ai].4 as int)
                                        <= 60);
                                }
                            }
                        }
                        Ok(())
                    }
                } else {
                    // Manual sessions are never touched by reconciliation.
                    Ok(())
                }
            },
            (None, None) => Ok(()),
        }
    }
}

/// The `*.` marker stripped off blocked patterns for the equality test.
fn star_dot_chars() -> (r: Vec<char>)
    ensures
        r@ == seq!['*', '.'],
{
    let mut v: Vec<char> = Vec::new();
    v.push('*');
    v.push('.');
    proof {
        assert(v@ =~= seq!['*', '.']);
    }
    v
}

/// Ends the open session, if any: the open row gets its stamp, every
/// other row is untouched, and nothing is open afterwards (when at most
/// one was).
fn end_open_session(store: &mut Store) -> (r: Result<(), AppError>)
    ensures
        r is Ok ==> (spec_at_most_one_open(db_sessions(old(store).conn)) ==> ((spec_has_open(
            db_sessions(old(store).conn),
        ) ==> ended_outcome(db_sessions(old(store).conn), db_sessions(final(store).conn))) && (
        !spec_has_open(db_sessions(old(store).conn)) ==> db_sessions(final(store).conn)
            == db_sessions(old(store).conn)) && db_sessions(final(store).conn).len()
            == db_sessions(old(store).conn).len() && !spec_has_open(db_sessions(final(store).conn)))),
        r is Err ==> db_sessions(final(store).conn) == db_sessions(old(store).conn),
{
    match FocusSession::find_active(store)? {
        Some(mut existing) => {
            let ghost ex0 = existing;
            let ghost old_ss = db_sessions(store.conn);
            existing.end(store)?;
            proof {
                if spec_at_most_one_open(old_ss) {
                    let i0 = choose|i0: int|
                        0 <= i0 < old_ss.len() && row_open(#[trigger] old_ss[i0])
                            && session_matches_row(ex0, old_ss[i0]);
                    let t = choose|t: i64| existing.ended_at == Some(t);
                    lemma_ended_outcome(old_ss, db_sessions(store.conn), ex0, old_ss[i0].0, t);
                }
            }
            Ok(())
        },
        None => Ok(()),
    }
}

} // verus!
