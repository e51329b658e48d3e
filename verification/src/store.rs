//! The persistent store: a single SQLite connection behind a small trusted
//! boundary. The contents of each table are named by an uninterpreted
//! function of the connection, and every statement the library issues is a
//! wrapper whose contract says how it reads or rewrites those contents.
//! Callers never see raw store errors, only [`StoreError`].

use vstd::prelude::*;
use crate::activity::Activity;
use crate::category::Category;
use crate::error::StoreError;
use crate::rule::{MatchType, Rule, spec_match_type_of, spec_match_type_str};
use crate::schedule::{FocusSchedule, spec_schedule_active_at};
use crate::session::FocusSession;

verus! {

#[verifier::external_type_specification]
#[verifier::external_body]
pub struct ExConnection(rusqlite::Connection);

#[verifier::external_type_specification]
#[verifier::external_body]
pub struct ExError(rusqlite::Error);

/// One `focus_sessions` row: (id, started_at, ended_at, scheduled,
/// distraction_budget, distraction_used).
pub type SessionRow = (i64, i64, Option<i64>, bool, i32, i32);

/// One `focus_schedules` row: (id, days_of_week, start_time, end_time,
/// distraction_budget, enabled).
pub type ScheduleRow = (i64, Seq<char>, Seq<char>, Seq<char>, i32, bool);

/// One `rules` row: (id, pattern, match_type, category_id, priority).
pub type RuleRow = (i64, Seq<char>, Seq<char>, i64, i32);

/// One `categories` row: (id, name, productivity).
pub type CategoryRow = (i64, Seq<char>, i32);

/// One `activities` row, without its id: (timestamp, duration_secs, source,
/// app_name, window_title, url, domain, category_id).
pub type ActivityRow = (
    i64,
    i32,
    Seq<char>,
    Option<Seq<char>>,
    Option<Seq<char>>,
    Option<Seq<char>>,
    Option<Seq<char>>,
    Option<i64>,
);

/// The rows of `focus_sessions`, in rowid order.
pub uninterp spec fn db_sessions(c: rusqlite::Connection) -> Seq<SessionRow>;

/// The rows of `focus_schedules`, in rowid order.
pub uninterp spec fn db_schedules(c: rusqlite::Connection) -> Seq<ScheduleRow>;

/// The rows of `rules`, in rowid order.
pub uninterp spec fn db_rules(c: rusqlite::Connection) -> Seq<RuleRow>;

/// The rows of `categories`, in rowid order.
pub uninterp spec fn db_categories(c: rusqlite::Connection) -> Seq<CategoryRow>;

/// The rows of `activities`, in rowid order, ids dropped.
pub uninterp spec fn db_activities(c: rusqlite::Connection) -> Seq<ActivityRow>;

/// The session row is still open.
pub open spec fn row_open(r: SessionRow) -> bool {
    r.2 is None
}

/// Some session row is still open.
pub open spec fn spec_has_open(ss: Seq<SessionRow>) -> bool {
    exists|i: int| 0 <= i < ss.len() && row_open(ss[i])
}

/// No two distinct session rows are open.
pub open spec fn spec_at_most_one_open(ss: Seq<SessionRow>) -> bool {
    forall|i: int, j: int|
        0 <= i < ss.len() && 0 <= j < ss.len() && i != j ==> !(row_open(ss[i]) && row_open(ss[j]))
}

pub open spec fn session_matches_row(s: FocusSession, r: SessionRow) -> bool {
    s.id == Some(r.0) && s.started_at == r.1 && s.ended_at == r.2 && s.scheduled == r.3
        && s.distraction_budget == r.4 && s.distraction_used == r.5
}

pub open spec fn schedule_matches_row(s: FocusSchedule, r: ScheduleRow) -> bool {
    s.id == Some(r.0) && s.days_of_week@ == r.1 && s.start_time@ == r.2 && s.end_time@ == r.3
        && s.distraction_budget == r.4 && s.enabled == r.5
}

/// How a `rules` row is read back: unknown match kinds fall back to `App`.
pub open spec fn rule_matches_row(rl: Rule, r: RuleRow) -> bool {
    rl.id == r.0 && rl.pattern@ == r.1 && rl.category_id == r.3 && rl.priority == r.4
        && rl.match_type == (match spec_match_type_of(r.2) {
        Some(m) => m,
        None => MatchType::App,
    })
}

pub open spec fn category_matches_row(c: Category, r: CategoryRow) -> bool {
    c.id == r.0 && c.name@ == r.1 && c.productivity == r.2
}

/// A schedule row that is enabled and active at the given day and time.
pub open spec fn sched_row_active_at(r: ScheduleRow, day: u32, time: Seq<char>) -> bool {
    spec_schedule_active_at(r.1, r.2, r.3, r.5, day, time)
}

/// `p` is the pattern of a Domain rule whose category has negative
/// productivity: the definition of a blocked domain pattern.
pub open spec fn spec_is_blocked_pattern(
    rules: Seq<RuleRow>,
    cats: Seq<CategoryRow>,
    p: Seq<char>,
) -> bool {
    exists|j: int, k: int|
        0 <= j < rules.len() && 0 <= k < cats.len() && rules[j].1 == p && rules[j].2
            == spec_match_type_str(MatchType::Domain) && rules[j].3 == cats[k].0 && cats[k].2 < 0
}

/// `v` holds exactly the schedule rows of `rows` (as values; order and
/// duplicate counts aside).
pub open spec fn schedules_correspond(v: Seq<FocusSchedule>, rows: Seq<ScheduleRow>) -> bool {
    (forall|i: int|
        0 <= i < v.len() ==> exists|j: int|
            0 <= j < rows.len() && schedule_matches_row(#[trigger] v[i], rows[j])) && (forall|
        j: int,
    |
        0 <= j < rows.len() ==> exists|i: int|
            0 <= i < v.len() && schedule_matches_row(v[i], #[trigger] rows[j]))
}

/// `v` holds exactly the enabled schedule rows of `rows`.
pub open spec fn enabled_schedules_correspond(
    v: Seq<FocusSchedule>,
    rows: Seq<ScheduleRow>,
) -> bool {
    (forall|i: int|
        0 <= i < v.len() ==> (#[trigger] v[i]).enabled && exists|j: int|
            0 <= j < rows.len() && schedule_matches_row(v[i], rows[j])) && (forall|j: int|
        0 <= j < rows.len() && (#[trigger] rows[j]).5 ==> exists|i: int|
            0 <= i < v.len() && schedule_matches_row(v[i], rows[j]))
}

/// `v` holds exactly the rule rows of `rows`.
pub open spec fn rules_correspond(v: Seq<Rule>, rows: Seq<RuleRow>) -> bool {
    (forall|i: int|
        0 <= i < v.len() ==> exists|j: int|
            0 <= j < rows.len() && rule_matches_row(#[trigger] v[i], rows[j])) && (forall|j: int|
        0 <= j < rows.len() ==> exists|i: int|
            0 <= i < v.len() && rule_matches_row(v[i], #[trigger] rows[j]))
}

/// `v` holds exactly the category rows of `rows`.
pub open spec fn categories_correspond(v: Seq<Category>, rows: Seq<CategoryRow>) -> bool {
    (forall|i: int|
        0 <= i < v.len() ==> exists|j: int|
            0 <= j < rows.len() && category_matches_row(#[trigger] v[i], rows[j])) && (forall|
        j: int,
    |
        0 <= j < rows.len() ==> exists|i: int|
            0 <= i < v.len() && category_matches_row(v[i], #[trigger] rows[j]))
}

/// `v` holds exactly the blocked domain patterns of the rule and category
/// rows.
pub open spec fn blocked_patterns_correspond(
    v: Seq<String>,
    rules: Seq<RuleRow>,
    cats: Seq<CategoryRow>,
) -> bool {
    (forall|i: int|
        0 <= i < v.len() ==> spec_is_blocked_pattern(rules, cats, (#[trigger] v[i])@)) && (forall|
        p: Seq<char>,
    |
        #[trigger] spec_is_blocked_pattern(rules, cats, p) ==> exists|i: int|
            0 <= i < v.len() && v[i]@ == p)
}

/// The summed duration of the activity rows with `start <= timestamp <
/// end` that carry exactly this category.
pub open spec fn spec_category_total(
    rows: Seq<ActivityRow>,
    start: int,
    end: int,
    cat: i64,
) -> int
    decreases rows.len(),
{
    if rows.len() == 0 {
        0
    } else {
        spec_category_total(rows.drop_last(), start, end, cat) + (if start <= rows.last().0 < end
            && rows.last().7 == Some(cat) {
            rows.last().1 as int
        } else {
            0
        })
    }
}

/// Some activity row lies in the range and carries this category.
pub open spec fn spec_category_in_range(
    rows: Seq<ActivityRow>,
    start: int,
    end: int,
    cat: i64,
) -> bool {
    exists|j: int|
        0 <= j < rows.len() && start <= (#[trigger] rows[j]).0 < end && rows[j].7 == Some(cat)
}

/// `v` is the grouped per-category duration sum of the activity rows in
/// the range: one pair for each category id that appears there, each
/// carrying the exact sum.
pub open spec fn totals_correspond(
    v: Seq<(i64, i32)>,
    rows: Seq<ActivityRow>,
    start: int,
    end: int,
) -> bool {
    (forall|i: int|
        0 <= i < v.len() ==> (#[trigger] v[i]).1 == spec_category_total(rows, start, end, v[i].0)
            && spec_category_in_range(rows, start, end, v[i].0)) && (forall|c: i64|
        #[trigger] spec_category_in_range(rows, start, end, c) ==> exists|i: int|
            0 <= i < v.len() && (#[trigger] v[i]).0 == c) && (forall|i: int, j: int|
        0 <= i < j < v.len() ==> (#[trigger] v[i]).0 != (#[trigger] v[j]).0)
}

/// The summed duration of the activity rows in the range whose app name is
/// exactly this one.
pub open spec fn spec_app_total(rows: Seq<ActivityRow>, start: int, end: int, app: Seq<char>) -> int
    decreases rows.len(),
{
    if rows.len() == 0 {
        0
    } else {
        spec_app_total(rows.drop_last(), start, end, app) + (if start <= rows.last().0 < end
            && rows.last().3 == Some(app) {
            rows.last().1 as int
        } else {
            0
        })
    }
}

/// One top-apps row: the app occurs in the range, the total is its exact
/// duration sum, and the productivity is that of the category of one of
/// its rows (0 when that row has none or its category id matches no
/// category row).
pub open spec fn spec_top_app_entry(
    name: Seq<char>,
    total: int,
    prod: int,
    rows: Seq<ActivityRow>,
    cats: Seq<CategoryRow>,
    start: int,
    end: int,
) -> bool {
    total == spec_app_total(rows, start, end, name) && exists|j: int|
        0 <= j < rows.len() && start <= (#[trigger] rows[j]).0 < end && rows[j].3 == Some(name)
            && (match rows[j].7 {
            None => prod == 0,
            Some(cid) => (exists|k: int|
                0 <= k < cats.len() && (#[trigger] cats[k]).0 == cid && cats[k].2 == prod) || ((
            forall|k: int| 0 <= k < cats.len() ==> (#[trigger] cats[k]).0 != cid) && prod == 0),
        })
}

/// Some activity row lies in the range and carries this app name.
pub open spec fn spec_app_in_range(
    rows: Seq<ActivityRow>,
    start: int,
    end: int,
    app: Seq<char>,
) -> bool {
    exists|j: int|
        0 <= j < rows.len() && start <= (#[trigger] rows[j]).0 < end && rows[j].3 == Some(app)
}

/// `v` is a top-apps listing of the activity rows in the range: at most
/// `limit` rows, one per app name, exact sums, by total descending; when
/// fewer rows than the limit come back, every app seen in the range is
/// among them.
pub open spec fn top_apps_correspond(
    v: Seq<(String, i32, i32)>,
    rows: Seq<ActivityRow>,
    cats: Seq<CategoryRow>,
    start: int,
    end: int,
    limit: i32,
) -> bool {
    (limit >= 0 ==> v.len() <= limit) && (forall|i: int|
        0 <= i < v.len() ==> spec_top_app_entry(
            (#[trigger] v[i]).0@,
            v[i].1 as int,
            v[i].2 as int,
            rows,
            cats,
            start,
            end,
        )) && (forall|i: int, j: int|
        0 <= i < j < v.len() ==> (#[trigger] v[i]).1 >= (#[trigger] v[j]).1) && (forall|
        i: int,
        j: int,
    |
        0 <= i < j < v.len() ==> (#[trigger] v[i]).0@ != (#[trigger] v[j]).0@) && (v.len() < limit
        ==> forall|a: Seq<char>|
        #[trigger] spec_app_in_range(rows, start, end, a) ==> exists|i: int|
            0 <= i < v.len() && (#[trigger] v[i]).0@ == a)
}

/// `v` holds exactly the activity rows with `start <= timestamp < end`.
pub open spec fn activities_correspond(
    v: Seq<Activity>,
    rows: Seq<ActivityRow>,
    start: i64,
    end: i64,
) -> bool {
    (forall|i: int|
        0 <= i < v.len() ==> start <= (#[trigger] v[i]).timestamp < end && exists|j: int|
            0 <= j < rows.len() && spec_activity_row(v[i]) == rows[j]) && (forall|j: int|
        0 <= j < rows.len() && start <= (#[trigger] rows[j]).0 < end ==> exists|i: int|
            0 <= i < v.len() && spec_activity_row(v[i]) == rows[j])
}

/// The session row with `ended_at` set.
pub open spec fn row_with_ended(r: SessionRow, ended_at: i64) -> SessionRow {
    (r.0, r.1, Some(ended_at), r.3, r.4, r.5)
}

/// The session row with `distraction_used` replaced.
pub open spec fn row_with_used(r: SessionRow, used: i32) -> SessionRow {
    (r.0, r.1, r.2, r.3, r.4, used)
}

/// The schedule row with everything but the id replaced.
pub open spec fn sched_row_updated(
    r: ScheduleRow,
    days: Seq<char>,
    start: Seq<char>,
    end: Seq<char>,
    budget: i32,
    enabled: bool,
) -> ScheduleRow {
    (r.0, days, start, end, budget, enabled)
}

pub open spec fn spec_activity_row(a: Activity) -> ActivityRow {
    (
        a.timestamp,
        a.duration_secs,
        a.source@,
        match a.app_name {
            Some(s) => Some(s@),
            None => None,
        },
        match a.window_title {
            Some(s) => Some(s@),
            None => None,
        },
        match a.url {
            Some(s) => Some(s@),
            None => None,
        },
        match a.domain {
            Some(s) => Some(s@),
            None => None,
        },
        a.category_id,
    )
}

/// The single store connection. App code opens the SQLite connection and
/// hands it in; everything after that goes through the wrappers below.
pub struct Store {
    pub conn: rusqlite::Connection,
}

/// Relies on rusqlite::Error: a SqliteFailure carries the SQLite extended
/// result code; 1555 and 2067 are the UNIQUE (primary key / index)
/// constraint codes and 787 the FOREIGN KEY constraint code.
#[verifier::external_body]
fn classify_error(e: rusqlite::Error) -> StoreError {
    match e {
        rusqlite::Error::SqliteFailure(f, _) => {
            if f.extended_code == 1555 || f.extended_code == 2067 {
                StoreError::UniqueViolation
            } else if f.extended_code == 787 {
                StoreError::ForeignKeyViolation
            } else {
                StoreError::Other
            }
        },
        _ => StoreError::Other,
    }
}

impl Store {
    /// Wraps an already-open connection.
    #[verifier::external_body]
    pub fn from_connection(conn: rusqlite::Connection) -> Store {
        Store { conn }
    }

    /// Relies on rusqlite::Connection::execute_batch to create the tables
    /// and indexes if they do not exist yet.
    #[verifier::external_body]
    fn exec_schema(&mut self) -> Result<(), StoreError> {
        self.conn.execute_batch(SCHEMA).map_err(classify_error)
    }

    /// Relies on rusqlite::Connection::query_row with `SELECT COUNT(*)`:
    /// the number of rows of `categories`.
    #[verifier::external_body]
    fn count_categories(&self) -> (r: Result<i64, StoreError>)
        ensures
            r matches Ok(n) ==> n == db_categories(self.conn).len(),
    {
        self.conn.query_row("SELECT COUNT(*) FROM categories", (), |row| row.get(0)).map_err(
            classify_error,
        )
    }

    /// Relies on rusqlite::Connection::query_row with `SELECT COUNT(*)`:
    /// the number of rows of `rules`.
    #[verifier::external_body]
    fn count_rules(&self) -> (r: Result<i64, StoreError>)
        ensures
            r matches Ok(n) ==> n == db_rules(self.conn).len(),
    {
        self.conn.query_row("SELECT COUNT(*) FROM rules", (), |row| row.get(0)).map_err(
            classify_error,
        )
    }

    /// Relies on rusqlite::Connection::prepare and Statement::query: the
    /// open session row with the greatest `started_at`, if one is open.
    #[verifier::external_body]
    pub(crate) fn find_active_session(&self) -> (r: Result<Option<FocusSession>, StoreError>)
        ensures
            r matches Ok(opt) ==> match opt {
                None => !spec_has_open(db_sessions(self.conn)),
                Some(s) => exists|i: int|
                    0 <= i < db_sessions(self.conn).len() && row_open(db_sessions(self.conn)[i])
                        && session_matches_row(s, db_sessions(self.conn)[i]) && forall|j: int|
                        0 <= j < db_sessions(self.conn).len() && row_open(db_sessions(self.conn)[j])
                            ==> db_sessions(self.conn)[j].1 <= db_sessions(self.conn)[i].1,
            },
    {
        let mut stmt = self.conn.prepare(
            "SELECT id, started_at, ended_at, scheduled, distraction_budget, distraction_used
             FROM focus_sessions WHERE ended_at IS NULL ORDER BY started_at DESC LIMIT 1",
        ).map_err(classify_error)?;
        let mut rows = stmt.query(()).map_err(classify_error)?;
        match rows.next().map_err(classify_error)? {
            Some(row) => Ok(Some(FocusSession {
                id: Some(row.get(0).map_err(classify_error)?),
                started_at: row.get(1).map_err(classify_error)?,
                ended_at: row.get(2).map_err(classify_error)?,
                scheduled: row.get::<_, i32>(3).map_err(classify_error)? != 0,
                distraction_budget: row.get(4).map_err(classify_error)?,
                distraction_used: row.get(5).map_err(classify_error)?,
            })),
            None => Ok(None),
        }
    }

    /// Relies on rusqlite::Connection::execute (INSERT) and
    /// Connection::last_insert_rowid: appends one `focus_sessions` row and
    /// returns its id.
    #[verifier::external_body]
    pub(crate) fn insert_session(
        &mut self,
        started_at: i64,
        ended_at: Option<i64>,
        scheduled: bool,
        budget: i32,
        used: i32,
    ) -> (r: Result<i64, StoreError>)
        ensures
            r matches Ok(id) ==> db_sessions(final(self).conn) == db_sessions(
                old(self).conn,
            ).push((id, started_at, ended_at, scheduled, budget, used)),
            r is Err ==> db_sessions(final(self).conn) == db_sessions(old(self).conn),
    {
        self.conn.execute(
            "INSERT INTO focus_sessions (started_at, ended_at, scheduled, distraction_budget, distraction_used)
             VALUES (?1, ?2, ?3, ?4, ?5)",
            (started_at, ended_at, scheduled as i32, budget, used),
        ).map_err(classify_error)?;
        Ok(self.conn.last_insert_rowid())
    }

    /// Relies on rusqlite::Connection::execute (UPDATE): sets `ended_at` on
    /// every session row with this id, touching nothing else.
    #[verifier::external_body]
    pub(crate) fn set_session_ended(&mut self, id: i64, ended_at: i64) -> (r: Result<(), StoreError>)
        ensures
            r is Ok ==> db_sessions(final(self).conn).len() == db_sessions(old(self).conn).len()
                && forall|i: int|
                0 <= i < db_sessions(old(self).conn).len() ==> db_sessions(final(self).conn)[i]
                    == (if db_sessions(old(self).conn)[i].0 == id {
                    row_with_ended(db_sessions(old(self).conn)[i], ended_at)
                } else {
                    db_sessions(old(self).conn)[i]
                }),
            r is Err ==> db_sessions(final(self).conn) == db_sessions(old(self).conn),
    {
        self.conn.execute(
            "UPDATE focus_sessions SET ended_at = ?1 WHERE id = ?2",
            (ended_at, id),
        ).map_err(classify_error)?;
        Ok(())
    }

    /// Relies on rusqlite::Connection::execute (UPDATE): sets
    /// `distraction_used` on every session row with this id, touching
    /// nothing else.
    #[verifier::external_body]
    pub(crate) fn set_session_used(&mut self, id: i64, used: i32) -> (r: Result<(), StoreError>)
        ensures
            r is Ok ==> db_sessions(final(self).conn).len() == db_sessions(old(self).conn).len()
                && forall|i: int|
                0 <= i < db_sessions(old(self).conn).len() ==> db_sessions(final(self).conn)[i]
                    == (if db_sessions(old(self).conn)[i].0 == id {
                    row_with_used(db_sessions(old(self).conn)[i], used)
                } else {
                    db_sessions(old(self).conn)[i]
                }),
            r is Err ==> db_sessions(final(self).conn) == db_sessions(old(self).conn),
    {
        self.conn.execute(
            "UPDATE focus_sessions SET distraction_used = ?1 WHERE id = ?2",
            (used, id),
        ).map_err(classify_error)?;
        Ok(())
    }

    /// Relies on rusqlite::Connection::prepare and Statement::query_map:
    /// exactly the enabled `focus_schedules` rows, in some order.
    #[verifier::external_body]
    pub(crate) fn find_enabled_schedules(&self) -> (r: Result<Vec<FocusSchedule>, StoreError>)
        ensures
            r matches Ok(v) ==> enabled_schedules_correspond(v@, db_schedules(self.conn)),
    {
        let mut stmt = self.conn.prepare(
            "SELECT id, days_of_week, start_time, end_time, distraction_budget, enabled
             FROM focus_schedules WHERE enabled = 1 ORDER BY start_time",
        ).map_err(classify_error)?;
        let rows = stmt.query_map((), |row| Ok(FocusSchedule {
            id: Some(row.get(0)?),
            days_of_week: row.get(1)?,
            start_time: row.get(2)?,
            end_time: row.get(3)?,
            distraction_budget: row.get(4)?,
            enabled: row.get::<_, i32>(5)? != 0,
        })).map_err(classify_error)?;
        rows.collect::<Result<Vec<_>, _>>().map_err(classify_error)
    }

    /// Relies on rusqlite::Connection::prepare and Statement::query_map:
    /// every `focus_schedules` row, one item per row, in some order.
    #[verifier::external_body]
    pub(crate) fn find_all_schedules(&self) -> (r: Result<Vec<FocusSchedule>, StoreError>)
        ensures
            r matches Ok(v) ==> schedules_correspond(v@, db_schedules(self.conn)) && v@.len()
                == db_schedules(self.conn).len(),
    {
        let mut stmt = self.conn.prepare(
            "SELECT id, days_of_week, start_time, end_time, distraction_budget, enabled
             FROM focus_schedules ORDER BY start_time",
        ).map_err(classify_error)?;
        let rows = stmt.query_map((), |row| Ok(FocusSchedule {
            id: Some(row.get(0)?),
            days_of_week: row.get(1)?,
            start_time: row.get(2)?,
            end_time: row.get(3)?,
            distraction_budget: row.get(4)?,
            enabled: row.get::<_, i32>(5)? != 0,
        })).map_err(classify_error)?;
        rows.collect::<Result<Vec<_>, _>>().map_err(classify_error)
    }

    /// Relies on rusqlite::Connection::prepare and Statement::query: the
    /// `focus_schedules` row with this id, if any.
    #[verifier::external_body]
    pub(crate) fn find_schedule_by_id(&self, id: i64) -> (r: Result<Option<FocusSchedule>, StoreError>)
        ensures
            r matches Ok(opt) ==> match opt {
                None => forall|j: int|
                    0 <= j < db_schedules(self.conn).len() ==> db_schedules(self.conn)[j].0 != id,
                Some(s) => s.id == Some(id) && exists|j: int|
                    0 <= j < db_schedules(self.conn).len() && schedule_matches_row(
                        s,
                        db_schedules(self.conn)[j],
                    ),
            },
    {
        let mut stmt = self.conn.prepare(
            "SELECT id, days_of_week, start_time, end_time, distraction_budget, enabled
             FROM focus_schedules WHERE id = ?1",
        ).map_err(classify_error)?;
        let mut rows = stmt.query((id,)).map_err(classify_error)?;
        match rows.next().map_err(classify_error)? {
            Some(row) => Ok(Some(FocusSchedule {
                id: Some(row.get(0).map_err(classify_error)?),
                days_of_week: row.get(1).map_err(classify_error)?,
                start_time: row.get(2).map_err(classify_error)?,
                end_time: row.get(3).map_err(classify_error)?,
                distraction_budget: row.get(4).map_err(classify_error)?,
                enabled: row.get::<_, i32>(5).map_err(classify_error)? != 0,
            })),
            None => Ok(None),
        }
    }

    /// Relies on rusqlite::Connection::execute (INSERT) and
    /// Connection::last_insert_rowid: appends one `focus_schedules` row and
    /// returns its id.
    #[verifier::external_body]
    pub(crate) fn insert_schedule(
        &mut self,
        days: &str,
        start: &str,
        end: &str,
        budget: i32,
        enabled: bool,
    ) -> (r: Result<i64, StoreError>)
        ensures
            r matches Ok(id) ==> db_schedules(final(self).conn) == db_schedules(
                old(self).conn,
            ).push((id, days@, start@, end@, budget, enabled)),
            r is Err ==> db_schedules(final(self).conn) == db_schedules(old(self).conn),
    {
        self.conn.execute(
            "INSERT INTO focus_schedules (days_of_week, start_time, end_time, distraction_budget, enabled)
             VALUES (?1, ?2, ?3, ?4, ?5)",
            (days, start, end, budget, enabled as i32),
        ).map_err(classify_error)?;
        Ok(self.conn.last_insert_rowid())
    }

    /// Relies on rusqlite::Connection::execute (UPDATE): rewrites every
    /// `focus_schedules` row with this id, touching nothing else.
    #[verifier::external_body]
    pub(crate) fn update_schedule(
        &mut self,
        id: i64,
        days: &str,
        start: &str,
        end: &str,
        budget: i32,
        enabled: bool,
    ) -> (r: Result<(), StoreError>)
        ensures
            r is Ok ==> db_schedules(final(self).conn).len() == db_schedules(old(self).conn).len()
                && forall|i: int|
                0 <= i < db_schedules(old(self).conn).len() ==> db_schedules(final(self).conn)[i]
                    == (if db_schedules(old(self).conn)[i].0 == id {
                    sched_row_updated(
                        db_schedules(old(self).conn)[i],
                        days@,
                        start@,
                        end@,
                        budget,
                        enabled,
                    )
                } else {
                    db_schedules(old(self).conn)[i]
                }),
            r is Err ==> db_schedules(final(self).conn) == db_schedules(old(self).conn),
    {
        self.conn.execute(
            "UPDATE focus_schedules SET days_of_week = ?1, start_time = ?2, end_time = ?3,
             distraction_budget = ?4, enabled = ?5 WHERE id = ?6",
            (days, start, end, budget, enabled as i32, id),
        ).map_err(classify_error)?;
        Ok(())
    }

    /// Relies on rusqlite::Connection::execute (DELETE): removes every
    /// `focus_schedules` row with this id; true when any row went.
    #[verifier::external_body]
    pub(crate) fn delete_schedule(&mut self, id: i64) -> (r: Result<bool, StoreError>)
        ensures
            r matches Ok(b) ==> db_schedules(final(self).conn) == spec_remove_schedule(
                db_schedules(old(self).conn),
                id,
            ) && b == exists|j: int|
                0 <= j < db_schedules(old(self).conn).len() && db_schedules(old(self).conn)[j].0
                    == id,
            r is Err ==> db_schedules(final(self).conn) == db_schedules(old(self).conn),
    {
        let n = self.conn.execute("DELETE FROM focus_schedules WHERE id = ?1", (id,)).map_err(
            classify_error,
        )?;
        Ok(n > 0)
    }

    /// Relies on rusqlite::Connection::prepare and Statement::query_map:
    /// every `rules` row, one item per row; unknown match kinds are read
    /// back as App. The statement orders by priority, but the contract
    /// leaves the order open and the categorizer sorts for itself.
    #[verifier::external_body]
    pub(crate) fn find_all_rules(&self) -> (r: Result<Vec<Rule>, StoreError>)
        ensures
            r matches Ok(v) ==> rules_correspond(v@, db_rules(self.conn)) && v@.len() == db_rules(
                self.conn,
            ).len(),
    {
        let mut stmt = self.conn.prepare(
            "SELECT id, pattern, match_type, category_id, priority FROM rules ORDER BY priority DESC",
        ).map_err(classify_error)?;
        let rows = stmt.query_map((), |row| {
            let mt: String = row.get(2)?;
            Ok(Rule {
                id: row.get(0)?,
                pattern: row.get(1)?,
                match_type: MatchType::from_str(&mt).unwrap_or(MatchType::App),
                category_id: row.get(3)?,
                priority: row.get(4)?,
            })
        }).map_err(classify_error)?;
        rows.collect::<Result<Vec<_>, _>>().map_err(classify_error)
    }

    /// Relies on rusqlite::Connection::execute (INSERT) and
    /// Connection::last_insert_rowid: appends one `rules` row and returns
    /// its id.
    #[verifier::external_body]
    pub(crate) fn insert_rule(
        &mut self,
        pattern: &str,
        match_type: &str,
        category_id: i64,
        priority: i32,
    ) -> (r: Result<i64, StoreError>)
        ensures
            r matches Ok(id) ==> db_rules(final(self).conn) == db_rules(old(self).conn).push(
                (id, pattern@, match_type@, category_id, priority),
            ),
            r is Err ==> db_rules(final(self).conn) == db_rules(old(self).conn),
    {
        self.conn.execute(
            "INSERT INTO rules (pattern, match_type, category_id, priority) VALUES (?1, ?2, ?3, ?4)",
            (pattern, match_type, category_id, priority),
        ).map_err(classify_error)?;
        Ok(self.conn.last_insert_rowid())
    }

    /// Relies on rusqlite::Connection::execute (UPDATE): rewrites every
    /// `rules` row with this id; true when any row changed.
    #[verifier::external_body]
    pub(crate) fn update_rule(
        &mut self,
        id: i64,
        pattern: &str,
        match_type: &str,
        category_id: i64,
        priority: i32,
    ) -> (r: Result<bool, StoreError>)
        ensures
            r matches Ok(b) ==> db_rules(final(self).conn).len() == db_rules(old(self).conn).len()
                && (forall|i: int|
                0 <= i < db_rules(old(self).conn).len() ==> db_rules(final(self).conn)[i] == (
                if db_rules(old(self).conn)[i].0 == id {
                    (id, pattern@, match_type@, category_id, priority)
                } else {
                    db_rules(old(self).conn)[i]
                })) && b == exists|j: int|
                0 <= j < db_rules(old(self).conn).len() && db_rules(old(self).conn)[j].0 == id,
            r is Err ==> db_rules(final(self).conn) == db_rules(old(self).conn),
    {
        let n = self.conn.execute(
            "UPDATE rules SET pattern = ?1, match_type = ?2, category_id = ?3, priority = ?4 WHERE id = ?5",
            (pattern, match_type, category_id, priority, id),
        ).map_err(classify_error)?;
        Ok(n > 0)
    }

    /// Relies on rusqlite::Connection::execute (DELETE): removes every
    /// `rules` row with this id; true when any row went.
    #[verifier::external_body]
    pub(crate) fn delete_rule(&mut self, id: i64) -> (r: Result<bool, StoreError>)
        ensures
            r matches Ok(b) ==> db_rules(final(self).conn) == spec_remove_rule(
                db_rules(old(self).conn),
                id,
            ) && b == exists|j: int|
                0 <= j < db_rules(old(self).conn).len() && db_rules(old(self).conn)[j].0 == id,
            r is Err ==> db_rules(final(self).conn) == db_rules(old(self).conn),
    {
        let n = self.conn.execute("DELETE FROM rules WHERE id = ?1", (id,)).map_err(
            classify_error,
        )?;
        Ok(n > 0)
    }

    /// Relies on rusqlite::Connection::prepare and Statement::query_map:
    /// every `categories` row, one item per row, in some order.
    #[verifier::external_body]
    pub(crate) fn find_all_categories(&self) -> (r: Result<Vec<Category>, StoreError>)
        ensures
            r matches Ok(v) ==> categories_correspond(v@, db_categories(self.conn)) && v@.len()
                == db_categories(self.conn).len(),
    {
        let mut stmt = self.conn.prepare(
            "SELECT id, name, productivity FROM categories ORDER BY name",
        ).map_err(classify_error)?;
        let rows = stmt.query_map((), |row| Ok(Category {
            id: row.get(0)?,
            name: row.get(1)?,
            productivity: row.get(2)?,
        })).map_err(classify_error)?;
        rows.collect::<Result<Vec<_>, _>>().map_err(classify_error)
    }

    /// Relies on rusqlite::Connection::prepare and Statement::query: the
    /// `categories` row with this id, if any.
    #[verifier::external_body]
    pub(crate) fn find_category_by_id(&self, id: i64) -> (r: Result<Option<Category>, StoreError>)
        ensures
            r matches Ok(opt) ==> match opt {
                None => forall|j: int|
                    0 <= j < db_categories(self.conn).len() ==> db_categories(self.conn)[j].0 != id,
                Some(c) => c.id == id && exists|j: int|
                    0 <= j < db_categories(self.conn).len() && category_matches_row(
                        c,
                        db_categories(self.conn)[j],
                    ),
            },
    {
        let mut stmt = self.conn.prepare(
            "SELECT id, name, productivity FROM categories WHERE id = ?1",
        ).map_err(classify_error)?;
        let mut rows = stmt.query((id,)).map_err(classify_error)?;
        match rows.next().map_err(classify_error)? {
            Some(row) => Ok(Some(Category {
                id: row.get(0).map_err(classify_error)?,
                name: row.get(1).map_err(classify_error)?,
                productivity: row.get(2).map_err(classify_error)?,
            })),
            None => Ok(None),
        }
    }

    /// Relies on rusqlite::Connection::execute (INSERT) and
    /// Connection::last_insert_rowid: appends one `categories` row and
    /// returns its id.
    #[verifier::external_body]
    pub(crate) fn insert_category(&mut self, name: &str, productivity: i32) -> (r: Result<
        i64,
        StoreError,
    >)
        ensures
            r matches Ok(id) ==> db_categories(final(self).conn) == db_categories(
                old(self).conn,
            ).push((id, name@, productivity)),
            r is Err ==> db_categories(final(self).conn) == db_categories(old(self).conn),
    {
        self.conn.execute(
            "INSERT INTO categories (name, productivity) VALUES (?1, ?2)",
            (name, productivity),
        ).map_err(classify_error)?;
        Ok(self.conn.last_insert_rowid())
    }

    /// Relies on rusqlite::Connection::execute (UPDATE): rewrites every
    /// `categories` row with this id; true when any row changed.
    #[verifier::external_body]
    pub(crate) fn update_category(&mut self, id: i64, name: &str, productivity: i32) -> (r: Result<
        bool,
        StoreError,
    >)
        ensures
            r matches Ok(b) ==> db_categories(final(self).conn).len() == db_categories(
                old(self).conn,
            ).len() && (forall|i: int|
                0 <= i < db_categories(old(self).conn).len() ==> db_categories(final(self).conn)[i]
                    == (if db_categories(old(self).conn)[i].0 == id {
                    (id, name@, productivity)
                } else {
                    db_categories(old(self).conn)[i]
                })) && b == exists|j: int|
                0 <= j < db_categories(old(self).conn).len() && db_categories(old(self).conn)[j].0
                    == id,
            r is Err ==> db_categories(final(self).conn) == db_categories(old(self).conn),
    {
        let n = self.conn.execute(
            "UPDATE categories SET name = ?1, productivity = ?2 WHERE id = ?3",
            (name, productivity, id),
        ).map_err(classify_error)?;
        Ok(n > 0)
    }

    /// Relies on rusqlite::Connection::execute (DELETE): removes every
    /// `categories` row with this id; true when any row went.
    #[verifier::external_body]
    pub(crate) fn delete_category(&mut self, id: i64) -> (r: Result<bool, StoreError>)
        ensures
            r matches Ok(b) ==> db_categories(final(self).conn) == spec_remove_category(
                db_categories(old(self).conn),
                id,
            ) && b == exists|j: int|
                0 <= j < db_categories(old(self).conn).len() && db_categories(old(self).conn)[j].0
                    == id,
            r is Err ==> db_categories(final(self).conn) == db_categories(old(self).conn),
    {
        let n = self.conn.execute("DELETE FROM categories WHERE id = ?1", (id,)).map_err(
            classify_error,
        )?;
        Ok(n > 0)
    }

    /// Relies on rusqlite::Connection::prepare and Statement::query_map
    /// with a join of `rules` and `categories`: exactly the Domain-rule
    /// patterns whose category has negative productivity.
    #[verifier::external_body]
    pub(crate) fn blocked_domain_patterns(&self) -> (r: Result<Vec<String>, StoreError>)
        ensures
            r matches Ok(v) ==> blocked_patterns_correspond(
                v@,
                db_rules(self.conn),
                db_categories(self.conn),
            ),
    {
        let mut stmt = self.conn.prepare(
            "SELECT r.pattern FROM rules r
             JOIN categories c ON r.category_id = c.id
             WHERE r.match_type = 'domain' AND c.productivity < 0",
        ).map_err(classify_error)?;
        let rows = stmt.query_map((), |row| row.get(0)).map_err(classify_error)?;
        rows.collect::<Result<Vec<_>, _>>().map_err(classify_error)
    }

    /// Relies on rusqlite::Connection::execute (INSERT) and
    /// Connection::last_insert_rowid: appends one `activities` row and
    /// returns its id.
    #[verifier::external_body]
    pub(crate) fn insert_activity(&mut self, a: &Activity) -> (r: Result<i64, StoreError>)
        ensures
            r matches Ok(id) ==> db_activities(final(self).conn) == db_activities(
                old(self).conn,
            ).push(spec_activity_row(*a)),
            r is Err ==> db_activities(final(self).conn) == db_activities(old(self).conn),
    {
        self.conn.execute(
            "INSERT INTO activities (timestamp, duration_secs, source, app_name, window_title, url, domain, category_id)
             VALUES (?1, ?2, ?3, ?4, ?5, ?6, ?7, ?8)",
            (a.timestamp, a.duration_secs, &a.source, &a.app_name, &a.window_title, &a.url,
            &a.domain, a.category_id),
        ).map_err(classify_error)?;
        Ok(self.conn.last_insert_rowid())
    }

    /// Relies on rusqlite::Connection::prepare and Statement::query_map:
    /// the `activities` rows with `start <= timestamp < end`, by timestamp.
    #[verifier::external_body]
    pub(crate) fn find_activities_in_range(&self, start: i64, end: i64) -> (r: Result<
        Vec<Activity>,
        StoreError,
    >)
        ensures
            r matches Ok(v) ==> activities_correspond(
                v@,
                db_activities(self.conn),
                start,
                end,
            ),
    {
        let mut stmt = self.conn.prepare(
            "SELECT id, timestamp, duration_secs, source, app_name, window_title, url, domain, category_id
             FROM activities WHERE timestamp >= ?1 AND timestamp < ?2 ORDER BY timestamp",
        ).map_err(classify_error)?;
        let rows = stmt.query_map((start, end), |row| Ok(Activity {
            id: Some(row.get(0)?),
            timestamp: row.get(1)?,
            duration_secs: row.get(2)?,
            source: row.get(3)?,
            app_name: row.get(4)?,
            window_title: row.get(5)?,
            url: row.get(6)?,
            domain: row.get(7)?,
            category_id: row.get(8)?,
        })).map_err(classify_error)?;
        rows.collect::<Result<Vec<_>, _>>().map_err(classify_error)
    }

    /// Relies on rusqlite::Connection::prepare and Statement::query_map
    /// with `SUM ... GROUP BY category_id`: one pair per category id that
    /// appears on an in-range row, with the exact duration sum (a sum that
    /// overflows the column type surfaces as an error, never a wrong
    /// total).
    #[verifier::external_body]
    pub(crate) fn total_duration_by_category(&self, start: i64, end: i64) -> (r: Result<
        Vec<(i64, i32)>,
        StoreError,
    >)
        ensures
            r matches Ok(v) ==> totals_correspond(
                v@,
                db_activities(self.conn),
                start as int,
                end as int,
            ),
    {
        let mut stmt = self.conn.prepare(
            "SELECT category_id, SUM(duration_secs) as total FROM activities
             WHERE timestamp >= ?1 AND timestamp < ?2 AND category_id IS NOT NULL
             GROUP BY category_id",
        ).map_err(classify_error)?;
        let rows = stmt.query_map((start, end), |row| Ok((row.get(0)?, row.get(1)?))).map_err(
            classify_error,
        )?;
        rows.collect::<Result<Vec<_>, _>>().map_err(classify_error)
    }

    /// Relies on rusqlite::Connection::prepare and Statement::query_map
    /// with `SUM ... GROUP BY app_name ORDER BY total DESC LIMIT`: at most
    /// `limit` (name, total, productivity) rows, one per app name seen in
    /// the range, exact sums, by total descending; the productivity comes
    /// from one of the app's rows, 0 when that row has no live category.
    #[verifier::external_body]
    pub(crate) fn top_apps(&self, start: i64, end: i64, limit: i32) -> (r: Result<
        Vec<(String, i32, i32)>,
        StoreError,
    >)
        ensures
            r matches Ok(v) ==> top_apps_correspond(
                v@,
                db_activities(self.conn),
                db_categories(self.conn),
                start as int,
                end as int,
                limit,
            ),
    {
        let mut stmt = self.conn.prepare(
            "SELECT app_name, SUM(duration_secs) as total, c.productivity
             FROM activities a LEFT JOIN categories c ON a.category_id = c.id
             WHERE a.timestamp >= ?1 AND a.timestamp < ?2 AND a.app_name IS NOT NULL
             GROUP BY app_name ORDER BY total DESC LIMIT ?3",
        ).map_err(classify_error)?;
        let rows = stmt.query_map((start, end, limit), |row| Ok((
            row.get(0)?,
            row.get(1)?,
            row.get::<_, Option<i32>>(2)?.unwrap_or(0),
        ))).map_err(classify_error)?;
        rows.collect::<Result<Vec<_>, _>>().map_err(classify_error)
    }
}

const SCHEMA: &'static str = "
PRAGMA foreign_keys = ON;
CREATE TABLE IF NOT EXISTS categories (
    id INTEGER PRIMARY KEY,
    name TEXT NOT NULL UNIQUE,
    productivity INTEGER NOT NULL
);
CREATE TABLE IF NOT EXISTS rules (
    id INTEGER PRIMARY KEY,
    pattern TEXT NOT NULL,
    match_type TEXT NOT NULL,
    category_id INTEGER REFERENCES categories(id),
    priority INTEGER DEFAULT 0
);
CREATE TABLE IF NOT EXISTS activities (
    id INTEGER PRIMARY KEY,
    timestamp INTEGER NOT NULL,
    duration_secs INTEGER NOT NULL,
    source TEXT NOT NULL,
    app_name TEXT,
    window_title TEXT,
    url TEXT,
    domain TEXT,
    category_id INTEGER REFERENCES categories(id)
);
CREATE TABLE IF NOT EXISTS focus_sessions (
    id INTEGER PRIMARY KEY,
    started_at INTEGER NOT NULL,
    ended_at INTEGER,
    scheduled INTEGER DEFAULT 0,
    distraction_budget INTEGER NOT NULL,
    distraction_used INTEGER DEFAULT 0
);
CREATE TABLE IF NOT EXISTS focus_schedules (
    id INTEGER PRIMARY KEY,
    days_of_week TEXT NOT NULL,
    start_time TEXT NOT NULL,
    end_time TEXT NOT NULL,
    distraction_budget INTEGER NOT NULL,
    enabled INTEGER DEFAULT 1
);
CREATE INDEX IF NOT EXISTS idx_activities_timestamp ON activities(timestamp);
CREATE INDEX IF NOT EXISTS idx_activities_category ON activities(category_id);
CREATE INDEX IF NOT EXISTS idx_focus_sessions_active ON focus_sessions(ended_at) WHERE ended_at IS NULL;
";

/// The five categories seeded on first run, with their productivity signs.
fn default_categories() -> Vec<(&'static str, i32)> {
    let mut v: Vec<(&'static str, i32)> = Vec::new();
    v.push(("Coding", 1));
    v.push(("Communication", 0));
    v.push(("Entertainment", -1));
    v.push(("Reference", 1));
    v.push(("Uncategorized", 0));
    v
}

/// The rules seeded on first run: (pattern, match kind, category name).
fn default_rules() -> Vec<(&'static str, &'static str, &'static str)> {
    let mut v: Vec<(&'static str, &'static str, &'static str)> = Vec::new();
    v.push(("code", "app", "Coding"));
    v.push(("visual studio", "app", "Coding"));
    v.push(("xcode", "app", "Coding"));
    v.push(("intellij", "app", "Coding"));
    v.push(("webstorm", "app", "Coding"));
    v.push(("pycharm", "app", "Coding"));
    v.push(("terminal", "app", "Coding"));
    v.push(("iterm", "app", "Coding"));
    v.push(("github.com", "domain", "Coding"));
    v.push(("gitlab.com", "domain", "Coding"));
    v.push(("stackoverflow.com", "domain", "Reference"));
    v.push(("docs.rs", "domain", "Reference"));
    v.push(("slack", "app", "Communication"));
    v.push(("discord", "app", "Communication"));
    v.push(("mail", "app", "Communication"));
    v.push(("outlook", "app", "Communication"));
    v.push(("teams", "app", "Communication"));
    v.push(("zoom", "app", "Communication"));
    v.push(("youtube.com", "domain", "Entertainment"));
    v.push(("netflix.com", "domain", "Entertainment"));
    v.push(("twitter.com", "domain", "Entertainment"));
    v.push(("x.com", "domain", "Entertainment"));
    v.push(("reddit.com", "domain", "Entertainment"));
    v.push(("facebook.com", "domain", "Entertainment"));
    v.push(("instagram.com", "domain", "Entertainment"));
    v.push(("tiktok.com", "domain", "Entertainment"));
    v.push(("twitch.tv", "domain", "Entertainment"));
    v
}

/// Creates the schema if missing and seeds the default categories and
/// rules into empty tables; safe to run repeatedly.
pub fn migrate(store: &mut Store) -> (r: Result<(), StoreError>) {
    store.exec_schema()?;
    if store.count_categories()? == 0 {
        let cats = default_categories();
        let mut i: usize = 0;
        while i < cats.len()
            decreases cats.len() - i,
        {
            let (name, productivity) = cats[i];
            store.insert_category(name, productivity)?;
            i = i + 1;
        }
    }
    if store.count_rules()? == 0 {
        let existing = store.find_all_categories()?;
        let rules = default_rules();
        let mut i: usize = 0;
        while i < rules.len()
            decreases rules.len() - i,
        {
            let (pattern, match_type, category_name) = rules[i];
            match find_category_named(&existing, category_name) {
                Some(category_id) => {
                    store.insert_rule(pattern, match_type, category_id, 10)?;
                },
                None => {},
            }
            i = i + 1;
        }
    }
    Ok(())
}

/// The id of the category with this exact name, if the list holds one.
fn find_category_named(cats: &Vec<Category>, name: &str) -> (r: Option<i64>)
    ensures
        r matches Some(id) ==> exists|i: int|
            0 <= i < cats@.len() && cats@[i].id == id && cats@[i].name@ == name@,
        r is None ==> forall|i: int| 0 <= i < cats@.len() ==> cats@[i].name@ != name@,
{
    let mut i: usize = 0;
    while i < cats.len()
        invariant
            i <= cats@.len(),
            forall|j: int| 0 <= j < i ==> cats@[j].name@ != name@,
        decreases cats@.len() - i,
    {
        if crate::text::str_eq(cats[i].name.as_str(), name) {
            return Some(cats[i].id);
        }
        i = i + 1;
    }
    None
}

pub open spec fn spec_remove_schedule(ss: Seq<ScheduleRow>, id: i64) -> Seq<ScheduleRow> {
    ss.filter(|r: ScheduleRow| r.0 != id)
}

pub open spec fn spec_remove_rule(rs: Seq<RuleRow>, id: i64) -> Seq<RuleRow> {
    rs.filter(|r: RuleRow| r.0 != id)
}

pub open spec fn spec_remove_category(cs: Seq<CategoryRow>, id: i64) -> Seq<CategoryRow> {
    cs.filter(|r: CategoryRow| r.0 != id)
}

} // verus!
