//! Recurring focus schedules: a set of week days (stored as a CSV of 1..7,
//! 1 = Monday), a half-open `[start_time, end_time)` range of `HH:MM`
//! strings, and the distraction budget of the sessions they start. Whether
//! a schedule is active is a derived, time-dependent predicate.

use vstd::prelude::*;
use crate::error::AppError;
use crate::store::{
    Store, db_schedules, enabled_schedules_correspond, sched_row_updated, schedule_matches_row,
    schedules_correspond, spec_remove_schedule,
};
use crate::text::{
    chars_vec, parse_u32_chars, spec_lex_le, spec_lex_lt, spec_parse_u32, spec_split, spec_trim,
    split_chars, str_le, str_lt, trim_vec,
};

verus! {

/// A recurring focus schedule that can auto-start focus sessions.
#[derive(Debug)]
pub struct FocusSchedule {
    pub id: Option<i64>,
    /// Comma-separated day numbers (1 = Monday, 7 = Sunday).
    pub days_of_week: String,
    /// Start time, `HH:MM`, 24-hour.
    pub start_time: String,
    /// End time, `HH:MM`, 24-hour; the minute itself is excluded.
    pub end_time: String,
    /// Distraction budget in seconds for auto-started sessions.
    pub distraction_budget: i32,
    /// Whether this schedule is considered at all.
    pub enabled: bool,
}

/// The day set of a CSV field contains `day`: some comma-separated part
/// parses, after trimming, to exactly that number.
pub open spec fn spec_applies_to_day(days: Seq<char>, day: u32) -> bool {
    exists|k: int|
        0 <= k < spec_split(days, ',').len() && spec_parse_u32(spec_trim(spec_split(days, ',')[k]))
            == Some(day)
}

/// `start <= time < end`, in the lexicographic string order, which on
/// `HH:MM` strings is the time order.
pub open spec fn spec_time_in_range(start: Seq<char>, end: Seq<char>, time: Seq<char>) -> bool {
    spec_lex_le(start, time) && spec_lex_lt(time, end)
}

/// The activation predicate of a schedule at a day and wall time.
pub open spec fn spec_schedule_active_at(
    days: Seq<char>,
    start: Seq<char>,
    end: Seq<char>,
    enabled: bool,
    day: u32,
    time: Seq<char>,
) -> bool {
    enabled && spec_applies_to_day(days, day) && spec_time_in_range(start, end, time)
}

/// The day numbers that parse out of a CSV's parts, in order.
pub open spec fn spec_parsed_days(parts: Seq<Seq<char>>) -> Seq<u32>
    decreases parts.len(),
{
    if parts.len() == 0 {
        Seq::empty()
    } else {
        match spec_parse_u32(spec_trim(parts[0])) {
            Some(d) => seq![d] + spec_parsed_days(parts.drop_first()),
            None => spec_parsed_days(parts.drop_first()),
        }
    }
}

proof fn lemma_parsed_days_head(parts: Seq<Seq<char>>, k: int)
    requires
        0 <= k < parts.len(),
    ensures
        spec_parsed_days(parts.skip(k)) == match spec_parse_u32(spec_trim(parts[k])) {
            Some(d) => seq![d] + spec_parsed_days(parts.skip(k + 1)),
            None => spec_parsed_days(parts.skip(k + 1)),
        },
{
    let t = parts.skip(k);
    assert(t[0] == parts[k]);
    assert(t.drop_first() =~= parts.skip(k + 1));
}

impl Clone for FocusSchedule {
    /// A copy with the same fields, the strings equal as strings.
    fn clone(&self) -> (r: Self)
        ensures
            r.id == self.id,
            r.days_of_week@ == self.days_of_week@,
            r.start_time@ == self.start_time@,
            r.end_time@ == self.end_time@,
            r.distraction_budget == self.distraction_budget,
            r.enabled == self.enabled,
    {
        FocusSchedule {
            id: self.id,
            days_of_week: self.days_of_week.clone(),
            start_time: self.start_time.clone(),
            end_time: self.end_time.clone(),
            distraction_budget: self.distraction_budget,
            enabled: self.enabled,
        }
    }
}

impl FocusSchedule {
    /// A fresh, unsaved, enabled schedule.
    pub fn new(days_of_week: &str, start_time: &str, end_time: &str, distraction_budget: i32) -> (r:
        FocusSchedule)
        ensures
            r.id is None,
            r.days_of_week@ == days_of_week@,
            r.start_time@ == start_time@,
            r.end_time@ == end_time@,
            r.distraction_budget == distraction_budget,
            r.enabled,
    {
        FocusSchedule {
            id: None,
            days_of_week: days_of_week.to_owned(),
            start_time: start_time.to_owned(),
            end_time: end_time.to_owned(),
            distraction_budget,
            enabled: true,
        }
    }

    /// Whether this schedule applies on the given ISO day of week.
    pub fn applies_to_day(&self, day: u32) -> (r: bool)
        ensures
            r == spec_applies_to_day(self.days_of_week@, day),
    {
        let chars = chars_vec(self.days_of_week.as_str());
        let parts = split_chars(&chars, ',');
        let ghost parts_v = parts@.map_values(|v: Vec<char>| v@);
        let mut k: usize = 0;
        while k < parts.len()
            invariant
                parts_v == parts@.map_values(|v: Vec<char>| v@),
                parts_v == spec_split(self.days_of_week@, ','),
                k <= parts@.len(),
                forall|j: int|
                    0 <= j < k ==> spec_parse_u32(spec_trim(parts_v[j])) != Some(day),
            decreases parts@.len() - k,
        {
            let t = trim_vec(&parts[k]);
            proof {
                assert(parts_v[k as int] == parts@[k as int]@);
            }
            match parse_u32_chars(&t) {
                Some(d) => {
                    if d == day {
                        return true;
                    }
                },
                None => {},
            }
            k = k + 1;
        }
        false
    }

    /// Whether the given `HH:MM` time lies in this schedule's half-open
    /// range, comparing strings as `str`'s own order does.
    pub fn is_time_in_range(&self, time: &str) -> (r: bool)
        ensures
            r == spec_time_in_range(self.start_time@, self.end_time@, time@),
    {
        str_le(self.start_time.as_str(), time) && str_lt(time, self.end_time.as_str())
    }

    /// Whether this schedule is active at the given day and time.
    pub fn is_active_at(&self, day: u32, time: &str) -> (r: bool)
        ensures
            r == spec_schedule_active_at(
                self.days_of_week@,
                self.start_time@,
                self.end_time@,
                self.enabled,
                day,
                time@,
            ),
    {
        self.enabled && self.applies_to_day(day) && self.is_time_in_range(time)
    }

    /// Persists this schedule as a new row and records the assigned id.
    pub fn save(&mut self, store: &mut Store) -> (r: Result<(), AppError>)
        ensures
            final(self).days_of_week == old(self).days_of_week,
            final(self).start_time == old(self).start_time,
            final(self).end_time == old(self).end_time,
            final(self).distraction_budget == old(self).distraction_budget,
            final(self).enabled == old(self).enabled,
            r is Ok ==> (final(self).id matches Some(id) && db_schedules(final(store).conn)
                == db_schedules(old(store).conn).push(
                (
                    id,
                    old(self).days_of_week@,
                    old(self).start_time@,
                    old(self).end_time@,
                    old(self).distraction_budget,
                    old(self).enabled,
                ),
            )),
            r is Err ==> *final(self) == *old(self) && db_schedules(final(store).conn)
                == db_schedules(old(store).conn),
    {
        match store.insert_schedule(
            self.days_of_week.as_str(),
            self.start_time.as_str(),
            self.end_time.as_str(),
            self.distraction_budget,
            self.enabled,
        ) {
            Ok(id) => {
                self.id = Some(id);
                Ok(())
            },
            Err(e) => Err(AppError::Database(e)),
        }
    }

    /// Rewrites the stored row for this schedule. Fails on a schedule that
    /// was never saved.
    pub fn update(&self, store: &mut Store) -> (r: Result<(), AppError>)
        ensures
            r is Ok ==> (self.id matches Some(id) && db_schedules(final(store).conn).len()
                == db_schedules(old(store).conn).len() && forall|i: int|
                0 <= i < db_schedules(old(store).conn).len() ==> db_schedules(final(store).conn)[i]
                    == (if db_schedules(old(store).conn)[i].0 == id {
                    sched_row_updated(
                        db_schedules(old(store).conn)[i],
                        self.days_of_week@,
                        self.start_time@,
                        self.end_time@,
                        self.distraction_budget,
                        self.enabled,
                    )
                } else {
                    db_schedules(old(store).conn)[i]
                })),
            r is Err ==> db_schedules(final(store).conn) == db_schedules(old(store).conn),
            self.id is None ==> r is Err,
    {
        match self.id {
            None => Err(AppError::Unsaved { entity: "schedule" }),
            Some(id) => {
                match store.update_schedule(
                    id,
                    self.days_of_week.as_str(),
                    self.start_time.as_str(),
                    self.end_time.as_str(),
                    self.distraction_budget,
                    self.enabled,
                ) {
                    Ok(()) => Ok(()),
                    Err(e) => Err(AppError::Database(e)),
                }
            },
        }
    }

    /// Every stored schedule, one item per row.
    pub fn find_all(store: &Store) -> (r: Result<Vec<FocusSchedule>, AppError>)
        ensures
            r matches Ok(v) ==> schedules_correspond(v@, db_schedules(store.conn)) && v@.len()
                == db_schedules(store.conn).len(),
    {
        match store.find_all_schedules() {
            Ok(v) => Ok(v),
            Err(e) => Err(AppError::Database(e)),
        }
    }

    /// Exactly the enabled schedules.
    pub fn find_enabled(store: &Store) -> (r: Result<Vec<FocusSchedule>, AppError>)
        ensures
            r matches Ok(v) ==> enabled_schedules_correspond(v@, db_schedules(store.conn)),
    {
        match store.find_enabled_schedules() {
            Ok(v) => Ok(v),
            Err(e) => Err(AppError::Database(e)),
        }
    }

    /// The schedule with this id, if stored.
    pub fn find_by_id(store: &Store, id: i64) -> (r: Result<Option<FocusSchedule>, AppError>)
        ensures
            r matches Ok(opt) ==> match opt {
                None => forall|j: int|
                    0 <= j < db_schedules(store.conn).len() ==> db_schedules(store.conn)[j].0 != id,
                Some(s) => s.id == Some(id) && exists|j: int|
                    0 <= j < db_schedules(store.conn).len() && schedule_matches_row(
                        s,
                        db_schedules(store.conn)[j],
                    ),
            },
    {
        match store.find_schedule_by_id(id) {
            Ok(opt) => Ok(opt),
            Err(e) => Err(AppError::Database(e)),
        }
    }

    /// Deletes the schedule with this id; false when none was stored.
    pub fn delete(store: &mut Store, id: i64) -> (r: Result<bool, AppError>)
        ensures
            r matches Ok(b) ==> (db_schedules(final(store).conn) == spec_remove_schedule(
                db_schedules(old(store).conn),
                id,
            ) && b == exists|j: int|
                0 <= j < db_schedules(old(store).conn).len() && db_schedules(old(store).conn)[j].0
                    == id),
            r is Err ==> db_schedules(final(store).conn) == db_schedules(old(store).conn),
    {
        match store.delete_schedule(id) {
            Ok(b) => Ok(b),
            Err(e) => Err(AppError::Database(e)),
        }
    }

    /// The day numbers parsed out of the CSV field, in order; parts that do
    /// not parse are dropped.
    pub fn get_days(&self) -> (r: Vec<u32>)
        ensures
            r@ == spec_parsed_days(spec_split(self.days_of_week@, ',')),
    {
        let chars = chars_vec(self.days_of_week.as_str());
        let parts = split_chars(&chars, ',');
        let ghost parts_v = parts@.map_values(|v: Vec<char>| v@);
        let mut r: Vec<u32> = Vec::new();
        let mut k: usize = 0;
        proof {
            assert(parts_v.skip(0) =~= parts_v);
        }
        while k < parts.len()
            invariant
                parts_v == parts@.map_values(|v: Vec<char>| v@),
                parts_v == spec_split(self.days_of_week@, ','),
                k <= parts@.len(),
                spec_parsed_days(parts_v) == r@ + spec_parsed_days(parts_v.skip(k as int)),
            decreases parts@.len() - k,
        {
            let t = trim_vec(&parts[k]);
            proof {
                assert(parts_v[k as int] == parts@[k as int]@);
                lemma_parsed_days_head(parts_v, k as int);
            }
            match parse_u32_chars(&t) {
                Some(d) => {
                    r.push(d);
                    proof {
                        assert(spec_parsed_days(parts_v) =~= r@ + spec_parsed_days(
                            parts_v.skip(k + 1),
                        ));
                    }
                },
                None => {},
            }
            k = k + 1;
        }
        proof {
            assert(parts_v.skip(parts_v.len() as int) =~= Seq::<Seq<char>>::empty());
            assert(spec_parsed_days(Seq::<Seq<char>>::empty()) =~= Seq::<u32>::empty());
            assert(r@ =~= spec_parsed_days(parts_v));
        }
        r
    }
}

} // verus!
