//! Activity samples: immutable, append-only observations of what the user
//! was doing, attributed to fixed-size time buckets by the sampler or
//! reported by the browser extension.

use vstd::prelude::*;
use crate::error::AppError;
use crate::store::{Store, activities_correspond, db_activities, spec_activity_row, totals_correspond};

verus! {

#[derive(Debug, Clone)]
pub struct Activity {
    pub id: Option<i64>,
    pub timestamp: i64,
    pub duration_secs: i32,
    pub source: String,
    pub app_name: Option<String>,
    pub window_title: Option<String>,
    pub url: Option<String>,
    pub domain: Option<String>,
    pub category_id: Option<i64>,
}

impl Activity {
    /// A fresh, unsaved sample with no URL, domain or category attached.
    pub fn new(
        timestamp: i64,
        duration_secs: i32,
        source: &str,
        app_name: Option<&str>,
        window_title: Option<&str>,
    ) -> (r: Activity)
        ensures
            r.id is None,
            r.timestamp == timestamp,
            r.duration_secs == duration_secs,
            r.source@ == source@,
            (r.app_name is Some <==> app_name is Some),
            app_name matches Some(a) ==> r.app_name matches Some(ra) && ra@ == a@,
            (r.window_title is Some <==> window_title is Some),
            window_title matches Some(t) ==> r.window_title matches Some(rt) && rt@ == t@,
            r.url is None,
            r.domain is None,
            r.category_id is None,
    {
        Activity {
            id: None,
            timestamp,
            duration_secs,
            source: source.to_owned(),
            app_name: match app_name {
                Some(a) => Some(a.to_owned()),
                None => None,
            },
            window_title: match window_title {
                Some(t) => Some(t.to_owned()),
                None => None,
            },
            url: None,
            domain: None,
            category_id: None,
        }
    }

    /// Persists this sample as a new row and records the assigned id.
    pub fn save(&mut self, store: &mut Store) -> (r: Result<(), AppError>)
        ensures
            final(self).timestamp == old(self).timestamp,
            final(self).duration_secs == old(self).duration_secs,
            final(self).source == old(self).source,
            final(self).app_name == old(self).app_name,
            final(self).window_title == old(self).window_title,
            final(self).url == old(self).url,
            final(self).domain == old(self).domain,
            final(self).category_id == old(self).category_id,
            r is Ok ==> (final(self).id is Some && db_activities(final(store).conn)
                == db_activities(old(store).conn).push(spec_activity_row(*old(self)))),
            r is Err ==> db_activities(final(store).conn) == db_activities(old(store).conn),
    {
        match store.insert_activity(self) {
            Ok(id) => {
                self.id = Some(id);
                Ok(())
            },
            Err(e) => Err(AppError::Database(e)),
        }
    }

    /// The stored samples with `start <= timestamp < end`.
    pub fn find_in_range(store: &Store, start: i64, end: i64) -> (r: Result<
        Vec<Activity>,
        AppError,
    >)
        ensures
            r matches Ok(v) ==> activities_correspond(v@, db_activities(store.conn), start, end),
    {
        match store.find_activities_in_range(start, end) {
            Ok(v) => Ok(v),
            Err(e) => Err(AppError::Database(e)),
        }
    }

    /// Per-category duration totals over `start <= timestamp < end`: one
    /// pair per category id that appears on an in-range sample, with the
    /// exact duration sum.
    pub fn total_duration_by_category(store: &Store, start: i64, end: i64) -> (r: Result<
        Vec<(i64, i32)>,
        AppError,
    >)
        ensures
            r matches Ok(v) ==> totals_correspond(
                v@,
                db_activities(store.conn),
                start as int,
                end as int,
            ),
    {
        match store.total_duration_by_category(start, end) {
            Ok(v) => Ok(v),
            Err(e) => Err(AppError::Database(e)),
        }
    }
}

} // verus!
