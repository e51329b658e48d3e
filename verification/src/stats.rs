//! Duration statistics: per-productivity totals of the stored activity
//! samples over a day or a week, plus the top apps by total duration. The
//! aggregation over fetched totals is exact; what the store returns for
//! the grouped queries is taken as input.

use vstd::prelude::*;
use crate::category::Category;
use crate::clock;
use crate::error::AppError;
use crate::store::{
    ActivityRow, CategoryRow, Store, categories_correspond, db_activities, db_categories,
    top_apps_correspond, totals_correspond,
};
use crate::validation::SECS_PER_DAY;

verus! {

#[derive(Debug)]
pub struct AppStat {
    pub name: String,
    pub duration_secs: i32,
    pub productivity: i32,
}

#[derive(Debug)]
pub struct StatsResponse {
    pub productive_secs: i32,
    pub neutral_secs: i32,
    pub distracting_secs: i32,
    pub top_apps: Vec<AppStat>,
}

#[derive(Debug)]
pub struct DailyStats {
    /// Unix timestamp for the start of the day.
    pub date: i64,
    pub productive_secs: i32,
    pub neutral_secs: i32,
    pub distracting_secs: i32,
}

#[derive(Debug)]
pub struct WeeklyStatsResponse {
    pub daily_stats: Vec<DailyStats>,
    pub total_productive_secs: i32,
    pub total_neutral_secs: i32,
    pub total_distracting_secs: i32,
    pub top_apps: Vec<AppStat>,
}

/// Addition clamped into `i32` range.
pub open spec fn spec_clamp_add(a: int, b: int) -> int {
    if a + b > i32::MAX {
        i32::MAX as int
    } else if a + b < i32::MIN {
        i32::MIN as int
    } else {
        a + b
    }
}

fn clamp_add(a: i32, b: i32) -> (r: i32)
    ensures
        r == spec_clamp_add(a as int, b as int),
{
    let s: i64 = a as i64 + b as i64;
    if s > i32::MAX as i64 {
        i32::MAX
    } else if s < i32::MIN as i64 {
        i32::MIN
    } else {
        s as i32
    }
}

/// The productivity sign of the category with this id, if the list holds
/// one; the first match counts.
pub open spec fn spec_productivity_of(cats: Seq<Category>, id: i64) -> Option<int>
    decreases cats.len(),
{
    if cats.len() == 0 {
        None
    } else if cats[0].id == id {
        Some(cats[0].productivity as int)
    } else {
        spec_productivity_of(cats.drop_first(), id)
    }
}

/// The (productive, neutral, distracting) totals of a list of
/// per-category durations: each duration joins the bucket of its
/// category's sign, pairs without a known category are skipped, and sums
/// clamp at the integer limits.
pub open spec fn spec_totals(cats: Seq<Category>, totals: Seq<(i64, i32)>) -> (int, int, int)
    decreases totals.len(),
{
    if totals.len() == 0 {
        (0, 0, 0)
    } else {
        let rest = spec_totals(cats, totals.drop_last());
        let last = totals.last();
        match spec_productivity_of(cats, last.0) {
            Some(p) => if p == 1 {
                (spec_clamp_add(rest.0, last.1 as int), rest.1, rest.2)
            } else if p == 0 {
                (rest.0, spec_clamp_add(rest.1, last.1 as int), rest.2)
            } else if p == -1 {
                (rest.0, rest.1, spec_clamp_add(rest.2, last.1 as int))
            } else {
                rest
            },
            None => rest,
        }
    }
}

/// The three buckets come from one reading of the store: a category list
/// and grouped totals that correspond to the stored rows, folded exactly
/// by `spec_totals`.
pub open spec fn spec_buckets_consistent(
    p: int,
    n: int,
    d: int,
    acts: Seq<ActivityRow>,
    dbc: Seq<CategoryRow>,
    start: int,
    end: int,
) -> bool {
    exists|cats: Seq<Category>, totals: Seq<(i64, i32)>|
        #![trigger categories_correspond(cats, dbc), totals_correspond(totals, acts, start, end)]
        categories_correspond(cats, dbc) && totals_correspond(totals, acts, start, end) && (
        p,
        n,
        d,
        ) == spec_totals(cats, totals)
}

/// The top-apps rows mirror, element for element, a listing that
/// corresponds to the stored rows.
pub open spec fn spec_top_apps_consistent(
    stats: Seq<AppStat>,
    acts: Seq<ActivityRow>,
    dbc: Seq<CategoryRow>,
    start: int,
    end: int,
    limit: i32,
) -> bool {
    exists|rows: Seq<(String, i32, i32)>|
        #![trigger top_apps_correspond(rows, acts, dbc, start, end, limit)]
        top_apps_correspond(rows, acts, dbc, start, end, limit) && stats.len() == rows.len() && (
        forall|i: int|
            0 <= i < stats.len() ==> (#[trigger] stats[i]).name@ == rows[i].0@
                && stats[i].duration_secs == rows[i].1 && stats[i].productivity == rows[i].2)
}

/// What a day-stats response owes for a known current time: exact
/// bucket totals over the day so far and the top five apps.
pub open spec fn spec_today_stats_ok(
    resp: StatsResponse,
    acts: Seq<ActivityRow>,
    dbc: Seq<CategoryRow>,
    now: int,
) -> bool {
    spec_buckets_consistent(
        resp.productive_secs as int,
        resp.neutral_secs as int,
        resp.distracting_secs as int,
        acts,
        dbc,
        now - (now % (SECS_PER_DAY as int)),
        now,
    ) && spec_top_apps_consistent(
        resp.top_apps@,
        acts,
        dbc,
        now - (now % (SECS_PER_DAY as int)),
        now,
        5,
    )
}

/// The week's clamped fold of the daily buckets.
pub open spec fn spec_daily_fold(ds: Seq<DailyStats>) -> (int, int, int)
    decreases ds.len(),
{
    if ds.len() == 0 {
        (0, 0, 0)
    } else {
        let rest = spec_daily_fold(ds.drop_last());
        (
            spec_clamp_add(rest.0, ds.last().productive_secs as int),
            spec_clamp_add(rest.1, ds.last().neutral_secs as int),
            spec_clamp_add(rest.2, ds.last().distracting_secs as int),
        )
    }
}

/// What a weekly-stats response owes for a known current time: seven
/// UTC-midnight buckets ending today, each day's totals exact, the week
/// totals the clamped fold of the days, and the top ten apps.
pub open spec fn spec_weekly_stats_ok(
    resp: WeeklyStatsResponse,
    acts: Seq<ActivityRow>,
    dbc: Seq<CategoryRow>,
    now: int,
) -> bool {
    resp.daily_stats@.len() == 7 && (forall|d: int|
        0 <= d < 7 ==> (#[trigger] resp.daily_stats@[d]).date == now - (now % (
        SECS_PER_DAY as int)) - (6 - d) * (SECS_PER_DAY as int)) && (forall|d: int|
        0 <= d < 7 ==> spec_buckets_consistent(
            (#[trigger] resp.daily_stats@[d]).productive_secs as int,
            resp.daily_stats@[d].neutral_secs as int,
            resp.daily_stats@[d].distracting_secs as int,
            acts,
            dbc,
            resp.daily_stats@[d].date as int,
            resp.daily_stats@[d].date + SECS_PER_DAY,
        )) && (
    resp.total_productive_secs as int,
    resp.total_neutral_secs as int,
    resp.total_distracting_secs as int,
    ) == spec_daily_fold(resp.daily_stats@) && spec_top_apps_consistent(
        resp.top_apps@,
        acts,
        dbc,
        now - (now % (SECS_PER_DAY as int)) - 6 * (SECS_PER_DAY as int),
        now,
        10,
    )
}

/// The index of the first category with this id, if any.
fn productivity_of(cats: &Vec<Category>, id: i64) -> (r: Option<i32>)
    ensures
        match r {
            Some(p) => spec_productivity_of(cats@, id) == Some(p as int),
            None => spec_productivity_of(cats@, id) is None,
        },
{
    let n = cats.len();
    let mut i: usize = 0;
    proof {
        assert(cats@.skip(0) =~= cats@);
    }
    while i < n
        invariant
            n == cats@.len(),
            i <= n,
            spec_productivity_of(cats@, id) == spec_productivity_of(cats@.skip(i as int), id),
        decreases n - i,
    {
        proof {
            let t = cats@.skip(i as int);
            assert(t[0] == cats@[i as int]);
            assert(t.drop_first() =~= cats@.skip(i + 1));
        }
        if cats[i].id == id {
            return Some(cats[i].productivity);
        }
        i = i + 1;
    }
    proof {
        assert(cats@.skip(n as int) =~= Seq::<Category>::empty());
    }
    None
}

/// Sums per-category durations into (productive, neutral, distracting)
/// buckets by each category's productivity sign.
pub fn calculate_productivity_totals(cats: &Vec<Category>, totals: &Vec<(i64, i32)>) -> (r: (
    i32,
    i32,
    i32,
))
    ensures
        (r.0 as int, r.1 as int, r.2 as int) == spec_totals(cats@, totals@),
{
    let mut productive: i32 = 0;
    let mut neutral: i32 = 0;
    let mut distracting: i32 = 0;
    let n = totals.len();
    let mut i: usize = 0;
    while i < n
        invariant
            n == totals@.len(),
            i <= n,
            (productive as int, neutral as int, distracting as int) == spec_totals(
                cats@,
                totals@.take(i as int),
            ),
        decreases n - i,
    {
        let (cat_id, duration) = totals[i];
        proof {
            let t = totals@.take(i + 1);
            assert(t.drop_last() =~= totals@.take(i as int));
            assert(t.last() == totals@[i as int]);
        }
        match productivity_of(cats, cat_id) {
            Some(p) => {
                if p == 1 {
                    productive = clamp_add(productive, duration);
                } else if p == 0 {
                    neutral = clamp_add(neutral, duration);
                } else if p == -1 {
                    distracting = clamp_add(distracting, duration);
                }
            },
            None => {},
        }
        i = i + 1;
    }
    proof {
        assert(totals@.take(n as int) =~= totals@);
    }
    (productive, neutral, distracting)
}

/// The top apps over a range, as response rows mirroring the listing.
fn fetch_top_apps(store: &Store, start: i64, end: i64, limit: i32) -> (r: Result<
    Vec<AppStat>,
    AppError,
>)
    ensures
        r matches Ok(v) ==> spec_top_apps_consistent(
            v@,
            db_activities(store.conn),
            db_categories(store.conn),
            start as int,
            end as int,
            limit,
        ),
{
    let rows = match store.top_apps(start, end, limit) {
        Ok(v) => v,
        Err(e) => {
            return Err(AppError::Database(e));
        },
    };
    let mut out: Vec<AppStat> = Vec::new();
    let n = rows.len();
    let mut i: usize = 0;
    while i < n
        invariant
            n == rows@.len(),
            i <= n,
            out@.len() == i,
            forall|k: int|
                0 <= k < i ==> (#[trigger] out@[k]).name@ == rows@[k].0@ && out@[k].duration_secs
                    == rows@[k].1 && out@[k].productivity == rows@[k].2,
        decreases n - i,
    {
        let name = rows[i].0.clone();
        out.push(AppStat { name, duration_secs: rows[i].1, productivity: rows[i].2 });
        i = i + 1;
    }
    proof {
        assert(spec_top_apps_consistent(
            out@,
            db_activities(store.conn),
            db_categories(store.conn),
            start as int,
            end as int,
            limit,
        ));
    }
    Ok(out)
}

/// Today's per-productivity totals and top five apps, for a known current
/// time: the day runs from the preceding UTC midnight to `now`.
pub fn get_today_stats_at(store: &Store, now: i64) -> (r: Result<StatsResponse, AppError>)
    requires
        now >= 0,
    ensures
        r matches Ok(resp) ==> spec_today_stats_ok(
            resp,
            db_activities(store.conn),
            db_categories(store.conn),
            now as int,
        ),
{
    let today_start = now - (now % SECS_PER_DAY);
    let categories = Category::find_all(store)?;
    let totals = crate::activity::Activity::total_duration_by_category(store, today_start, now)?;
    let (productive_secs, neutral_secs, distracting_secs) = calculate_productivity_totals(
        &categories,
        &totals,
    );
    let top_apps = fetch_top_apps(store, today_start, now, 5)?;
    proof {
        assert(spec_buckets_consistent(
            productive_secs as int,
            neutral_secs as int,
            distracting_secs as int,
            db_activities(store.conn),
            db_categories(store.conn),
            today_start as int,
            now as int,
        ));
    }
    Ok(StatsResponse { productive_secs, neutral_secs, distracting_secs, top_apps })
}

/// Today's stats at some current wall time.
pub fn get_today_stats(store: &Store) -> (r: Result<StatsResponse, AppError>)
    ensures
        r matches Ok(resp) ==> exists|now: int|
            0 <= now && #[trigger] spec_today_stats_ok(
                resp,
                db_activities(store.conn),
                db_categories(store.conn),
                now,
            ),
{
    let now = clock::now_secs();
    get_today_stats_at(store, now)
}

/// The seven daily buckets of the week ending on `now`'s day: exact
/// per-day totals and their clamped fold.
#[verifier::rlimit(60)]
#[verifier::spinoff_prover]
fn weekly_daily_stats(store: &Store, categories: &Vec<Category>, now: i64) -> (r: Result<
    (Vec<DailyStats>, (i32, i32, i32)),
    AppError,
>)
    requires
        0 <= now <= i64::MAX - SECS_PER_DAY,
        categories_correspond(categories@, db_categories(store.conn)),
    ensures
        r matches Ok(p) ==> p.0@.len() == 7 && (forall|d: int|
            0 <= d < 7 ==> (#[trigger] p.0@[d]).date == now - (now % SECS_PER_DAY) - (6 - d)
                * SECS_PER_DAY) && (forall|d: int|
            0 <= d < 7 ==> spec_buckets_consistent(
                (#[trigger] p.0@[d]).productive_secs as int,
                p.0@[d].neutral_secs as int,
                p.0@[d].distracting_secs as int,
                db_activities(store.conn),
                db_categories(store.conn),
                p.0@[d].date as int,
                p.0@[d].date + SECS_PER_DAY,
            )) && (p.1.0 as int, p.1.1 as int, p.1.2 as int) == spec_daily_fold(p.0@),
{
    let today_start = now - (now % SECS_PER_DAY);
    let week_start = today_start - 6 * SECS_PER_DAY;
    let mut daily_stats: Vec<DailyStats> = Vec::new();
    let mut total_productive_secs: i32 = 0;
    let mut total_neutral_secs: i32 = 0;
    let mut total_distracting_secs: i32 = 0;
    let ghost mut totals_w: Seq<Seq<(i64, i32)>> = Seq::empty();
    let mut day_offset: i64 = 0;
    while day_offset < 7
        invariant
            0 <= day_offset <= 7,
            week_start == now - (now % SECS_PER_DAY) - 6 * SECS_PER_DAY,
            0 <= now <= i64::MAX - SECS_PER_DAY,
            daily_stats@.len() == day_offset,
            totals_w.len() == day_offset,
            forall|d: int|
                0 <= d < day_offset ==> (#[trigger] daily_stats@[d]).date == week_start + d
                    * SECS_PER_DAY,
            forall|d: int|
                0 <= d < day_offset ==> totals_correspond(
                    #[trigger] totals_w[d],
                    db_activities(store.conn),
                    daily_stats@[d].date as int,
                    daily_stats@[d].date + SECS_PER_DAY,
                ),
            forall|d: int|
                0 <= d < day_offset ==> (
                (#[trigger] daily_stats@[d]).productive_secs as int,
                daily_stats@[d].neutral_secs as int,
                daily_stats@[d].distracting_secs as int,
                ) == spec_totals(categories@, totals_w[d]),
            (
                total_productive_secs as int,
                total_neutral_secs as int,
                total_distracting_secs as int,
            ) == spec_daily_fold(daily_stats@),
        decreases 7 - day_offset,
    {
        let day_start = week_start + day_offset * SECS_PER_DAY;
        proof {
            assert(day_start <= now - (now % SECS_PER_DAY));
            assert(now % SECS_PER_DAY < SECS_PER_DAY);
        }
        let day_end = day_start + SECS_PER_DAY;
        let totals = crate::activity::Activity::total_duration_by_category(
            store,
            day_start,
            day_end,
        )?;
        let (productive, neutral, distracting) = calculate_productivity_totals(
            categories,
            &totals,
        );
        let ghost old_daily = daily_stats@;
        daily_stats.push(
            DailyStats {
                date: day_start,
                productive_secs: productive,
                neutral_secs: neutral,
                distracting_secs: distracting,
            },
        );
        proof {
            totals_w = totals_w.push(totals@);
            assert(daily_stats@.drop_last() =~= old_daily);
        }
        total_productive_secs = clamp_add(total_productive_secs, productive);
        total_neutral_secs = clamp_add(total_neutral_secs, neutral);
        total_distracting_secs = clamp_add(total_distracting_secs, distracting);
        day_offset = day_offset + 1;
    }
    proof {
        assert forall|d: int| 0 <= d < 7 implies spec_buckets_consistent(
            (#[trigger] daily_stats@[d]).productive_secs as int,
            daily_stats@[d].neutral_secs as int,
            daily_stats@[d].distracting_secs as int,
            db_activities(store.conn),
            db_categories(store.conn),
            daily_stats@[d].date as int,
            daily_stats@[d].date + SECS_PER_DAY,
        ) by {
            assert(totals_correspond(
                totals_w[d],
                db_activities(store.conn),
                daily_stats@[d].date as int,
                daily_stats@[d].date + SECS_PER_DAY,
            ));
        }
    }
    Ok((daily_stats, (total_productive_secs, total_neutral_secs, total_distracting_secs)))
}

/// The last seven days' per-day and total stats and top ten apps, for a
/// known current time; days are UTC-midnight buckets, today included.
pub fn get_weekly_stats_at(store: &Store, now: i64) -> (r: Result<WeeklyStatsResponse, AppError>)
    requires
        0 <= now <= i64::MAX - SECS_PER_DAY,
    ensures
        r matches Ok(resp) ==> spec_weekly_stats_ok(
            resp,
            db_activities(store.conn),
            db_categories(store.conn),
            now as int,
        ),
{
    let categories = Category::find_all(store)?;
    let (daily_stats, totals) = weekly_daily_stats(store, &categories, now)?;
    let week_start = now - (now % SECS_PER_DAY) - 6 * SECS_PER_DAY;
    let top_apps = fetch_top_apps(store, week_start, now, 10)?;
    Ok(
        WeeklyStatsResponse {
            daily_stats,
            total_productive_secs: totals.0,
            total_neutral_secs: totals.1,
            total_distracting_secs: totals.2,
            top_apps,
        },
    )
}

/// Weekly stats at some current wall time.
pub fn get_weekly_stats(store: &Store) -> (r: Result<WeeklyStatsResponse, AppError>)
    ensures
        r matches Ok(resp) ==> exists|now: int|
            0 <= now && #[trigger] spec_weekly_stats_ok(
                resp,
                db_activities(store.conn),
                db_categories(store.conn),
                now,
            ),
{
    let now = clock::now_secs();
    let now = if now > i64::MAX - SECS_PER_DAY {
        i64::MAX - SECS_PER_DAY
    } else {
        now
    };
    get_weekly_stats_at(store, now)
}

} // verus!
