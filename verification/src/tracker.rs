//! The sampling core: the decision one polling cycle makes from the idle
//! probe and the active window, and the sample it appends. Time is
//! attributed retroactively in fixed poll-interval buckets, and nothing is
//! recorded while the user is idle. The long-running loop, the platform
//! probes and the stop flag live with the app shell.

use vstd::prelude::*;
use crate::categorizer::{Categorizer, opt_str_view, spec_first_app_match};
use crate::error::AppError;
use crate::store::{Store, db_activities};

verus! {

/// How the sampler is tuned: the polling cadence and the idle threshold,
/// both in seconds.
pub struct TrackerConfig {
    pub poll_interval_secs: u64,
    pub idle_threshold_secs: u64,
}

impl Default for TrackerConfig {
    /// Five-second polls, two-minute idle threshold.
    fn default() -> (r: Self)
        ensures
            r.poll_interval_secs == 5,
            r.idle_threshold_secs == 120,
    {
        TrackerConfig { poll_interval_secs: 5, idle_threshold_secs: 120 }
    }
}

/// What the active-window probe reports.
#[derive(Debug, Clone)]
pub struct ActiveWindow {
    pub app_name: String,
    pub window_title: String,
    pub bundle_id: Option<String>,
}

/// The capability interface of a platform's probes; the app shell
/// implements it per platform, the sampler only consumes its output.
pub trait PlatformTracker {
    /// The currently focused window, if one can be determined.
    fn get_active_window(&self) -> Option<ActiveWindow>;

    /// Seconds since the last user input.
    fn get_idle_time_secs(&self) -> u64;
}

/// The poll interval as a sample duration, clamped into `i32`.
pub open spec fn spec_poll_duration(poll_interval_secs: u64) -> int {
    if poll_interval_secs > i32::MAX {
        i32::MAX as int
    } else {
        poll_interval_secs as int
    }
}

/// One sampling cycle, given what the probes reported: when the user is
/// not idle and a window is focused, the observation is categorized and
/// appended as an `"app"` sample covering one poll interval; otherwise
/// nothing is recorded. Returns whether a sample was stored.
pub fn sample_cycle(
    store: &mut Store,
    categorizer: &Categorizer,
    config: &TrackerConfig,
    idle_secs: u64,
    window: Option<ActiveWindow>,
    now: i64,
) -> (r: Result<bool, AppError>)
    ensures
        r matches Ok(recorded) ==> (if idle_secs < config.idle_threshold_secs && window is Some {
            recorded && (window matches Some(w) && db_activities(final(store).conn)
                == db_activities(old(store).conn).push(
                (
                    now,
                    spec_poll_duration(config.poll_interval_secs) as i32,
                    "app"@,
                    Some(w.app_name@),
                    Some(w.window_title@),
                    None,
                    None,
                    Some(
                        match spec_first_app_match(
                            categorizer.spec_rules(),
                            w.app_name@,
                            Some(w.window_title@),
                        ) {
                            Some(c) => c,
                            None => categorizer.spec_default(),
                        },
                    ),
                ),
            ))
        } else {
            !recorded && db_activities(final(store).conn) == db_activities(old(store).conn)
        }),
        r is Err ==> db_activities(final(store).conn) == db_activities(old(store).conn),
{
    if idle_secs >= config.idle_threshold_secs {
        return Ok(false);
    }
    match window {
        Some(w) => {
            let category_id = categorizer.categorize_app(
                w.app_name.as_str(),
                Some(w.window_title.as_str()),
            );
            let duration: i32 = if config.poll_interval_secs > i32::MAX as u64 {
                i32::MAX
            } else {
                config.poll_interval_secs as i32
            };
            let mut activity = crate::activity::Activity::new(
                now,
                duration,
                "app",
                Some(w.app_name.as_str()),
                Some(w.window_title.as_str()),
            );
            activity.category_id = Some(category_id);
            activity.save(store)?;
            Ok(true)
        },
        None => Ok(false),
    }
}

} // verus!
