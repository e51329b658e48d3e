//! Input validation for user-facing fields: budgets, time strings, day
//! sets, productivity signs, names, patterns and priorities. Everything is
//! rejected before any store mutation, with a specific reason.

use vstd::prelude::*;
use vstd::string::StrSliceExecFns;
use vstd::string::StringExecFns;
use crate::error::AppError;
use crate::text::{
    chars_vec, parse_u32_chars, spec_parse_u32, spec_split, spec_trim, spec_utf8_len, split_chars,
    subvec, trim_bounds, trim_vec, utf8_len_exceeds,
};

verus! {

/// Seconds in one day.
pub const SECS_PER_DAY: i64 = 86400;

/// Maximum focus budget in minutes (24 hours).
pub const MAX_BUDGET_MINUTES: i32 = 24 * 60;

/// Maximum focus budget in seconds (24 hours).
pub const MAX_BUDGET_SECS: i32 = 24 * 60 * 60;

/// Maximum rule priority value.
pub const MAX_RULE_PRIORITY: i32 = 1000;

/// Maximum category name length, in bytes.
pub const MAX_CATEGORY_NAME_LEN: usize = 100;

/// Maximum rule pattern length, in bytes.
pub const MAX_RULE_PATTERN_LEN: usize = 500;

/// Validates a focus session budget given in minutes and converts it to
/// seconds: accepted exactly when `0 < minutes <= 1440`.
pub fn validate_budget_minutes(budget_minutes: i32) -> (r: Result<i32, AppError>)
    ensures
        r matches Ok(secs) ==> secs == budget_minutes * 60 && 0 < budget_minutes
            <= MAX_BUDGET_MINUTES,
        r is Err <==> !(0 < budget_minutes <= MAX_BUDGET_MINUTES),
{
    if budget_minutes <= 0 {
        return Err(AppError::InvalidInput {
            field: "budget_minutes",
            reason: "must be positive".to_owned(),
        });
    }
    if budget_minutes > MAX_BUDGET_MINUTES {
        return Err(AppError::InvalidInput {
            field: "budget_minutes",
            reason: "cannot exceed 1440 minutes".to_owned(),
        });
    }
    Ok(budget_minutes * 60)
}

/// Validates a schedule budget in seconds: accepted exactly when
/// `0 <= secs <= 86400`.
pub fn validate_budget_secs(budget_secs: i32) -> (r: Result<(), AppError>)
    ensures
        r is Ok <==> 0 <= budget_secs <= MAX_BUDGET_SECS,
{
    if budget_secs < 0 {
        return Err(AppError::InvalidInput {
            field: "distraction_budget",
            reason: "cannot be negative".to_owned(),
        });
    }
    if budget_secs > MAX_BUDGET_SECS {
        return Err(AppError::InvalidInput {
            field: "distraction_budget",
            reason: "cannot exceed 24 hours".to_owned(),
        });
    }
    Ok(())
}

/// A well-formed `HH:MM` time: five characters, a colon in the middle, and
/// two two-digit numerals giving an hour below 24 and a minute below 60.
pub open spec fn spec_valid_time(s: Seq<char>) -> bool {
    s.len() == 5 && s[2] == ':' && (spec_parse_u32(s.subrange(0, 2)) matches Some(h) && h < 24) && (
    spec_parse_u32(s.subrange(3, 5)) matches Some(m) && m < 60)
}

/// Validates a 24-hour `HH:MM` time string.
pub fn validate_time_format(time: &str) -> (r: Result<(), AppError>)
    ensures
        r is Ok <==> spec_valid_time(time@),
{
    let v = chars_vec(time);
    if v.len() != 5 || v[2] != ':' {
        return Err(AppError::InvalidInput {
            field: "time",
            reason: "must be in HH:MM format".to_owned(),
        });
    }
    let hh = subvec(&v, 0, 2);
    let mm = subvec(&v, 3, 5);
    let hours = match parse_u32_chars(&hh) {
        Some(h) => h,
        None => {
            return Err(AppError::InvalidInput {
                field: "time",
                reason: "invalid hours".to_owned(),
            });
        },
    };
    let minutes = match parse_u32_chars(&mm) {
        Some(m) => m,
        None => {
            return Err(AppError::InvalidInput {
                field: "time",
                reason: "invalid minutes".to_owned(),
            });
        },
    };
    if hours >= 24 {
        return Err(AppError::InvalidInput {
            field: "time",
            reason: "hours must be 00-23".to_owned(),
        });
    }
    if minutes >= 60 {
        return Err(AppError::InvalidInput {
            field: "time",
            reason: "minutes must be 00-59".to_owned(),
        });
    }
    Ok(())
}

/// A well-formed day set: non-empty, and every comma-separated part
/// parses, after trimming, to a day in 1..=7.
pub open spec fn spec_valid_days(s: Seq<char>) -> bool {
    s.len() > 0 && forall|k: int|
        0 <= k < spec_split(s, ',').len() ==> (spec_parse_u32(
            spec_trim(#[trigger] spec_split(s, ',')[k]),
        ) matches Some(d) && 1 <= d <= 7)
}

/// Validates a comma-separated list of ISO day numbers (1 = Monday).
pub fn validate_days_of_week(days: &str) -> (r: Result<(), AppError>)
    ensures
        r is Ok <==> spec_valid_days(days@),
{
    let v = chars_vec(days);
    if v.len() == 0 {
        return Err(AppError::InvalidInput {
            field: "days_of_week",
            reason: "at least one day required".to_owned(),
        });
    }
    let parts = split_chars(&v, ',');
    let ghost parts_v = parts@.map_values(|p: Vec<char>| p@);
    let n = parts.len();
    let mut k: usize = 0;
    while k < n
        invariant
            n == parts_v.len(),
            parts_v == parts@.map_values(|p: Vec<char>| p@),
            parts_v == spec_split(days@, ','),
            k <= n,
            forall|j: int|
                0 <= j < k ==> (spec_parse_u32(spec_trim(#[trigger] parts_v[j])) matches Some(d)
                    && 1 <= d <= 7),
        decreases n - k,
    {
        let t = trim_vec(&parts[k]);
        proof {
            assert(parts_v[k as int] == parts@[k as int]@);
        }
        match parse_u32_chars(&t) {
            Some(d) => {
                if d < 1 || d > 7 {
                    return Err(AppError::InvalidInput {
                        field: "days_of_week",
                        reason: "day must be 1-7".to_owned(),
                    });
                }
            },
            None => {
                return Err(AppError::InvalidInput {
                    field: "days_of_week",
                    reason: "invalid day".to_owned(),
                });
            },
        }
        k = k + 1;
    }
    Ok(())
}

/// Validates a productivity sign: exactly -1, 0 or 1.
pub fn validate_productivity(productivity: i32) -> (r: Result<(), AppError>)
    ensures
        r is Ok <==> -1 <= productivity <= 1,
{
    if productivity < -1 || productivity > 1 {
        return Err(AppError::InvalidInput {
            field: "productivity",
            reason: "must be -1, 0, or 1".to_owned(),
        });
    }
    Ok(())
}

/// Validates and trims a category name: the trimmed name must be non-empty
/// and at most 100 bytes.
pub fn validate_category_name(name: &str) -> (r: Result<String, AppError>)
    ensures
        r matches Ok(t) ==> t@ == spec_trim(name@) && t@.len() > 0 && spec_utf8_len(t@)
            <= MAX_CATEGORY_NAME_LEN,
        r is Err <==> !(spec_trim(name@).len() > 0 && spec_utf8_len(spec_trim(name@))
            <= MAX_CATEGORY_NAME_LEN),
{
    let v = chars_vec(name);
    let (a, b) = trim_bounds(&v);
    if a == b {
        return Err(AppError::InvalidInput { field: "name", reason: "cannot be empty".to_owned() });
    }
    let t = subvec(&v, a, b);
    if utf8_len_exceeds(&t, MAX_CATEGORY_NAME_LEN) {
        return Err(AppError::InvalidInput {
            field: "name",
            reason: "cannot exceed 100 characters".to_owned(),
        });
    }
    Ok(name.substring_char(a, b).to_owned())
}

/// Validates and trims a rule pattern: the trimmed pattern must be
/// non-empty and at most 500 bytes.
pub fn validate_rule_pattern(pattern: &str) -> (r: Result<String, AppError>)
    ensures
        r matches Ok(t) ==> t@ == spec_trim(pattern@) && t@.len() > 0 && spec_utf8_len(t@)
            <= MAX_RULE_PATTERN_LEN,
        r is Err <==> !(spec_trim(pattern@).len() > 0 && spec_utf8_len(spec_trim(pattern@))
            <= MAX_RULE_PATTERN_LEN),
{
    let v = chars_vec(pattern);
    let (a, b) = trim_bounds(&v);
    if a == b {
        return Err(AppError::InvalidInput {
            field: "pattern",
            reason: "cannot be empty".to_owned(),
        });
    }
    let t = subvec(&v, a, b);
    if utf8_len_exceeds(&t, MAX_RULE_PATTERN_LEN) {
        return Err(AppError::InvalidInput {
            field: "pattern",
            reason: "cannot exceed 500 characters".to_owned(),
        });
    }
    Ok(pattern.substring_char(a, b).to_owned())
}

/// Validates a rule priority: accepted exactly when `0 <= p <= 1000`.
pub fn validate_rule_priority(priority: i32) -> (r: Result<(), AppError>)
    ensures
        r is Ok <==> 0 <= priority <= MAX_RULE_PRIORITY,
{
    if priority < 0 || priority > MAX_RULE_PRIORITY {
        return Err(AppError::InvalidInput {
            field: "priority",
            reason: "must be 0-1000".to_owned(),
        });
    }
    Ok(())
}

} // verus!
