//! The inbound command surface: what the GUI and the extension invoke.
//! Each command validates its inputs before any store mutation, performs
//! one operation, and maps the result into a response type; rule edits end
//! with a categorizer reload so categorization reflects them immediately.

use vstd::prelude::*;
use crate::categorizer::Categorizer;
use crate::category::Category;
use crate::error::{AppError, StoreError};
use crate::focus::FocusManager;
use crate::rule::{MatchType, Rule};
use crate::schedule::FocusSchedule;
use crate::session::spec_budget_remaining;
use crate::store::{
    CategoryRow, RuleRow, ScheduleRow, Store, categories_correspond, db_categories, db_rules,
    db_schedules, db_sessions, row_open, rules_correspond, schedule_matches_row,
    schedules_correspond, spec_at_most_one_open, spec_has_open, spec_remove_category,
    spec_remove_rule, spec_remove_schedule,
};
use crate::text::{spec_trim, spec_utf8_len};
use crate::validation::{
    MAX_BUDGET_MINUTES, MAX_BUDGET_SECS, MAX_CATEGORY_NAME_LEN, MAX_RULE_PATTERN_LEN,
    MAX_RULE_PRIORITY, spec_valid_days, spec_valid_time, validate_budget_minutes,
    validate_budget_secs, validate_category_name, validate_days_of_week, validate_productivity,
    validate_rule_pattern, validate_rule_priority, validate_time_format,
};

verus! {

#[derive(Debug)]
pub struct FocusStateResponse {
    pub active: bool,
    pub budget_remaining: i32,
    pub session_duration_secs: Option<i64>,
}

#[derive(Debug)]
pub struct FocusScheduleResponse {
    pub id: i64,
    pub days_of_week: String,
    pub start_time: String,
    pub end_time: String,
    pub distraction_budget_secs: i32,
    pub enabled: bool,
}

impl FocusScheduleResponse {
    /// The response row for a schedule; an unsaved schedule reports id 0.
    pub fn of(schedule: FocusSchedule) -> (r: FocusScheduleResponse)
        ensures
            r.id == (match schedule.id {
                Some(id) => id,
                None => 0,
            }),
            r.days_of_week@ == schedule.days_of_week@,
            r.start_time@ == schedule.start_time@,
            r.end_time@ == schedule.end_time@,
            r.distraction_budget_secs == schedule.distraction_budget,
            r.enabled == schedule.enabled,
    {
        FocusScheduleResponse {
            id: match schedule.id {
                Some(id) => id,
                None => 0,
            },
            days_of_week: schedule.days_of_week,
            start_time: schedule.start_time,
            end_time: schedule.end_time,
            distraction_budget_secs: schedule.distraction_budget,
            enabled: schedule.enabled,
        }
    }
}

#[derive(Debug)]
pub struct CreateScheduleRequest {
    pub days_of_week: String,
    pub start_time: String,
    pub end_time: String,
    pub distraction_budget_secs: i32,
}

#[derive(Debug)]
pub struct UpdateScheduleRequest {
    pub id: i64,
    pub days_of_week: String,
    pub start_time: String,
    pub end_time: String,
    pub distraction_budget_secs: i32,
    pub enabled: bool,
}

#[derive(Debug)]
pub struct CategoryResponse {
    pub id: i64,
    pub name: String,
    /// -1 = distracting, 0 = neutral, 1 = productive.
    pub productivity: i32,
}

impl CategoryResponse {
    pub fn of(category: Category) -> (r: CategoryResponse)
        ensures
            r.id == category.id,
            r.name@ == category.name@,
            r.productivity == category.productivity,
    {
        CategoryResponse {
            id: category.id,
            name: category.name,
            productivity: category.productivity,
        }
    }
}

#[derive(Debug)]
pub struct RuleResponse {
    pub id: i64,
    pub pattern: String,
    /// "app", "domain", or "title".
    pub match_type: String,
    pub category_id: i64,
    pub priority: i32,
}

impl RuleResponse {
    pub fn of(rule: Rule) -> (r: RuleResponse)
        ensures
            r.id == rule.id,
            r.pattern@ == rule.pattern@,
            r.match_type@ == crate::rule::spec_match_type_str(rule.match_type),
            r.category_id == rule.category_id,
            r.priority == rule.priority,
    {
        let match_type = rule.match_type.as_str().to_owned();
        RuleResponse {
            id: rule.id,
            pattern: rule.pattern,
            match_type,
            category_id: rule.category_id,
            priority: rule.priority,
        }
    }
}

/// A schedule response row mirrors a stored schedule row.
pub open spec fn sched_resp_matches_row(resp: FocusScheduleResponse, row: ScheduleRow) -> bool {
    resp.id == row.0 && resp.days_of_week@ == row.1 && resp.start_time@ == row.2 && resp.end_time@
        == row.3 && resp.distraction_budget_secs == row.4 && resp.enabled == row.5
}

/// The schedule responses mirror, element for element, a schedule list
/// that holds exactly the stored rows.
pub open spec fn sched_resps_correspond(
    v: Seq<FocusScheduleResponse>,
    rows: Seq<ScheduleRow>,
) -> bool {
    exists|w: Seq<FocusSchedule>|
        #![trigger schedules_correspond(w, rows)]
        schedules_correspond(w, rows) && v.len() == w.len() && w.len() == rows.len() && (forall|
            i: int,
        | 0 <= i < v.len() ==> resp_of_schedule(#[trigger] v[i], w[i]))
}

/// The category responses mirror, element for element, a category list
/// that holds exactly the stored rows.
pub open spec fn cat_resps_correspond(v: Seq<CategoryResponse>, rows: Seq<CategoryRow>) -> bool {
    exists|w: Seq<Category>|
        #![trigger categories_correspond(w, rows)]
        categories_correspond(w, rows) && v.len() == w.len() && w.len() == rows.len() && (forall|
            i: int,
        | 0 <= i < v.len() ==> resp_of_category(#[trigger] v[i], w[i]))
}

/// The rule responses mirror, element for element, a rule list that holds
/// exactly the stored rows.
pub open spec fn rule_resps_correspond(v: Seq<RuleResponse>, rows: Seq<RuleRow>) -> bool {
    exists|w: Seq<Rule>|
        #![trigger rules_correspond(w, rows)]
        rules_correspond(w, rows) && v.len() == w.len() && w.len() == rows.len() && (forall|i: int|
            0 <= i < v.len() ==> resp_of_rule(#[trigger] v[i], w[i]))
}

/// Validates a session budget in minutes, with a plain-string error for
/// the command boundary; accepted exactly when `0 < minutes <= 1440`.
pub fn validate_budget(budget_minutes: i32) -> (r: Result<i32, String>)
    ensures
        r matches Ok(secs) ==> secs == budget_minutes * 60 && 0 < budget_minutes
            <= MAX_BUDGET_MINUTES,
        r is Err <==> !(0 < budget_minutes <= MAX_BUDGET_MINUTES),
{
    if budget_minutes <= 0 {
        return Err("Budget must be a positive number of minutes".to_owned());
    }
    if budget_minutes > MAX_BUDGET_MINUTES {
        return Err("Budget cannot exceed 1440 minutes (24 hours)".to_owned());
    }
    Ok(budget_minutes * 60)
}

/// The focus state as the GUI sees it.
pub fn get_focus_state(manager: &FocusManager, store: &Store) -> (r: Result<
    FocusStateResponse,
    AppError,
>)
    ensures
        r matches Ok(resp) ==> resp.active == spec_has_open(db_sessions(store.conn)) && (
        resp.session_duration_secs is Some <==> resp.active) && (!resp.active
            ==> resp.budget_remaining == 0) && (resp.active && spec_at_most_one_open(
            db_sessions(store.conn),
        ) ==> exists|i: int|
            0 <= i < db_sessions(store.conn).len() && row_open(
                #[trigger] db_sessions(store.conn)[i],
            ) && resp.budget_remaining == spec_budget_remaining(
                db_sessions(store.conn)[i].4 as int,
                db_sessions(store.conn)[i].5 as int,
            )),
{
    let state = manager.get_state(store)?;
    Ok(
        FocusStateResponse {
            active: state.active,
            budget_remaining: state.budget_remaining,
            session_duration_secs: state.session_duration_secs,
        },
    )
}

/// Starts a manual focus session from a budget in minutes; the budget is
/// validated before anything is touched.
pub fn start_focus_session(manager: &FocusManager, store: &mut Store, budget_minutes: i32) -> (r:
    Result<(), AppError>)
    ensures
        !(0 < budget_minutes <= MAX_BUDGET_MINUTES) ==> r is Err && db_sessions(final(store).conn)
            == db_sessions(old(store).conn),
        r is Ok ==> (0 < budget_minutes <= MAX_BUDGET_MINUTES && (spec_at_most_one_open(
            db_sessions(old(store).conn),
        ) ==> {
            let new_ss = db_sessions(final(store).conn);
            new_ss.len() == db_sessions(old(store).conn).len() + 1 && row_open(new_ss.last())
                && new_ss.last().3 == false && new_ss.last().4 == budget_minutes * 60
                && new_ss.last().5 == 0 && (forall|i: int|
                0 <= i < new_ss.len() - 1 ==> !row_open(#[trigger] new_ss[i]))
        })),
{
    let budget_secs = validate_budget_minutes(budget_minutes)?;
    manager.start_session(store, budget_secs)?;
    Ok(())
}

/// Ends the running focus session, if any.
pub fn end_focus_session(manager: &FocusManager, store: &mut Store) -> (r: Result<(), AppError>)
    ensures
        r is Ok ==> (spec_at_most_one_open(db_sessions(old(store).conn)) ==> !spec_has_open(
            db_sessions(final(store).conn),
        )),
{
    let ended = manager.end_session(store)?;
    proof {
        if spec_at_most_one_open(db_sessions(old(store).conn)) {
            match ended {
                None => {},
                Some(_) => {},
            }
        }
    }
    Ok(())
}

/// Every stored schedule, as response rows, one per row.
pub fn get_focus_schedules(store: &Store) -> (r: Result<Vec<FocusScheduleResponse>, AppError>)
    ensures
        r matches Ok(v) ==> sched_resps_correspond(v@, db_schedules(store.conn)),
{
    let schedules = FocusSchedule::find_all(store)?;
    let ghost orig = schedules@;
    let mut out: Vec<FocusScheduleResponse> = Vec::new();
    let mut rest = schedules;
    while rest.len() > 0
        invariant
            schedules_correspond(orig, db_schedules(store.conn)),
            out@.len() + rest@.len() == orig.len(),
            forall|k: int| 0 <= k < rest@.len() ==> #[trigger] rest@[k] == orig[out@.len() + k],
            forall|i: int|
                0 <= i < out@.len() ==> resp_of_schedule(#[trigger] out@[i], orig[i]),
        decreases rest@.len(),
    {
        let ghost old_rest = rest@;
        let s = rest.remove(0);
        proof {
            assert(s == orig[out@.len() as int]);
            let ghost base = out@.len() as int;
            assert forall|k: int| 0 <= k < rest@.len() implies #[trigger] rest@[k] == orig[base + 1
                + k] by {
                assert(rest@[k] == old_rest[k + 1]);
            }
        }
        out.push(FocusScheduleResponse::of(s));
    }
    proof {
        assert(sched_resps_correspond(out@, db_schedules(store.conn)));
    }
    Ok(out)
}

/// The response row carries the schedule's fields, id 0 when unsaved.
pub open spec fn resp_of_schedule(resp: FocusScheduleResponse, s: FocusSchedule) -> bool {
    resp.id == (match s.id {
        Some(id) => id,
        None => 0,
    }) && resp.days_of_week@ == s.days_of_week@ && resp.start_time@ == s.start_time@
        && resp.end_time@ == s.end_time@ && resp.distraction_budget_secs == s.distraction_budget
        && resp.enabled == s.enabled
}

/// Validates and stores a new schedule.
pub fn create_focus_schedule(store: &mut Store, request: CreateScheduleRequest) -> (r: Result<
    FocusScheduleResponse,
    AppError,
>)
    ensures
        !(spec_valid_time(request.start_time@) && spec_valid_time(request.end_time@)
            && spec_valid_days(request.days_of_week@) && 0 <= request.distraction_budget_secs
            <= MAX_BUDGET_SECS) ==> r is Err && db_schedules(final(store).conn) == db_schedules(
            old(store).conn,
        ),
        r matches Ok(resp) ==> (resp.enabled && resp.days_of_week@ == request.days_of_week@
            && resp.start_time@ == request.start_time@ && resp.end_time@ == request.end_time@
            && resp.distraction_budget_secs == request.distraction_budget_secs && db_schedules(
            final(store).conn,
        ) == db_schedules(old(store).conn).push(
            (
                resp.id,
                request.days_of_week@,
                request.start_time@,
                request.end_time@,
                request.distraction_budget_secs,
                true,
            ),
        )),
{
    validate_time_format(request.start_time.as_str())?;
    validate_time_format(request.end_time.as_str())?;
    validate_days_of_week(request.days_of_week.as_str())?;
    validate_budget_secs(request.distraction_budget_secs)?;
    let mut schedule = FocusSchedule::new(
        request.days_of_week.as_str(),
        request.start_time.as_str(),
        request.end_time.as_str(),
        request.distraction_budget_secs,
    );
    schedule.save(store)?;
    Ok(FocusScheduleResponse::of(schedule))
}

/// Validates and rewrites an existing schedule; a missing id is reported
/// as not found, distinctly from validation failures.
pub fn update_focus_schedule(store: &mut Store, request: UpdateScheduleRequest) -> (r: Result<
    FocusScheduleResponse,
    AppError,
>)
    ensures
        !(spec_valid_time(request.start_time@) && spec_valid_time(request.end_time@)
            && spec_valid_days(request.days_of_week@) && 0 <= request.distraction_budget_secs
            <= MAX_BUDGET_SECS) ==> r is Err && db_schedules(final(store).conn) == db_schedules(
            old(store).conn,
        ),
        r matches Ok(resp) ==> (resp.id == request.id && db_schedules(final(store).conn).len()
            == db_schedules(old(store).conn).len() && forall|i: int|
            0 <= i < db_schedules(old(store).conn).len() ==> db_schedules(final(store).conn)[i]
                == (if db_schedules(old(store).conn)[i].0 == request.id {
                crate::store::sched_row_updated(
                    db_schedules(old(store).conn)[i],
                    request.days_of_week@,
                    request.start_time@,
                    request.end_time@,
                    request.distraction_budget_secs,
                    request.enabled,
                )
            } else {
                db_schedules(old(store).conn)[i]
            })),
{
    validate_time_format(request.start_time.as_str())?;
    validate_time_format(request.end_time.as_str())?;
    validate_days_of_week(request.days_of_week.as_str())?;
    validate_budget_secs(request.distraction_budget_secs)?;
    let existing = FocusSchedule::find_by_id(store, request.id)?;
    if existing.is_none() {
        return Err(AppError::NotFound { entity: "Schedule" });
    }
    let schedule = FocusSchedule {
        id: Some(request.id),
        days_of_week: request.days_of_week,
        start_time: request.start_time,
        end_time: request.end_time,
        distraction_budget: request.distraction_budget_secs,
        enabled: request.enabled,
    };
    schedule.update(store)?;
    Ok(FocusScheduleResponse::of(schedule))
}

/// Deletes a schedule; afterwards no row carries the id, and the result
/// says whether one did.
pub fn delete_focus_schedule(store: &mut Store, id: i64) -> (r: Result<bool, AppError>)
    ensures
        r matches Ok(b) ==> (db_schedules(final(store).conn) == spec_remove_schedule(
            db_schedules(old(store).conn),
            id,
        ) && b == exists|j: int|
            0 <= j < db_schedules(old(store).conn).len() && db_schedules(old(store).conn)[j].0
                == id),
{
    FocusSchedule::delete(store, id)
}

/// The currently active schedule, if any, as a response row backed by an
/// enabled stored row.
pub fn get_active_schedule(manager: &FocusManager, store: &Store) -> (r: Result<
    Option<FocusScheduleResponse>,
    AppError,
>)
    ensures
        r matches Ok(opt) ==> (opt matches Some(resp) ==> exists|j: int|
            0 <= j < db_schedules(store.conn).len() && sched_resp_matches_row(
                resp,
                #[trigger] db_schedules(store.conn)[j],
            ) && db_schedules(store.conn)[j].5),
{
    let schedule = manager.get_active_schedule(store)?;
    Ok(
        match schedule {
            Some(s) => {
                proof {
                    let j = choose|j: int|
                        0 <= j < db_schedules(store.conn).len() && schedule_matches_row(
                            s,
                            #[trigger] db_schedules(store.conn)[j],
                        );
                }
                Some(FocusScheduleResponse::of(s))
            },
            None => None,
        },
    )
}

/// One schedule reconciliation pass.
pub fn check_focus_schedules(manager: &FocusManager, store: &mut Store) -> (r: Result<
    (),
    AppError,
>)
    ensures
        spec_at_most_one_open(db_sessions(old(store).conn)) ==> spec_at_most_one_open(
            db_sessions(final(store).conn),
        ),
{
    manager.check_schedules(store)
}

/// Every stored category, as response rows, one per row.
pub fn get_categories(store: &Store) -> (r: Result<Vec<CategoryResponse>, AppError>)
    ensures
        r matches Ok(v) ==> cat_resps_correspond(v@, db_categories(store.conn)),
{
    let categories = Category::find_all(store)?;
    let ghost orig = categories@;
    let mut out: Vec<CategoryResponse> = Vec::new();
    let mut rest = categories;
    while rest.len() > 0
        invariant
            categories_correspond(orig, db_categories(store.conn)),
            out@.len() + rest@.len() == orig.len(),
            forall|k: int| 0 <= k < rest@.len() ==> #[trigger] rest@[k] == orig[out@.len() + k],
            forall|i: int|
                0 <= i < out@.len() ==> resp_of_category(#[trigger] out@[i], orig[i]),
        decreases rest@.len(),
    {
        let ghost old_rest = rest@;
        let c = rest.remove(0);
        proof {
            assert(c == orig[out@.len() as int]);
            let ghost base = out@.len() as int;
            assert forall|k: int| 0 <= k < rest@.len() implies #[trigger] rest@[k] == orig[base + 1
                + k] by {
                assert(rest@[k] == old_rest[k + 1]);
            }
        }
        out.push(CategoryResponse::of(c));
    }
    proof {
        assert(cat_resps_correspond(out@, db_categories(store.conn)));
    }
    Ok(out)
}

/// The response row carries the category's fields.
pub open spec fn resp_of_category(resp: CategoryResponse, c: Category) -> bool {
    resp.id == c.id && resp.name@ == c.name@ && resp.productivity == c.productivity
}

/// Validates and stores a new category; a name collision is reported as
/// already existing.
pub fn create_category(store: &mut Store, name: &str, productivity: i32) -> (r: Result<
    CategoryResponse,
    AppError,
>)
    ensures
        !(-1 <= productivity <= 1 && spec_trim(name@).len() > 0 && spec_utf8_len(spec_trim(name@))
            <= MAX_CATEGORY_NAME_LEN) ==> r is Err && db_categories(final(store).conn)
            == db_categories(old(store).conn),
        r matches Ok(resp) ==> (resp.name@ == spec_trim(name@) && resp.productivity == productivity
            && db_categories(final(store).conn) == db_categories(old(store).conn).push(
            (resp.id, spec_trim(name@), productivity),
        )),
{
    validate_productivity(productivity)?;
    let trimmed = validate_category_name(name)?;
    match Category::create(store, trimmed.as_str(), productivity) {
        Ok(category) => Ok(CategoryResponse::of(category)),
        Err(AppError::Database(StoreError::UniqueViolation)) => Err(AppError::AlreadyExists {
            name: trimmed,
        }),
        Err(e) => Err(e),
    }
}

/// Validates and rewrites a category; true when a row had the id.
pub fn update_category(store: &mut Store, id: i64, name: &str, productivity: i32) -> (r: Result<
    bool,
    AppError,
>)
    ensures
        !(-1 <= productivity <= 1 && spec_trim(name@).len() > 0 && spec_utf8_len(spec_trim(name@))
            <= MAX_CATEGORY_NAME_LEN) ==> r is Err && db_categories(final(store).conn)
            == db_categories(old(store).conn),
        r matches Ok(b) ==> (b == exists|j: int|
            0 <= j < db_categories(old(store).conn).len() && db_categories(old(store).conn)[j].0
                == id && forall|i: int|
            0 <= i < db_categories(old(store).conn).len() ==> db_categories(final(store).conn)[i]
                == (if db_categories(old(store).conn)[i].0 == id {
                (id, spec_trim(name@), productivity)
            } else {
                db_categories(old(store).conn)[i]
            })),
{
    validate_productivity(productivity)?;
    let trimmed = validate_category_name(name)?;
    match store.update_category(id, trimmed.as_str(), productivity) {
        Ok(b) => Ok(b),
        Err(StoreError::UniqueViolation) => Err(AppError::AlreadyExists { name: trimmed }),
        Err(e) => Err(AppError::Database(e)),
    }
}

/// Deletes a category; deletion is refused while rules or activities
/// still reference it.
pub fn delete_category(store: &mut Store, id: i64) -> (r: Result<bool, AppError>)
    ensures
        r matches Ok(b) ==> (db_categories(final(store).conn) == spec_remove_category(
            db_categories(old(store).conn),
            id,
        ) && b == exists|j: int|
            0 <= j < db_categories(old(store).conn).len() && db_categories(old(store).conn)[j].0
                == id),
{
    match store.delete_category(id) {
        Ok(b) => Ok(b),
        Err(StoreError::ForeignKeyViolation) => Err(AppError::DeleteFailed {
            reason: "it is referenced by rules or activities".to_owned(),
        }),
        Err(e) => Err(AppError::Database(e)),
    }
}

/// Every stored rule, as response rows, one per row.
pub fn get_rules(store: &Store) -> (r: Result<Vec<RuleResponse>, AppError>)
    ensures
        r matches Ok(v) ==> rule_resps_correspond(v@, db_rules(store.conn)),
{
    let rules = Rule::find_all(store)?;
    let ghost orig = rules@;
    let mut out: Vec<RuleResponse> = Vec::new();
    let mut rest = rules;
    while rest.len() > 0
        invariant
            rules_correspond(orig, db_rules(store.conn)),
            out@.len() + rest@.len() == orig.len(),
            forall|k: int| 0 <= k < rest@.len() ==> #[trigger] rest@[k] == orig[out@.len() + k],
            forall|i: int| 0 <= i < out@.len() ==> resp_of_rule(#[trigger] out@[i], orig[i]),
        decreases rest@.len(),
    {
        let ghost old_rest = rest@;
        let rl = rest.remove(0);
        proof {
            assert(rl == orig[out@.len() as int]);
            let ghost base = out@.len() as int;
            assert forall|k: int| 0 <= k < rest@.len() implies #[trigger] rest@[k] == orig[base + 1
                + k] by {
                assert(rest@[k] == old_rest[k + 1]);
            }
        }
        out.push(RuleResponse::of(rl));
    }
    proof {
        assert(rule_resps_correspond(out@, db_rules(store.conn)));
    }
    Ok(out)
}

/// The response row carries the rule's fields, the match kind rendered.
pub open spec fn resp_of_rule(resp: RuleResponse, rl: Rule) -> bool {
    resp.id == rl.id && resp.pattern@ == rl.pattern@ && resp.category_id == rl.category_id
        && resp.priority == rl.priority && resp.match_type@ == crate::rule::spec_match_type_str(
        rl.match_type,
    )
}

/// Validates and stores a new rule, then reloads the categorizer so the
/// rule takes effect without a restart.
pub fn create_rule(
    store: &mut Store,
    categorizer: &mut Categorizer,
    pattern: &str,
    match_type: &str,
    category_id: i64,
    priority: i32,
) -> (r: Result<RuleResponse, AppError>)
    ensures
        !(spec_trim(pattern@).len() > 0 && spec_utf8_len(spec_trim(pattern@))
            <= MAX_RULE_PATTERN_LEN && crate::rule::spec_match_type_of(match_type@) is Some && 0
            <= priority <= MAX_RULE_PRIORITY) ==> r is Err && db_rules(final(store).conn)
            == db_rules(old(store).conn),
        r matches Ok(resp) ==> (resp.pattern@ == spec_trim(pattern@) && resp.category_id
            == category_id && resp.priority == priority && final(categorizer).wf() && db_rules(
            final(store).conn,
        ) == db_rules(old(store).conn).push(
            (
                resp.id,
                spec_trim(pattern@),
                resp.match_type@,
                category_id,
                priority,
            ),
        )),
{
    let trimmed = validate_rule_pattern(pattern)?;
    let mt = match MatchType::from_str(match_type) {
        Some(m) => m,
        None => {
            return Err(AppError::InvalidInput {
                field: "match_type",
                reason: "must be 'app', 'domain', or 'title'".to_owned(),
            });
        },
    };
    validate_rule_priority(priority)?;
    if Category::find_by_id(store, category_id)?.is_none() {
        return Err(AppError::NotFound { entity: "Category" });
    }
    let rule = Rule::create(store, trimmed.as_str(), mt, category_id, priority)?;
    categorizer.reload(store)?;
    Ok(RuleResponse::of(rule))
}

/// Validates and rewrites a rule, then reloads the categorizer; true when
/// a row had the id.
pub fn update_rule(
    store: &mut Store,
    categorizer: &mut Categorizer,
    id: i64,
    pattern: &str,
    match_type: &str,
    category_id: i64,
    priority: i32,
) -> (r: Result<bool, AppError>)
    ensures
        !(spec_trim(pattern@).len() > 0 && spec_utf8_len(spec_trim(pattern@))
            <= MAX_RULE_PATTERN_LEN && crate::rule::spec_match_type_of(match_type@) is Some && 0
            <= priority <= MAX_RULE_PRIORITY) ==> r is Err && db_rules(final(store).conn)
            == db_rules(old(store).conn),
        r matches Ok(b) ==> (final(categorizer).wf() && (
        crate::rule::spec_match_type_of(match_type@) matches Some(mt) && db_rules(
            final(store).conn,
        ).len() == db_rules(old(store).conn).len() && (forall|i: int|
            0 <= i < db_rules(old(store).conn).len() ==> db_rules(final(store).conn)[i] == (
            if db_rules(old(store).conn)[i].0 == id {
                (id, spec_trim(pattern@), crate::rule::spec_match_type_str(mt), category_id,
                priority)
            } else {
                db_rules(old(store).conn)[i]
            }))) && b == exists|j: int|
            0 <= j < db_rules(old(store).conn).len() && db_rules(old(store).conn)[j].0 == id),
{
    let trimmed = validate_rule_pattern(pattern)?;
    let mt = match MatchType::from_str(match_type) {
        Some(m) => m,
        None => {
            return Err(AppError::InvalidInput {
                field: "match_type",
                reason: "must be 'app', 'domain', or 'title'".to_owned(),
            });
        },
    };
    validate_rule_priority(priority)?;
    if Category::find_by_id(store, category_id)?.is_none() {
        return Err(AppError::NotFound { entity: "Category" });
    }
    let updated = match store.update_rule(id, trimmed.as_str(), mt.as_str(), category_id, priority)
        {
        Ok(b) => b,
        Err(e) => {
            return Err(AppError::Database(e));
        },
    };
    categorizer.reload(store)?;
    Ok(updated)
}

/// Deletes a rule, then reloads the categorizer; false when no row had
/// the id.
pub fn delete_rule(store: &mut Store, categorizer: &mut Categorizer, id: i64) -> (r: Result<
    bool,
    AppError,
>)
    ensures
        r matches Ok(b) ==> (final(categorizer).wf() && db_rules(final(store).conn)
            == spec_remove_rule(db_rules(old(store).conn), id) && b == exists|j: int|
            0 <= j < db_rules(old(store).conn).len() && db_rules(old(store).conn)[j].0 == id),
{
    let deleted = match store.delete_rule(id) {
        Ok(b) => b,
        Err(e) => {
            return Err(AppError::Database(e));
        },
    };
    categorizer.reload(store)?;
    Ok(deleted)
}

} // verus!
