use foxus::commands::validate_budget;
use foxus::validation::{
    validate_budget_minutes, validate_budget_secs, validate_category_name, validate_days_of_week,
    validate_productivity, validate_rule_pattern, validate_rule_priority, validate_time_format,
};

#[test]
fn test_validate_budget_minutes_valid() {
    assert!(validate_budget_minutes(10).is_ok());
    assert_eq!(validate_budget_minutes(10).unwrap(), 600);
}

#[test]
fn test_validate_budget_minutes_zero() {
    assert!(validate_budget_minutes(0).is_err());
}

#[test]
fn test_validate_budget_minutes_negative() {
    assert!(validate_budget_minutes(-5).is_err());
}

#[test]
fn test_validate_budget_minutes_too_large() {
    assert!(validate_budget_minutes(24 * 60 + 1).is_err());
}

#[test]
fn test_validate_time_format_valid() {
    assert!(validate_time_format("09:00").is_ok());
    assert!(validate_time_format("23:59").is_ok());
    assert!(validate_time_format("00:00").is_ok());
}

#[test]
fn test_validate_time_format_invalid() {
    assert!(validate_time_format("9:00").is_err());
    assert!(validate_time_format("25:00").is_err());
    assert!(validate_time_format("12:60").is_err());
}

#[test]
fn test_validate_days_of_week_valid() {
    assert!(validate_days_of_week("1,2,3").is_ok());
    assert!(validate_days_of_week("7").is_ok());
    assert!(validate_days_of_week("1,2,3,4,5,6,7").is_ok());
}

#[test]
fn test_validate_days_of_week_invalid() {
    assert!(validate_days_of_week("").is_err());
    assert!(validate_days_of_week("0").is_err());
    assert!(validate_days_of_week("8").is_err());
}

#[test]
fn test_validate_budget_rejects_zero() {
    let result = validate_budget(0);
    assert!(result.is_err());
    assert!(result.unwrap_err().contains("positive"));
}

#[test]
fn test_validate_budget_rejects_negative() {
    let result = validate_budget(-10);
    assert!(result.is_err());
    assert!(result.unwrap_err().contains("positive"));
}

#[test]
fn test_validate_budget_accepts_one_minute() {
    let result = validate_budget(1);
    assert!(result.is_ok());
    assert_eq!(result.unwrap(), 60); // 1 minute = 60 seconds
}

#[test]
fn test_validate_budget_accepts_24_hours() {
    let result = validate_budget(24 * 60);
    assert!(result.is_ok());
    assert_eq!(result.unwrap(), 24 * 60 * 60); // 24 hours in seconds
}

#[test]
fn test_validate_budget_rejects_over_24_hours() {
    let result = validate_budget(24 * 60 + 1);
    assert!(result.is_err());
    assert!(result.unwrap_err().contains("24 hours"));
}

#[test]
fn test_validate_budget_accepts_typical_value() {
    let result = validate_budget(60); // 1 hour
    assert!(result.is_ok());
    assert_eq!(result.unwrap(), 3600);
}

#[test]
fn test_validate_budget_secs_bounds() {
    assert!(validate_budget_secs(0).is_ok());
    assert!(validate_budget_secs(86400).is_ok());
    assert!(validate_budget_secs(-1).is_err());
    assert!(validate_budget_secs(86401).is_err());
}

#[test]
fn test_validate_productivity_values() {
    assert!(validate_productivity(-1).is_ok());
    assert!(validate_productivity(0).is_ok());
    assert!(validate_productivity(1).is_ok());
    assert!(validate_productivity(2).is_err());
    assert!(validate_productivity(-2).is_err());
}

#[test]
fn test_validate_category_name_trims() {
    assert_eq!(validate_category_name("  Reading  ").unwrap(), "Reading");
    assert!(validate_category_name("   ").is_err());
    assert!(validate_category_name("").is_err());
    let long = "x".repeat(101);
    assert!(validate_category_name(&long).is_err());
    let ok = "x".repeat(100);
    assert!(validate_category_name(&ok).is_ok());
}

#[test]
fn test_validate_rule_pattern_trims() {
    assert_eq!(validate_rule_pattern(" reddit.com ").unwrap(), "reddit.com");
    assert!(validate_rule_pattern("  ").is_err());
    let long = "y".repeat(501);
    assert!(validate_rule_pattern(&long).is_err());
}

#[test]
fn test_validate_rule_priority_bounds() {
    assert!(validate_rule_priority(0).is_ok());
    assert!(validate_rule_priority(1000).is_ok());
    assert!(validate_rule_priority(-1).is_err());
    assert!(validate_rule_priority(1001).is_err());
}

#[test]
fn test_validate_time_format_plus_sign_numerals() {
    // A leading plus parses like Rust's integer parser, so "+9:30" passes.
    assert!(validate_time_format("+9:30").is_ok());
    assert!(validate_time_format("ab:cd").is_err());
}
