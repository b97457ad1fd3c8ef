use commitui::config::Config;
use commitui::validation::{validate_subject, FailureReason};

fn rules(max: usize, lowercase: bool, no_period: bool) -> Config {
    let mut cfg = Config::default();
    cfg.subject_max_length = max;
    cfg.subject_start_lowercase = lowercase;
    cfg.subject_no_ending_period = no_period;
    cfg
}

#[test]
fn empty_subject_is_rejected_under_any_rules() {
    assert_eq!(
        validate_subject("", &rules(72, true, true)),
        Some(FailureReason::EmptySubject)
    );
    assert_eq!(
        validate_subject("", &rules(1, false, false)),
        Some(FailureReason::EmptySubject)
    );
}

#[test]
fn whitespace_only_subject_is_rejected_as_empty() {
    assert_eq!(
        validate_subject("   \t ", &rules(72, true, true)),
        Some(FailureReason::EmptySubject)
    );
}

#[test]
fn over_long_subject_reports_too_long() {
    let subject = "x".repeat(73);
    assert_eq!(
        validate_subject(&subject, &rules(72, true, true)),
        Some(FailureReason::TooLong { max: 72, actual: 73 })
    );
}

#[test]
fn too_long_message_names_the_limit() {
    let subject = "x".repeat(73);
    let failure = validate_subject(&subject, &Config::default()).unwrap();
    assert_eq!(
        failure.message(),
        "Subject should be 72 characters or less (currently 73)."
    );
}

#[test]
fn trailing_period_is_rejected_when_rule_is_on() {
    assert_eq!(
        validate_subject("add login.", &rules(72, true, true)),
        Some(FailureReason::TrailingPeriod)
    );
    assert_eq!(validate_subject("add login.", &rules(72, true, false)), None);
}

#[test]
fn uppercase_start_is_rejected_when_rule_is_on() {
    assert_eq!(
        validate_subject("Add login", &rules(72, true, true)),
        Some(FailureReason::NotLowercaseStart)
    );
    assert_eq!(validate_subject("Add login", &rules(72, false, true)), None);
}

#[test]
fn valid_subject_passes() {
    assert_eq!(validate_subject("add login", &Config::default()), None);
}

#[test]
fn first_failing_check_wins() {
    // Over-long, ends with a period, and starts uppercase: length is
    // checked before the period and case rules.
    let subject = format!("X{}.", "y".repeat(80));
    assert_eq!(
        validate_subject(&subject, &rules(72, true, true)),
        Some(FailureReason::TooLong { max: 72, actual: 82 })
    );
    // Ends with a period and starts uppercase: the period rule is
    // checked first.
    assert_eq!(
        validate_subject("Add login.", &rules(72, true, true)),
        Some(FailureReason::TrailingPeriod)
    );
}

#[test]
fn digit_start_is_not_uppercase() {
    assert_eq!(validate_subject("3rd attempt", &Config::default()), None);
}

#[test]
fn failure_messages_are_stable() {
    assert_eq!(
        FailureReason::EmptySubject.message(),
        "Subject must not be empty."
    );
    assert_eq!(
        FailureReason::TrailingPeriod.message(),
        "Subject should not end with a period."
    );
    assert_eq!(
        FailureReason::NotLowercaseStart.message(),
        "Subject should start with a lowercase letter."
    );
    assert_eq!(
        FailureReason::TooLong { max: 50, actual: 107 }.message(),
        "Subject should be 50 characters or less (currently 107)."
    );
}

#[test]
fn trim_strips_both_ends() {
    assert_eq!(commitui::trim_str("  api  "), "api");
    assert_eq!(commitui::trim_str("\t core\n"), "core");
    assert_eq!(commitui::trim_str("   "), "");
    assert_eq!(commitui::trim_str(""), "");
    assert_eq!(commitui::trim_str("unchanged"), "unchanged");
}
