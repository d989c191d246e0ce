use pinnacle_cypat::models::fix_record::{after_change, before_change};
use pinnacle_cypat::models::fix_record::{count_of, needs_attention, FixOutcome, FixRecord};
use pinnacle_cypat::models::{result_details, run_totals, SystemInfo, TaskResult};

fn fix(target: &str, outcome: FixOutcome) -> FixRecord {
    FixRecord {
        task: "t".to_string(),
        target: target.to_string(),
        intent: String::new(),
        before: None,
        action: String::new(),
        outcome,
        evidence: "read back".to_string(),
    }
}

#[test]
fn a_run_with_no_failures_succeeds() {
    let mut r = TaskResult::started("Firewall");
    assert!(r.success);
    assert_eq!(r.confidence_percent, 100);
    r.finish("done".to_string(), &Vec::new());
    assert!(r.success);
    assert_eq!(r.message, "done");
    assert_eq!(r.error_details, None);
    assert_eq!(r.task_name, "Firewall");
}

#[test]
fn failures_become_the_details() {
    let mut r = TaskResult::started("Firewall");
    r.finish("partly".to_string(), &vec!["allow 22/tcp: refused".to_string(), "enable: no".to_string()]);
    assert!(!r.success);
    assert_eq!(r.error_details.as_deref(), Some("allow 22/tcp: refused; enable: no"));
}

#[test]
fn an_unverified_result_loses_confidence_down_to_the_floor() {
    let mut r = TaskResult::started("x");
    r.record_verification(false);
    assert!(!r.verified);
    assert_eq!(r.confidence_percent, 70);
    r.record_verification(false);
    assert_eq!(r.confidence_percent, 50);
    r.record_verification(false);
    assert_eq!(r.confidence_percent, 50);
    r.record_verification(true);
    assert!(r.verified);
    assert_eq!(r.confidence_percent, 50);
}

#[test]
fn defaults_say_nothing() {
    let info = SystemInfo::default();
    assert!(info.raw_output.is_none() && info.error_output.is_none());
    let r = TaskResult::default();
    assert!(!r.success);
    assert_eq!(r.items_attempted, 0);
}

#[test]
fn the_ledger_counts_outcomes_and_lists_what_is_unconfirmed() {
    let fixes = vec![
        fix("a", FixOutcome::Fixed),
        fix("b", FixOutcome::Failed),
        fix("c", FixOutcome::Unverified),
        fix("d", FixOutcome::Fixed),
        fix("e", FixOutcome::Skipped),
    ];
    assert_eq!(count_of(&fixes, FixOutcome::Fixed), 2);
    assert_eq!(count_of(&fixes, FixOutcome::AlreadyCompliant), 0);
    let attention: Vec<&str> = needs_attention(&fixes).iter().map(|f| f.target.as_str()).collect();
    assert_eq!(attention, ["b", "c"]);
}

#[test]
fn a_change_is_recorded_by_what_reading_back_showed() {
    assert_eq!(before_change(true, true), Some(FixOutcome::AlreadyCompliant));
    assert_eq!(before_change(false, true), Some(FixOutcome::Skipped));
    assert_eq!(before_change(false, false), None);
    assert_eq!(after_change(false, true), FixOutcome::Failed);
    assert_eq!(after_change(true, true), FixOutcome::Fixed);
    assert_eq!(after_change(true, false), FixOutcome::Unverified);
}

#[test]
fn run_totals_add_up_every_result() {
    let mut a = TaskResult::started("A");
    a.items_attempted = 4;
    a.items_succeeded = 3;
    a.items_skipped = 1;
    a.verified = true;
    let mut b = TaskResult::started("B");
    b.success = false;
    b.items_attempted = 2;
    b.confidence_percent = 70;
    let totals = run_totals(&[a, b]);
    assert_eq!(totals.tasks, 2);
    assert_eq!(totals.passed, 1);
    assert_eq!(totals.verified, 1);
    assert_eq!(totals.attempted, 6);
    assert_eq!(totals.succeeded, 3);
    assert_eq!(totals.skipped, 1);
    assert_eq!(totals.confidence, 170);
    assert_eq!(totals.weighted_confidence, 100 * 4 + 70 * 2);
}

#[test]
fn run_totals_of_nothing_are_zero() {
    let totals = run_totals(&[]);
    assert_eq!((totals.tasks, totals.passed, totals.verified), (0, 0, 0));
    assert_eq!((totals.attempted, totals.weighted_confidence), (0, 0));
}

#[test]
fn the_run_log_section_has_a_block_per_task() {
    let mut a = TaskResult::started("Firewall");
    a.items_attempted = 4;
    a.items_succeeded = 3;
    a.message = "Firewall enabled with 1 allow rules.".to_string();
    let mut b = TaskResult::started("User Management");
    b.success = false;
    b.verified = true;
    b.confidence_percent = 70;
    b.message = "first\nsecond".to_string();
    b.error_details = Some("a: no".to_string());
    let lines = result_details(&[a, b]);
    let rule = "=".repeat(79);
    let expected: Vec<String> = [
        "",
        rule.as_str(),
        "TASK RESULTS",
        rule.as_str(),
        "",
        "Task:      Firewall",
        "Outcome:   SUCCESS",
        "Verified:  no",
        "Items:     4 attempted, 3 succeeded, 0 skipped",
        "Confidence: 100%",
        "           Firewall enabled with 1 allow rules.",
        "",
        "Task:      User Management",
        "Outcome:   FAILED",
        "Verified:  yes",
        "Items:     0 attempted, 0 succeeded, 0 skipped",
        "Confidence: 70%",
        "           first",
        "           second",
        "Issues:",
        "  - a: no",
    ]
    .iter()
    .map(|s| s.to_string())
    .collect();
    assert_eq!(lines, expected);
}

#[test]
fn negative_counts_are_written_with_their_sign() {
    let mut a = TaskResult::started("Odd");
    a.items_skipped = -2;
    let lines = result_details(&[a]);
    assert_eq!(lines[8], "Items:     0 attempted, 0 succeeded, -2 skipped");
}
