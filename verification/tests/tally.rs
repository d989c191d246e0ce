use pinnacle_cypat::models::TaskResult;
use pinnacle_cypat::task::{Outcome, Tally, Wording};

#[test]
fn every_change_is_counted_once_as_made_skipped_or_failed() {
    let mut tally = Tally::new();
    tally.record("apache2", Outcome::Done);
    tally.record("nginx", Outcome::Skipped);
    tally.record("vsftpd", Outcome::Failed("unit is locked".to_string()));
    tally.record("telnet", Outcome::Done);
    assert_eq!(tally.succeeded(), 2);
    assert_eq!(tally.skipped(), 1);
    assert_eq!(tally.failed(), 1);
    assert_eq!(tally.succeeded() as usize + tally.skipped() as usize + tally.failed(), 4);
}

#[test]
fn a_finished_tally_fills_in_the_result() {
    let mut tally = Tally::new();
    tally.record("a", Outcome::Done);
    tally.record_worded("/etc/ssh/sshd_config:PermitRootLogin", Outcome::Failed("read-only".to_string()), Wording::Brackets);
    tally.record("b", Outcome::Failed("no such unit".to_string()));
    let mut result = TaskResult::started("Security Hardening");
    tally.finish(&mut result, "done".to_string());
    assert!(!result.success);
    assert_eq!(result.items_succeeded, 1);
    assert_eq!(result.items_skipped, 0);
    assert_eq!(result.message, "done");
    assert_eq!(
        result.error_details.as_deref(),
        Some("/etc/ssh/sshd_config:PermitRootLogin (read-only); b: no such unit")
    );
}

#[test]
fn a_tally_with_no_failure_is_a_success() {
    let mut tally = Tally::new();
    tally.record("x", Outcome::Skipped);
    let mut result = TaskResult::started("Service Management");
    tally.finish(&mut result, "nothing to do".to_string());
    assert!(result.success);
    assert_eq!(result.items_skipped, 1);
    assert_eq!(result.error_details, None);
}
