use pinnacle_cypat::file_ops;
use pinnacle_cypat::tasks::audit_policy::{audit_rules, auditd_settings, rules_text, AUDIT_RULES};

#[test]
fn every_rule_is_a_well_formed_watch_or_exec_rule() {
    for (rule, why) in audit_rules() {
        assert!(rule.starts_with("-w "), "{rule} is not a watch rule");
        assert!(rule.contains(" -p "), "{rule} has no permission filter");
        assert!(rule.contains(" -k "), "{rule} has no key, so it cannot be searched for");
        assert!(!why.is_empty(), "{rule} has no reason recorded");
    }
}

#[test]
fn the_rules_file_documents_each_rule() {
    let text = rules_text();
    for (rule, why) in audit_rules() {
        assert!(text.contains(rule), "{rule} is missing from the file");
        assert!(text.contains(why), "the reason for {rule} is missing");
    }
    assert_eq!(text.lines().filter(|l| file_ops::is_active(l)).count(), AUDIT_RULES.len());
}

#[test]
fn a_full_disk_does_not_halt_the_machine() {
    let settings = auditd_settings();
    let action = settings
        .iter()
        .find(|(key, _, _)| *key == "admin_space_left_action")
        .expect("the full-disk action must be set");
    assert_ne!(action.1, "halt", "halting mid-round ends the round");
    assert_eq!(action.1, "single");
}

#[test]
fn the_audit_history_is_kept_rather_than_overwritten() {
    let settings = auditd_settings();
    let action = settings.iter().find(|(key, _, _)| *key == "max_log_file_action").unwrap();
    assert_eq!(action.1, "keep_logs");
}

#[test]
fn the_account_and_privilege_files_are_watched() {
    let text = rules_text();
    for path in ["/etc/passwd", "/etc/shadow", "/etc/sudoers", "/etc/ssh/sshd_config"] {
        assert!(text.contains(path), "{path} is not watched");
    }
}

#[test]
fn the_rules_file_starts_with_its_heading() {
    let text = rules_text();
    assert!(text.starts_with(
        "# Written by PinnacleCyPat.\n# Deliberately minimal: a full CIS ruleset fills the disk during a round.\n\n# account creation and deletion\n-w /etc/passwd -p wa -k identity\n"
    ));
    assert!(text.ends_with("-w /etc/apt/sources.list.d/ -p wa -k software\n"));
}

#[test]
fn the_rules_fall_into_thirteen_keyed_groups() {
    let mut keys: Vec<&str> = AUDIT_RULES
        .iter()
        .map(|rule| rule.rsplit("-k ").next().unwrap_or(""))
        .collect();
    keys.sort();
    keys.dedup();
    assert_eq!(AUDIT_RULES.len(), 34);
    assert_eq!(keys.len(), 13, "{keys:?}");
    let active = rules_text().lines().filter(|l| file_ops::is_active(l)).count();
    assert_eq!(active, 34);
}
