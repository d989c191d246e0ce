use pinnacle_cypat::models::{ReadmeData, TaskResult};
use pinnacle_cypat::tasks::firewall::{is_active, FirewallRun, FirewallStep, FirewallTask};

fn readme(critical: &[&str]) -> ReadmeData {
    ReadmeData {
        critical_services: critical.iter().map(|s| s.to_string()).collect(),
        ..Default::default()
    }
}

#[test]
fn ssh_is_always_opened_even_when_the_readme_is_silent() {
    assert_eq!(FirewallTask::new().ports_to_open(), ["22/tcp"]);
}

#[test]
fn a_service_the_readme_requires_gets_its_port() {
    let mut task = FirewallTask::new();
    task.set_readme_data(readme(&["Apache", "PostgreSQL"]));
    let ports = task.ports_to_open();
    assert!(ports.contains(&"80/tcp"), "{ports:?}");
    assert!(ports.contains(&"5432/tcp"), "{ports:?}");
    assert!(ports.contains(&"22/tcp"), "{ports:?}");
}

#[test]
fn a_port_wanted_by_two_services_is_opened_once() {
    let mut task = FirewallTask::new();
    task.set_readme_data(readme(&["Apache", "Nginx"]));
    let ports = task.ports_to_open();
    assert_eq!(ports.iter().filter(|p| **p == "80/tcp").count(), 1);
}

#[test]
fn the_status_line_decides_whether_ufw_is_active() {
    assert!(is_active("Status: active\n\nTo    Action  From\n--    ------  ----\n"));
    assert!(!is_active("Status: inactive\n"));
    assert!(!is_active(""));
    assert!(!is_active("ERROR: You need to be root to run this script\n"));
}

#[test]
fn ssh_required_by_the_readme_is_still_opened_once() {
    let mut task = FirewallTask::new();
    task.set_readme_data(readme(&["SSH", "Samba"]));
    assert_eq!(task.ports_to_open(), ["22/tcp", "445/tcp"]);
}

#[test]
fn the_run_allows_every_port_before_setting_policies_and_enabling() {
    let mut run = FirewallRun::new(vec!["22/tcp", "80/tcp"]);
    let mut asked = Vec::new();
    while let Some(step) = run.next() {
        asked.push(step);
        run.answer(true, None);
    }
    assert_eq!(
        asked,
        vec![
            FirewallStep::Allow("22/tcp"),
            FirewallStep::Allow("80/tcp"),
            FirewallStep::DenyIncoming,
            FirewallStep::AllowOutgoing,
            FirewallStep::Enable,
        ]
    );
    assert!(!run.refused());
    let mut result = TaskResult::started("Firewall");
    run.finish(&mut result);
    assert!(result.success);
    assert_eq!(result.items_succeeded, 5);
    assert_eq!(result.message, "Firewall enabled with 2 allow rules.");
    assert_eq!(result.error_details, None);
}

#[test]
fn the_firewall_is_never_enabled_when_no_allow_rule_went_in() {
    let mut run = FirewallRun::new(vec!["22/tcp", "80/tcp"]);
    assert_eq!(run.next(), Some(FirewallStep::Allow("22/tcp")));
    run.answer(false, None);
    assert_eq!(run.next(), Some(FirewallStep::Allow("80/tcp")));
    run.answer(false, Some("ERROR: bad port".to_string()));
    assert_eq!(run.next(), None);
    assert!(run.refused());
    let mut result = TaskResult::started("Firewall");
    run.finish(&mut result);
    assert!(!result.success);
    assert_eq!(result.items_succeeded, 0);
    assert_eq!(result.message, "No allow rules could be added; the firewall was left as it was.");
    assert_eq!(
        result.error_details.as_deref(),
        Some("allow 22/tcp: ufw refused the rule; allow 80/tcp: ERROR: bad port")
    );
}

#[test]
fn one_allow_rule_is_enough_to_go_on_and_later_failures_are_reported() {
    let mut run = FirewallRun::new(vec!["22/tcp", "80/tcp"]);
    run.answer(false, Some("no".to_string()));
    run.answer(true, None);
    assert_eq!(run.next(), Some(FirewallStep::DenyIncoming));
    run.answer(false, None);
    assert_eq!(run.next(), Some(FirewallStep::AllowOutgoing));
    run.answer(true, None);
    assert_eq!(run.next(), Some(FirewallStep::Enable));
    run.answer(false, Some("still inactive".to_string()));
    assert_eq!(run.next(), None);
    assert!(!run.refused());
    let mut result = TaskResult::started("Firewall");
    run.finish(&mut result);
    assert!(!result.success);
    assert_eq!(result.items_succeeded, 2);
    assert_eq!(result.message, "Firewall enabled with 2 allow rules.");
    assert_eq!(
        result.error_details.as_deref(),
        Some("allow 22/tcp: no; default deny incoming: ; enable: still inactive")
    );
}
