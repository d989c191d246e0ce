use pinnacle_cypat::models::{ReadmeData, TaskResult};
use pinnacle_cypat::task::Outcome;
use pinnacle_cypat::services;
use pinnacle_cypat::tasks::service_management::{ServiceManagementTask, ServiceRun, ServiceStep};

fn readme(critical: &[&str]) -> ReadmeData {
    ReadmeData {
        critical_services: critical.iter().map(|s| s.to_string()).collect(),
        ..Default::default()
    }
}

#[test]
fn a_service_the_readme_requires_is_not_masked() {
    let mut task = ServiceManagementTask::new();
    assert!(
        task.units_to_mask().iter().any(|(u, _)| *u == "apache2.service"),
        "apache2 should be prohibited by default"
    );
    task.set_readme_data(readme(&["Apache"]));
    assert!(
        !task.units_to_mask().iter().any(|(u, _)| *u == "apache2.service"),
        "the README required Apache and it was still going to be masked"
    );
    assert_eq!(task.required_units(), ["apache2.service"]);
}

#[test]
fn nothing_protected_by_default_is_ever_masked() {
    let task = ServiceManagementTask::new();
    for (unit, _) in task.units_to_mask() {
        assert!(!services::is_protected(None, unit), "{unit} is protected and was still queued for masking");
    }
}

#[test]
fn a_readme_display_name_is_resolved_before_it_is_compared() {
    let mut task = ServiceManagementTask::new();
    task.set_readme_data(readme(&["Secure Shell", "FTP"]));
    assert_eq!(task.required_units(), ["ssh.service", "vsftpd.service"]);
    assert!(
        !task.units_to_mask().iter().any(|(u, _)| *u == "vsftpd.service"),
        "the README asked for FTP by a name the mask list spells differently"
    );
}

#[test]
fn without_a_readme_nothing_is_required() {
    assert!(ServiceManagementTask::new().required_units().is_empty());
}

#[test]
fn a_service_run_protects_everything_before_masking_anything() {
    let mut run = ServiceRun::new(
        vec!["ssh.service".to_string(), "apache2.service".to_string()],
        vec![("telnet.socket", "cleartext logins"), ("vsftpd.service", "ftp")],
    );
    let mut asked = Vec::new();
    let outcomes = [Outcome::Done, Outcome::Skipped, Outcome::Done, Outcome::Failed("locked".to_string())];
    let mut k = 0;
    while let Some(step) = run.next() {
        asked.push(step);
        run.answer(outcomes[k].clone());
        k += 1;
    }
    assert_eq!(
        asked,
        vec![
            ServiceStep::Protect("ssh.service".to_string()),
            ServiceStep::Protect("apache2.service".to_string()),
            ServiceStep::Mask("telnet.socket", "cleartext logins"),
            ServiceStep::Mask("vsftpd.service", "ftp"),
        ]
    );
    let mut result = TaskResult::started("Service Management");
    run.finish(&mut result);
    assert!(!result.success);
    assert_eq!(result.items_succeeded, 2);
    assert_eq!(result.items_skipped, 1);
    assert_eq!(result.message, "2 services changed, 1 not installed.");
    assert_eq!(result.error_details.as_deref(), Some("vsftpd.service: locked"));
}
