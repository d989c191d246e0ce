use pinnacle_cypat::task::Task;
use pinnacle_cypat::tasks::audit_policy::AuditPolicyTask;
use pinnacle_cypat::tasks::firewall::FirewallTask;
use pinnacle_cypat::tasks::user_management::UserManagementTask;

fn names_and_flags(task: &mut dyn Task) -> (String, String, bool, bool) {
    let before = task.dry_run();
    task.set_dry_run(true);
    (task.name().to_string(), task.description().to_string(), before, task.dry_run())
}

#[test]
fn every_task_answers_for_its_name_and_dry_run() {
    let mut firewall = FirewallTask::new();
    let (name, description, before, after) = names_and_flags(&mut firewall);
    assert_eq!(name, "Firewall");
    assert_eq!(description, "Enable ufw, deny inbound, open what the README needs");
    assert!(!before);
    assert!(after);
    assert!(firewall.dry_run);

    let mut audit = AuditPolicyTask::new();
    let (name, _, _, after) = names_and_flags(&mut audit);
    assert_eq!(name, "Audit Policy");
    assert!(after);
}

#[test]
fn turning_dry_run_off_again_leaves_the_rest_alone() {
    let mut users = UserManagementTask::new();
    users.set_dry_run(true);
    users.set_dry_run(false);
    assert!(!users.dry_run());
    assert_eq!(users.name(), UserManagementTask::new().name);
}
