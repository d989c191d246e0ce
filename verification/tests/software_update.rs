use pinnacle_cypat::models::ReadmeData;
use pinnacle_cypat::tasks::software_update::{SoftwareUpdateTask, UNATTENDED_UPGRADES};

#[test]
fn the_readme_is_accepted_even_though_the_task_does_not_need_it() {
    let mut task = SoftwareUpdateTask::new();
    task.set_readme_data(ReadmeData::default());
    assert!(task.readme_data.is_some());
}

#[test]
fn security_updates_come_from_unattended_upgrades() {
    assert_eq!(UNATTENDED_UPGRADES, "unattended-upgrades");
    assert_eq!(SoftwareUpdateTask::new().name, "Software Updates");
}
