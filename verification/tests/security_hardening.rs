use pinnacle_cypat::knowledge::{hardening_settings, modules_to_block, SSHD_DROPIN};
use pinnacle_cypat::models::ReadmeData;
use pinnacle_cypat::tasks::security_hardening::{
    banner_state, blacklist_state, module_blacklist_text, SecurityHardeningTask, BANNER_TEXT,
};

#[test]
fn the_readme_can_mark_ssh_as_required() {
    let mut task = SecurityHardeningTask::new();
    assert!(!task.ssh_is_required());
    task.set_readme_data(ReadmeData {
        critical_services: vec!["SSH".to_string()],
        ..Default::default()
    });
    assert!(task.ssh_is_required());
}

#[test]
fn every_blocked_module_gets_both_directives() {
    let text = module_blacklist_text();
    for (module, why) in modules_to_block() {
        assert!(text.contains(&format!("install {module} /bin/false")), "{module} has no install directive");
        assert!(text.contains(&format!("blacklist {module}")), "{module} has no blacklist directive");
        assert!(text.contains(why), "{module} has no reason recorded");
    }
}

#[test]
fn the_filesystem_a_uefi_machine_boots_from_is_not_blocked() {
    assert!(
        !modules_to_block().iter().any(|(m, _)| *m == "vfat"),
        "blocking vfat can make the image unbootable"
    );
    assert!(!modules_to_block().iter().any(|(m, _)| *m == "ext4"));
}

#[test]
fn the_banner_carries_no_system_information() {
    assert!(!BANNER_TEXT.contains('\\'), "an escape in the banner leaks system information: {BANNER_TEXT}");
    assert!(BANNER_TEXT.to_lowercase().contains("authorized"));
    assert!(BANNER_TEXT.ends_with('\n'));
}

#[test]
fn ssh_settings_go_to_the_drop_in_not_the_main_config() {
    let settings = hardening_settings();
    let ssh_settings: Vec<_> = settings
        .iter()
        .filter(|s| s.key.starts_with("Permit") || s.key == "X11Forwarding")
        .collect();
    assert!(!ssh_settings.is_empty());
    for setting in ssh_settings {
        assert_eq!(setting.path, SSHD_DROPIN, "{} is in the wrong file", setting.key);
    }
}

#[test]
fn a_banner_is_judged_by_its_escapes() {
    assert_eq!(banner_state(Some("Ubuntu 22.04 LTS \\n \\l\n")), "leaks system information");
    assert_eq!(banner_state(Some("  \n")), "empty");
    assert_eq!(banner_state(Some(BANNER_TEXT)), "a plain notice");
    assert_eq!(banner_state(None), "absent");
}

#[test]
fn the_written_blacklist_reads_back_as_fully_blocked() {
    assert_eq!(blacklist_state(Some(&module_blacklist_text())), "11 blocked");
    assert_eq!(blacklist_state(Some("install cramfs /bin/false\n")), "1 blocked");
    assert_eq!(blacklist_state(None), "absent");
}
