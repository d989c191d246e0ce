use pinnacle_cypat::tasks::{
    account_permissions, audit_policy, dns_settings_audit, file_permissions_audit, firewall,
    hosts_file_audit, prohibited_media, scheduled_tasks_audit, security_hardening,
    service_management, shared_folders_audit, software_management, software_update,
    user_management,
};

#[test]
fn dry_runs_say_what_would_happen() {
    assert_eq!(
        account_permissions::dry_run_message(2, 5),
        "DRY RUN: would lock 2 passwordless accounts and age 5 accounts."
    );
    assert_eq!(firewall::dry_run_message(3), "DRY RUN: would open 3 ports and enable the firewall.");
    assert_eq!(
        user_management::dry_run_message(1, 0, 12),
        "DRY RUN: would create 1, remove 0 and reset 12 passwords."
    );
    assert_eq!(
        service_management::dry_run_message(4, 20),
        "DRY RUN: would protect 4 services and mask up to 20."
    );
    assert_eq!(software_update::dry_run_message(0), "DRY RUN: 0 packages would be upgraded.");
    assert_eq!(
        file_permissions_audit::dry_run_message(9),
        "DRY RUN: would correct up to 9 file modes; findings below are read-only."
    );
    assert_eq!(security_hardening::dry_run_message(37), "DRY RUN: would apply 37 hardening settings.");
    assert_eq!(
        software_management::dry_run_message(2, 1),
        "DRY RUN: would purge 2 and install 1 packages."
    );
    assert_eq!(hosts_file_audit::dry_run_message(1), "DRY RUN: would comment out 1 unauthorised entries.");
    assert_eq!(prohibited_media::dry_run_message(10), "DRY RUN: would delete 10 media files.");
    assert_eq!(audit_policy::DRY_RUN_MESSAGE, "DRY RUN: no logging configuration was changed.");
}

#[test]
fn finished_runs_count_what_was_done() {
    assert_eq!(
        account_permissions::summary_message(1, 3, 2),
        "1 passwordless accounts locked, 3 accounts aged; 2 findings reported."
    );
    assert_eq!(firewall::summary_message(2), "Firewall enabled with 2 allow rules.");
    assert_eq!(
        user_management::summary_message(2, 1, 0),
        "Created 2, removed 1, reset 0 passwords, corrected administrative rights."
    );
    assert_eq!(service_management::summary_message(5, 11), "5 services changed, 11 not installed.");
    assert_eq!(software_update::summary_message(14), "Upgraded 14 packages.");
    assert_eq!(software_management::summary_message(3, 0), "Purged 3, installed 0.");
    assert_eq!(file_permissions_audit::summary_message(7), "Corrected 7 file modes.");
    assert_eq!(hosts_file_audit::summary_message(2), "Commented out 2 unauthorised entries.");
    assert_eq!(prohibited_media::summary_message(4), "Deleted 4 media files.");
    assert_eq!(
        prohibited_media::report_only_message(4),
        "4 media files found. Review them; no README prohibited media, so nothing was deleted."
    );
    assert_eq!(
        scheduled_tasks_audit::summary_message(3),
        "3 scheduled jobs need review. Nothing was disabled - a cron line's meaning depends on context this tool cannot see."
    );
    assert_eq!(
        dns_settings_audit::summary_message(2, 1),
        "2 resolvers in use, 1 of them public. Nothing was changed - the correct resolver depends on the network the image is on."
    );
}

#[test]
fn messages_with_a_choice_in_them() {
    assert_eq!(security_hardening::summary_message(40, 0), "Applied 40 hardening settings.");
    assert_eq!(security_hardening::summary_message(30, 2), "Applied 30 of 37 settings; 2 failed.");
    assert_eq!(audit_policy::summary_message(1), "1 logging services running, 34 audit rules written.");
    assert_eq!(audit_policy::summary_message(5), "2 logging services running, 34 audit rules written.");
    assert_eq!(shared_folders_audit::summary_message(0, 0), "No Samba shares or NFS exports.");
    assert_eq!(
        shared_folders_audit::summary_message(3, 1),
        "3 shares found, 1 with options worth reviewing. Nothing was removed - a share may be what the round requires."
    );
    assert_eq!(software_update::upgraded_count(10, 3), 7);
    assert_eq!(software_update::upgrade_note(7, 10, 3), "7 of 10 packages upgraded; 3 still pending");
}
