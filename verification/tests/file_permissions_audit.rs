use pinnacle_cypat::tasks::file_permissions_audit::{stat_description, unsticky_dirs};
use pinnacle_cypat::tasks::file_permissions_audit::{
    is_at_least_as_strict, is_expected_setuid, octal, parse_scan, FilePermissionsAuditTask,
    SEARCH_ROOTS,
};

#[test]
fn modes_are_formatted_as_four_octal_digits() {
    assert_eq!(octal(0o640), "0640");
    assert_eq!(octal(0o600), "0600");
    assert_eq!(octal(0o4755), "4755");
    // stat reports the file type in the high bits; only the low twelve are
    // permissions.
    assert_eq!(octal(0o100644), "0644");
}

#[test]
fn a_stricter_mode_is_accepted() {
    assert!(is_at_least_as_strict("0640 root:shadow", 0o640, "root:shadow"));
    assert!(
        is_at_least_as_strict("0600 root:shadow", 0o640, "root:shadow"),
        "0600 is stricter than 0640 and must be left alone"
    );
    assert!(is_at_least_as_strict("0000 root:shadow", 0o640, "root:shadow"));
}

#[test]
fn a_world_readable_shadow_file_is_not_compliant() {
    assert!(!is_at_least_as_strict("0644 root:shadow", 0o640, "root:shadow"));
    assert!(!is_at_least_as_strict("0666 root:shadow", 0o640, "root:shadow"));
}

#[test]
fn the_owner_has_to_match_too() {
    assert!(!is_at_least_as_strict("0640 alice:shadow", 0o640, "root:shadow"));
    assert!(!is_at_least_as_strict("0640 root:root", 0o640, "root:shadow"));
}

#[test]
fn unreadable_state_is_never_compliant() {
    assert!(!is_at_least_as_strict("", 0o644, "root:root"));
    assert!(!is_at_least_as_strict("notoctal root:root", 0o644, "root:root"));
}

#[test]
fn the_distributions_own_setuid_binaries_are_expected() {
    for path in ["/usr/bin/sudo", "/usr/bin/passwd", "/usr/bin/su", "/usr/bin/mount"] {
        assert!(is_expected_setuid(path), "{path} should be expected");
    }
}

#[test]
fn the_same_program_is_recognised_wherever_the_distribution_puts_it() {
    for path in [
        "/usr/sbin/unix_chkpwd",
        "/usr/bin/unix_chkpwd",
        "/usr/lib/openssh/ssh-keysign",
        "/usr/lib/ssh/ssh-keysign",
        "/usr/lib/dbus-1.0/dbus-daemon-launch-helper",
        "/usr/lib/dbus-daemon-launch-helper",
        "/usr/lib/xorg/Xorg.wrap",
        "/usr/lib/Xorg.wrap",
    ] {
        assert!(is_expected_setuid(path), "{path} should be expected");
    }
}

#[test]
fn a_familiar_name_outside_a_system_directory_is_still_a_finding() {
    for path in [
        "/home/alice/sudo",
        "/tmp/passwd",
        "/var/tmp/mount",
        "/home/mallory/.cache/su",
    ] {
        assert!(
            !is_expected_setuid(path),
            "{path} is setuid outside a system directory and must be reported"
        );
    }
}

#[test]
fn an_unfamiliar_name_in_a_system_directory_is_a_finding() {
    for path in ["/usr/local/bin/rootshell", "/opt/evil/backdoor", "/usr/bin/nc"] {
        assert!(!is_expected_setuid(path), "{path} should be a finding");
    }
}

#[test]
fn the_scan_skips_directories_that_are_world_writable_by_design() {
    assert!(!SEARCH_ROOTS.contains(&"/tmp"));
    assert!(!SEARCH_ROOTS.contains(&"/var/tmp"));
    assert!(!SEARCH_ROOTS.contains(&"/proc"));
    assert!(SEARCH_ROOTS.contains(&"/etc"));
    assert!(SEARCH_ROOTS.contains(&"/home"));
}

#[test]
fn the_scan_output_is_sorted_into_its_three_lists() {
    let output = "\
WW /etc/shadow
UNOWNED /home/deleted/file
SUID /usr/bin/sudo
SUID /usr/local/bin/rootshell
UNOWNED /home/deleted/file
";
    let scan = parse_scan(output);
    assert_eq!(scan.world_writable, ["/etc/shadow"]);
    assert_eq!(scan.unowned, ["/home/deleted/file"]);
    assert_eq!(scan.setuid, ["/usr/local/bin/rootshell"]);
}

#[test]
fn malformed_scan_output_is_skipped_rather_than_guessed_at() {
    let scan = parse_scan("no-tag-here\nWW \n\n");
    assert!(scan.world_writable.is_empty());
    assert!(scan.unowned.is_empty());
    assert!(scan.setuid.is_empty());
}

#[test]
fn unowned_files_are_listed_sorted_and_once() {
    let scan = parse_scan("UNOWNED /srv/b\nUNOWNED /srv/a\nUNOWNED /srv/b\nUNOWNED /srv/ab\n");
    assert_eq!(scan.unowned, ["/srv/a", "/srv/ab", "/srv/b"]);
}

#[test]
fn the_task_is_named_for_what_it_does() {
    let t = FilePermissionsAuditTask::new();
    assert_eq!(t.name, "File Permissions Audit");
    assert!(!t.dry_run);
}

#[test]
fn stat_output_is_read_as_mode_and_owner() {
    assert_eq!(stat_description("640:root:shadow\n").as_deref(), Some("0640 root:shadow"));
    assert_eq!(stat_description("644:root").as_deref(), None);
    assert_eq!(stat_description("9z:root:root").as_deref(), None);
}

#[test]
fn the_sticky_bit_check_lists_each_directory_once_trimmed() {
    assert_eq!(unsticky_dirs("/tmp\n  /dev/shm  \n\n"), ["/tmp", "/dev/shm"]);
    assert!(unsticky_dirs("").is_empty());
}
