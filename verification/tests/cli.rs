use pinnacle_cypat::cli::{
    extract_argument, first_unknown_argument, global_flags, has_flag, help_lines, spelling,
};
use pinnacle_cypat::platform::{linux_tasks, Concurrency, Linux, Platform};

fn args(list: &[&str]) -> Vec<String> {
    list.iter().map(|s| s.to_string()).collect()
}

#[test]
fn known_flags_are_accepted() {
    for flag in ["--help", "-h", "-?", "/?", "--dry-run", "--all"] {
        assert_eq!(first_unknown_argument(&args(&[flag])), None, "{flag} should be accepted");
    }
}

#[test]
fn an_unknown_flag_is_reported() {
    assert_eq!(first_unknown_argument(&args(&["--dry-run", "--oops"])), Some("--oops".to_string()));
}

#[test]
fn a_typo_of_a_known_flag_is_not_silently_ignored() {
    assert_eq!(first_unknown_argument(&args(&["--dryrun"])), Some("--dryrun".to_string()));
}

#[test]
fn value_flags_consume_their_argument() {
    assert_eq!(first_unknown_argument(&args(&["--readme", "C:\\CyberPatriot\\README.url"])), None);
    assert_eq!(first_unknown_argument(&args(&["--log", "run.txt", "--all"])), None);
    assert_eq!(first_unknown_argument(&args(&["-r", "readme.html"])), None);
}

#[test]
fn help_keeps_its_short_flag() {
    assert_eq!(first_unknown_argument(&args(&["-h"])), None);
}

#[test]
fn no_arguments_is_not_an_error() {
    assert_eq!(first_unknown_argument(&[]), None);
}

#[test]
fn every_documented_flag_is_accepted_by_the_validator() {
    for (long, short, _) in global_flags() {
        let name = long.split(' ').next().unwrap();
        assert_eq!(first_unknown_argument(&args(&[name])), None, "{name}");
        if !short.is_empty() {
            assert_eq!(first_unknown_argument(&args(&[short])), None, "{short}");
        }
    }
}

#[test]
fn every_platform_task_is_accepted_by_the_validator() {
    for spec in Linux::tasks() {
        assert_eq!(first_unknown_argument(&args(&[spec.flag])), None, "{}", spec.flag);
        if !spec.short.is_empty() {
            assert_eq!(first_unknown_argument(&args(&[spec.short])), None, "{}", spec.short);
        }
    }
}

#[test]
fn no_task_flag_shadows_a_global_one() {
    let globals: Vec<&str> = global_flags()
        .iter()
        .flat_map(|(long, short, _)| [long.split(' ').next().unwrap_or(long), *short])
        .filter(|f| !f.is_empty())
        .collect();
    for spec in Linux::tasks() {
        assert!(!globals.contains(&spec.flag), "{} collides with a global flag", spec.flag);
        if !spec.short.is_empty() {
            assert!(!globals.contains(&spec.short), "{} claims the global flag {}", spec.flag, spec.short);
        }
    }
}

#[test]
fn every_task_is_reachable_by_a_well_formed_flag() {
    let mut seen: Vec<&str> = Vec::new();
    for spec in linux_tasks() {
        assert!(spec.flag.starts_with("--"), "{} is not long-form", spec.flag);
        assert!(!spec.label.is_empty(), "{} has no menu label", spec.flag);
        assert!(!spec.help.is_empty(), "{} has no help text", spec.flag);
        assert!(!seen.contains(&spec.flag), "{} is listed twice", spec.flag);
        seen.push(spec.flag);
    }
    assert!(!seen.is_empty(), "the platform offers no tasks at all");
}

#[test]
fn shared_flags_keep_their_windows_spelling() {
    for (flag, label) in [
        ("--hosts-file", "Hosts File Audit"),
        ("--password-policy", "Password Policy"),
        ("--account-permissions", "Account Permissions"),
        ("--user-management", "User Management"),
        ("--service-management", "Service Management"),
        ("--audit-policy", "Audit Policy"),
        ("--firewall", "Firewall"),
        ("--security-hardening", "Security Hardening"),
        ("--media-scan", "Prohibited Media"),
        ("--software-updates", "Software Updates"),
        ("--software-management", "Software Management"),
        ("--dns-settings", "DNS Settings Audit"),
        ("--shared-folders", "Shared Folders Audit"),
        ("--scheduled-tasks", "Scheduled Tasks Audit"),
    ] {
        let tasks = linux_tasks();
        let spec = tasks.iter().find(|s| s.flag == flag).unwrap_or_else(|| panic!("{flag} is missing"));
        assert_eq!(spec.label, label, "{flag} is labelled differently here");
    }
}

#[test]
fn shared_short_flags_match_the_windows_ones() {
    for (flag, short) in [
        ("--password-policy", "-p"),
        ("--account-permissions", "-a"),
        ("--user-management", "-u"),
        ("--service-management", "-s"),
        ("--audit-policy", "-t"),
        ("--firewall", "-f"),
        ("--security-hardening", "-H"),
        ("--media-scan", "-m"),
    ] {
        let tasks = linux_tasks();
        let spec = tasks.iter().find(|s| s.flag == flag).unwrap();
        assert_eq!(spec.short, short, "{flag} has the wrong short flag");
    }
}

#[test]
fn there_is_no_group_policy_task() {
    assert!(!linux_tasks().iter().any(|s| s.flag == "--group-policy"));
}

#[test]
fn only_read_mostly_audits_run_concurrently() {
    let concurrent: Vec<&str> = linux_tasks()
        .iter()
        .filter(|s| s.concurrency == Concurrency::Concurrent)
        .map(|s| s.flag)
        .collect();
    assert_eq!(concurrent, ["--shared-folders", "--hosts-file", "--dns-settings", "--scheduled-tasks"]);
}

#[test]
fn a_task_is_selected_by_either_of_its_flags() {
    let tasks = linux_tasks();
    assert!(tasks[0].matches("--password-policy"));
    assert!(tasks[0].matches("-p"));
    assert!(!tasks[0].matches(""));
    assert!(!tasks[10].matches(""), "an empty short flag matches nothing");
    assert!(Linux::is_privileged(0));
    assert!(!Linux::is_privileged(1000));
    assert_eq!(Linux::name(), "Linux");
}

#[test]
fn flags_are_read_from_the_argument_list() {
    let a = args(&["--dry-run", "--readme", "x.html", "--log"]);
    assert_eq!(extract_argument(&a, &["--readme", "-r"]).as_deref(), Some("x.html"));
    assert_eq!(extract_argument(&a, &["--log"]), None);
    assert!(has_flag(&a, &["--dry-run", "-d"]));
    assert!(!has_flag(&a, &["--all"]));
    assert_eq!(spelling("--password-policy", "-p"), "    -p, --password-policy");
    assert_eq!(spelling("--all", ""), "    --all");
}

#[test]
fn help_lists_every_flag_and_every_task_in_aligned_columns() {
    let lines = help_lines("v1.8.0 (build 2026-08-22)");
    assert_eq!(lines[0], "PinnacleCyPat v1.8.0 (build 2026-08-22)");
    assert_eq!(lines[1], "");
    assert_eq!(lines[2], "USAGE:");
    assert_eq!(lines[5], "Run as root. Name a task, or pass --all to run every task.");
    assert!(lines.contains(&format!("{:<34}{}", "    -h, --help", "Show this help and exit")));
    assert!(lines.contains(&format!("{:<34}{}", "    --parse-readme", "Show what the parser extracted, then exit (read-only)")));
    let tasks_at = lines.iter().position(|l| l == "LINUX TASKS:").expect("a task heading");
    for (k, spec) in linux_tasks().iter().enumerate() {
        assert_eq!(lines[tasks_at + 1 + k], format!("{:<34}{}", spelling(spec.flag, spec.short), spec.help));
    }
    assert_eq!(lines.len(), 10 + 10 + 2 + 15 + 6);
    assert_eq!(lines.last().map(String::as_str), Some("    pinnacle-cypat --auto-readme --all            # apply"));
}
