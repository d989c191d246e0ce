use pinnacle_cypat::models::ReadmeData;
use pinnacle_cypat::readme_services::{is_critical, resolve};
use pinnacle_cypat::services;

const ALIASES: &[(&str, &str)] = &[
    ("Remote Desktop", "TermService"),
    ("RDP", "TermService"),
    ("CCS Client", "CCSClient"),
];

fn readme_with(critical: &[&str]) -> ReadmeData {
    ReadmeData {
        critical_services: critical.iter().map(|s| s.to_string()).collect(),
        ..Default::default()
    }
}

#[test]
fn display_names_resolve_to_service_names() {
    assert_eq!(resolve(ALIASES, "Remote Desktop"), "TermService");
    assert_eq!(resolve(ALIASES, "RDP"), "TermService");
    assert_eq!(resolve(ALIASES, "  remote desktop  "), "TermService");
}

#[test]
fn an_unknown_name_is_left_alone() {
    assert_eq!(resolve(ALIASES, "SomeVendorSvc"), "SomeVendorSvc");
}

#[test]
fn a_critical_entry_matches_however_it_is_spelled() {
    let readme = readme_with(&["RDP"]);
    assert!(is_critical(ALIASES, Some(&readme), "TermService"));
    assert!(is_critical(ALIASES, Some(&readme), "Remote Desktop"));
}

#[test]
fn nothing_is_critical_without_a_readme() {
    assert!(!is_critical(ALIASES, None, "TermService"));
}

#[test]
fn display_names_resolve_to_units() {
    assert_eq!(services::resolve("SSH"), "ssh.service");
    assert_eq!(services::resolve("  secure shell  "), "ssh.service");
    assert_eq!(services::resolve("Apache"), "apache2.service");
}

#[test]
fn readme_services_an_unknown_name_is_left_alone() {
    assert_eq!(services::resolve("some-vendor.service"), "some-vendor.service");
}

#[test]
fn a_critical_service_is_recognised_however_it_is_spelled() {
    for spelling in ["Apache", "Apache2", "Web Server", "apache2.service"] {
        assert!(
            services::is_critical(Some(&readme_with(&[spelling])), "apache2.service"),
            "{spelling} was not recognised"
        );
    }
}

#[test]
fn the_scoring_engine_is_protected_without_the_readme_saying_so() {
    assert!(services::is_protected(None, "ccsclient.service"));
    assert!(services::is_protected(None, "systemd-journald.service"));
    assert!(services::is_protected(None, "cron.service"));
}

#[test]
fn an_ordinary_service_is_not_protected_by_default() {
    assert!(!services::is_protected(None, "telnet.socket"));
    assert!(!services::is_protected(None, "apache2.service"));
    assert!(services::is_protected(Some(&readme_with(&["Apache"])), "apache2.service"));
}
