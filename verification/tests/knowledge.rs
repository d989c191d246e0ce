use pinnacle_cypat::file_ops::Style;
use pinnacle_cypat::knowledge::{
    always_prohibited, hardening_settings, package_ids, prohibited_services, service_name_map,
    ADMIN_GROUPS, NEVER_DISABLE, SYSCTL_DROPIN, SYSTEM_ACCOUNTS,
};
use std::collections::HashSet;

#[test]
fn no_setting_is_defined_twice() {
    let mut seen = HashSet::new();
    for s in hardening_settings() {
        assert!(seen.insert((s.path, s.key)), "{} is set twice in {}", s.key, s.path);
    }
}

#[test]
fn every_setting_uses_the_style_its_file_expects() {
    for s in hardening_settings() {
        let expected = if s.path == SYSCTL_DROPIN { Style::Equals } else { Style::Space };
        assert_eq!(s.style, expected, "{} in {} has the wrong style", s.key, s.path);
    }
}

#[test]
fn sysctl_keys_look_like_sysctl_keys() {
    for s in hardening_settings().iter().filter(|s| s.path == SYSCTL_DROPIN) {
        assert!(s.key.contains('.') && !s.key.contains(' '), "{} does not look like a sysctl key", s.key);
    }
}

#[test]
fn every_setting_says_why_it_exists() {
    for s in hardening_settings() {
        assert!(!s.why.is_empty(), "{} has no reason recorded", s.key);
        assert!(!s.value.is_empty(), "{} has no value", s.key);
    }
}

#[test]
fn nothing_is_both_prohibited_and_protected() {
    for (unit, _) in prohibited_services() {
        let stem = unit.split('.').next().unwrap();
        assert!(
            !NEVER_DISABLE.iter().any(|p| p.eq_ignore_ascii_case(stem)),
            "{unit} is on both the prohibited and the never-disable list"
        );
    }
}

#[test]
fn prohibited_services_are_named_as_units() {
    let mut seen = HashSet::new();
    for (unit, why) in prohibited_services() {
        assert!(unit.contains('.'), "{unit} is missing its unit type; systemctl would guess .service");
        assert!(!why.is_empty(), "{unit} has no reason recorded");
        assert!(seen.insert(unit), "{unit} is listed twice");
    }
}

#[test]
fn service_aliases_resolve_to_unit_names() {
    for (display, unit) in service_name_map() {
        assert!(unit.contains('.'), "{display} maps to {unit}, which is not a unit name");
    }
}

#[test]
fn no_display_name_maps_to_two_different_units() {
    let mut seen: Vec<(String, &str)> = Vec::new();
    for (display, unit) in service_name_map() {
        let key = display.to_lowercase();
        if let Some((_, existing)) = seen.iter().find(|(d, _)| *d == key) {
            assert_eq!(*existing, unit, "{display} maps to two different units");
        }
        seen.push((key, unit));
    }
}

#[test]
fn no_package_is_both_required_and_always_prohibited() {
    for (name, _) in always_prohibited() {
        if matches!(name, "wireshark" | "nmap") {
            continue;
        }
        assert!(
            !package_ids().iter().any(|(_, pkg)| *pkg == name),
            "{name} is both a resolvable requirement and always prohibited"
        );
    }
}

#[test]
fn always_prohibited_has_no_duplicates_and_says_why() {
    let mut seen = HashSet::new();
    for (name, why) in always_prohibited() {
        assert!(seen.insert(name), "{name} is listed twice");
        assert!(!why.is_empty(), "{name} has no reason recorded");
    }
}

#[test]
fn root_is_protected_from_the_readme() {
    assert!(SYSTEM_ACCOUNTS.contains(&"root"));
    assert!(SYSTEM_ACCOUNTS.contains(&"nobody"));
    let mut seen = HashSet::new();
    for account in SYSTEM_ACCOUNTS {
        assert!(seen.insert(account), "{account} is listed twice");
    }
}

#[test]
fn the_admin_group_list_covers_both_families() {
    assert!(ADMIN_GROUPS.contains(&"sudo"), "Debian and Ubuntu use sudo");
    assert!(ADMIN_GROUPS.contains(&"wheel"), "Red Hat uses wheel");
}
