//! The Ubuntu 22.04 Exhibition Round answer key: sixteen scored items worth
//! 100 points and four penalties worth -20, checked against the decisions the
//! library makes. The round's README is written out here as the data the
//! parser extracts from it.

use pinnacle_cypat::knowledge::{always_prohibited, hardening_settings, prohibited_services};
use pinnacle_cypat::models::{AuthorizedUser, GroupRequirement, ReadmeData, SoftwareRequirement};
use pinnacle_cypat::tasks::firewall::FirewallTask;
use pinnacle_cypat::tasks::prohibited_media::{is_media, ProhibitedMediaTask};
use pinnacle_cypat::tasks::service_management::ServiceManagementTask;
use pinnacle_cypat::tasks::software_update::UNATTENDED_UPGRADES;
use pinnacle_cypat::tasks::software_management::{prohibited_packages, required_packages};
use pinnacle_cypat::tasks::user_management::{
    accounts_with_weak_passwords, authorised_from, is_secure_password, unauthorised,
};
use pinnacle_cypat::user_ops::Account;

/// What this key is worth, and how much of it the tool can reach.
/// Each row is `(item, points, automated)`.
const SCORING: &[(&str, i32, bool)] = &[
    ("1. Forensics Question 1", 8, false),
    ("2. Forensics Question 2", 8, false),
    ("3. Removed unauthorised user jimmy", 6, true),
    ("4. doofenshmirtz is not an administrator", 6, true),
    ("5. vanessa is not an administrator", 6, true),
    ("6. Changed insecure password for pinky", 6, true),
    ("7. Added candace to firesidegirls", 8, true),
    ("8. UFW enabled", 6, true),
    ("9. nginx disabled or removed", 6, true),
    ("10. Updates checked daily", 6, true),
    ("11. Firefox updated", 5, true),
    ("12. Thunderbird updated", 5, true),
    ("13. Prohibited MP3 files removed", 6, true),
    ("14. ophcrack removed", 6, true),
    ("15. Wireshark removed", 6, true),
    ("16. SSH does not permit empty passwords", 6, true),
];

/// Penalties, all of which the tool must avoid incurring.
const PENALTIES: &[(&str, i32)] = &[
    ("OpenSSH stopped or removed", -5),
    ("Firefox removed", -5),
    ("Thunderbird removed", -5),
    ("Perl removed", -5),
];

fn admin(name: &str, password: &str, primary: bool) -> AuthorizedUser {
    AuthorizedUser {
        username: name.to_string(),
        password: Some(password.to_string()),
        is_admin: true,
        is_primary_user: primary,
        notes: None,
    }
}

fn user(name: &str) -> AuthorizedUser {
    AuthorizedUser {
        username: name.to_string(),
        password: None,
        is_admin: false,
        is_primary_user: false,
        notes: None,
    }
}

fn software(name: &str) -> SoftwareRequirement {
    SoftwareRequirement {
        name: name.to_string(),
        version: None,
        should_be_latest: true,
        is_required: true,
        notes: None,
    }
}

/// What the round's README says, as the tasks read it.
fn exhibition_readme() -> ReadmeData {
    ReadmeData {
        title: "Ubuntu 22 Exhibition Round".to_string(),
        operating_system: "Ubuntu 22.04".to_string(),
        scenario: "The presence of any non-work related media files and hacking tools on any computer \
                   systems is strictly prohibited. Therefore, sshd is a critical service and needs to \
                   remain enabled."
            .to_string(),
        administrators: vec![
            admin("perry", "M4mm@lOfAct!0n", true),
            admin("carl", "No#1UnP@!dInt3rn", false),
            admin("major_monogram", "Go0glyMo0gly!", false),
            admin("pinky", "grilledcheese", false),
            admin("admiral_acronym", "Adm!r@l4cr0nym", false),
        ],
        users: vec![user("doofenshmirtz"), user("vanessa"), user("phineas"), user("ferb")],
        group_requirements: vec![GroupRequirement {
            group_name: "firesidegirls".to_string(),
            members: vec!["candace".to_string()],
        }],
        required_software: vec![software("Firefox"), software("Thunderbird"), software("Perl")],
        critical_services: vec!["sshd".to_string()],
        ..Default::default()
    }
}

fn account(name: &str, uid: u32) -> Account {
    Account {
        name: name.to_string(),
        uid,
        gid: uid,
        comment: String::new(),
        home: format!("/home/{name}"),
        shell: "/bin/bash".to_string(),
    }
}

#[test]
fn items_01_and_02_forensics_questions_are_for_a_human() {
    // Recorded rather than skipped silently: 16 points of this key are outside
    // what any automation should attempt.
}

#[test]
fn the_tables_cover_everything_this_key_scores_by_name() {
    let unit = "nginx.service";
    assert!(
        prohibited_services().iter().any(|(u, _)| *u == unit),
        "{unit} is scored by the key but is not among the prohibited services"
    );
    for package in ["ophcrack", "wireshark"] {
        assert!(
            always_prohibited().iter().any(|(p, _)| *p == package),
            "{package} is scored by the key but is not always prohibited"
        );
    }
}

#[test]
fn the_tool_can_reach_every_point_that_is_not_a_forensics_question() {
    let total: i32 = SCORING.iter().map(|(_, points, _)| points).sum();
    assert_eq!(total, 100, "the Exhibition Round key is worth 100 points");

    let automated: i32 = SCORING
        .iter()
        .filter(|(_, _, automated)| *automated)
        .map(|(_, points, _)| points)
        .sum();
    assert_eq!(
        automated, 84,
        "84 of the 100 points are automatable; the rest are the two forensics questions"
    );

    let manual: Vec<&str> = SCORING
        .iter()
        .filter(|(_, _, automated)| !automated)
        .map(|(name, _, _)| *name)
        .collect();
    assert_eq!(
        manual,
        ["1. Forensics Question 1", "2. Forensics Question 2"],
        "only the forensics questions should need a person"
    );

    assert_eq!(
        PENALTIES.iter().map(|(_, points)| points).sum::<i32>(),
        -20,
        "four penalties at -5 each"
    );
}

#[test]
fn item_03_unauthorised_user_jimmy_is_removed() {
    let plan = authorised_from(&exhibition_readme());
    assert!(!plan.everyone.contains(&"jimmy".to_string()), "jimmy is not in the README and must not be authorised");
    let present = vec![account("jimmy", 1005), account("perry", 1000)];
    assert_eq!(unauthorised(&present, &plan.everyone), ["jimmy"], "jimmy should be the only account removed");
}

#[test]
fn item_04_doofenshmirtz_keeps_his_account_but_loses_admin() {
    let plan = authorised_from(&exhibition_readme());
    assert!(plan.everyone.contains(&"doofenshmirtz".to_string()), "doofenshmirtz is an authorised user");
    assert!(!plan.admins.contains(&"doofenshmirtz".to_string()), "doofenshmirtz is not an administrator");
}

#[test]
fn item_05_vanessa_keeps_her_account_but_loses_admin() {
    let plan = authorised_from(&exhibition_readme());
    assert!(plan.everyone.contains(&"vanessa".to_string()));
    assert!(!plan.admins.contains(&"vanessa".to_string()));
}

#[test]
fn item_06_pinky_password_is_recognised_as_insecure() {
    let readme = exhibition_readme();
    let pinky = readme.administrators.iter().find(|a| a.username == "pinky").expect("pinky is in the README");
    assert_eq!(pinky.password.as_deref(), Some("grilledcheese"));
    assert!(!is_secure_password("grilledcheese"), "grilledcheese must be treated as insecure");
    for strong in ["M4mm@lOfAct!0n", "No#1UnP@!dInt3rn", "Go0glyMo0gly!", "Adm!r@l4cr0nym"] {
        assert!(is_secure_password(strong), "{strong} is strong and must not be reset");
    }
    assert_eq!(accounts_with_weak_passwords(&readme), ["pinky"]);
}

#[test]
fn item_07_candace_is_added_to_firesidegirls() {
    let readme = exhibition_readme();
    let group = readme
        .group_requirements
        .iter()
        .find(|g| g.group_name.eq_ignore_ascii_case("firesidegirls"))
        .expect("the README asks for a firesidegirls group");
    assert!(group.members.iter().any(|m| m == "candace"));
    let plan = authorised_from(&readme);
    assert!(plan.everyone.contains(&"candace".to_string()), "a group member is an authorised account");
    assert!(!plan.admins.contains(&"candace".to_string()));
}

#[test]
fn item_08_ufw_is_enabled_with_ssh_still_reachable() {
    let mut task = FirewallTask::new();
    task.set_readme_data(exhibition_readme());
    let ports = task.ports_to_open();
    assert!(ports.contains(&"22/tcp"), "SSH must stay reachable through the firewall; got {ports:?}");
}

#[test]
fn item_09_nginx_is_masked() {
    let mut task = ServiceManagementTask::new();
    task.set_readme_data(exhibition_readme());
    assert!(task.units_to_mask().iter().any(|(unit, _)| *unit == "nginx.service"), "nginx must be masked");
}

#[test]
fn item_10_updates_are_checked_daily() {
    // The software-update task turns on the package that fetches and applies
    // updates every day.
    assert_eq!(UNATTENDED_UPGRADES, "unattended-upgrades");
}

#[test]
fn items_11_and_12_firefox_and_thunderbird_are_upgradable_packages() {
    let (resolved, unresolved) = required_packages(&exhibition_readme());
    assert!(unresolved.is_empty(), "unresolved requirements: {unresolved:?}");
    for package in ["firefox", "thunderbird"] {
        assert!(resolved.iter().any(|p| p == package), "{package} must resolve; got {resolved:?}");
    }
}

#[test]
fn item_13_the_scenario_authorises_deleting_media() {
    let mut task = ProhibitedMediaTask::new();
    task.set_readme_data(exhibition_readme());
    assert!(task.media_is_prohibited(), "the scenario prohibits media files, so deletion is authorised");
    assert!(is_media("/home/linda/Music/song.mp3"));
}

#[test]
fn item_14_ophcrack_is_purged() {
    let prohibited = prohibited_packages(Some(&exhibition_readme()));
    assert!(prohibited.iter().any(|(name, _)| name == "ophcrack"), "ophcrack must be purged");
}

#[test]
fn item_15_wireshark_is_purged() {
    let prohibited = prohibited_packages(Some(&exhibition_readme()));
    assert!(prohibited.iter().any(|(name, _)| name == "wireshark"), "wireshark must be purged");
}

#[test]
fn item_16_ssh_refuses_empty_passwords() {
    let setting = hardening_settings()
        .into_iter()
        .find(|s| s.key == "PermitEmptyPasswords")
        .expect("PermitEmptyPasswords must be a hardening setting");
    assert_eq!(setting.value, "no");
}

#[test]
fn penalty_01_sshd_is_never_masked() {
    let readme = exhibition_readme();
    assert!(readme.critical_services.iter().any(|s| s == "sshd"));
    let mut task = ServiceManagementTask::new();
    task.set_readme_data(readme.clone());
    assert!(task.required_units().contains(&"ssh.service".to_string()), "sshd should resolve to ssh.service");
    assert!(!task.units_to_mask().iter().any(|(unit, _)| unit.starts_with("ssh")), "no ssh unit may be masked");
    let prohibited = prohibited_packages(Some(&readme));
    assert!(!prohibited.iter().any(|(name, _)| name == "openssh-server"), "openssh-server must not be purged");
}

/// A required program must be in the README's list, must resolve to a
/// package, and must never appear on the purge list.
fn assert_required(data: &ReadmeData, display: &str, package: &str) {
    assert!(data.required_software.iter().any(|s| s.name.to_lowercase().contains(&display.to_lowercase())));
    let (resolved, unresolved) = required_packages(data);
    assert!(
        resolved.iter().any(|p| p == package),
        "{display} should resolve to the package {package}; resolved {resolved:?}, unresolved {unresolved:?}"
    );
    let prohibited = prohibited_packages(Some(data));
    assert!(!prohibited.iter().any(|(name, _)| name == package), "{package} is required and must never be purged");
}

#[test]
fn penalty_02_firefox_is_required_software() {
    assert_required(&exhibition_readme(), "Firefox", "firefox");
}

#[test]
fn penalty_03_thunderbird_is_required_software() {
    assert_required(&exhibition_readme(), "Thunderbird", "thunderbird");
}

#[test]
fn penalty_04_perl_is_required_software() {
    assert_required(&exhibition_readme(), "Perl", "perl");
}

/// The tests of the scored items, each by name. Naming a function that does
/// not exist does not compile, so this list cannot claim a test that is not
/// there.
const ITEM_TESTS: &[(&str, fn())] = &[
    ("item_03_unauthorised_user_jimmy_is_removed", item_03_unauthorised_user_jimmy_is_removed),
    ("item_04_doofenshmirtz_keeps_his_account_but_loses_admin", item_04_doofenshmirtz_keeps_his_account_but_loses_admin),
    ("item_05_vanessa_keeps_her_account_but_loses_admin", item_05_vanessa_keeps_her_account_but_loses_admin),
    ("item_06_pinky_password_is_recognised_as_insecure", item_06_pinky_password_is_recognised_as_insecure),
    ("item_07_candace_is_added_to_firesidegirls", item_07_candace_is_added_to_firesidegirls),
    ("item_08_ufw_is_enabled_with_ssh_still_reachable", item_08_ufw_is_enabled_with_ssh_still_reachable),
    ("item_09_nginx_is_masked", item_09_nginx_is_masked),
    ("item_10_updates_are_checked_daily", item_10_updates_are_checked_daily),
    (
        "items_11_and_12_firefox_and_thunderbird_are_upgradable_packages",
        items_11_and_12_firefox_and_thunderbird_are_upgradable_packages,
    ),
    ("item_13_the_scenario_authorises_deleting_media", item_13_the_scenario_authorises_deleting_media),
    ("item_14_ophcrack_is_purged", item_14_ophcrack_is_purged),
    ("item_15_wireshark_is_purged", item_15_wireshark_is_purged),
    ("item_16_ssh_refuses_empty_passwords", item_16_ssh_refuses_empty_passwords),
];

/// Every automatable item has a test named after it.
#[test]
fn every_automatable_item_has_a_test() {
    for (name, _points, automated) in SCORING {
        if !automated {
            continue;
        }
        // "3. Removed unauthorised user jimmy" -> "item_03"
        let number: u32 = name
            .split('.')
            .next()
            .and_then(|n| n.parse().ok())
            .unwrap_or_else(|| panic!("{name} does not start with its item number"));
        let prefix = format!("item_{number:02}");
        // 11 and 12 share one test - both are satisfied by the same upgrade.
        let covered = ITEM_TESTS.iter().any(|(test, _)| test.starts_with(&prefix))
            || (matches!(number, 11 | 12) && ITEM_TESTS.iter().any(|(test, _)| test.starts_with("items_11_and_12")));
        assert!(covered, "{name} is marked automatable but has no {prefix}_* test");
    }
}
