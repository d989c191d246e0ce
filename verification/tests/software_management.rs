use pinnacle_cypat::models::{ReadmeData, SoftwareRequirement};
use pinnacle_cypat::tasks::software_management::{
    prohibited_packages, required_packages, resolve_package_id,
};

fn requirement(name: &str) -> SoftwareRequirement {
    SoftwareRequirement {
        name: name.to_string(),
        version: None,
        should_be_latest: true,
        is_required: true,
        notes: None,
    }
}

#[test]
fn readme_names_resolve_to_apt_packages() {
    let readme = ReadmeData {
        required_software: vec![requirement("Firefox"), requirement("LibreOffice")],
        ..Default::default()
    };
    let (resolved, unresolved) = required_packages(&readme);
    assert_eq!(resolved, ["firefox", "libreoffice"]);
    assert!(unresolved.is_empty());
}

#[test]
fn an_unmatched_requirement_is_reported() {
    let readme = ReadmeData {
        required_software: vec![requirement("Some Bespoke Internal Tool")],
        ..Default::default()
    };
    let (resolved, unresolved) = required_packages(&readme);
    assert!(resolved.is_empty());
    assert_eq!(unresolved, ["Some Bespoke Internal Tool"]);
}

#[test]
fn hacking_tools_are_purged_without_the_readme_saying_so() {
    let prohibited = prohibited_packages(None);
    for expected in ["john", "hydra", "nmap"] {
        assert!(prohibited.iter().any(|(n, _)| n == expected), "{expected} is not on the purge list");
    }
}

#[test]
fn a_readme_requirement_beats_the_default_prohibition() {
    let readme = ReadmeData { required_software: vec![requirement("Wireshark")], ..Default::default() };
    let prohibited = prohibited_packages(Some(&readme));
    assert!(
        !prohibited.iter().any(|(n, _)| n == "wireshark"),
        "the README required Wireshark and it was still queued for purging"
    );
    assert!(prohibited.iter().any(|(n, _)| n == "john"));
}

#[test]
fn a_readme_can_prohibit_something_the_table_does_not_know() {
    let readme = ReadmeData { prohibited_software: vec!["Some Game".to_string()], ..Default::default() };
    let prohibited = prohibited_packages(Some(&readme));
    assert!(prohibited.iter().any(|(n, _)| n == "some game"));
}

#[test]
fn nothing_is_listed_for_purging_twice() {
    let readme = ReadmeData {
        prohibited_software: vec!["john".to_string(), "John the Ripper".to_string()],
        ..Default::default()
    };
    let prohibited = prohibited_packages(Some(&readme));
    let johns = prohibited.iter().filter(|(n, _)| n == "john").count();
    assert!(johns <= 1, "john appears {johns} times");
}

#[test]
fn a_requirement_named_twice_is_installed_once() {
    let readme = ReadmeData {
        required_software: vec![requirement("Firefox"), requirement(" mozilla firefox ")],
        ..Default::default()
    };
    assert_eq!(required_packages(&readme).0, ["firefox"]);
    assert_eq!(resolve_package_id("VLC Media Player").as_deref(), Some("vlc"));
    assert_eq!(resolve_package_id("Minesweeper"), None);
}
