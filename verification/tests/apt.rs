use pinnacle_cypat::apt::{
    apt_arguments, installation_state_of, noninteractive, parse_installed,
    parse_simulated_upgrade, KEEP_LOCAL_CONFIG,
};

#[test]
fn only_fully_installed_packages_are_listed() {
    let output = "\
installed\tfirefox\t115.0
config-files\ttelnetd\t0.17-41
installed\tvim\t2:8.2.3995
not-installed\tnano\t
";
    assert_eq!(
        parse_installed(output),
        vec![
            ("firefox".to_string(), "115.0".to_string()),
            ("vim".to_string(), "2:8.2.3995".to_string()),
        ]
    );
}

#[test]
fn a_simulated_upgrade_yields_current_and_candidate_versions() {
    let output = "\
Reading package lists...
Inst libc6 [2.35-0ubuntu3.1] (2.35-0ubuntu3.4 Ubuntu:22.04/jammy-updates [amd64])
Inst libnew (1.0 Ubuntu:22.04/jammy [amd64])
Conf libc6 (2.35-0ubuntu3.4 Ubuntu:22.04/jammy-updates [amd64])
";
    assert_eq!(
        parse_simulated_upgrade(output),
        vec![(
            "libc6".to_string(),
            "2.35-0ubuntu3.1".to_string(),
            "2.35-0ubuntu3.4".to_string()
        )]
    );
}

#[test]
fn no_output_means_nothing_to_upgrade() {
    assert!(parse_simulated_upgrade("Reading package lists...\n").is_empty());
    assert!(parse_installed("").is_empty());
}

#[test]
fn upgrades_keep_locally_modified_configuration() {
    assert!(KEEP_LOCAL_CONFIG.contains("--force-confold"));
    assert!(KEEP_LOCAL_CONFIG.contains("--force-confdef"));
    assert!(noninteractive().contains(&("DEBIAN_FRONTEND", "noninteractive")));
}

#[test]
fn a_missing_version_reads_as_empty() {
    assert_eq!(parse_installed("installed\tfoo\n"), vec![("foo".to_string(), String::new())]);
}

#[test]
fn dpkg_status_is_read_into_three_states() {
    assert_eq!(installation_state_of("installed\n"), "installed");
    assert_eq!(installation_state_of("config-files"), "config-files remain");
    assert_eq!(installation_state_of(""), "absent");
}

#[test]
fn every_apt_call_keeps_local_configuration() {
    assert_eq!(
        apt_arguments("upgrade"),
        "-y -q -o Dpkg::Options::=--force-confdef -o Dpkg::Options::=--force-confold upgrade"
    );
}
