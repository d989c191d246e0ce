use pinnacle_cypat::tasks::hosts_file_audit::{is_allowed, is_local_address, unauthorised_entries};

const STOCK_UBUNTU: &str = "\
127.0.0.1\tlocalhost
127.0.1.1\tcyberpatriot-vm
# The following lines are desirable for IPv6 capable hosts
::1     ip6-localhost ip6-loopback
fe00::0 ip6-localnet
ff00::0 ip6-mcastprefix
ff02::1 ip6-allnodes
ff02::2 ip6-allrouters
";

#[test]
fn a_stock_ubuntu_hosts_file_is_left_alone() {
    let found = unauthorised_entries(STOCK_UBUNTU, "cyberpatriot-vm");
    assert!(found.is_empty(), "flagged stock entries: {found:?}");
}

#[test]
fn a_planted_redirect_is_found() {
    let text = format!("{STOCK_UBUNTU}127.0.0.1 security.ubuntu.com\n0.0.0.0 clamav.net\n");
    let found = unauthorised_entries(&text, "cyberpatriot-vm");
    assert_eq!(
        found,
        ["127.0.0.1 security.ubuntu.com".to_string(), "0.0.0.0 clamav.net".to_string()]
    );
}

#[test]
fn an_entry_pointing_off_the_machine_is_unauthorised() {
    let found = unauthorised_entries("10.0.0.5 www.google.com\n", "vm");
    assert_eq!(found, ["10.0.0.5 www.google.com".to_string()]);
}

#[test]
fn commented_and_blank_lines_are_not_entries() {
    let found = unauthorised_entries("\n# 1.2.3.4 evil.example\n   \n", "vm");
    assert!(found.is_empty(), "{found:?}");
}

#[test]
fn spacing_does_not_decide_whether_an_entry_is_allowed() {
    for line in [
        "127.0.0.1 localhost",
        "127.0.0.1\tlocalhost",
        "127.0.0.1      localhost",
        "  127.0.0.1   localhost  ",
    ] {
        assert!(is_allowed(line, "vm"), "rejected: {line:?}");
    }
}

#[test]
fn the_installers_ipv6_block_survives() {
    for line in ["ff02::1 ip6-allnodes", "ff02::2 ip6-allrouters", "fe00::0 ip6-localnet"] {
        let found = unauthorised_entries(line, "vm");
        assert!(found.is_empty(), "would have removed the installer's own entry: {line}");
    }
}

#[test]
fn local_addresses_are_recognised_in_any_case() {
    assert!(is_local_address("127.0.1.1"));
    assert!(is_local_address("FF02::1"));
    assert!(is_local_address("::"));
    assert!(!is_local_address("10.0.0.1"));
    assert!(!is_local_address("::2"));
}

#[test]
fn an_empty_hostname_allows_nothing_extra() {
    assert!(!is_allowed("127.0.1.1 somebox", ""));
    assert!(is_allowed("127.0.1.1 SomeBox", "somebox"));
}
