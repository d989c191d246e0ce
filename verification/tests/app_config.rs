use pinnacle_cypat::app_config::{
    common_desktop_dir, decode_lenient, default_readme_paths, describe_unresolvable, is_remote_target,
    is_shortcut, is_windows_drive_path, linux_readme_paths, parse_desktop_entry,
    parse_internet_shortcut, percent_decode, shortcut_name_looks_like_readme, to_local_path,
    url_in_command_line, version_string, windows_readme_paths, CYBERPATRIOT_DIRS,
};

#[test]
fn a_link_launcher_yields_its_url() {
    let entry = "\
[Desktop Entry]
Encoding=UTF-8
Name=Exhibition Round Ubuntu 22.04 README
Type=Link
URL=https://cp19.s3.us-east-1.amazonaws.com/cp19_exrd/private/readme.html
Icon=text-html
";
    assert_eq!(
        parse_desktop_entry(entry).as_deref(),
        Some("https://cp19.s3.us-east-1.amazonaws.com/cp19_exrd/private/readme.html")
    );
}

#[test]
fn an_exec_launcher_yields_the_address_from_its_command_line() {
    for exec in [
        "Exec=firefox https://example.com/readme.html",
        "Exec=xdg-open https://example.com/readme.html",
        "Exec=/usr/bin/firefox --new-tab https://example.com/readme.html",
        "Exec=firefox \"https://example.com/readme.html\"",
    ] {
        let entry = format!("[Desktop Entry]\nType=Application\n{exec}\n");
        assert_eq!(parse_desktop_entry(&entry).as_deref(), Some("https://example.com/readme.html"), "{exec}");
    }
}

#[test]
fn freedesktop_field_codes_are_not_mistaken_for_the_address() {
    let entry = "[Desktop Entry]\nType=Application\nExec=firefox %u https://example.com/r.html\n";
    assert_eq!(parse_desktop_entry(entry).as_deref(), Some("https://example.com/r.html"));
}

#[test]
fn an_explicit_url_wins_over_the_exec_line() {
    let entry = "\
[Desktop Entry]
Type=Link
Exec=firefox https://wrong.example/other.html
URL=https://right.example/readme.html
";
    assert_eq!(parse_desktop_entry(entry).as_deref(), Some("https://right.example/readme.html"));
}

#[test]
fn a_launcher_with_no_address_yields_nothing() {
    assert!(parse_desktop_entry("[Desktop Entry]\nType=Application\nExec=gnome-terminal\n").is_none());
    assert!(parse_desktop_entry("").is_none());
    assert!(parse_desktop_entry("[Desktop Entry]\n").is_none());
}

#[test]
fn the_canonical_resource_directory_is_spelled_the_way_the_image_spells_it() {
    assert_eq!(
        CYBERPATRIOT_DIRS.first(),
        Some(&"/opt/CyberPatriot"),
        "the canonical directory must be tried first, and with its real case"
    );
    assert!(CYBERPATRIOT_DIRS.contains(&"/opt/cyberpatriot"), "a hand-made image may use the lower-case spelling");
}

#[test]
fn the_resource_directory_is_scanned_by_name_not_probed_by_filename() {
    let launcher = "/opt/CyberPatriot/Exhibition Round Ubuntu 22.04 README.desktop";
    assert!(is_shortcut(launcher));
    assert!(shortcut_name_looks_like_readme(launcher));
}

#[test]
fn commented_entries_are_ignored() {
    let entry = "[Desktop Entry]\n#URL=https://commented.example/x.html\nType=Link\n";
    assert!(parse_desktop_entry(entry).is_none());
}

#[test]
fn the_rounds_own_launcher_name_is_recognised() {
    for name in [
        "Exhibition Round Ubuntu 22.04 README.desktop",
        "README.desktop",
        "CyberPatriot README.desktop",
        "Read Me.desktop",
    ] {
        assert!(is_shortcut(name), "{name} should be treated as a shortcut");
        assert!(shortcut_name_looks_like_readme(name), "{name} should look like the README");
    }
}

#[test]
fn a_desktop_launcher_is_a_shortcut_and_a_html_file_is_not() {
    assert!(is_shortcut("/home/perry/Desktop/README.desktop"));
    assert!(is_shortcut("C:/CyberPatriot/README.url"));
    assert!(!is_shortcut("/home/perry/Desktop/README.html"));
}

#[test]
fn internet_shortcut_url_value_is_extracted() {
    let contents = "[InternetShortcut]\r\nURL=file:///C:/CyberPatriot/README.html\r\nIconIndex=0\r\n";
    assert_eq!(parse_internet_shortcut(contents).as_deref(), Some("file:///C:/CyberPatriot/README.html"));
}

#[test]
fn internet_shortcut_key_is_case_insensitive_and_tolerates_other_keys() {
    let contents = "[InternetShortcut]\r\nIDList=\r\nurl=C:\\CyberPatriot\\README.html\r\n";
    assert_eq!(parse_internet_shortcut(contents).as_deref(), Some("C:\\CyberPatriot\\README.html"));
}

#[test]
fn file_uri_forms_all_convert_to_a_windows_path() {
    for uri in [
        "file:///C:/CyberPatriot/README.html",
        "file://C:/CyberPatriot/README.html",
        "file://localhost/C:/CyberPatriot/README.html",
    ] {
        assert_eq!(to_local_path(uri).as_deref(), Some("C:\\CyberPatriot\\README.html"), "failed for {uri}");
    }
}

#[test]
fn percent_escapes_in_a_file_uri_are_decoded() {
    assert_eq!(
        to_local_path("file:///C:/Cyber%20Patriot/READ%20ME.html").as_deref(),
        Some("C:\\Cyber Patriot\\READ ME.html")
    );
}

#[test]
fn a_bare_path_target_is_used_as_is() {
    assert_eq!(to_local_path("C:\\CyberPatriot\\README.html").as_deref(), Some("C:\\CyberPatriot\\README.html"));
}

#[test]
fn a_remote_target_is_not_treated_as_a_local_file() {
    assert_eq!(to_local_path("https://example.org/readme.html"), None);
    assert_eq!(to_local_path(""), None);
}

#[test]
fn an_absolute_posix_target_keeps_its_root() {
    assert_eq!(
        to_local_path("file:///tmp/CyberPatriot/README.html").as_deref(),
        Some("/tmp/CyberPatriot/README.html")
    );
}

#[test]
fn remote_targets_are_recognised() {
    assert!(is_remote_target("https://example-bucket.s3.us-east-1.amazonaws.com/round/private/readme.html"));
    assert!(is_remote_target("https://any-other-host.example/whatever.html"));
    assert!(is_remote_target("http://example.org/readme.html"));
    assert!(is_remote_target("  HTTPS://EXAMPLE.ORG/x  "));
    assert!(!is_remote_target("C:\\CyberPatriot\\README.html"));
    assert!(!is_remote_target("file:///C:/CyberPatriot/README.html"));
    assert!(!is_remote_target(""));
}

#[test]
fn a_remote_shortcut_reports_a_download_failure_not_a_bad_path() {
    let reason = describe_unresolvable(
        "/tmp/x/README.url",
        Some("[InternetShortcut]\r\nURL=https://example-bucket.s3.amazonaws.com/x/readme.html\r\n"),
    );
    assert!(reason.contains("could not be downloaded"), "got: {reason}");
    assert!(reason.contains("example-bucket.s3"), "got: {reason}");
}

#[test]
fn an_unresolvable_shortcut_says_what_it_points_at() {
    let reason = describe_unresolvable("/tmp/x/web.url", Some("[InternetShortcut]\r\nURL=https://example.org/readme.html\r\n"));
    assert!(reason.contains("could not be downloaded"), "got: {reason}");
    assert!(reason.contains("https://example.org"), "got: {reason}");

    let reason = describe_unresolvable("/tmp/x/missing.url", Some("[InternetShortcut]\r\nURL=file:///C:/nope/gone.html\r\n"));
    assert!(reason.contains("does not exist"), "got: {reason}");
    assert!(reason.contains("gone.html"), "got: {reason}");
}

#[test]
fn default_paths_lead_with_the_standard_image_location() {
    let paths = default_readme_paths("/root/Desktop", "/root");
    assert!(!paths.is_empty());
    assert!(paths.iter().any(|p| p.ends_with("README.html")));
    assert!(paths.iter().any(|p| p.ends_with(".desktop")), "an Ubuntu image ships a launcher, not a file: {paths:?}");
    assert_eq!(paths[0], "/opt/CyberPatriot/README.desktop");
}

#[test]
fn both_platforms_have_a_usable_path_list() {
    for paths in [windows_readme_paths("C:\\Users\\perry\\Desktop"), linux_readme_paths("/root/Desktop", "/root")] {
        assert!(!paths.is_empty());
        assert!(paths.iter().all(|p| !p.trim().is_empty()));
    }
    assert!(
        linux_readme_paths("/root/Desktop", "/root").iter().any(|p| p.starts_with("/home/")),
        "the launcher lives on somebody's desktop"
    );
    assert_eq!(windows_readme_paths("D")[0], "C:\\CyberPatriot\\README.url");
}

#[test]
fn the_home_paths_are_joined_the_way_path_join_does() {
    let paths = linux_readme_paths("/home/perry/Desktop/", "/home/perry");
    assert_eq!(paths.len(), 34);
    assert_eq!(paths[24], "/home/perry/Desktop/README.desktop");
    assert_eq!(paths[25], "/home/perry/Documents/README.desktop");
    assert_eq!(paths[33], "/home/*/Desktop/README.html");
}

#[test]
fn the_version_string_carries_the_build_stamp() {
    assert_eq!(version_string("2026-01-02"), "v1.8.0 (build 2026-01-02)");
    assert_eq!(common_desktop_dir(), "C:\\Users\\Public\\Desktop");
}

#[test]
fn command_line_addresses_lose_their_quoting() {
    assert_eq!(url_in_command_line("open 'https://x.example/a';").as_deref(), Some("https://x.example/a"));
    assert_eq!(url_in_command_line("%U \"\"").as_deref(), None);
    assert!(is_windows_drive_path("c:/x"));
    assert!(!is_windows_drive_path("1:/x"));
}

#[test]
fn percent_escapes_decode_bytes_not_characters() {
    assert_eq!(percent_decode("a%20b%C3%A9"), "a bé");
    assert_eq!(percent_decode("100%"), "100%");
    assert_eq!(percent_decode("%+4x"), "\u{4}x");
}

#[test]
fn text_files_are_decoded_by_their_byte_order_mark() {
    assert_eq!(decode_lenient(&[0xFF, 0xFE, b'h', 0, b'i', 0]), "hi");
    assert_eq!(decode_lenient(&[0xFE, 0xFF, 0, b'h', 0, b'i', 7]), "hi");
    assert_eq!(decode_lenient(&[0xEF, 0xBB, 0xBF, b'o', b'k']), "ok");
    assert_eq!(decode_lenient(b"plain"), "plain");
}
