use pinnacle_cypat::app_config::{describe_candidate, local_path_ok_exec};
use pinnacle_cypat::app_config::{
    attempt_found, attempt_note, checked_local_path, first_hop, follow_shortcut, next_hop,
    search_dirs, Follow, Hop, MAX_HOPS,
};

#[test]
fn each_kind_of_candidate_gets_its_own_step() {
    assert_eq!(first_hop("https://example.org/readme.html"), Hop::Download);
    assert_eq!(first_hop("C:\\CyberPatriot\\README.url"), Hop::InternetShortcut);
    assert_eq!(first_hop("/opt/CyberPatriot/README.DESKTOP"), Hop::DesktopEntry);
    assert_eq!(first_hop("/home/a/Desktop/readme.lnk"), Hop::WindowsShortcut);
    assert_eq!(first_hop("/home/a/Desktop/README.html"), Hop::Document);
    assert_eq!(next_hop("/tmp/README"), Hop::Document);
    assert_eq!(MAX_HOPS, 5);
}

#[test]
fn a_shortcut_leads_to_an_address_a_path_or_nowhere() {
    match follow_shortcut(false, "[InternetShortcut]\r\nURL=https://example.org/r.html\r\n") {
        Follow::Download(u) => assert_eq!(u, "https://example.org/r.html"),
        other => panic!("expected a download, got {other:?}"),
    }
    match follow_shortcut(false, "[InternetShortcut]\r\nURL=file:///tmp/CyberPatriot/README.html\r\n") {
        Follow::Path(p) => assert_eq!(p, "/tmp/CyberPatriot/README.html"),
        other => panic!("expected a path, got {other:?}"),
    }
    assert!(matches!(follow_shortcut(true, "[Desktop Entry]\nType=Link\n"), Follow::Stop));
    match follow_shortcut(true, "[Desktop Entry]\nType=Application\nExec=firefox https://example.com/readme.html\n") {
        Follow::Download(u) => assert_eq!(u, "https://example.com/readme.html"),
        other => panic!("expected a download, got {other:?}"),
    }
}

#[test]
fn a_file_address_becomes_a_local_path() {
    assert_eq!(checked_local_path("file:///tmp/x.html").as_deref(), Some("/tmp/x.html"));
    assert_eq!(checked_local_path("/tmp/x.html").as_deref(), Some("/tmp/x.html"));
}

#[test]
fn search_directories_are_kept_once_and_only_when_present() {
    let candidates: Vec<String> = ["/opt/CyberPatriot", "/home/a/Desktop", "/opt/CyberPatriot", "/root/Desktop"]
        .iter()
        .map(|s| s.to_string())
        .collect();
    let dirs = search_dirs(&candidates, &vec![true, false, true, true]);
    assert_eq!(dirs, ["/opt/CyberPatriot", "/root/Desktop"]);
}

#[test]
fn discovery_lines_say_where_and_what() {
    assert_eq!(attempt_found("/opt/CyberPatriot", "/tmp/r.html"), "/opt/CyberPatriot -> /tmp/r.html");
    assert_eq!(attempt_note("/x/README.url", "not found"), "/x/README.url (not found)");
}

#[test]
fn an_unusable_candidate_is_described() {
    assert!(local_path_ok_exec("file:///tmp/x"));
    assert_eq!(
        describe_candidate("/x/README.url", Some("[InternetShortcut]\r\nURL=https://e.example/r.html\r\n")),
        "shortcut points to 'https://e.example/r.html', which could not be downloaded"
    );
    assert_eq!(describe_candidate("/x/README.url", None), "shortcut could not be read");
    assert_eq!(describe_candidate("/x/README.html", None), "exists but could not be resolved to a readable file");
}
