use pinnacle_cypat::file_ops::{active_values, commented, is_active, read_state, rewrite, Style};


#[test]
fn a_space_separated_setting_is_replaced_in_place() {
    let out = rewrite(
        "PermitRootLogin yes\nPort 22\n",
        Style::Space,
        "PermitRootLogin",
        "no",
    );
    assert_eq!(out, "PermitRootLogin no\nPort 22\n");
}

#[test]
fn an_equals_separated_setting_keeps_its_spelling() {
    let out = rewrite(
        "net.ipv4.ip_forward = 1\n",
        Style::Equals,
        "net.ipv4.ip_forward",
        "0",
    );
    assert_eq!(out, "net.ipv4.ip_forward = 0\n");
}

/// The case that makes appending wrong: `sshd` obeys the first definition,
/// so a second one added at the end would have no effect at all, while
/// `sysctl` obeys the last, so replacing only the first would have no
/// effect there. Leaving exactly one active definition is correct for both.
#[test]
fn later_definitions_are_commented_out_so_only_one_remains() {
    let out = rewrite(
        "PermitRootLogin yes\nPort 22\nPermitRootLogin prohibit-password\n",
        Style::Space,
        "PermitRootLogin",
        "no",
    );
    assert_eq!(active_values(&out, Style::Space, "PermitRootLogin"), ["no"]);
    assert!(
        out.contains("# PermitRootLogin prohibit-password"),
        "the superseded value should stay visible: {out}"
    );
}

#[test]
fn a_missing_setting_is_appended_with_a_note() {
    let out = rewrite("Port 22\n", Style::Space, "PermitRootLogin", "no");
    assert!(out.starts_with("Port 22\n"));
    assert!(out.contains("# set by PinnacleCyPat"));
    assert_eq!(active_values(&out, Style::Space, "PermitRootLogin"), ["no"]);
}

#[test]
fn an_empty_file_gains_the_setting() {
    let out = rewrite("", Style::Equals, "kernel.dmesg_restrict", "1");
    assert_eq!(
        active_values(&out, Style::Equals, "kernel.dmesg_restrict"),
        ["1"]
    );
    assert!(out.ends_with('\n'));
}

/// A commented-out setting is not a setting. Treating `#PermitRootLogin yes`
/// as active would report the stock Debian sshd_config - which comments out
/// every default - as already compliant, and change nothing.
#[test]
fn commented_lines_are_not_definitions() {
    let text = "#PermitRootLogin yes\n#  PermitRootLogin yes\n";
    assert!(active_values(text, Style::Space, "PermitRootLogin").is_empty());
    let out = rewrite(text, Style::Space, "PermitRootLogin", "no");
    assert_eq!(active_values(&out, Style::Space, "PermitRootLogin"), ["no"]);
    assert!(
        out.contains("#PermitRootLogin yes"),
        "the original stays: {out}"
    );
}

#[test]
fn keywords_are_matched_without_regard_to_case() {
    // sshd_config keywords are case-insensitive, and real files are
    // inconsistent about it.
    assert_eq!(
        active_values("permitrootlogin yes\n", Style::Space, "PermitRootLogin"),
        ["yes"]
    );
}

#[test]
fn a_login_defs_style_tab_separated_value_is_read() {
    assert_eq!(
        active_values("PASS_MAX_DAYS\t99999\n", Style::Space, "PASS_MAX_DAYS"),
        ["99999"]
    );
}

#[test]
fn rewriting_always_ends_with_a_newline() {
    for original in ["", "Port 22", "Port 22\n"] {
        let out = rewrite(original, Style::Space, "X", "1");
        assert!(out.ends_with('\n'), "no trailing newline for {original:?}");
        assert!(
            !out.ends_with("\n\n\n"),
            "runaway blank lines for {original:?}"
        );
    }
}

/// apt rejects a configuration file whose value is unquoted or whose line
/// has no semicolon, and a rejected file disables *all* automatic updating
/// rather than just the setting being written.
#[test]
fn apt_conf_values_keep_their_quotes_and_semicolon() {
    let out = rewrite(
        "",
        Style::AptConf,
        "APT::Periodic::Update-Package-Lists",
        "1",
    );
    assert!(
        out.contains(r#"APT::Periodic::Update-Package-Lists "1";"#),
        "{out}"
    );
}

/// Reading strips them again, so the comparison is against the bare value.
#[test]
fn an_apt_conf_value_reads_back_without_its_punctuation() {
    let text = "APT::Periodic::Update-Package-Lists \"1\";\nAPT::Periodic::Unattended-Upgrade \"0\";\n";
    assert_eq!(
        active_values(text, Style::AptConf, "APT::Periodic::Update-Package-Lists"),
        ["1"]
    );
    assert_eq!(
        active_values(text, Style::AptConf, "APT::Periodic::Unattended-Upgrade"),
        ["0"]
    );
}

#[test]
fn an_existing_apt_conf_value_is_replaced_not_appended() {
    let out = rewrite(
        "APT::Periodic::Update-Package-Lists \"0\";\n",
        Style::AptConf,
        "APT::Periodic::Update-Package-Lists",
        "1",
    );
    assert_eq!(
        active_values(&out, Style::AptConf, "APT::Periodic::Update-Package-Lists"),
        ["1"]
    );
}

#[test]
fn an_active_line_is_anything_that_is_not_a_comment_or_blank() {
    assert!(is_active("127.0.0.1 localhost"));
    assert!(!is_active("# 127.0.0.1 localhost"));
    assert!(!is_active("   "));
    assert!(!is_active("; windows-style comment"));
}

#[test]
fn the_ledger_reads_a_key_as_absent_one_value_or_all_of_them() {
    assert_eq!(read_state("# PermitRootLogin yes\n", Style::Space, "PermitRootLogin"), "absent");
    assert_eq!(read_state("PermitRootLogin no\n", Style::Space, "PermitRootLogin"), "no");
    assert_eq!(
        read_state("PermitRootLogin no\nPermitRootLogin yes\n", Style::Space, "PermitRootLogin"),
        "no, yes (2 active definitions)"
    );
}

#[test]
fn a_removed_line_says_who_removed_it() {
    assert_eq!(commented("1.2.3.4 bank.com"), "# 1.2.3.4 bank.com    # removed by PinnacleCyPat");
}

#[test]
fn rewriting_a_file_that_already_holds_the_setting_changes_nothing() {
    let original = "# sshd\nPermitRootLogin yes\nPort 22\npermitrootlogin without-password\n";
    let once = rewrite(original, Style::Space, "PermitRootLogin", "no");
    let twice = rewrite(&once, Style::Space, "PermitRootLogin", "no");
    assert_eq!(once, twice);
    let appended = rewrite("Port 22\n", Style::Equals, "net.ipv4.ip_forward", "0");
    assert_eq!(rewrite(&appended, Style::Equals, "net.ipv4.ip_forward", "0"), appended);
}
