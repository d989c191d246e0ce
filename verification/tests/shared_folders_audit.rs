use pinnacle_cypat::tasks::shared_folders_audit::{
    normalise_smb_setting, parse_exports, parse_smb_conf, Share,
};

const SMB: &str = "\
[global]
   workgroup = WORKGROUP
   server string = %h server
   map to guest = bad user

[printers]
   comment = All Printers
   path = /var/spool/samba
   guest ok = no

[public]
   comment = Public Stuff
   path = /home/samba/public
   guest ok = yes
   writable = yes
";

#[test]
fn global_is_configuration_rather_than_a_share() {
    let shares = parse_smb_conf(SMB);
    assert_eq!(
        shares.iter().map(|s| s.name.as_str()).collect::<Vec<_>>(),
        ["printers", "public"],
        "[global] should not be reported as a share"
    );
}

#[test]
fn a_guest_writable_share_is_flagged_and_a_locked_one_is_not() {
    let shares = parse_smb_conf(SMB);
    let public = shares.iter().find(|s| s.name == "public").unwrap();
    assert_eq!(public.path.as_deref(), Some("/home/samba/public"));
    assert!(
        public.concerns.iter().any(|c| c.starts_with("guest ok = yes")),
        "{:?}",
        public.concerns
    );
    assert!(public.concerns.iter().any(|c| c.starts_with("writable = yes")));
}

#[test]
fn a_global_setting_is_reported_against_every_share() {
    let shares = parse_smb_conf(SMB);
    for share in &shares {
        assert!(
            share.concerns.iter().any(|c| c.contains("[global] map to guest")),
            "{} did not inherit the global concern: {:?}",
            share.name,
            share.concerns
        );
    }
}

#[test]
fn settings_are_matched_however_they_are_spaced_and_cased() {
    for spelling in ["guest ok = yes", "Guest OK=Yes", "guest   ok   =   YES"] {
        let shares = parse_smb_conf(&format!("[s]\n  path = /x\n  {spelling}\n"));
        assert!(!shares[0].concerns.is_empty(), "{spelling:?} was not recognised");
    }
}

#[test]
fn commented_settings_are_not_in_effect() {
    let shares = parse_smb_conf("[s]\n  path = /x\n; guest ok = yes\n# writable = yes\n");
    assert!(shares[0].concerns.is_empty(), "{:?}", shares[0].concerns);
}

#[test]
fn no_root_squash_is_flagged() {
    let exports = parse_exports("/srv/nfs 192.168.1.0/24(rw,sync,no_root_squash)\n");
    assert_eq!(exports.len(), 1);
    assert_eq!(exports[0].name, "/srv/nfs");
    assert!(
        exports[0].concerns.iter().any(|c| c.starts_with("no_root_squash")),
        "{:?}",
        exports[0].concerns
    );
}

#[test]
fn an_option_is_not_matched_inside_another_one() {
    let exports = parse_exports("/srv 10.0.0.0/8(ro,sync,root_squash)\n");
    assert!(
        !exports[0].concerns.iter().any(|c| c.starts_with("rw ")),
        "a read-only export was reported as writable: {:?}",
        exports[0].concerns
    );
}

#[test]
fn an_export_to_every_host_is_flagged() {
    let exports = parse_exports("/srv *(ro,sync)\n");
    assert!(exports[0].concerns.iter().any(|c| c.contains("every host")), "{:?}", exports[0].concerns);
}

#[test]
fn a_quoted_path_with_spaces_is_read() {
    let exports = parse_exports("\"/srv/my share\" 10.0.0.1(ro)\n");
    assert_eq!(exports[0].name, "/srv/my share");
}

#[test]
fn absent_files_yield_nothing_rather_than_an_error() {
    assert!(parse_smb_conf("").is_empty());
    assert!(parse_exports("").is_empty());
    assert!(parse_exports("# only a comment\n").is_empty());
}

#[test]
fn a_setting_is_normalised_to_the_form_samba_reads() {
    assert_eq!(normalise_smb_setting("  Guest   OK =  Yes "), "guest ok = yes");
    assert_eq!(normalise_smb_setting("Browseable"), "browseable");
}

#[test]
fn the_exact_concern_text_names_the_setting_and_the_reason() {
    let shares = parse_smb_conf("[s]\nguest ok = yes\n");
    assert_eq!(
        shares[0].concerns,
        ["guest ok = yes - anyone on the network can read it with no credential"]
    );
    assert_eq!(shares[0].path, None);
}

#[test]
fn a_share_path_keeps_the_case_the_file_gives_it() {
    let shares = parse_smb_conf("[public]\n   path = /srv/Public\n");
    assert_eq!(
        shares,
        vec![Share { name: "public".to_string(), path: Some("/srv/Public".to_string()), concerns: vec![] }]
    );
}
