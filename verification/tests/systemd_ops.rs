use pinnacle_cypat::systemd_ops::{is_enabled_and_active, is_masked_state, parse_unit_files};

#[test]
fn unit_files_are_parsed_from_the_first_two_columns() {
    let output = "\
ssh.service                    enabled         enabled
telnet.socket                  masked
cups.service                   disabled        enabled
";
    assert_eq!(
        parse_unit_files(output),
        vec![
            ("ssh.service".to_string(), "enabled".to_string()),
            ("telnet.socket".to_string(), "masked".to_string()),
            ("cups.service".to_string(), "disabled".to_string()),
        ]
    );
}

#[test]
fn a_summary_line_is_not_mistaken_for_a_unit() {
    assert!(parse_unit_files("3 unit files listed.\n").is_empty());
    assert!(parse_unit_files("").is_empty());
}

#[test]
fn the_states_that_prove_a_change() {
    assert!(is_masked_state("masked"));
    assert!(!is_masked_state("disabled"));
    assert!(is_enabled_and_active("enabled, active"));
    assert!(!is_enabled_and_active("disabled, active"));
}
