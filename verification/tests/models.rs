use pinnacle_cypat::models::fix_record::FixOutcome;
use pinnacle_cypat::models::password_policy::{
    extract_numeric_value, PasswordPolicyInfo, PasswordPolicyStandards,
};

#[test]
fn each_outcome_has_its_ledger_tag() {
    assert_eq!(FixOutcome::Fixed.tag(), "FIXED");
    assert_eq!(FixOutcome::AlreadyCompliant.tag(), "ALREADY OK");
    assert_eq!(FixOutcome::Failed.tag(), "FAILED");
    assert_eq!(FixOutcome::Unverified.tag(), "UNVERIFIED");
    assert_eq!(FixOutcome::Skipped.tag(), "SKIPPED");
}

#[test]
fn only_a_fix_or_a_machine_already_right_is_compliant() {
    assert!(FixOutcome::Fixed.is_compliant());
    assert!(FixOutcome::AlreadyCompliant.is_compliant());
    assert!(!FixOutcome::Failed.is_compliant());
    assert!(!FixOutcome::Unverified.is_compliant());
    assert!(!FixOutcome::Skipped.is_compliant());
}

#[test]
fn net_accounts_values_are_read_with_their_words() {
    assert_eq!(extract_numeric_value("Maximum password age (days):   Never"), -1);
    assert_eq!(extract_numeric_value("Lockout threshold:      UNLIMITED"), -1);
    assert_eq!(extract_numeric_value("Length of password history maintained:  None"), 0);
    assert_eq!(extract_numeric_value("Minimum password length:   14"), 14);
    assert_eq!(extract_numeric_value("Minimum password age (days):  -1"), -1);
    assert_eq!(extract_numeric_value("Lockout duration (minutes):  30 min"), 30);
    assert_eq!(extract_numeric_value("no colon here 5"), 0);
    assert_eq!(extract_numeric_value("Force logoff:  1-2"), 0);
}

#[test]
fn the_net_accounts_table_is_read_into_a_policy() {
    let output = "Force user logoff how long after time expires?:       Never\r\n\
Minimum password age (days):                          1\r\n\
Maximum password age (days):                          Never\r\n\
Minimum password length:                              12\r\n\
Length of password history maintained:                24\r\n\
Lockout threshold:                                    Never\r\n\
Lockout duration (minutes):                           30\r\n\
Lockout observation window (minutes):                 15\r\n\
The command completed successfully.\r\n";
    let p = PasswordPolicyInfo::parse_net_accounts(output);
    assert_eq!(p.min_password_age, 1);
    assert_eq!(p.max_password_age, 0);
    assert_eq!(p.min_password_length, 12);
    assert_eq!(p.password_history_count, 24);
    assert_eq!(p.lockout_threshold, 0);
    assert_eq!(p.lockout_duration, 30);
    assert_eq!(p.lockout_observation_window, 15);
    assert!(!p.complexity_enabled);
}

#[test]
fn the_benchmark_policy() {
    assert_eq!(PasswordPolicyStandards::MIN_PASSWORD_LENGTH, 14);
    assert_eq!(PasswordPolicyStandards::LOCKOUT_THRESHOLD, 5);
    assert!(PasswordPolicyStandards::COMPLEXITY_ENABLED);
}
