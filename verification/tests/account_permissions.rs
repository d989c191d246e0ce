use pinnacle_cypat::tasks::account_permissions::{
    accounts_to_lock, duplicate_superusers, human_names, service_accounts_with_shells, shell_evidence,
    uid_zero_evidence,
};
use pinnacle_cypat::user_ops::Account;

fn account(name: &str, uid: u32, shell: &str) -> Account {
    Account {
        name: name.to_string(),
        uid,
        gid: uid,
        comment: String::new(),
        home: format!("/home/{name}"),
        shell: shell.to_string(),
    }
}

#[test]
fn a_second_uid_zero_account_is_found() {
    let accounts = vec![
        account("root", 0, "/bin/bash"),
        account("toor", 0, "/bin/bash"),
        account("alice", 1000, "/bin/bash"),
    ];
    assert_eq!(duplicate_superusers(&accounts), ["toor"]);
}

#[test]
fn root_alone_is_not_a_duplicate() {
    let accounts = vec![account("root", 0, "/bin/bash")];
    assert!(duplicate_superusers(&accounts).is_empty());
}

#[test]
fn a_service_account_given_a_shell_is_found() {
    let accounts = vec![
        account("www-data", 33, "/bin/bash"),
        account("daemon", 1, "/usr/sbin/nologin"),
        account("alice", 1000, "/bin/bash"),
    ];
    assert_eq!(service_accounts_with_shells(&accounts), ["www-data"]);
}

#[test]
fn root_having_a_shell_is_not_a_finding() {
    let accounts = vec![account("root", 0, "/bin/bash")];
    assert!(service_accounts_with_shells(&accounts).is_empty());
}

#[test]
fn a_human_account_with_a_shell_is_not_a_finding() {
    let accounts = vec![account("alice", 1000, "/bin/bash")];
    assert!(service_accounts_with_shells(&accounts).is_empty());
}

#[test]
fn the_uid_zero_finding_names_the_extra_superusers() {
    assert_eq!(uid_zero_evidence(&vec![]), "no other account shares uid 0");
    assert_eq!(
        uid_zero_evidence(&vec!["toor".to_string(), "backdoor".to_string()]),
        "toor, backdoor also has uid 0; left in place deliberately, since removing the only usable login would end the round"
    );
}

#[test]
fn the_shell_finding_names_the_service_accounts_that_can_log_in() {
    assert_eq!(shell_evidence(&vec![]), "every system account has nologin or false as its shell");
    assert_eq!(shell_evidence(&vec!["daemon".to_string()]), "daemon can log in");
}

#[test]
fn only_human_accounts_are_candidates_for_locking_and_ageing() {
    let accounts = vec![
        account("root", 0, "/bin/bash"),
        account("daemon", 1, "/usr/sbin/nologin"),
        account("alice", 1000, "/bin/bash"),
        account("nobody", 65534, "/usr/sbin/nologin"),
        account("bob", 1001, "/bin/bash"),
    ];
    assert_eq!(human_names(&accounts), ["alice", "bob"]);
}

#[test]
fn only_accounts_without_any_password_are_locked() {
    let names = vec!["alice".to_string(), "bob".to_string(), "carol".to_string()];
    let states = vec![Some("no password".to_string()), Some("hashed".to_string()), None];
    assert_eq!(accounts_to_lock(&names, &states), ["alice"]);
}
