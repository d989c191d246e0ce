use pinnacle_cypat::models::{AuthorizedUser, GroupRequirement, ReadmeData, TaskResult};
use pinnacle_cypat::task::Outcome;
use pinnacle_cypat::tasks::user_management::{
    accounts_with_weak_passwords, admins_to_demote, authorised_from, generate_password,
    is_secure_password, missing_accounts, present_accounts, surplus_accounts, unauthorised, UserRun,
    UserStep,
};
use pinnacle_cypat::user_ops::Account;
use std::collections::HashSet;

fn user(name: &str, admin: bool) -> AuthorizedUser {
    AuthorizedUser {
        username: name.to_string(),
        password: None,
        is_admin: admin,
        is_primary_user: false,
        notes: None,
    }
}

fn account(name: &str, uid: u32) -> Account {
    Account {
        name: name.to_string(),
        uid,
        gid: uid,
        comment: String::new(),
        home: format!("/home/{name}"),
        shell: "/bin/bash".to_string(),
    }
}

fn has(v: &[String], x: &str) -> bool {
    v.iter().any(|s| s == x)
}

#[test]
fn administrators_and_users_are_both_authorised() {
    let readme = ReadmeData {
        administrators: vec![user("alice", true)],
        users: vec![user("bob", false)],
        ..Default::default()
    };
    let plan = authorised_from(&readme);
    assert!(has(&plan.everyone, "alice"));
    assert!(has(&plan.everyone, "bob"));
    assert!(has(&plan.admins, "alice"));
    assert!(!has(&plan.admins, "bob"));
}

#[test]
fn a_user_named_only_in_a_group_requirement_is_authorised() {
    let readme = ReadmeData {
        administrators: vec![user("alice", true)],
        group_requirements: vec![GroupRequirement {
            group_name: "developers".to_string(),
            members: vec!["carol".to_string(), "dave".to_string()],
        }],
        ..Default::default()
    };
    let plan = authorised_from(&readme);
    assert!(has(&plan.everyone, "carol"));
    assert!(has(&plan.everyone, "dave"));
}

#[test]
fn membership_of_an_admin_group_grants_administrative_rights() {
    let readme = ReadmeData {
        group_requirements: vec![GroupRequirement {
            group_name: "sudo".to_string(),
            members: vec!["erin".to_string()],
        }],
        ..Default::default()
    };
    let plan = authorised_from(&readme);
    assert!(has(&plan.admins, "erin"));
    assert!(has(&plan.everyone, "erin"));
}

#[test]
fn membership_of_an_ordinary_group_grants_nothing_extra() {
    let readme = ReadmeData {
        group_requirements: vec![GroupRequirement {
            group_name: "developers".to_string(),
            members: vec!["carol".to_string()],
        }],
        ..Default::default()
    };
    let plan = authorised_from(&readme);
    assert!(has(&plan.everyone, "carol"));
    assert!(!has(&plan.admins, "carol"));
}

#[test]
fn system_accounts_are_never_unauthorised() {
    let present = vec![
        account("root", 0),
        account("www-data", 33),
        account("nobody", 65534),
        account("syslog", 104),
        account("mallory", 1002),
    ];
    let authorised = vec!["alice".to_string()];
    assert_eq!(unauthorised(&present, &authorised), ["mallory"]);
}

#[test]
fn authorisation_is_case_insensitive() {
    let present = vec![account("Alice", 1000)];
    let authorised = vec!["alice".to_string()];
    assert!(unauthorised(&present, &authorised).is_empty());
}

#[test]
fn readme_published_passwords_are_judged_on_character_classes() {
    assert!(!is_secure_password("grilledcheese"), "one class, scored weak");
    for strong in ["M4mm@lOfAct!0n", "No#1UnP@!dInt3rn", "Go0glyMo0gly!", "Adm!r@l4cr0nym"] {
        assert!(is_secure_password(strong), "{strong} is accepted by the key and must not be reset");
    }
}

#[test]
fn a_password_missing_any_one_class_is_weak() {
    assert!(!is_secure_password("nouppercase1!"), "no upper case");
    assert!(!is_secure_password("NOLOWERCASE1!"), "no lower case");
    assert!(!is_secure_password("NoDigitsHere!"), "no digit");
    assert!(!is_secure_password("NoSymbolsHere1"), "no symbol");
    assert!(!is_secure_password("Sh0rt!"), "too short");
}

#[test]
fn the_primary_users_password_is_never_reset() {
    let readme = ReadmeData {
        administrators: vec![
            AuthorizedUser {
                username: "perry".to_string(),
                password: Some("weak".to_string()),
                is_admin: true,
                is_primary_user: true,
                notes: None,
            },
            AuthorizedUser {
                username: "pinky".to_string(),
                password: Some("grilledcheese".to_string()),
                is_admin: true,
                is_primary_user: false,
                notes: None,
            },
        ],
        ..Default::default()
    };
    assert_eq!(accounts_with_weak_passwords(&readme), ["pinky"]);
}

#[test]
fn an_account_with_no_published_password_is_left_alone() {
    let readme = ReadmeData { users: vec![user("bob", false)], ..Default::default() };
    assert!(accounts_with_weak_passwords(&readme).is_empty());
}

#[test]
fn generated_passwords_are_distinct_and_strong() {
    let generated: HashSet<String> = (0..25).map(generate_password).collect();
    assert_eq!(generated.len(), 25);
    for password in &generated {
        assert!(password.len() >= 14, "too short: {password}");
        assert!(password.chars().any(|c| c.is_ascii_uppercase()));
        assert!(password.chars().any(|c| c.is_ascii_lowercase()));
        assert!(password.chars().any(|c| c.is_ascii_digit()));
        assert!(password.chars().any(|c| !c.is_alphanumeric()));
    }
}

#[test]
fn a_readme_with_no_accounts_authorises_nobody_but_removes_no_system_account() {
    let plan = authorised_from(&ReadmeData::default());
    assert!(plan.everyone.is_empty());
    let present = vec![account("root", 0), account("www-data", 33)];
    assert!(unauthorised(&present, &plan.everyone).is_empty());
}

#[test]
fn a_generated_password_carries_its_index() {
    assert_eq!(generate_password(0), "A9!vX2#rT7$wQ4@eLp6^zM8&bN0Yj5uH3sK1oF#00");
    assert_eq!(generate_password(11), "Zx7!Qw2@Er5#Ty8$Ui3%Op6^As9&Df0Gh4(Jk1)L#11");
    assert!(generate_password(123).ends_with("#123"));
}

#[test]
fn the_authorised_names_are_lowercased_sorted_and_unique() {
    let readme = ReadmeData {
        administrators: vec![user("Zed", true)],
        users: vec![user("alice", false), user("ALICE", false)],
        users_to_create: vec!["Bob".to_string()],
        ..Default::default()
    };
    let plan = authorised_from(&readme);
    assert_eq!(plan.everyone, ["alice", "bob", "zed"]);
    assert_eq!(plan.admins, ["zed"]);
    assert_eq!(plan.to_create, ["Bob"]);
}

#[test]
fn only_absent_accounts_are_created_and_only_present_ones_reset() {
    let present = vec![account("Alice", 1000)];
    let wanted = vec!["alice".to_string(), "bob".to_string()];
    assert_eq!(missing_accounts(&wanted, &present), ["bob"]);
    assert_eq!(present_accounts(&wanted, &present), ["alice"]);
}

#[test]
fn root_and_the_readmes_administrators_keep_their_rights() {
    let current = vec!["root".to_string(), "Alice".to_string(), "eve".to_string()];
    let admins = vec!["alice".to_string()];
    assert_eq!(admins_to_demote(&current, &admins), ["eve"]);
}

fn names(list: &[&str]) -> Vec<String> {
    list.iter().map(|s| s.to_string()).collect()
}

#[test]
fn the_run_creates_first_then_grants_revokes_resets_and_removes() {
    let mut run = UserRun::new(
        names(&["newbie"]),
        names(&["boss"]),
        names(&["intruder"]),
        names(&["weakling"]),
        names(&["hacker"]),
    );
    let mut asked = Vec::new();
    while let Some(step) = run.next() {
        asked.push(step);
        run.answer(Outcome::Done);
    }
    assert_eq!(
        asked,
        vec![
            UserStep::Create("newbie".to_string()),
            UserStep::SetPassword("newbie".to_string(), generate_password(0)),
            UserStep::Grant("boss".to_string()),
            UserStep::Revoke("intruder".to_string()),
            UserStep::Reset("weakling".to_string(), generate_password(1)),
            UserStep::Remove("hacker".to_string()),
        ]
    );
    let mut result = TaskResult::started("User Management");
    run.finish(&mut result);
    assert!(result.success);
    // Revoking rights and setting a new account's password are not counted.
    assert_eq!(result.items_succeeded, 4);
    assert_eq!(
        result.message,
        "Created 1, removed 1, reset 1 passwords, corrected administrative rights."
    );
}

#[test]
fn a_password_is_only_set_on_an_account_that_was_created() {
    let mut run = UserRun::new(names(&["a", "b"]), vec![], vec![], vec![], vec![]);
    assert_eq!(run.next(), Some(UserStep::Create("a".to_string())));
    run.answer(Outcome::Failed("useradd: exit 9".to_string()));
    assert_eq!(run.next(), Some(UserStep::Create("b".to_string())));
    run.answer(Outcome::Done);
    assert_eq!(run.next(), Some(UserStep::SetPassword("b".to_string(), generate_password(1))));
    run.answer(Outcome::Failed("chpasswd: denied".to_string()));
    assert_eq!(run.next(), None);
    let mut result = TaskResult::started("User Management");
    run.finish(&mut result);
    assert!(!result.success);
    assert_eq!(result.items_succeeded, 1);
    assert_eq!(
        result.error_details.as_deref(),
        Some("a: useradd: exit 9; b: could not set a password (chpasswd: denied)")
    );
}

#[test]
fn an_absent_administrator_is_skipped_and_a_failed_reset_says_so() {
    let mut run = UserRun::new(vec![], names(&["ghost"]), vec![], names(&["weakling"]), vec![]);
    assert_eq!(run.next(), Some(UserStep::Grant("ghost".to_string())));
    run.answer(Outcome::Skipped);
    assert_eq!(run.next(), Some(UserStep::Reset("weakling".to_string(), generate_password(0))));
    run.answer(Outcome::Failed("locked".to_string()));
    assert_eq!(run.next(), None);
    let mut result = TaskResult::started("User Management");
    run.finish(&mut result);
    assert_eq!(result.items_succeeded, 0);
    assert_eq!(
        result.error_details.as_deref(),
        Some("weakling: could not reset the password (locked)")
    );
}

#[test]
fn a_readme_that_names_nobody_removes_nobody() {
    let present = vec![account("alice", 1000), account("bob", 1001)];
    assert_eq!(surplus_accounts(&ReadmeData::default(), &present), None);
    let mut only_groups = ReadmeData::default();
    only_groups.users_to_create = vec!["carol".to_string()];
    assert_eq!(surplus_accounts(&only_groups, &present), None);
}

#[test]
fn a_readme_that_names_someone_gives_the_surplus() {
    let present = vec![account("alice", 1000), account("bob", 1001), account("root", 0)];
    let mut readme = ReadmeData::default();
    readme.users = vec![user("Alice", false)];
    assert_eq!(surplus_accounts(&readme, &present), Some(vec!["bob".to_string()]));
}
