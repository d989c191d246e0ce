use pinnacle_cypat::user_ops::admin_group_in;
use pinnacle_cypat::knowledge::FIRST_HUMAN_UID;
use pinnacle_cypat::user_ops::{
    ageing_in, ageing_target, classify_hash, deletion_refusal, is_nologin_shell, parse_group,
    parse_passwd, password_state_in,
};


    const PASSWD: &str = "\
root:x:0:0:root:/root:/bin/bash
daemon:x:1:1:daemon:/usr/sbin:/usr/sbin/nologin
www-data:x:33:33:www-data:/var/www:/usr/sbin/nologin
nobody:x:65534:65534:nobody:/nonexistent:/usr/sbin/nologin
alice:x:1000:1000:Alice Example,,,:/home/alice:/bin/bash
bob:x:1001:1001::/home/bob:/bin/bash
mallory:x:1002:1002::/home/mallory:/bin/bash
";

    #[test]
    fn passwd_records_are_parsed_into_accounts() {
        let accounts = parse_passwd(PASSWD);
        assert_eq!(accounts.len(), 7);
        let alice = accounts.iter().find(|a| a.name == "alice").unwrap();
        assert_eq!(alice.uid, 1000);
        assert_eq!(alice.home, "/home/alice");
        assert_eq!(alice.shell, "/bin/bash");
        assert_eq!(alice.comment, "Alice Example,,,");
    }

    /// The rule that decides who a README is talking about. Getting it wrong in
    /// the permissive direction means deleting `www-data`.
    #[test]
    fn only_real_people_are_human_accounts() {
        let accounts = parse_passwd(PASSWD);
        let humans: Vec<&str> = accounts
            .iter()
            .filter(|a| a.is_human())
            .map(|a| a.name.as_str())
            .collect();
        assert_eq!(humans, ["alice", "bob", "mallory"]);
    }

    /// `nobody` has uid 65534, well above the 1000 threshold. A uid rule on its
    /// own would classify it as a person and offer it for deletion.
    #[test]
    fn nobody_is_not_a_person_despite_its_uid() {
        let nobody = parse_passwd(PASSWD)
            .into_iter()
            .find(|a| a.name == "nobody")
            .unwrap();
        assert!(nobody.uid > FIRST_HUMAN_UID);
        assert!(!nobody.is_human());
    }

    /// A corrupt or truncated line is skipped rather than guessed at. Guessing
    /// which fields are missing could shift the shell into the home column and
    /// make a service account look like a person.
    #[test]
    fn a_short_record_is_skipped_rather_than_misread() {
        let accounts = parse_passwd("alice:x:1000:1000\nbob:x:1001:1001::/home/bob:/bin/bash\n");
        assert_eq!(accounts.len(), 1);
        assert_eq!(accounts[0].name, "bob");
    }

    #[test]
    fn a_service_shell_means_the_account_cannot_log_in() {
        let accounts = parse_passwd(PASSWD);
        let www = accounts.iter().find(|a| a.name == "www-data").unwrap();
        assert!(!www.can_log_in());
        let alice = accounts.iter().find(|a| a.name == "alice").unwrap();
        assert!(alice.can_log_in());
    }

    /// Found by running the audit on Arch, which puts `nologin` in `/usr/bin`
    /// rather than `/usr/sbin`. Matching full paths reported every system
    /// account on that image as able to log in - fourteen false positives in
    /// one run, which is exactly how a reader learns to ignore a finding.
    #[test]
    fn nologin_is_recognised_wherever_the_distribution_puts_it() {
        for shell in [
            "/usr/sbin/nologin",
            "/sbin/nologin",
            "/usr/bin/nologin",
            "/bin/false",
            "/usr/bin/false",
            "",
        ] {
            assert!(is_nologin_shell(shell), "{shell:?} should refuse a login");
        }
        for shell in ["/bin/bash", "/usr/bin/zsh", "/bin/sh", "/usr/bin/fish"] {
            assert!(!is_nologin_shell(shell), "{shell:?} is a real shell");
        }
    }

    #[test]
    fn group_records_are_parsed_with_their_members() {
        let groups = parse_group("sudo:x:27:alice,bob\nempty:x:100:\n");
        assert_eq!(groups[0].0, "sudo");
        assert_eq!(groups[0].1, 27);
        assert_eq!(groups[0].2, ["alice", "bob"]);
        // An empty member list is empty, not a list containing "".
        assert!(groups[1].2.is_empty());
    }

    /// Every state the shadow hash field can hold, and what each means. The
    /// empty case is the one that matters: it is a passwordless account, not a
    /// locked one, and reporting it as locked would hide the worst finding on
    /// the image.
    #[test]
    fn a_shadow_hash_is_classified_by_its_prefix() {
        assert_eq!(classify_hash(""), "no password");
        assert_eq!(classify_hash("!"), "locked");
        assert_eq!(classify_hash("!!"), "locked");
        assert_eq!(classify_hash("*"), "locked");
        assert_eq!(classify_hash("!$6$salt$hash"), "locked");
        assert_eq!(classify_hash("$6$salt$hash"), "set");
        assert_eq!(classify_hash("$y$j9T$salt$hash"), "set");
    }


const SHADOW: &str = "\
root:!:19000:0:99999:7:::
alice:$6$salt$hash:19000:7:90:14:::
eve::19000::::::
";

#[test]
fn the_password_state_is_read_from_the_shadow_record() {
    assert_eq!(password_state_in(SHADOW, "alice").as_deref(), Some("set"));
    assert_eq!(password_state_in(SHADOW, "root").as_deref(), Some("locked"));
    assert_eq!(password_state_in(SHADOW, "eve").as_deref(), Some("no password"));
    assert_eq!(password_state_in(SHADOW, "mallory"), None);
}

#[test]
fn ageing_reads_back_in_the_order_it_is_set() {
    assert_eq!(ageing_in(SHADOW, "alice").as_deref(), Some("90/7/14"));
    assert_eq!(ageing_in(SHADOW, "eve").as_deref(), Some("-1/-1/-1"));
    assert_eq!(ageing_in(SHADOW, "al"), None);
    assert_eq!(ageing_target(90, 7, 14), "90/7/14");
}

#[test]
fn a_system_account_is_refused_before_any_command_runs() {
    let err = deletion_refusal("root").unwrap();
    assert!(err.contains("system account"), "{err}");
    assert_eq!(deletion_refusal("mallory"), None);
    assert!(deletion_refusal("WWW-DATA").is_some());
}

#[test]
fn the_admin_group_is_the_first_one_the_image_has() {
    assert_eq!(admin_group_in("root:x:0:\nwheel:x:10:alice\n"), "wheel");
    assert_eq!(admin_group_in("sudo:x:27:bob\nwheel:x:10:alice\n"), "sudo");
    assert_eq!(admin_group_in("root:x:0:\n"), "sudo");
}
