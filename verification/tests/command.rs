use pinnacle_cypat::command::{
    classify_attempt, download_error, downloaders, powershell_args, ps_quote, split_arguments,
    Attempt, Downloader, DownloaderKind,
};

#[test]
fn the_linux_downloaders_cover_what_ubuntu_actually_ships() {
    let programs: Vec<&str> = downloaders().iter().map(|d| d.program).collect();
    assert!(programs.contains(&"curl"), "{programs:?}");
    assert!(programs.contains(&"wget"), "{programs:?}");
    assert!(!programs.contains(&"powershell"), "PowerShell is never present on Linux: {programs:?}");
}

#[test]
fn each_downloader_writes_to_the_destination_it_is_given() {
    for downloader in downloaders() {
        let (program, args) = downloader.invocation("http://example.com/a", "/tmp/out.html");
        assert_eq!(program, downloader.program);
        assert!(args.contains("/tmp/out.html"), "{program} does not name the destination: {args}");
        assert!(args.contains("http://example.com/a"), "{program} does not name the URL: {args}");
    }
}

#[test]
fn curl_fails_on_an_http_error_rather_than_saving_the_error_page() {
    let all = downloaders();
    let curl = all
        .iter()
        .find(|d| d.program.starts_with("curl"))
        .expect("curl should be a candidate on every platform");
    let (_program, args) = curl.invocation("http://x/y", "/tmp/o");
    assert!(args.contains("-f"), "curl needs -f to fail on 404: {args}");
    assert!(args.contains("-L"), "the README URL redirects: {args}");
}

#[test]
fn ps_quote_wraps_and_doubles_embedded_quotes() {
    assert_eq!(ps_quote("alice"), "'alice'");
    assert_eq!(ps_quote("O'Brien"), "'O''Brien'");
    assert_eq!(ps_quote(""), "''");
}

#[test]
fn strict_args_promote_errors_and_set_a_failing_exit_code() {
    let args = powershell_args("Set-Thing -Value 1", true);
    assert!(args.contains("$ErrorActionPreference = 'Stop'"));
    assert!(args.contains("Set-Thing -Value 1"));
    assert!(args.contains("exit 1"), "failures must map to a non-zero exit");
    assert!(args.contains("-NonInteractive"));
}

#[test]
fn query_args_tolerate_missing_objects() {
    let args = powershell_args("Get-Thing", false);
    assert!(args.contains("$ErrorActionPreference = 'SilentlyContinue'"));
    assert!(args.contains("Get-Thing"));
    assert!(args.contains("exit 0"));
    assert!(!args.contains("exit 1"));
}

#[test]
fn wrapped_scripts_have_balanced_quoting() {
    for strict in [true, false] {
        let args = powershell_args("Get-Service -Name 'Spooler'", strict);
        assert_eq!(args.matches('"').count() % 2, 0, "unbalanced double quotes in: {args}");
        assert!(args.starts_with("-NoProfile"));
    }
}

#[test]
fn arguments_split_at_whitespace_outside_quotes() {
    assert_eq!(split_arguments("-c %a:%U:%G /etc/shadow"), ["-c", "%a:%U:%G", "/etc/shadow"]);
    assert_eq!(split_arguments("-o \"/tmp/my file\"  x"), ["-o", "/tmp/my file", "x"]);
    assert_eq!(split_arguments("a \"\" b"), ["a", "", "b"]);
    assert!(split_arguments("   ").is_empty());
}

#[test]
fn a_powershell_download_quotes_both_ends() {
    let d = Downloader { program: "powershell", kind: DownloaderKind::PowerShell };
    let (_p, args) = d.invocation("https://x/it's", "C:\\o.html");
    assert!(args.contains("-Uri 'https://x/it''s' -OutFile 'C:\\o.html'"), "{args}");
}

#[test]
fn a_failed_download_says_what_happened() {
    assert_eq!(classify_attempt("curl", None, Some("No such file (os error 2)")), Attempt::Missing);
    assert_eq!(
        classify_attempt("wget", Some(8), Some(" server said 404 \n")),
        Attempt::Failed("wget: server said 404".to_string())
    );
    assert_eq!(classify_attempt("curl", Some(0), None), Attempt::Failed("curl produced no file".to_string()));
    assert!(download_error(&vec![], &vec!["curl".to_string(), "wget".to_string()])
        .starts_with("no downloader is installed (tried curl, wget)"));
    assert_eq!(download_error(&vec!["a: x".to_string(), "b: y".to_string()], &vec![]), "a: x; b: y");
}
