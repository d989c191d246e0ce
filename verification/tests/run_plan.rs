use pinnacle_cypat::cli::{plan_run, start, Mode, Start};

fn args(list: &[&str]) -> Vec<String> {
    list.iter().map(|s| s.to_string()).collect()
}

#[test]
fn help_comes_before_everything() {
    assert_eq!(start(&args(&["--all", "-h"]), true), Start::Help);
    assert_eq!(start(&args(&["/?"]), false), Start::Help);
}

#[test]
fn a_bare_launch_opens_the_menu_only_for_a_person() {
    assert_eq!(start(&[], true), Start::Menu);
    assert_eq!(start(&[], false), Start::Continue);
    assert_eq!(start(&args(&["--tui"]), false), Start::Menu);
    assert_eq!(start(&args(&["--all"]), true), Start::Continue);
}

#[test]
fn a_bare_command_line_runs_nothing() {
    let plan = plan_run(&[]);
    assert_eq!(plan.mode, Mode::NothingSelected);
    assert!(!plan.tasks_named);
}

#[test]
fn a_mistyped_flag_stops_the_run() {
    let plan = plan_run(&args(&["--all", "--dryrun"]));
    assert_eq!(plan.mode, Mode::Unknown);
    assert_eq!(plan.unknown.as_deref(), Some("--dryrun"));
}

#[test]
fn all_schedules_every_task_in_table_order() {
    let plan = plan_run(&args(&["--all", "--dry-run", "--log", "run.txt"]));
    assert_eq!(plan.mode, Mode::Run);
    assert!(plan.dry_run);
    assert_eq!(plan.log.as_deref(), Some("run.txt"));
    assert_eq!(plan.sequential, (0..11).collect::<Vec<usize>>());
    assert_eq!(plan.concurrent, vec![11, 12, 13, 14]);
}

#[test]
fn named_tasks_run_in_table_order_not_typed_order() {
    let plan = plan_run(&args(&["--firewall", "-u", "--dns-settings"]));
    assert_eq!(plan.mode, Mode::Run);
    assert_eq!(plan.sequential, vec![2, 5]);
    assert_eq!(plan.concurrent, vec![13]);
    assert!(!plan.dry_run);
}

#[test]
fn reports_stop_before_the_run() {
    let plan = plan_run(&args(&["--auto-readme", "--directives"]));
    assert_eq!(plan.mode, Mode::DirectivesOnly);
    assert!(plan.auto_readme);
    let plan = plan_run(&args(&["--readme", "r.html", "--parse-readme", "--all"]));
    assert_eq!(plan.mode, Mode::ParseOnly);
    assert!(plan.tasks_named);
    assert_eq!(plan.readme.as_deref(), Some("r.html"));
}

#[test]
fn the_version_wins_over_a_run() {
    assert_eq!(plan_run(&args(&["--all", "-V"])).mode, Mode::Version);
}
