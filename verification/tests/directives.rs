use pinnacle_cypat::directives::{
    display, extract, manual, record, sentences, Handling, LedgerEntry, PATTERN_DETAILS,
    PATTERN_REGEXES, PATTERN_SUBJECTS,
};
use pinnacle_cypat::models::fix_record::FixOutcome;

/// A by-hand item is not a failure: it is recorded as skipped, and still not
/// compliant.
#[test]
fn manual_directives_are_skipped_rather_than_failed() {
    let recorded = record(&extract("<p>The display manager should remain set to GDM3.</p>"));
    let last = recorded.last().expect("a record was written");
    match last {
        LedgerEntry::Fix { outcome, .. } => {
            assert_eq!(*outcome, FixOutcome::Skipped);
            assert!(!outcome.is_compliant(), "it is still outstanding work");
        }
        LedgerEntry::Finding { .. } => panic!("a by-hand item was recorded as a finding"),
    }
}

#[test]
fn every_pattern_compiles_and_is_described() {
    for i in 0..PATTERN_REGEXES.len() {
        assert!(regex::Regex::new(PATTERN_REGEXES[i]).is_ok(), "{} does not compile", PATTERN_REGEXES[i]);
        assert!(!PATTERN_SUBJECTS[i].is_empty(), "{} has no subject", PATTERN_REGEXES[i]);
        assert!(!PATTERN_DETAILS[i].is_empty(), "{} does not say what the tool does", PATTERN_SUBJECTS[i]);
    }
}

#[test]
fn nothing_matches_ordinary_prose() {
    let ordinary = "<p>You work for a small accounting firm in Ohio. \
         The office has twelve employees and one server.</p>";
    assert!(extract(ordinary).is_empty());
}

#[test]
fn a_critical_service_sentence_is_recognised() {
    let html = "<p>Therefore, sshd is a critical service and needs to remain enabled.</p>";
    let found = extract(html);
    assert_eq!(found.len(), 1);
    assert_eq!(found[0].subject, "a critical service");
    assert!(matches!(found[0].handling, Handling::Automated(_)));
}

#[test]
fn the_ppa_requirement_is_reported_as_manual() {
    let html = "<p>Firefox must remain installed using the official Mozilla PPA, \
         and NOT as a SNAP package.</p>";
    let found = extract(html);
    assert!(!found.is_empty());
    assert!(
        found.iter().all(|d| d.handling.needs_a_person()),
        "the PPA requirement is not something this tool can satisfy"
    );
    assert!(!manual(&found).is_empty());
}

#[test]
fn an_instruction_satisfied_by_inaction_says_so() {
    let html = "<p>Please do not change the time zone, date, or time on this image.</p>";
    let found = extract(html);
    assert_eq!(found.len(), 1);
    assert_eq!(found[0].handling.tag(), "NOT TOUCHED");
    assert!(!found[0].handling.needs_a_person());
}

#[test]
fn a_repeated_instruction_is_reported_once() {
    let html = "<p>Do not stop or disable the CCS Client service or process.</p>\
         <p>Remember: do not stop or disable the CCS Client service.</p>";
    assert_eq!(extract(html).len(), 1);
}

#[test]
fn sentences_are_split_and_normalised() {
    let split = sentences("First sentence here.  Second   sentence here.");
    assert_eq!(split, ["First sentence here", "Second sentence here."]);
}

#[test]
fn a_sentence_wrapped_across_lines_stays_whole() {
    let html = "<p>Please add the\nuser \"candace\" to the\n\"firesidegirls\" group.</p>";
    let found = extract(html);
    assert_eq!(found.len(), 1, "the wrapped sentence was not matched");
    assert_eq!(found[0].subject, "a group membership");
}

#[test]
fn short_fragments_are_not_sentences() {
    assert!(sentences("Yes. No. OK.").is_empty());
}

#[test]
fn the_excerpt_shows_the_phrase_that_matched_not_the_start_of_the_sentence() {
    let noise = "alice bob carol dave erin frank grace heidi ivan judy ".repeat(4);
    let html = format!(
        "<p>{noise} you are NOT required to change the password of the primary, \
         auto-login, user account.</p>"
    );
    let found = extract(&html);
    assert_eq!(found.len(), 1);
    assert!(
        found[0].sentence.contains("password of the primary"),
        "the excerpt missed the instruction: {}",
        found[0].sentence
    );
    assert!(
        found[0].sentence.starts_with("..."),
        "an excerpt taken from the middle should say so: {}",
        found[0].sentence
    );
}

#[test]
fn one_sentence_yields_one_directive() {
    let html = "<p>Firefox must remain installed using the official Mozilla PPA, \
         and NOT as a SNAP package.</p>";
    assert_eq!(extract(html).len(), 1);
}

#[test]
fn an_excerpt_never_splits_a_multi_byte_character() {
    let padding = "é".repeat(300);
    let html = format!("<p>{padding} do not change the time zone here.</p>");
    let found = extract(&html);
    assert_eq!(found.len(), 1);
    assert!(found[0].sentence.contains("time zone"));
}

#[test]
fn ordinary_prose_produces_no_directives() {
    let html = "<html><body><h1>Round 4</h1>\
        <p>You are the administrator for a small accounting firm in Ohio. \
        The office has twelve employees, one server and a printer nobody \
        has been able to configure since 2019.</p></body></html>";
    assert!(extract(html).is_empty());
}

#[test]
fn handling_tags_and_details() {
    assert_eq!(Handling::Automated("a").tag(), "AUTOMATED");
    assert_eq!(Handling::SafeByInaction("b").tag(), "NOT TOUCHED");
    assert_eq!(Handling::Manual("c").tag(), "BY HAND");
    assert_eq!(Handling::SafeByInaction("why").detail(), "why");
    assert!(Handling::Manual("c").needs_a_person());
    assert!(!Handling::Automated("a").needs_a_person());
}

#[test]
fn a_short_sentence_is_quoted_whole() {
    let found = extract("<p>Please do not disable JavaScript in any browser.</p>");
    assert_eq!(found.len(), 1);
    assert_eq!(found[0].sentence, "Please do not disable JavaScript in any browser.");
    assert_eq!(found[0].subject, "JavaScript");
}

#[test]
fn every_excerpt_is_bounded() {
    let noise = "word ".repeat(100);
    let html = format!("<p>{noise} do not change the time zone {noise} end.</p>");
    let found = extract(&html);
    assert_eq!(found.len(), 1);
    assert!(found[0].sentence.starts_with("..."));
    assert!(found[0].sentence.ends_with("..."));
    assert!(found[0].sentence.chars().count() <= 200);
}

#[test]
fn the_report_groups_by_who_acts() {
    assert_eq!(display(&[]), vec!["No round-specific instructions recognised in this README.".to_string()]);
    let found = extract(
        "<p>Please do not change the time zone on this image.</p>\
         <p>The display manager should remain set to GDM3.</p>",
    );
    let lines = display(&found);
    assert_eq!(lines[1], "What this round does differently");
    assert!(lines.contains(&"Not touched - no task has code that would break these".to_string()));
    assert!(lines.contains(&"Do these by hand (1) - this tool cannot, and a missed one is a lost item".to_string()));
    let last = lines.last().unwrap();
    assert_eq!(last, "      \"The display manager should remain set to GDM3.\"");
}

#[test]
fn findings_are_recorded_as_compliant() {
    let recorded = record(&extract("<p>Please do not disable JavaScript in any browser.</p>"));
    assert_eq!(recorded.len(), 1);
    match &recorded[0] {
        LedgerEntry::Finding { target, compliant, note, .. } => {
            assert_eq!(*target, "JavaScript");
            assert!(*compliant);
            assert_eq!(*note, "no task changes browser settings");
        }
        LedgerEntry::Fix { .. } => panic!("a finding was recorded as a fix"),
    }
}
