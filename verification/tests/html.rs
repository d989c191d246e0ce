use pinnacle_cypat::html::{collapsed_walk, is_block_name, sections, Event};
use pinnacle_cypat::html::{
    broken_texts_of, headline_texts, text, text_with_breaks, texts_of, title, try_broken_texts_of,
    try_texts_of,
};

/// The two shapes that produced "Unknown" for the operating system.
#[test]
fn markup_and_entities_do_not_run_words_together() {
    assert_eq!(text("<h1>Windows <b>10</b> README</h1>"), "Windows 10 README");
    assert_eq!(text("<p>Windows&nbsp;10</p>"), "Windows 10");
    assert_eq!(text("<p>a\n\n  b\tc</p>"), "a b c");
}

#[test]
fn script_and_style_contribute_no_text() {
    let html = "<style>p{color:red}</style><p>real</p><script>var x=1;</script>";
    assert_eq!(text(html), "real");
}

/// A user list written with <br> or one <p> each must not collapse into a
/// single line.
#[test]
fn block_elements_and_br_become_line_breaks() {
    assert_eq!(text_with_breaks("<p>alice<br>bob<br/>carol</p>"), "alice\nbob\ncarol");
    assert_eq!(text_with_breaks("<p>alice</p><p>bob</p>"), "alice\nbob");
    assert_eq!(text_with_breaks("<ul><li>a</li><li>b</li></ul>"), "a\nb");
}

#[test]
fn malformed_markup_still_parses() {
    assert_eq!(text_with_breaks("<ul><li>a<li>b</ul>"), "a\nb");
    assert_eq!(text("<p class=x>one<p>two</b>"), "one two");
}

#[test]
fn the_title_prefers_the_first_heading() {
    assert_eq!(
        title("<html><head><title>Round 1</title></head><body><h1>Windows 11</h1></body></html>")
            .as_deref(),
        Some("Windows 11")
    );
    assert_eq!(
        title("<html><head><title>Round 1</title></head><body></body></html>").as_deref(),
        Some("Round 1")
    );
    assert_eq!(title("<p>no headings</p>"), None);
}

#[test]
fn texts_of_returns_each_match_separately() {
    assert_eq!(
        texts_of("<p>one</p><p></p><p>two</p>", "p"),
        vec!["one".to_string(), "two".to_string()]
    );
}

#[test]
fn an_empty_first_heading_falls_back_to_the_title() {
    assert_eq!(
        title("<html><head><title>Round 2</title></head><body><h1> </h1><h1>Later</h1></body></html>")
            .as_deref(),
        Some("Round 2")
    );
}

#[test]
fn headlines_come_from_the_title_and_first_level_headings() {
    let html = "<html><head><title>Round 3</title></head><body><h1>Ubuntu 22</h1>\
                <h2>Not a headline</h2><h1>  </h1></body></html>";
    assert_eq!(headline_texts(html), vec!["Round 3".to_string(), "Ubuntu 22".to_string()]);
}

#[test]
fn broken_texts_keep_the_lines_of_each_match() {
    let html = "<div><p>alice</p><p> bob </p></div><div></div><div>carol<br>dave</div>";
    assert_eq!(
        broken_texts_of(html, "div"),
        vec!["alice\nbob".to_string(), "carol\ndave".to_string()]
    );
}

#[test]
fn element_text_keeps_script_text_but_the_walk_does_not() {
    let html = "<div>a<script>b</script></div>";
    assert_eq!(texts_of(html, "div"), vec!["ab".to_string()]);
    assert_eq!(broken_texts_of(html, "div"), vec!["a".to_string()]);
}

#[test]
fn a_selector_that_does_not_parse_gives_nothing() {
    assert_eq!(try_texts_of("<p>x</p>", "p[["), None);
    assert_eq!(try_broken_texts_of("<p>x</p>", ":::"), None);
    assert_eq!(try_texts_of("<p>x</p>", "p"), Some(vec!["x".to_string()]));
}

#[test]
fn text_of_an_empty_document_is_empty() {
    assert_eq!(text(""), "");
    assert_eq!(text_with_breaks("<p></p><p>  </p>"), "");
}

#[test]
fn a_walk_over_part_of_a_document_reads_as_text() {
    assert!(is_block_name("li"));
    assert!(!is_block_name("b"));
    let events = vec![
        Event::Open("p".to_string()),
        Event::Text(" Competition ".to_string()),
        Event::Open("b".to_string()),
        Event::Text("Scenario".to_string()),
        Event::Close("b".to_string()),
        Event::Close("p".to_string()),
        Event::Open("script".to_string()),
        Event::Text("x = 1".to_string()),
        Event::Close("script".to_string()),
        Event::Other,
    ];
    assert_eq!(collapsed_walk(&events, true), "Competition Scenario");
    assert_eq!(collapsed_walk(&events, false), "Competition Scenario");
}

#[test]
fn sections_run_from_one_heading_to_the_next() {
    let html = "<h2>First</h2><p>one</p><h2>Second</h2><p>two</p><p>three</p>";
    let sections = sections(html);
    assert_eq!(sections.len(), 2);
    assert_eq!(sections[0].heading, "First");
    assert_eq!(text(&sections[0].html), "one");
    assert_eq!(sections[1].heading, "Second");
    assert_eq!(text(&sections[1].html), "two three");
}

/// An unclosed heading nests the section inside itself. The heading must
/// still be the heading, and the section must still have a body.
#[test]
fn an_unclosed_heading_does_not_swallow_its_section() {
    let html =
        "<h2>Competition Scenario<p>You were hired.<p>Disable Telnet.<h2>Next</h2><p>after</p>";
    let sections = sections(html);
    assert_eq!(sections[0].heading, "Competition Scenario");
    assert_eq!(text(&sections[0].html), "You were hired. Disable Telnet.");
    assert_eq!(sections[1].heading, "Next");
    assert_eq!(text(&sections[1].html), "after");
}

#[test]
fn a_heading_without_text_makes_no_section() {
    let sections = sections("<h2> </h2><p>lost</p><h2>Kept</h2><p>body</p>");
    assert_eq!(sections.len(), 1);
    assert_eq!(sections[0].heading, "Kept");
}
