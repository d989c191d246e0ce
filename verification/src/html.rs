//! Reading README markup.
//!
//! The HTML5 parsing algorithm (with its error recovery) and CSS selector
//! matching are `scraper`'s. What comes back is flattened here into the
//! opening and closing edges of a pre-order walk, and everything this crate
//! decides about markup is done on that walk: which elements are machinery
//! rather than content, where a block element ends a line, how whitespace is
//! collapsed, which heading is the title, and which matches are empty.
use vstd::prelude::*;
use ego_tree::iter::Edge;
use ego_tree::NodeRef;
use scraper::{ElementRef, Html, Node, Selector};
use crate::text::{
    any_eq, any_eq_exec, chars_of, collapse, collapse_chars, extend, filter_map, has_no, is_ws,
    join, join_chars, lemma_filter_map_source, lemma_join_single_spaced, lemma_lines_of_joined,
    lemma_lines_plain, lemma_trim_idempotent, lemma_trim_parts, lemma_words_plain, lines,
    lines_of, seqs, single_spaced, string_of, strs, trim, trim_chars, views, words,
};

verus! {

/// Elements whose boundaries are line breaks when a README is read as text.
///
/// A user list written one-per-`<p>` or separated by `<br>` has to come out as
/// separate lines; run together, the whole block reads as a single over-long
/// username and the README yields no users at all.
pub const BLOCK_ELEMENTS: [&'static str; 34] = [
    "address",
    "article",
    "aside",
    "blockquote",
    "br",
    "div",
    "dd",
    "dl",
    "dt",
    "fieldset",
    "figcaption",
    "figure",
    "footer",
    "form",
    "h1",
    "h2",
    "h3",
    "h4",
    "h5",
    "h6",
    "header",
    "hr",
    "li",
    "main",
    "nav",
    "ol",
    "p",
    "pre",
    "section",
    "table",
    "td",
    "th",
    "tr",
    "ul",
];

/// Elements whose text is markup machinery, not content.
pub const IGNORED_ELEMENTS: [&'static str; 5] = ["script", "style", "head", "template", "noscript"];

// ---------------------------------------------------------------------------
// The walk
// ---------------------------------------------------------------------------

/// One edge of a pre-order walk over a parsed document: an element opening
/// or closing (by its tag name), the text of a text node, or any other node
/// (the document itself, a doctype, a comment, or the close of a text node).
#[derive(Debug)]
pub enum Event {
    Open(String),
    Close(String),
    Text(String),
    Other,
}

/// An [`Event`] with its strings as character sequences.
pub enum EventView {
    Open(Seq<char>),
    Close(Seq<char>),
    Text(Seq<char>),
    Other,
}

impl View for Event {
    type V = EventView;

    open spec fn view(&self) -> EventView {
        match self {
            Event::Open(n) => EventView::Open(n@),
            Event::Close(n) => EventView::Close(n@),
            Event::Text(t) => EventView::Text(t@),
            Event::Other => EventView::Other,
        }
    }
}

pub open spec fn events_view(v: Seq<Event>) -> Seq<EventView> {
    v.map_values(|e: Event| e@)
}

pub open spec fn nested_view(v: Seq<Vec<Event>>) -> Seq<Seq<EventView>> {
    v.map_values(|x: Vec<Event>| events_view(x@))
}

/// The walk over the whole document that `scraper::Html::parse_document`
/// builds from `html`: the HTML5 tree construction, which nothing here
/// spells out.
pub uninterp spec fn document_events(html: Seq<char>) -> Seq<EventView>;

/// Does `scraper::Selector::parse` accept `css`?
pub uninterp spec fn selector_parses(css: Seq<char>) -> bool;

/// The elements of the parsed `html` that `scraper::Html::select` yields for
/// the selector `css`, in its order, each as the walk over its own subtree.
pub uninterp spec fn selected_events(html: Seq<char>, css: Seq<char>) -> Seq<Seq<EventView>>;

/// `scraper::Html::parse_document`, walked from the root with
/// `ego_tree`'s `traverse`: each edge becomes one [`Event`].
#[verifier::external_body]
fn parse_events(html: &str) -> (r: Vec<Event>)
    ensures
        events_view(r@) == document_events(html@),
{
    let doc = scraper::Html::parse_document(html);
    let mut out = Vec::new();
    for edge in doc.tree.root().traverse() {
        out.push(match edge {
            Edge::Open(n) => match n.value() {
                Node::Element(e) => Event::Open(e.name().to_string()),
                Node::Text(t) => Event::Text(t.to_string()),
                _ => Event::Other,
            },
            Edge::Close(n) => n.value().as_element().map_or(Event::Other, |e| Event::Close(e.name().to_string())),
        });
    }
    out
}

/// `scraper::Selector::parse` and `scraper::Html::select`: `None` where the
/// selector does not parse, else the walk over each matched element.
#[verifier::external_body]
fn select_events(html: &str, css: &str) -> (r: Option<Vec<Vec<Event>>>)
    ensures
        r is Some == selector_parses(css@),
        r matches Some(v) ==> nested_view(v@) == selected_events(html@, css@),
{
    let doc = scraper::Html::parse_document(html);
    let selector = scraper::Selector::parse(css).ok()?;
    let mut out = Vec::new();
    for element in doc.select(&selector) {
        let mut events = Vec::new();
        for edge in element.traverse() {
            events.push(match edge {
                Edge::Open(n) => match n.value() { Node::Element(e) => Event::Open(e.name().to_string()), Node::Text(t) => Event::Text(t.to_string()), _ => Event::Other },
                Edge::Close(n) => n.value().as_element().map_or(Event::Other, |e| Event::Close(e.name().to_string())),
            });
        }
        out.push(events);
    }
    Some(out)
}

pub open spec fn is_block(name: Seq<char>) -> bool {
    any_eq(views(BLOCK_ELEMENTS@), name)
}

pub open spec fn is_ignored(name: Seq<char>) -> bool {
    any_eq(views(IGNORED_ELEMENTS@), name)
}

/// Does `out` not end in a line break (an empty text does not)?
pub open spec fn open_line(out: Seq<char>) -> bool {
    out.len() == 0 || out.last() != '\n'
}

/// One edge of the walk. The state is the text so far and how deep the walk
/// is inside an ignored element (0: not inside one). Text is kept; with
/// `breaks`, a block element starts on a fresh line (unless nothing has been
/// written yet) and ends its line.
pub open spec fn walk_step(st: (Seq<char>, nat), e: EventView, breaks: bool) -> (Seq<char>, nat) {
    let (out, skip) = st;
    if skip > 0 {
        match e {
            EventView::Open(_) => (out, skip + 1),
            EventView::Close(_) => (out, (skip - 1) as nat),
            _ => st,
        }
    } else {
        match e {
            EventView::Open(name) => if is_ignored(name) {
                (out, 1)
            } else if breaks && is_block(name) && out.len() > 0 && open_line(out) {
                (out.push('\n'), 0)
            } else {
                st
            },
            EventView::Close(name) => if breaks && is_block(name) && open_line(out) {
                (out.push('\n'), 0)
            } else {
                st
            },
            EventView::Text(t) => (out + t, 0),
            EventView::Other => st,
        }
    }
}

pub open spec fn walk_state(events: Seq<EventView>, breaks: bool) -> (Seq<char>, nat)
    decreases events.len(),
{
    if events.len() == 0 {
        (Seq::empty(), 0)
    } else {
        walk_step(walk_state(events.drop_last(), breaks), events.last(), breaks)
    }
}

/// The visible text a walk writes.
pub open spec fn rendered(events: Seq<EventView>, breaks: bool) -> Seq<char> {
    walk_state(events, breaks).0
}

fn is_block_exec(name: &String) -> (b: bool)
    ensures
        b == is_block(name@),
{
    any_eq_exec(&BLOCK_ELEMENTS, &chars_of(name.as_str()))
}

fn is_ignored_exec(name: &String) -> (b: bool)
    ensures
        b == is_ignored(name@),
{
    any_eq_exec(&IGNORED_ELEMENTS, &chars_of(name.as_str()))
}

fn walk(events: &Vec<Event>, breaks: bool) -> (r: Vec<char>)
    ensures
        r@ == rendered(events_view(events@), breaks),
{
    let ghost ev = events_view(events@);
    let mut out: Vec<char> = Vec::new();
    let mut skip: usize = 0;
    let n = events.len();
    let mut i: usize = 0;
    while i < n
        invariant
            i <= n == events.len(),
            ev == events_view(events@),
            skip <= i,
            walk_state(ev.take(i as int), breaks) == (out@, skip as nat),
        decreases n - i,
    {
        proof {
            assert(ev.take(i + 1).drop_last() =~= ev.take(i as int));
            assert(ev.take(i + 1).last() == events@[i as int]@);
        }
        if skip > 0 {
            match &events[i] {
                Event::Open(_) => {
                    skip = skip + 1;
                },
                Event::Close(_) => {
                    skip = skip - 1;
                },
                _ => {},
            }
        } else {
            match &events[i] {
                Event::Open(name) => {
                    if is_ignored_exec(name) {
                        skip = 1;
                    } else if breaks && is_block_exec(name) && out.len() > 0 && out[out.len()
                        - 1] != '\n' {
                        out.push('\n');
                    }
                },
                Event::Close(name) => {
                    if breaks && is_block_exec(name) && (out.len() == 0 || out[out.len() - 1]
                        != '\n') {
                        out.push('\n');
                    }
                },
                Event::Text(t) => {
                    let ghost before = out@;
                    extend(&mut out, &chars_of(t.as_str()));
                    assert(out@ == before + t@);
                },
                Event::Other => {},
            }
        }
        i = i + 1;
    }
    proof {
        assert(ev.take(n as int) =~= ev);
    }
    out
}

/// The text of every text node of a walk, run together, as
/// `ElementRef::text` yields it.
pub open spec fn element_text(events: Seq<EventView>) -> Seq<char>
    decreases events.len(),
{
    if events.len() == 0 {
        Seq::empty()
    } else {
        element_text(events.drop_last()) + match events.last() {
            EventView::Text(t) => t,
            _ => Seq::empty(),
        }
    }
}

fn all_text(events: &Vec<Event>) -> (r: Vec<char>)
    ensures
        r@ == element_text(events_view(events@)),
{
    let ghost ev = events_view(events@);
    let mut out: Vec<char> = Vec::new();
    let n = events.len();
    let mut i: usize = 0;
    while i < n
        invariant
            i <= n == events.len(),
            ev == events_view(events@),
            out@ == element_text(ev.take(i as int)),
        decreases n - i,
    {
        proof {
            assert(ev.take(i + 1).drop_last() =~= ev.take(i as int));
            assert(ev.take(i + 1).last() == events@[i as int]@);
        }
        match &events[i] {
            Event::Text(t) => {
                let ghost before = out@;
                extend(&mut out, &chars_of(t.as_str()));
                assert(out@ == before + t@);
            },
            _ => {
                assert(out@ =~= out@ + Seq::<char>::empty());
            },
        }
        i = i + 1;
    }
    proof {
        assert(ev.take(n as int) =~= ev);
    }
    out
}

// ---------------------------------------------------------------------------
// Lines
// ---------------------------------------------------------------------------

/// A line as a reader sees it: trimmed, and only if anything is left.
pub open spec fn kept_line(l: Seq<char>) -> Option<Seq<char>> {
    if trim(l).len() > 0 {
        Some(trim(l))
    } else {
        None
    }
}

/// `lines().map(str::trim).filter(|l| !l.is_empty()).join("\n")`.
pub open spec fn visible_lines(s: Seq<char>) -> Seq<char> {
    join(filter_map(lines(s), |l: Seq<char>| kept_line(l)), seq!['\n'])
}

fn visible_lines_exec(v: &Vec<char>) -> (r: Vec<char>)
    ensures
        r@ == visible_lines(v@),
{
    let all = lines_of(v);
    let ghost ls = seqs(all@);
    let mut kept: Vec<Vec<char>> = Vec::new();
    let n = all.len();
    let mut i: usize = 0;
    while i < n
        invariant
            i <= n == all.len(),
            ls == seqs(all@),
            seqs(kept@) == filter_map(ls.take(i as int), |l: Seq<char>| kept_line(l)),
        decreases n - i,
    {
        proof {
            assert(ls.take(i + 1).drop_last() =~= ls.take(i as int));
            assert(ls.take(i + 1).last() == all@[i as int]@);
        }
        let t = trim_chars(&all[i]);
        if t.len() > 0 {
            let ghost before = seqs(kept@);
            kept.push(t);
            proof {
                assert(seqs(kept@) =~= before.push(trim(all@[i as int]@)));
            }
        }
        i = i + 1;
    }
    proof {
        assert(ls.take(n as int) =~= ls);
    }
    let nl = vec!['\n'];
    proof {
        assert(nl@ =~= seq!['\n']);
    }
    join_chars(&kept, &nl)
}

// ---------------------------------------------------------------------------
// Reading a document
// ---------------------------------------------------------------------------

fn raw_text(html: &str, breaks: bool) -> (r: Vec<char>)
    ensures
        r@ == rendered(document_events(html@), breaks),
{
    walk(&parse_events(html), breaks)
}

/// The visible text, with runs of whitespace collapsed to single spaces.
///
/// Entities are decoded and element boundaries separate words:
/// `Windows&nbsp;10` and `Windows <b>10</b>` both come out as `Windows 10`.
/// Block boundaries are written as line breaks and then collapsed, so
/// `<p>one</p><p>two</p>` reads as `one two`; inline elements still join, so
/// `Windows<b>10</b>` is `Windows10`, which is what a browser shows.
pub fn text(html: &str) -> (r: String)
    ensures
        r@ == collapse(rendered(document_events(html@), true)),
{
    string_of(&collapse_chars(&raw_text(html, true)))
}

/// The visible text with block elements and `<br>` rendered as line breaks.
///
/// Leading and trailing space is trimmed from each line and empty lines are
/// dropped, so the result is the lines a reader would see.
pub fn text_with_breaks(html: &str) -> (r: String)
    ensures
        r@ == visible_lines(rendered(document_events(html@), true)),
{
    string_of(&visible_lines_exec(&raw_text(html, true)))
}

// ---------------------------------------------------------------------------
// Selections
// ---------------------------------------------------------------------------

/// What a selector selects, or `None` where it does not parse.
pub open spec fn selection(html: Seq<char>, css: Seq<char>) -> Option<Seq<Seq<EventView>>> {
    if selector_parses(css) {
        Some(selected_events(html, css))
    } else {
        None
    }
}

/// A match's text, whitespace collapsed, if anything is left.
pub open spec fn collapsed_text(m: Seq<EventView>) -> Option<Seq<char>> {
    let t = collapse(element_text(m));
    if t.len() > 0 {
        Some(t)
    } else {
        None
    }
}

/// A match's text with its lines kept, if anything is left.
pub open spec fn broken_text(m: Seq<EventView>) -> Option<Seq<char>> {
    let t = visible_lines(rendered(m, true));
    if t.len() > 0 {
        Some(t)
    } else {
        None
    }
}

pub open spec fn texts_in(ms: Seq<Seq<EventView>>) -> Seq<Seq<char>> {
    filter_map(ms, |m: Seq<EventView>| collapsed_text(m))
}

pub open spec fn broken_texts_in(ms: Seq<Seq<EventView>>) -> Seq<Seq<char>> {
    filter_map(ms, |m: Seq<EventView>| broken_text(m))
}

fn collapsed_text_exec(m: &Vec<Event>) -> (r: Vec<char>)
    ensures
        r@ == collapse(element_text(events_view(m@))),
{
    collapse_chars(&all_text(m))
}

fn texts_in_exec(ms: &Vec<Vec<Event>>) -> (r: Vec<String>)
    ensures
        strs(r@) == texts_in(nested_view(ms@)),
{
    let ghost all = nested_view(ms@);
    let mut out: Vec<String> = Vec::new();
    let n = ms.len();
    let mut i: usize = 0;
    while i < n
        invariant
            i <= n == ms.len(),
            all == nested_view(ms@),
            strs(out@) == texts_in(all.take(i as int)),
        decreases n - i,
    {
        proof {
            assert(all.take(i + 1).drop_last() =~= all.take(i as int));
            assert(all.take(i + 1).last() == events_view(ms@[i as int]@));
        }
        let t = collapsed_text_exec(&ms[i]);
        if t.len() > 0 {
            let ghost before = strs(out@);
            out.push(string_of(&t));
            proof {
                assert(strs(out@) =~= before.push(t@));
            }
        }
        i = i + 1;
    }
    proof {
        assert(all.take(n as int) =~= all);
    }
    out
}

fn broken_texts_in_exec(ms: &Vec<Vec<Event>>) -> (r: Vec<String>)
    ensures
        strs(r@) == broken_texts_in(nested_view(ms@)),
{
    let ghost all = nested_view(ms@);
    let mut out: Vec<String> = Vec::new();
    let n = ms.len();
    let mut i: usize = 0;
    while i < n
        invariant
            i <= n == ms.len(),
            all == nested_view(ms@),
            strs(out@) == broken_texts_in(all.take(i as int)),
        decreases n - i,
    {
        proof {
            assert(all.take(i + 1).drop_last() =~= all.take(i as int));
            assert(all.take(i + 1).last() == events_view(ms@[i as int]@));
        }
        let t = visible_lines_exec(&walk(&ms[i], true));
        if t.len() > 0 {
            let ghost before = strs(out@);
            out.push(string_of(&t));
            proof {
                assert(strs(out@) =~= before.push(t@));
            }
        }
        i = i + 1;
    }
    proof {
        assert(all.take(n as int) =~= all);
    }
    out
}

/// The text of every element matching `css`, in document order, whitespace
/// collapsed.
///
/// Empty matches are dropped: a `<p>` used for spacing is not a paragraph of
/// the document as far as any caller here is concerned.
pub fn texts_of(html: &str, css: &str) -> (r: Vec<String>)
    requires
        selector_parses(css@),
    ensures
        strs(r@) == texts_in(selected_events(html@, css@)),
{
    match select_events(html, css) {
        Some(ms) => texts_in_exec(&ms),
        None => Vec::new(),
    }
}

/// [`texts_of`] for a selector that may not parse: `None` where it does not.
pub fn try_texts_of(html: &str, css: &str) -> (r: Option<Vec<String>>)
    ensures
        r is Some == selector_parses(css@),
        r matches Some(v) ==> strs(v@) == texts_in(selected_events(html@, css@)),
{
    match select_events(html, css) {
        Some(_) => Some(texts_of(html, css)),
        None => None,
    }
}

/// The text of every element matching `css`, with line breaks preserved:
/// each match is read as [`text_with_breaks`] reads a document.
pub fn broken_texts_of(html: &str, css: &str) -> (r: Vec<String>)
    requires
        selector_parses(css@),
    ensures
        strs(r@) == broken_texts_in(selected_events(html@, css@)),
{
    match select_events(html, css) {
        Some(ms) => broken_texts_in_exec(&ms),
        None => Vec::new(),
    }
}

/// [`broken_texts_of`] for a selector that may not parse: `None` where it
/// does not.
pub fn try_broken_texts_of(html: &str, css: &str) -> (r: Option<Vec<String>>)
    ensures
        r is Some == selector_parses(css@),
        r matches Some(v) ==> strs(v@) == broken_texts_in(selected_events(html@, css@)),
{
    match select_events(html, css) {
        Some(_) => Some(broken_texts_of(html, css)),
        None => None,
    }
}

/// The text of every heading that names the image (`title` and `h1`), most
/// authoritative first.
///
/// The title and first heading name the image on essentially every official
/// README, so they are consulted before the body: a whole-document scan
/// matches prose such as "do not go back to Windows 10" in a Windows 11 image.
pub fn headline_texts(html: &str) -> (r: Vec<String>)
    ensures
        strs(r@) == match selection(html@, "title, h1"@) {
            Some(ms) => texts_in(ms),
            None => Seq::empty(),
        },
{
    match select_events(html, "title, h1") {
        Some(ms) => texts_in_exec(&ms),
        None => Vec::new(),
    }
}

/// The collapsed text of the first match, if there is one and it is not
/// empty.
pub open spec fn first_text(sel: Option<Seq<Seq<EventView>>>) -> Option<Seq<char>> {
    match sel {
        Some(ms) => if ms.len() > 0 {
            collapsed_text(ms[0])
        } else {
            None
        },
        None => None,
    }
}

pub open spec fn title_spec(html: Seq<char>) -> Option<Seq<char>> {
    match first_text(selection(html, "h1"@)) {
        Some(t) => Some(t),
        None => first_text(selection(html, "title"@)),
    }
}

fn first_text_exec(html: &str, css: &str) -> (r: Option<Vec<char>>)
    ensures
        match r {
            Some(t) => first_text(selection(html@, css@)) == Some(t@),
            None => first_text(selection(html@, css@)) is None,
        },
{
    match select_events(html, css) {
        Some(ms) => {
            if ms.len() > 0 {
                let t = collapsed_text_exec(&ms[0]);
                if t.len() > 0 {
                    return Some(t);
                }
            }
            None
        },
        None => None,
    }
}

/// The document title: the first `<h1>`, falling back to `<title>`. A first
/// heading with no text is passed over.
pub fn title(html: &str) -> (r: Option<String>)
    ensures
        match r {
            Some(t) => title_spec(html@) == Some(t@),
            None => title_spec(html@) is None,
        },
{
    match first_text_exec(html, "h1") {
        Some(t) => Some(string_of(&t)),
        None => match first_text_exec(html, "title") {
            Some(t) => Some(string_of(&t)),
            None => None,
        },
    }
}

/// One `<h2>` section: its heading, and the markup up to the next `<h2>`.
pub struct Section {
    pub heading: String,
    pub html: String,
}

pub open spec fn section_views(v: Seq<Section>) -> Seq<(Seq<char>, Seq<char>)> {
    v.map_values(|s: Section| (s.heading@, s.html@))
}

/// One child, or one following sibling, of an `<h2>`: for an element, its
/// tag name and markup; for a text node, its text.
pub struct H2Part {
    pub element: Option<(String, String)>,
    pub text: Option<String>,
}

/// An [`H2Part`] as sequences.
pub struct PartView {
    pub element: Option<(Seq<char>, Seq<char>)>,
    pub text: Option<Seq<char>>,
}

pub open spec fn part_view(p: H2Part) -> PartView {
    PartView {
        element: match p.element {
            Some((n, m)) => Some((n@, m@)),
            None => None,
        },
        text: match p.text {
            Some(t) => Some(t@),
            None => None,
        },
    }
}

pub open spec fn part_views(v: Seq<H2Part>) -> Seq<PartView> {
    v.map_values(|p: H2Part| part_view(p))
}

pub open spec fn parts_view(v: Seq<(Vec<H2Part>, Vec<H2Part>)>) -> Seq<(Seq<PartView>, Seq<PartView>)> {
    v.map_values(|p: (Vec<H2Part>, Vec<H2Part>)| (part_views(p.0@), part_views(p.1@)))
}

pub open spec fn walks_view(v: Seq<Vec<Vec<Event>>>) -> Seq<Seq<Seq<EventView>>> {
    v.map_values(|w: Vec<Vec<Event>>| nested_view(w@))
}

/// For each `<h2>` of the document `scraper::Html::parse_document` builds
/// from `html`, in document order: its children, then its following
/// siblings, each as an [`H2Part`].
pub uninterp spec fn h2_parts(html: Seq<char>) -> Seq<(Seq<PartView>, Seq<PartView>)>;

/// For each `<h2>` of the parsed `html`, in document order, the walk over
/// each of its children.
pub uninterp spec fn h2_child_walks(html: Seq<char>) -> Seq<Seq<Seq<EventView>>>;

/// `scraper::Html::parse_document` and `Html::select` for `h2`, with each
/// match's `children` and `next_siblings`: an element's name and
/// `ElementRef::html`, a text node's text.
#[verifier::external_body]
fn h2_parts_of(html: &str) -> (r: Vec<(Vec<H2Part>, Vec<H2Part>)>)
    ensures
        parts_view(r@) == h2_parts(html@),
{
    let doc = Html::parse_document(html);
    let Ok(h2) = Selector::parse("h2") else { return Vec::new() };
    let part = |n: NodeRef<Node>| H2Part {
        element: ElementRef::wrap(n).map(|e| (e.value().name().to_string(), e.html())),
        text: n.value().as_text().map(|t| t.to_string()),
    };
    doc.select(&h2).map(|e| (e.children().map(part).collect(), e.next_siblings().map(part).collect())).collect()
}

/// `scraper::Html::parse_document` and `Html::select` for `h2`, with each
/// match's `children` walked with `traverse`, each edge one [`Event`].
#[verifier::external_body]
fn h2_child_walks_of(html: &str) -> (r: Vec<Vec<Vec<Event>>>)
    ensures
        walks_view(r@) == h2_child_walks(html@),
{
    let doc = Html::parse_document(html);
    let Ok(h2) = Selector::parse("h2") else { return Vec::new() };
    doc.select(&h2).map(|e| e.children().map(|c| c.traverse().map(|edge| match edge {
        Edge::Open(n) => match n.value() { Node::Element(e) => Event::Open(e.name().into()), Node::Text(t) => Event::Text(t.to_string()), _ => Event::Other },
        Edge::Close(n) => n.value().as_element().map_or(Event::Other, |e| Event::Close(e.name().into())),
    }).collect()).collect()).collect()
}

/// The tag name of a part that is an element.
pub open spec fn element_name(p: PartView) -> Option<Seq<char>> {
    match p.element {
        Some((n, m)) => Some(n),
        None => None,
    }
}

/// What a part adds to a section's markup: an element's markup, a text
/// node's text, and nothing for anything else.
pub open spec fn piece(p: PartView) -> Seq<char> {
    match p.element {
        Some((n, m)) => m,
        None => match p.text {
            Some(t) => t,
            None => Seq::empty(),
        },
    }
}

/// Does this child of an `<h2>` start the section body? A block element
/// does: an unclosed `<h2>` nests the paragraph after it inside itself.
pub open spec fn starts_body(p: PartView) -> bool {
    element_name(p) matches Some(n) && is_block(n)
}

/// The first child at or after `i` that starts the body, or the end.
pub open spec fn first_block(cs: Seq<PartView>, i: nat) -> nat
    decreases cs.len() - i,
{
    if i >= cs.len() {
        cs.len()
    } else if starts_body(cs[i as int]) {
        i
    } else {
        first_block(cs, i + 1)
    }
}

/// The first sibling at or after `i` that is the next `<h2>`, or the end.
pub open spec fn next_h2(ss: Seq<PartView>, i: nat) -> nat
    decreases ss.len() - i,
{
    if i >= ss.len() {
        ss.len()
    } else if element_name(ss[i as int]) == Some("h2"@) {
        i
    } else {
        next_h2(ss, i + 1)
    }
}

/// The walk over child `k`, or nothing past the last.
pub open spec fn walk_at(walks: Seq<Seq<EventView>>, k: int) -> Seq<EventView> {
    if 0 <= k < walks.len() {
        walks[k]
    } else {
        Seq::empty()
    }
}

/// The walks over the first `j` children, one after another.
pub open spec fn walk_of(walks: Seq<Seq<EventView>>, j: nat) -> Seq<EventView>
    decreases j,
{
    if j == 0 {
        Seq::empty()
    } else {
        walk_of(walks, (j - 1) as nat) + walk_at(walks, j - 1)
    }
}

/// The parts' pieces of markup, one after another.
pub open spec fn pieces(cs: Seq<PartView>) -> Seq<char>
    decreases cs.len(),
{
    if cs.len() == 0 {
        Seq::empty()
    } else {
        pieces(cs.drop_last()) + piece(cs.last())
    }
}

/// One `<h2>`'s section: the heading is the visible text of the children
/// before the first block child, whitespace collapsed; the body is the rest
/// of the children, then the siblings up to the next `<h2>`. A heading with
/// no text makes no section.
pub open spec fn section_of(
    cs: Seq<PartView>,
    walks: Seq<Seq<EventView>>,
    ss: Seq<PartView>,
) -> Option<(Seq<char>, Seq<char>)> {
    let j = first_block(cs, 0);
    let heading = collapse(rendered(walk_of(walks, j), false));
    if heading.len() == 0 {
        None
    } else {
        Some((heading, pieces(cs.skip(j as int)) + pieces(ss.take(next_h2(ss, 0) as int))))
    }
}

/// The walks over the children of `<h2>` number `i`, or none past the last.
pub open spec fn walks_at(all: Seq<Seq<Seq<EventView>>>, i: int) -> Seq<Seq<EventView>> {
    if 0 <= i < all.len() {
        all[i]
    } else {
        Seq::empty()
    }
}

pub open spec fn sections_spec(
    parts: Seq<(Seq<PartView>, Seq<PartView>)>,
    walks: Seq<Seq<Seq<EventView>>>,
) -> Seq<(Seq<char>, Seq<char>)> {
    filter_map(
        Seq::new(parts.len(), |i: int| (parts[i].0, walks_at(walks, i), parts[i].1)),
        |p: (Seq<PartView>, Seq<Seq<EventView>>, Seq<PartView>)| section_of(p.0, p.1, p.2),
    )
}

fn copy_event(e: &Event) -> (r: Event)
    ensures
        r@ == e@,
{
    match e {
        Event::Open(n) => Event::Open(n.clone()),
        Event::Close(n) => Event::Close(n.clone()),
        Event::Text(t) => Event::Text(t.clone()),
        Event::Other => Event::Other,
    }
}

fn piece_of(p: &H2Part, out: &mut Vec<char>)
    ensures
        final(out)@ == old(out)@ + piece(part_view(*p)),
{
    match &p.element {
        Some((n, m)) => {
            extend(out, &chars_of(m.as_str()));
        },
        None => match &p.text {
            Some(t) => {
                extend(out, &chars_of(t.as_str()));
            },
            None => {
                proof {
                    assert(old(out)@ + Seq::<char>::empty() =~= old(out)@);
                }
            },
        },
    }
}

fn append_events(events: &mut Vec<Event>, more: &Vec<Event>)
    ensures
        events_view(final(events)@) == events_view(old(events)@) + events_view(more@),
{
    let ghost start = events_view(events@);
    let mut k: usize = 0;
    while k < more.len()
        invariant
            k <= more@.len(),
            events_view(events@) == start + events_view(more@).take(k as int),
        decreases more@.len() - k,
    {
        let e = copy_event(&more[k]);
        let ghost before = events_view(events@);
        events.push(e);
        proof {
            assert(events_view(events@) =~= before.push(e@));
            assert(events_view(more@).take(k as int + 1) =~= events_view(more@).take(k as int).push(
                more@[k as int]@,
            ));
        }
        k = k + 1;
    }
    proof {
        assert(events_view(more@).take(more@.len() as int) =~= events_view(more@));
    }
}

fn section_from(cs: &Vec<H2Part>, walks: &Vec<Vec<Event>>, ss: &Vec<H2Part>) -> (r: Option<Section>)
    ensures
        match r {
            Some(s) => section_of(part_views(cs@), nested_view(walks@), part_views(ss@)) == Some(
                (s.heading@, s.html@),
            ),
            None => section_of(part_views(cs@), nested_view(walks@), part_views(ss@)) is None,
        },
{
    let ghost cv = part_views(cs@);
    let ghost sv = part_views(ss@);
    let ghost wv = nested_view(walks@);
    // The heading: the walks of the children before the first block child.
    let mut events: Vec<Event> = Vec::new();
    let mut j: usize = 0;
    while j < cs.len()
        invariant
            j <= cs@.len(),
            cv == part_views(cs@),
            wv == nested_view(walks@),
            first_block(cv, 0) == first_block(cv, j as nat),
            events_view(events@) == walk_of(wv, j as nat),
        ensures
            j <= cs@.len(),
            first_block(cv, 0) == first_block(cv, j as nat),
            events_view(events@) == walk_of(wv, j as nat),
            j == cs@.len() || starts_body(cv[j as int]),
        decreases cs@.len() - j,
    {
        let block = match &cs[j].element {
            Some((n, m)) => is_block_name(n.as_str()),
            None => false,
        };
        proof {
            assert(cv[j as int] == part_view(cs@[j as int]));
        }
        if block {
            break;
        }
        if j < walks.len() {
            append_events(&mut events, &walks[j]);
        } else {
            proof {
                assert(events_view(events@) + Seq::<EventView>::empty() =~= events_view(events@));
            }
        }
        j = j + 1;
    }
    let heading = collapsed_walk(&events, false);
    if chars_of(heading.as_str()).len() == 0 {
        return None;
    }
    // The body: the rest of the children, then the siblings up to the next <h2>.
    let mut body: Vec<char> = Vec::new();
    let mut i: usize = j;
    while i < cs.len()
        invariant
            j <= i <= cs@.len(),
            cv == part_views(cs@),
            body@ == pieces(cv.skip(j as int).take(i - j)),
        decreases cs@.len() - i,
    {
        piece_of(&cs[i], &mut body);
        proof {
            assert(cv.skip(j as int).take(i - j + 1).drop_last() =~= cv.skip(j as int).take(i - j));
            assert(cv.skip(j as int).take(i - j + 1).last() == part_view(cs@[i as int]));
        }
        i = i + 1;
    }
    proof {
        assert(cv.skip(j as int).take(cs@.len() - j) =~= cv.skip(j as int));
    }
    let ghost with_children = body@;
    let h2 = chars_of("h2");
    let mut m: usize = 0;
    while m < ss.len()
        invariant
            m <= ss@.len(),
            sv == part_views(ss@),
            h2@ == "h2"@,
            next_h2(sv, 0) == next_h2(sv, m as nat),
            body@ == with_children + pieces(sv.take(m as int)),
        ensures
            m <= ss@.len(),
            next_h2(sv, 0) == next_h2(sv, m as nat),
            body@ == with_children + pieces(sv.take(m as int)),
            m == ss@.len() || element_name(sv[m as int]) == Some("h2"@),
        decreases ss@.len() - m,
    {
        let is_h2 = match &ss[m].element {
            Some((n, x)) => crate::text::eq_chars(&chars_of(n.as_str()), &h2),
            None => false,
        };
        proof {
            reveal_strlit("h2");
            assert(sv[m as int] == part_view(ss@[m as int]));
        }
        if is_h2 {
            break;
        }
        piece_of(&ss[m], &mut body);
        proof {
            assert(sv.take(m as int + 1).drop_last() =~= sv.take(m as int));
            assert(sv.take(m as int + 1).last() == part_view(ss@[m as int]));
        }
        m = m + 1;
    }
    Some(Section { heading, html: string_of(&body) })
}

/// The sections, given what `scraper` reports of each `<h2>`: its parts,
/// and the walks over its children.
pub fn sections_from(parts: &[(Vec<H2Part>, Vec<H2Part>)], walks: &[Vec<Vec<Event>>]) -> (r: Vec<
    Section,
>)
    ensures
        section_views(r@) == sections_spec(parts_view(parts@), walks_view(walks@)),
{
    let ghost pv = parts_view(parts@);
    let ghost wv = walks_view(walks@);
    let ghost zipped = Seq::new(pv.len(), |i: int| (pv[i].0, walks_at(wv, i), pv[i].1));
    let ghost f = |p: (Seq<PartView>, Seq<Seq<EventView>>, Seq<PartView>)| section_of(p.0, p.1, p.2);
    let none: Vec<Vec<Event>> = Vec::new();
    let mut out: Vec<Section> = Vec::new();
    let mut i: usize = 0;
    while i < parts.len()
        invariant
            i <= parts@.len(),
            pv == parts_view(parts@),
            wv == walks_view(walks@),
            none@.len() == 0,
            zipped == Seq::new(pv.len(), |i: int| (pv[i].0, walks_at(wv, i), pv[i].1)),
            f == (|p: (Seq<PartView>, Seq<Seq<EventView>>, Seq<PartView>)| section_of(p.0, p.1, p.2)),
            section_views(out@) == filter_map(zipped.take(i as int), f),
        decreases parts@.len() - i,
    {
        let (cs, ss) = &parts[i];
        let w = if i < walks.len() {
            &walks[i]
        } else {
            &none
        };
        proof {
            assert(zipped.take(i as int + 1).drop_last() =~= zipped.take(i as int));
            assert(nested_view(w@) =~= walks_at(wv, i as int));
            assert(zipped.take(i as int + 1).last() == (part_views(cs@), nested_view(w@), part_views(
                ss@,
            )));
        }
        match section_from(cs, w, ss) {
            Some(s) => {
                let ghost before = section_views(out@);
                let ghost sview = (s.heading@, s.html@);
                out.push(s);
                proof {
                    assert(section_views(out@) =~= before.push(sview));
                }
            },
            None => {},
        }
        i = i + 1;
    }
    proof {
        assert(zipped.take(parts@.len() as int) =~= zipped);
    }
    out
}

/// Every `<h2>` heading paired with the markup that follows it, up to the
/// next `<h2>`. An unclosed `<h2>` nests the paragraph after it inside
/// itself, so the heading is only what comes before its first block child,
/// and a heading with no text makes no section.
pub fn sections(html: &str) -> (r: Vec<Section>)
    ensures
        section_views(r@) == sections_spec(h2_parts(html@), h2_child_walks(html@)),
{
    let parts = h2_parts_of(html);
    let walks = h2_child_walks_of(html);
    sections_from(parts.as_slice(), walks.as_slice())
}

// ---------------------------------------------------------------------------
// What a reader is promised
// ---------------------------------------------------------------------------

/// No selection reading ever yields an empty string: a `<p>` used for spacing
/// is not a paragraph of the document.
pub proof fn law_matches_without_text_are_dropped(ms: Seq<Seq<EventView>>)
    ensures
        forall|i: int| 0 <= i < texts_in(ms).len() ==> #[trigger] texts_in(ms)[i].len() > 0,
        forall|i: int|
            0 <= i < broken_texts_in(ms).len() ==> #[trigger] broken_texts_in(ms)[i].len() > 0,
{
    assert forall|i: int| 0 <= i < texts_in(ms).len() implies #[trigger] texts_in(ms)[i].len()
        > 0 by {
        lemma_filter_map_source(ms, |m: Seq<EventView>| collapsed_text(m), i);
    }
    assert forall|i: int| 0 <= i < broken_texts_in(ms).len() implies #[trigger] broken_texts_in(
        ms,
    )[i].len() > 0 by {
        lemma_filter_map_source(ms, |m: Seq<EventView>| broken_text(m), i);
    }
}

/// Text read with its line breaks is the lines a reader sees: every line of
/// it has something on it, and no space at either end.
pub proof fn law_broken_text_lines_are_trimmed(s: Seq<char>)
    ensures
        forall|i: int|
            0 <= i < lines(visible_lines(s)).len() ==> #[trigger] lines(visible_lines(s))[i].len()
                > 0 && trim(lines(visible_lines(s))[i]) == lines(visible_lines(s))[i],
{
    let all = lines(s);
    let kept = filter_map(all, |l: Seq<char>| kept_line(l));
    lemma_lines_plain(s);
    assert forall|k: int| 0 <= k < kept.len() implies has_no(#[trigger] kept[k], '\n')
        && kept[k].len() > 0 && kept[k].last() != '\r' && trim(kept[k]) == kept[k] by {
        lemma_filter_map_source(all, |l: Seq<char>| kept_line(l), k);
        let i = choose|i: int|
            0 <= i < all.len() && kept_line(#[trigger] all[i]) == Some(kept[k]);
        lemma_trim_parts(all[i], '\n');
        lemma_trim_idempotent(all[i]);
        assert(is_ws('\r'));
    }
    lemma_lines_of_joined(kept);
}

/// Text read as one line has its whitespace collapsed: every whitespace
/// character in it is a single space between two others.
pub proof fn law_text_is_single_spaced(s: Seq<char>)
    ensures
        single_spaced(collapse(s)),
{
    lemma_words_plain(s);
    lemma_join_single_spaced(words(s));
}

/// Is `name` an element whose boundaries are line breaks?
pub fn is_block_name(name: &str) -> (b: bool)
    ensures
        b == is_block(name@),
{
    any_eq_exec(&BLOCK_ELEMENTS, &chars_of(name))
}

/// The visible text of a walk over part of a document, whitespace
/// collapsed, with or without block boundaries as breaks.
pub fn collapsed_walk(events: &Vec<Event>, breaks: bool) -> (r: String)
    ensures
        r@ == collapse(rendered(events_view(events@), breaks)),
{
    string_of(&collapse_chars(&walk(events, breaks)))
}

} // verus!
