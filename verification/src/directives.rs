//! The instructions in a README that fall outside the standard checklist.
//!
//! Most of a hardening run is the same every round, and the tasks handle it.
//! What loses points is the sentence buried in paragraph four saying this
//! machine is administered over SSH, or that Firefox must come from a PPA
//! rather than a snap. This module reads the prose and says, for each such
//! instruction, one of three things: a task acts on it; the tool never touches
//! what it is about; or a person has to do it.
//!
//! The patterns are regular expressions, matched by the `regex` crate; the
//! sentence splitting around them, which pattern claims which sentence, the
//! excerpt shown for a match, and the report are decided here.
use vstd::prelude::*;
use crate::html::{document_events, rendered, text};
use crate::models::fix_record::FixOutcome;
use crate::text::{
    chars_of, collapse, collapse_chars, concat_chars, concat_str, decimal_of, decimal_string,
    extend, filter_map, from_utf8_lossy, lemma_filter_map_keeps, lemma_filter_map_source,
    string_of, strs, trim, trim_chars, utf8, utf8_bytes, utf8_char,
};

verus! {

// ---------------------------------------------------------------------------
// What the tool does about an instruction
// ---------------------------------------------------------------------------

/// What, if anything, the tool does about an instruction.
#[derive(Debug, Clone, Copy, PartialEq, Eq)]
pub enum Handling {
    /// A task acts on it. The string names the task and what it does.
    Automated(&'static str),
    /// The tool has no code that would violate it. The string says why that is
    /// true, because "we do not do that" is only reassuring if it is checkable.
    SafeByInaction(&'static str),
    /// A person has to do it, and the string says what.
    Manual(&'static str),
}

pub open spec fn detail_spec(h: Handling) -> &'static str {
    match h {
        Handling::Automated(s) => s,
        Handling::SafeByInaction(s) => s,
        Handling::Manual(s) => s,
    }
}

pub open spec fn tag_spec(h: Handling) -> Seq<char> {
    match h {
        Handling::Automated(_) => "AUTOMATED"@,
        Handling::SafeByInaction(_) => "NOT TOUCHED"@,
        Handling::Manual(_) => "BY HAND"@,
    }
}

impl Handling {
    /// Does this need a human?
    pub fn needs_a_person(self) -> (b: bool)
        ensures
            b == (self is Manual),
    {
        match self {
            Handling::Manual(_) => true,
            _ => false,
        }
    }

    /// The short tag used in reports.
    pub fn tag(self) -> (r: &'static str)
        ensures
            r@ == tag_spec(self),
    {
        match self {
            Handling::Automated(_) => "AUTOMATED",
            Handling::SafeByInaction(_) => "NOT TOUCHED",
            Handling::Manual(_) => "BY HAND",
        }
    }

    /// The explanation, whichever variant this is.
    pub fn detail(self) -> (r: &'static str)
        ensures
            r == detail_spec(self),
    {
        match self {
            Handling::Automated(s) => s,
            Handling::SafeByInaction(s) => s,
            Handling::Manual(s) => s,
        }
    }
}

/// One instruction found in the README.
#[derive(Debug, Clone)]
pub struct Directive {
    /// What it is about, in two or three words.
    pub subject: &'static str,
    /// The sentence (or the part of it around the match), so the reader can
    /// check the classification.
    pub sentence: String,
    pub handling: Handling,
}

pub struct DirectiveView {
    pub subject: Seq<char>,
    pub sentence: Seq<char>,
    pub handling: Handling,
}

impl View for Directive {
    type V = DirectiveView;

    open spec fn view(&self) -> DirectiveView {
        DirectiveView { subject: self.subject@, sentence: self.sentence@, handling: self.handling }
    }
}

pub open spec fn directive_views(v: Seq<Directive>) -> Seq<DirectiveView> {
    v.map_values(|d: Directive| d@)
}

// ---------------------------------------------------------------------------
// The patterns
// ---------------------------------------------------------------------------

/// Which of the three answers a pattern gives.
#[derive(Debug, Clone, Copy)]
pub enum Kind {
    Automated,
    SafeByInaction,
    Manual,
}

/// How many patterns there are.
pub const PATTERN_COUNT: usize = 22;

/// Everything worth recognising, in the order a report lists it: each is
/// matched against a single sentence of the README's plain text.
///
/// Deliberately conservative: a pattern that fires on prose it does not
/// understand produces a confident, wrong classification, which is worse than
/// the sentence going unmentioned. Each is anchored on wording that has
/// actually appeared in a competition README.
pub const PATTERN_REGEXES: [&'static str; 22] = [
    r"(?i)\b(\w+)\s+is\s+a\s+critical\s+service",
    r"(?i)must\s+be\s+able\s+to\s+log\s+in\s+remotely",
    r"(?i)only\s+company\s+approved\s+firewall.*?\bis\s+(\w+)",
    r"(?i)never\s+let\s+users\s+log\s+in\s+as\s+root",
    r"(?i)required\s+to\s+use\s+the\s+.?sudo.?\s+command",
    r"(?i)(?:not\s+required|NOT\s+required)\s+to\s+change\s+the\s+password\s+of\s+the\s+primary",
    r"(?i)do\s+not\s+remove\s+any\s+authorized\s+users\s+or\s+their\s+home\s+directories",
    r"(?i)do\s+not\s+(?:stop\s+or\s+)?disable\s+the\s+CCS\s+Client",
    r"(?i)use\s+only\s+the\s+latest,?\s+official,?\s+stable",
    r"(?i)(?:presence\s+of\s+any\s+)?non-?work\s+related\s+media\s+files.*?prohibited",
    r"(?i)add\s+(?:the\s+)?users?\s+.{0,40}?\s+to\s+the\s+.{0,30}?\s+group",
    r"(?i)(?:Action\s+Center|Security\s+Center)\s+should\s+be\s+enabled",
    r"(?i)do\s+not\s+change\s+the\s+time\s*zone",
    r"(?i)do\s+not\s+disable\s+JavaScript",
    r"(?i)do\s+NOT\s+attempt\s+to\s+(?:install|use)\s+(?:Windows\s+)?.?(?:Feature\s+Updates|Insider|Reset\s+this\s+PC|Go\s+back)",
    r"(?i)Unique\s+Identifier",
    r"(?i)Forensics\s+Questions?",
    r"(?i)must\s+remain\s+installed\s+using\s+the\s+official\s+(\w+)\s+PPA",
    r"(?i)\bNOT\s+as\s+a\s+SNAP\s+package",
    r"(?i)display\s+manager\s+should\s+remain\s+set\s+to\s+(\w+)",
    r"(?i)should\s+not\s+be\s+installed\s+using\s+the\s+Microsoft\s+[Ss]tore",
    r"(?i)company\s+policy\s+to\s+use\s+only\s+(?:Windows|Ubuntu|Debian|Fedora)\s*[\d.]*",
];

/// What each pattern is about, in two or three words.
pub const PATTERN_SUBJECTS: [&'static str; 22] = [
    "a critical service",
    "remote access",
    "which firewall",
    "root login",
    "sudo, not root",
    "the primary user's password",
    "home directories",
    "the scoring engine",
    "package versions",
    "media files",
    "a group membership",
    "Action Center",
    "the clock",
    "JavaScript",
    "Windows feature updates",
    "the unique identifier",
    "forensics questions",
    "install source",
    "snap versus deb",
    "the display manager",
    "install source",
    "the operating system",
];

/// Which answer each pattern gives.
pub const PATTERN_KINDS: [Kind; 22] = [
    Kind::Automated,
    Kind::Automated,
    Kind::Automated,
    Kind::Automated,
    Kind::Automated,
    Kind::Automated,
    Kind::Automated,
    Kind::Automated,
    Kind::Automated,
    Kind::Automated,
    Kind::Automated,
    Kind::Automated,
    Kind::SafeByInaction,
    Kind::SafeByInaction,
    Kind::SafeByInaction,
    Kind::Manual,
    Kind::Manual,
    Kind::Manual,
    Kind::Manual,
    Kind::Manual,
    Kind::Manual,
    Kind::Manual,
];

/// What the tool does, or why nothing it does could break the instruction,
/// or what a person has to do.
pub const PATTERN_DETAILS: [&'static str; 22] = [
    "Service Management protects it and never masks it; Firewall opens its port",
    "the remote-access service is kept running and its port opened",
    "Firewall configures ufw, and nothing else",
    "Security Hardening sets PermitRootLogin no; Account Permissions checks for a second uid 0",
    "User Management maintains the sudo group from the README",
    "User Management never resets the primary auto-login account",
    "User Management removes only unauthorised accounts, and keeps every home directory",
    "CCS Client is on the never-disable list, README or not",
    "Software Updates upgrades everything from the official repositories",
    "Prohibited Media deletes them; without this sentence it only reports",
    "User Management adds the named members",
    "Security Hardening leaves Action Center reporting enabled",
    "no task calls timedatectl, date or the time-zone APIs",
    "no task changes browser settings",
    "Software Updates upgrades applications only, never the OS build",
    "enter it from the desktop icon before doing anything else, or the VM stops working",
    "read them from the Desktop and answer them BEFORE running any task - a remediation can destroy the evidence",
    "apt installs the snap transitional package on Ubuntu 22.04; add the PPA and pin it by hand",
    "check with `snap list`; removing a snap and installing the deb is not something this tool does",
    "verify with `cat /etc/X11/default-display-manager`; no task changes it, but nothing checks either",
    "Software Management installs via Chocolatey, which satisfies this - but verify anything already present",
    "do not upgrade or reinstall the OS; nothing here would, but nothing checks",
];

/// The handling of pattern `p`.
pub open spec fn handling_of(p: int) -> Handling {
    match PATTERN_KINDS@[p] {
        Kind::Automated => Handling::Automated(PATTERN_DETAILS@[p]),
        Kind::SafeByInaction => Handling::SafeByInaction(PATTERN_DETAILS@[p]),
        Kind::Manual => Handling::Manual(PATTERN_DETAILS@[p]),
    }
}

fn handling_exec(p: usize) -> (h: Handling)
    requires
        p < PATTERN_COUNT,
    ensures
        h == handling_of(p as int),
{
    match PATTERN_KINDS[p] {
        Kind::Automated => Handling::Automated(PATTERN_DETAILS[p]),
        Kind::SafeByInaction => Handling::SafeByInaction(PATTERN_DETAILS[p]),
        Kind::Manual => Handling::Manual(PATTERN_DETAILS[p]),
    }
}

// ---------------------------------------------------------------------------
// Regular expressions
// ---------------------------------------------------------------------------

/// Does `regex::Regex::new` accept `pattern`?
pub uninterp spec fn regex_compiles(pattern: Seq<char>) -> bool;

/// The byte offsets of the match `regex::Regex::find` reports for `pattern`
/// in `haystack`, if any: the regex crate's leftmost-first semantics, which
/// nothing here spells out.
pub uninterp spec fn regex_first_match(pattern: Seq<char>, haystack: Seq<char>) -> Option<(usize, usize)>;

/// The pieces `regex::Regex::split` yields for `pattern` over `haystack`.
pub uninterp spec fn regex_pieces(pattern: Seq<char>, haystack: Seq<char>) -> Seq<Seq<char>>;

/// Is byte `i` of a UTF-8 text the first byte of a character, or its end?
/// That is what `str::is_char_boundary` tests.
pub open spec fn char_boundary(b: Seq<u8>, i: int) -> bool {
    i == b.len() || (0 <= i < b.len() && !(0x80 <= b[i] < 0xC0))
}

/// What the regex crate documents of every match: `start <= end`, both
/// within the haystack and on character boundaries.
pub open spec fn sound_match(haystack: Seq<char>, m: Option<(usize, usize)>) -> bool {
    match m {
        Some((s, e)) => s <= e <= utf8(haystack).len() && char_boundary(utf8(haystack), s as int)
            && char_boundary(utf8(haystack), e as int),
        None => true,
    }
}

/// `regex::Regex::new`, then `Regex::find` on each haystack, with each match
/// as its start and end byte offsets. `None` where the pattern does not
/// compile.
#[verifier::external_body]
fn find_in_each(pattern: &str, haystacks: &Vec<String>) -> (r: Option<Vec<Option<(usize, usize)>>>)
    ensures
        r is Some == regex_compiles(pattern@),
        r matches Some(v) ==> v@.len() == haystacks@.len(),
        r matches Some(v) ==> forall|i: int|
            0 <= i < v@.len() ==> #[trigger] v@[i] == regex_first_match(pattern@, haystacks@[i]@)
                && sound_match(haystacks@[i]@, v@[i]),
{
    let regex = regex::Regex::new(pattern).ok()?;
    let mut out = Vec::new();
    for haystack in haystacks {
        out.push(regex.find(haystack).map(|m| (m.start(), m.end())));
    }
    Some(out)
}

/// `regex::Regex::new`, then `Regex::split`. `None` where the pattern does
/// not compile.
#[verifier::external_body]
fn split_by(pattern: &str, haystack: &str) -> (r: Option<Vec<String>>)
    ensures
        r is Some == regex_compiles(pattern@),
        r matches Some(v) ==> strs(v@) == regex_pieces(pattern@, haystack@),
{
    let regex = regex::Regex::new(pattern).ok()?;
    let mut out = Vec::new();
    for piece in regex.split(haystack) {
        out.push(piece.to_string());
    }
    Some(out)
}

// ---------------------------------------------------------------------------
// Sentences
// ---------------------------------------------------------------------------

/// Where one sentence ends and the next begins.
pub const SENTENCE_BOUNDARY: &'static str = r"[.!?:]\s+";

/// A piece of text as a sentence: whitespace collapsed, and only if it is
/// longer than twelve characters.
pub open spec fn sentence_of(piece: Seq<char>) -> Option<Seq<char>> {
    let c = collapse(piece);
    if c.len() > 12 {
        Some(c)
    } else {
        None
    }
}

pub open spec fn sentences_spec(text: Seq<char>) -> Seq<Seq<char>> {
    if regex_compiles(SENTENCE_BOUNDARY@) {
        filter_map(regex_pieces(SENTENCE_BOUNDARY@, text), |p: Seq<char>| sentence_of(p))
    } else {
        Seq::empty()
    }
}

/// Split text into sentences.
///
/// Split on sentence punctuation followed by whitespace, never on a line
/// break alone: READMEs wrap prose mid-sentence, and the wrapped half is where
/// the instruction lives. Fragments of twelve characters or fewer (table
/// cells, headings, a bare username) are not sentences.
pub fn sentences(text: &str) -> (r: Vec<String>)
    ensures
        strs(r@) == sentences_spec(text@),
{
    let pieces = match split_by(SENTENCE_BOUNDARY, text) {
        Some(p) => p,
        None => return Vec::new(),
    };
    let ghost all = strs(pieces@);
    let mut out: Vec<String> = Vec::new();
    let n = pieces.len();
    let mut i: usize = 0;
    while i < n
        invariant
            i <= n == pieces.len(),
            all == strs(pieces@),
            all == regex_pieces(SENTENCE_BOUNDARY@, text@),
            regex_compiles(SENTENCE_BOUNDARY@),
            strs(out@) == filter_map(all.take(i as int), |p: Seq<char>| sentence_of(p)),
        decreases n - i,
    {
        proof {
            assert(all.take(i + 1).drop_last() =~= all.take(i as int));
            assert(all.take(i + 1).last() == pieces@[i as int]@);
        }
        let c = collapse_chars(&chars_of(pieces[i].as_str()));
        if c.len() > 12 {
            let ghost before = strs(out@);
            out.push(string_of(&c));
            proof {
                assert(strs(out@) =~= before.push(c@));
            }
        }
        i = i + 1;
    }
    proof {
        assert(all.take(n as int) =~= all);
    }
    out
}

// ---------------------------------------------------------------------------
// Excerpts
// ---------------------------------------------------------------------------

/// How many bytes of a sentence to show around the phrase that matched.
pub const EXCERPT: usize = 190;

/// `i`, moved back to the nearest character boundary.
pub open spec fn back_to_boundary(b: Seq<u8>, i: int) -> int
    decreases i,
{
    if i > 0 && !char_boundary(b, i) {
        back_to_boundary(b, i - 1)
    } else {
        i
    }
}

/// `i`, moved forward to the nearest character boundary.
pub open spec fn forward_to_boundary(b: Seq<u8>, i: int) -> int
    decreases b.len() - i,
{
    if i < b.len() && !char_boundary(b, i) {
        forward_to_boundary(b, i + 1)
    } else {
        i
    }
}

/// The offset of the first space in `b[lo..hi]`, counted from `lo`.
pub open spec fn first_space(b: Seq<u8>, lo: int, hi: int) -> Option<int>
    decreases hi - lo,
{
    if lo >= hi {
        None
    } else if b[lo] == 0x20 {
        Some(0)
    } else {
        match first_space(b, lo + 1, hi) {
            Some(k) => Some(k + 1),
            None => None,
        }
    }
}

/// The offset of the last space in `b[lo..hi]`, counted from `lo`.
pub open spec fn last_space(b: Seq<u8>, lo: int, hi: int) -> Option<int>
    decreases hi - lo,
{
    if lo >= hi {
        None
    } else if b[hi - 1] == 0x20 {
        Some(hi - 1 - lo)
    } else {
        last_space(b, lo, hi - 1)
    }
}

/// The byte range `(from, to)` shown for a match at `start..end` of a
/// sentence longer than [`EXCERPT`] bytes: a window of that size centred on
/// the match and pulled back inside the sentence, widened to character
/// boundaries, then narrowed to word boundaries.
pub open spec fn excerpt_range(b: Seq<u8>, start: int, end: int) -> (int, int) {
    let width = end - start;
    let padding = (if width < EXCERPT { EXCERPT - width } else { 0 }) / 2;
    let from0 = if start > padding { start - padding } else { 0 };
    let to0 = if end + padding < b.len() { end + padding } else { b.len() as int };
    let from1 = back_to_boundary(b, from0);
    let to1 = forward_to_boundary(b, to0);
    let from2 = if from1 > 0 {
        match first_space(b, from1, start) {
            Some(k) => from1 + k + 1,
            None => from1,
        }
    } else {
        from1
    };
    let lo = if end < to1 { end } else { to1 };
    let to2 = if to1 < b.len() {
        match last_space(b, lo, to1) {
            Some(k) => lo + k,
            None => to1,
        }
    } else {
        to1
    };
    (from2, to2)
}

/// How many characters of `s` its first `i` bytes hold, for a byte index
/// `i` on a character boundary of its UTF-8 encoding.
pub open spec fn chars_in(s: Seq<char>, i: int) -> int
    decreases s.len(),
{
    if s.len() == 0 || i >= utf8(s).len() {
        s.len() as int
    } else if i <= utf8(s.drop_last()).len() {
        chars_in(s.drop_last(), i)
    } else {
        s.len() - 1
    }
}

pub open spec fn ellipsis(shown: bool) -> Seq<char> {
    if shown {
        "..."@
    } else {
        Seq::empty()
    }
}

/// The part of a sentence shown for a match at bytes `start..end`: all of it
/// when it is at most [`EXCERPT`] bytes long, else the window
/// [`excerpt_range`] picks, trimmed, with `...` on each side that was cut.
pub open spec fn excerpt_spec(sentence: Seq<char>, start: int, end: int) -> Seq<char> {
    let b = utf8(sentence);
    if b.len() <= EXCERPT {
        sentence
    } else {
        let (from, to) = excerpt_range(b, start, end);
        ellipsis(from > 0) + trim(sentence.subrange(chars_in(sentence, from), chars_in(sentence, to)))
            + ellipsis(to < b.len())
    }
}

fn is_boundary_exec(b: &Vec<u8>, i: usize) -> (r: bool)
    requires
        i <= b.len(),
    ensures
        r == char_boundary(b@, i as int),
{
    i == b.len() || !(0x80 <= b[i] && b[i] < 0xC0)
}

fn first_space_exec(b: &Vec<u8>, lo: usize, hi: usize) -> (r: Option<usize>)
    requires
        lo <= hi <= b.len(),
    ensures
        match r {
            Some(k) => first_space(b@, lo as int, hi as int) == Some(k as int) && k < hi - lo,
            None => first_space(b@, lo as int, hi as int) is None,
        },
    decreases hi - lo,
{
    if lo >= hi {
        None
    } else if b[lo] == 0x20 {
        Some(0)
    } else {
        match first_space_exec(b, lo + 1, hi) {
            Some(k) => Some(k + 1),
            None => None,
        }
    }
}

fn last_space_exec(b: &Vec<u8>, lo: usize, hi: usize) -> (r: Option<usize>)
    requires
        lo <= hi <= b.len(),
    ensures
        match r {
            Some(k) => last_space(b@, lo as int, hi as int) == Some(k as int) && k < hi - lo,
            None => last_space(b@, lo as int, hi as int) is None,
        },
    decreases hi - lo,
{
    if lo >= hi {
        None
    } else if b[hi - 1] == 0x20 {
        Some(hi - 1 - lo)
    } else {
        last_space_exec(b, lo, hi - 1)
    }
}

proof fn lemma_back_to_boundary(b: Seq<u8>, i: int)
    requires
        0 <= i,
    ensures
        0 <= back_to_boundary(b, i) <= i,
    decreases i,
{
    if i > 0 && !char_boundary(b, i) {
        lemma_back_to_boundary(b, i - 1);
    }
}

proof fn lemma_forward_to_boundary(b: Seq<u8>, i: int)
    requires
        i <= b.len(),
    ensures
        i <= forward_to_boundary(b, i) <= b.len(),
    decreases b.len() - i,
{
    if i < b.len() && !char_boundary(b, i) {
        lemma_forward_to_boundary(b, i + 1);
    }
}

proof fn lemma_first_space(b: Seq<u8>, lo: int, hi: int)
    ensures
        first_space(b, lo, hi) matches Some(k) ==> 0 <= k < hi - lo,
    decreases hi - lo,
{
    if lo < hi && b[lo] != 0x20 {
        lemma_first_space(b, lo + 1, hi);
    }
}

proof fn lemma_last_space(b: Seq<u8>, lo: int, hi: int)
    ensures
        last_space(b, lo, hi) matches Some(k) ==> 0 <= k < hi - lo,
    decreases hi - lo,
{
    if lo < hi && b[hi - 1] != 0x20 {
        lemma_last_space(b, lo, hi - 1);
    }
}

/// The excerpt's byte range, and that it lies inside the sentence.
fn excerpt_range_exec(b: &Vec<u8>, start: usize, end: usize) -> (r: (usize, usize))
    requires
        start <= end <= b.len(),
    ensures
        r.0 <= r.1 <= b.len(),
        (r.0 as int, r.1 as int) == excerpt_range(b@, start as int, end as int),
{
    let len = b.len();
    let width = end - start;
    let padding = (if width < EXCERPT { EXCERPT - width } else { 0 }) / 2;
    let mut from = if start > padding { start - padding } else { 0 };
    let mut to = if padding < len - end { end + padding } else { len };
    let ghost from0 = from;
    let ghost to0 = to;
    proof {
        lemma_back_to_boundary(b@, from as int);
        lemma_forward_to_boundary(b@, to as int);
    }
    while from > 0 && !is_boundary_exec(b, from)
        invariant
            from <= start <= end <= len == b.len(),
            back_to_boundary(b@, from as int) == back_to_boundary(b@, from0 as int),
        decreases from,
    {
        from = from - 1;
    }
    while to < len && !is_boundary_exec(b, to)
        invariant
            end <= to <= len == b.len(),
            forward_to_boundary(b@, to as int) == forward_to_boundary(b@, to0 as int),
        decreases len - to,
    {
        to = to + 1;
    }
    if from > 0 {
        match first_space_exec(b, from, start) {
            Some(k) => {
                proof {
                    lemma_first_space(b@, from as int, start as int);
                }
                from = from + k + 1;
            },
            None => {},
        }
    }
    if to < len {
        let lo = if end < to { end } else { to };
        match last_space_exec(b, lo, to) {
            Some(k) => {
                proof {
                    lemma_last_space(b@, lo as int, to as int);
                }
                to = lo + k;
            },
            None => {},
        }
    }
    (from, to)
}

fn ellipsis_exec(shown: bool) -> (r: Vec<char>)
    ensures
        r@ == ellipsis(shown),
{
    if shown {
        let r = vec!['.', '.', '.'];
        proof {
            reveal_strlit("...");
            assert(r@ =~= "..."@);
        }
        r
    } else {
        Vec::new()
    }
}

fn subrange_bytes(b: &Vec<u8>, from: usize, to: usize) -> (r: Vec<u8>)
    requires
        from <= to <= b.len(),
    ensures
        r@ == b@.subrange(from as int, to as int),
{
    let mut out: Vec<u8> = Vec::new();
    let mut i: usize = from;
    while i < to
        invariant
            from <= i <= to <= b.len(),
            out@ == b@.subrange(from as int, i as int),
        decreases to - i,
    {
        out.push(b[i]);
        i = i + 1;
        proof {
            assert(out@ =~= b@.subrange(from as int, i as int));
        }
    }
    out
}

/// Show the part of the sentence the pattern actually matched.
///
/// Printing from the start of the sentence goes wrong on a real README: the
/// splitter is punctuation-based and some blocks have none, so a `<pre>`
/// block of usernames runs straight into the guideline after it. Centring on
/// the match makes the excerpt useful whatever the splitter did.
fn excerpt(sentence: &str, start: usize, end: usize) -> (r: String)
    requires
        start <= end <= utf8(sentence@).len(),
        char_boundary(utf8(sentence@), start as int),
        char_boundary(utf8(sentence@), end as int),
    ensures
        r@ == excerpt_spec(sentence@, start as int, end as int),
{
    let b = utf8_bytes(sentence);
    if b.len() <= EXCERPT {
        return string_of(&chars_of(sentence));
    }
    let (from, to) = excerpt_range_exec(&b, start, end);
    let bytes = subrange_bytes(&b, from, to);
    proof {
        lemma_utf8_starts(sentence@);
        lemma_excerpt_range_on_boundaries(b@, start as int, end as int);
        lemma_utf8_subrange(sentence@, from as int, to as int);
        let mid = sentence@.subrange(chars_in(sentence@, from as int), chars_in(sentence@, to as int));
        assert(utf8(mid) == bytes@);
    }
    let shown = from_utf8_lossy(bytes.as_slice());
    let core = trim_chars(&chars_of(shown.as_str()));
    let mut out = ellipsis_exec(from > 0);
    extend(&mut out, &core);
    extend(&mut out, &ellipsis_exec(to < b.len()));
    string_of(&out)
}

// ---------------------------------------------------------------------------
// Extraction
// ---------------------------------------------------------------------------

/// What pattern `p` finds in each sentence.
pub open spec fn hits(p: int, ss: Seq<Seq<char>>) -> Seq<Option<(usize, usize)>> {
    Seq::new(ss.len(), |i: int| regex_first_match(PATTERN_REGEXES@[p]@, ss[i]))
}

/// The first sentence, at or after `i`, with a match: its index and the match.
pub open spec fn first_hit_from(hs: Seq<Option<(usize, usize)>>, i: int) -> Option<(int, usize, usize)>
    decreases hs.len() - i,
{
    if 0 <= i < hs.len() {
        match hs[i] {
            Some((s, e)) => Some((i, s, e)),
            None => first_hit_from(hs, i + 1),
        }
    } else {
        None
    }
}

/// Pattern `p` takes its turn: the first sentence it matches becomes a
/// directive, unless an earlier pattern already claimed that sentence.
pub open spec fn extract_step(
    st: (Seq<DirectiveView>, Seq<Seq<char>>),
    p: int,
    ss: Seq<Seq<char>>,
) -> (Seq<DirectiveView>, Seq<Seq<char>>) {
    let (found, claimed) = st;
    if !regex_compiles(PATTERN_REGEXES@[p]@) {
        st
    } else {
        match first_hit_from(hits(p, ss), 0) {
            None => st,
            Some((i, s, e)) => if claimed.contains(ss[i]) {
                st
            } else {
                (
                    found.push(
                        DirectiveView {
                            subject: PATTERN_SUBJECTS@[p]@,
                            sentence: excerpt_spec(ss[i], s as int, e as int),
                            handling: handling_of(p),
                        },
                    ),
                    claimed.push(ss[i]),
                )
            },
        }
    }
}

/// The directives found, and the sentences claimed, by the first `n` patterns.
pub open spec fn extract_state(ss: Seq<Seq<char>>, n: nat) -> (Seq<DirectiveView>, Seq<Seq<char>>)
    decreases n,
{
    if n == 0 {
        (Seq::empty(), Seq::empty())
    } else {
        extract_step(extract_state(ss, (n - 1) as nat), n - 1, ss)
    }
}

pub open spec fn directives_in(ss: Seq<Seq<char>>) -> Seq<DirectiveView> {
    extract_state(ss, PATTERN_COUNT as nat).0
}

pub open spec fn extract_spec(html: Seq<char>) -> Seq<DirectiveView> {
    directives_in(sentences_spec(collapse(rendered(document_events(html), true))))
}

fn holds_sentence(claimed: &Vec<Vec<char>>, x: &Vec<char>) -> (b: bool)
    ensures
        b == claimed@.map_values(|c: Vec<char>| c@).contains(x@),
{
    let ghost cs = claimed@.map_values(|c: Vec<char>| c@);
    let n = claimed.len();
    let mut i: usize = 0;
    while i < n
        invariant
            i <= n == claimed.len(),
            cs == claimed@.map_values(|c: Vec<char>| c@),
            forall|k: int| 0 <= k < i ==> cs[k] != x@,
        decreases n - i,
    {
        if crate::text::eq_chars(&claimed[i], x) {
            assert(cs[i as int] == x@);
            return true;
        }
        i = i + 1;
    }
    false
}

/// Every recognised instruction in the README, in report order.
///
/// Each pattern reports the first sentence it matches, once: a README repeats
/// itself, and listing the same instruction three times trains the reader to
/// skim. And each sentence is reported once: two patterns can describe the
/// same instruction from different angles (the PPA requirement and the "not
/// a snap" requirement are one sentence), and the first pattern keeps it.
pub fn extract(html_content: &str) -> (r: Vec<Directive>)
    ensures
        directive_views(r@) == extract_spec(html_content@),
{
    let plain = text(html_content);
    let ss = sentences(plain.as_str());
    let ghost sv = strs(ss@);
    let mut found: Vec<Directive> = Vec::new();
    let mut claimed: Vec<Vec<char>> = Vec::new();
    let mut p: usize = 0;
    while p < PATTERN_COUNT
        invariant
            p <= PATTERN_COUNT,
            sv == strs(ss@),
            (directive_views(found@), claimed@.map_values(|c: Vec<char>| c@)) == extract_state(
                sv,
                p as nat,
            ),
        decreases PATTERN_COUNT - p,
    {
        let ghost st = extract_state(sv, p as nat);
        let ghost before = directive_views(found@);
        let ghost before_claimed = claimed@.map_values(|c: Vec<char>| c@);
        match find_in_each(PATTERN_REGEXES[p], &ss) {
            None => {},
            Some(hs) => {
                proof {
                    assert(hs@ =~= hits(p as int, sv));
                }
                let n = hs.len();
                let mut i: usize = 0;
                while i < n && hs[i].is_none()
                    invariant
                        i <= n == hs@.len(),
                        first_hit_from(hs@, 0) == first_hit_from(hs@, i as int),
                    decreases n - i,
                {
                    i = i + 1;
                }
                if i < n {
                    match hs[i] {
                        Some((s, e)) => {
                            let sentence = chars_of(ss[i].as_str());
                            if !holds_sentence(&claimed, &sentence) {
                                let shown = excerpt(ss[i].as_str(), s, e);
                                let d = Directive {
                                    subject: PATTERN_SUBJECTS[p],
                                    sentence: shown,
                                    handling: handling_exec(p),
                                };
                                found.push(d);
                                claimed.push(sentence);
                                proof {
                                    assert(directive_views(found@) =~= before.push(d@));
                                    assert(claimed@.map_values(|c: Vec<char>| c@)
                                        =~= before_claimed.push(sv[i as int]));
                                }
                            }
                        },
                        None => {},
                    }
                }
            },
        }
        p = p + 1;
    }
    found
}

// ---------------------------------------------------------------------------
// Reporting
// ---------------------------------------------------------------------------

pub open spec fn ref_views(v: Seq<&Directive>) -> Seq<DirectiveView> {
    v.map_values(|d: &Directive| d@)
}

pub open spec fn by_hand(d: DirectiveView) -> Option<DirectiveView> {
    if d.handling is Manual {
        Some(d)
    } else {
        None
    }
}

pub open spec fn by_a_task(d: DirectiveView) -> Option<DirectiveView> {
    if d.handling is Automated {
        Some(d)
    } else {
        None
    }
}

pub open spec fn untouched(d: DirectiveView) -> Option<DirectiveView> {
    if d.handling is SafeByInaction {
        Some(d)
    } else {
        None
    }
}

pub open spec fn manual_spec(ds: Seq<DirectiveView>) -> Seq<DirectiveView> {
    filter_map(ds, |d: DirectiveView| by_hand(d))
}

/// The directives a person has to act on, in order.
pub fn manual(directives: &[Directive]) -> (r: Vec<&Directive>)
    ensures
        ref_views(r@) == manual_spec(directive_views(directives@)),
{
    let ghost all = directive_views(directives@);
    let mut out: Vec<&Directive> = Vec::new();
    let n = directives.len();
    let mut i: usize = 0;
    while i < n
        invariant
            i <= n == directives@.len(),
            all == directive_views(directives@),
            ref_views(out@) == manual_spec(all.take(i as int)),
        decreases n - i,
    {
        proof {
            assert(all.take(i + 1).drop_last() =~= all.take(i as int));
            assert(all.take(i + 1).last() == directives@[i as int]@);
        }
        let d = &directives[i];
        if d.handling.needs_a_person() {
            let ghost before = ref_views(out@);
            out.push(d);
            proof {
                assert(ref_views(out@) =~= before.push(d@));
            }
        }
        i = i + 1;
    }
    proof {
        assert(all.take(n as int) =~= all);
    }
    out
}

/// The two lines for one directive: what it is and what is done about it,
/// then the sentence it came from.
pub open spec fn item_lines(ds: Seq<DirectiveView>, mark: Seq<char>) -> Seq<Seq<char>>
    decreases ds.len(),
{
    if ds.len() == 0 {
        Seq::empty()
    } else {
        let d = ds.last();
        item_lines(ds.drop_last(), mark) + seq![
            "  "@ + mark + " "@ + d.subject + " - "@ + detail_spec(d.handling)@,
            "      \""@ + d.sentence + "\""@,
        ]
    }
}

/// A group under its heading, or nothing for an empty group.
pub open spec fn group_lines(heading: Seq<char>, ds: Seq<DirectiveView>) -> Seq<Seq<char>> {
    if ds.len() == 0 {
        Seq::empty()
    } else {
        seq![Seq::empty(), heading] + item_lines(ds, "\u{2713}"@)
    }
}

pub open spec fn by_hand_lines(ds: Seq<DirectiveView>) -> Seq<Seq<char>> {
    if ds.len() == 0 {
        Seq::empty()
    } else {
        seq![
            Seq::empty(),
            "Do these by hand ("@ + decimal_string(ds.len()) + ") - this tool cannot, and a missed one is a lost item"@,
        ] + item_lines(ds, "!"@)
    }
}

pub open spec fn display_spec(ds: Seq<DirectiveView>) -> Seq<Seq<char>> {
    if ds.len() == 0 {
        seq!["No round-specific instructions recognised in this README."@]
    } else {
        seq![Seq::empty(), "What this round does differently"@] + group_lines(
            "Handled by a task - the README changed what the run does"@,
            filter_map(ds, |d: DirectiveView| by_a_task(d)),
        ) + group_lines(
            "Not touched - no task has code that would break these"@,
            filter_map(ds, |d: DirectiveView| untouched(d)),
        ) + by_hand_lines(manual_spec(ds))
    }
}

proof fn lemma_groups_partition(
    ds: Seq<DirectiveView>,
    f: spec_fn(DirectiveView) -> Option<DirectiveView>,
    g: spec_fn(DirectiveView) -> Option<DirectiveView>,
    h: spec_fn(DirectiveView) -> Option<DirectiveView>,
)
    requires
        f == (|d: DirectiveView| by_a_task(d)),
        g == (|d: DirectiveView| untouched(d)),
        h == (|d: DirectiveView| by_hand(d)),
    ensures
        filter_map(ds, f).len() + filter_map(ds, g).len() + filter_map(ds, h).len() == ds.len(),
    decreases ds.len(),
{
    if ds.len() > 0 {
        lemma_groups_partition(ds.drop_last(), f, g, h);
    }
}

/// The report lists each directive exactly once: every directive is in
/// exactly one of its three groups (handled by a task, not touched, to do
/// by hand), so the groups together are as long as the list.
pub proof fn law_display_lists_each_directive_once(ds: Seq<DirectiveView>)
    ensures
        forall|i: int|
            0 <= i < ds.len() ==> (by_a_task(#[trigger] ds[i]) is Some) as int + (untouched(
                ds[i],
            ) is Some) as int + (by_hand(ds[i]) is Some) as int == 1,
        filter_map(ds, |d: DirectiveView| by_a_task(d)).len() + filter_map(
            ds,
            |d: DirectiveView| untouched(d),
        ).len() + manual_spec(ds).len() == ds.len(),
{
    lemma_groups_partition(
        ds,
        |d: DirectiveView| by_a_task(d),
        |d: DirectiveView| untouched(d),
        |d: DirectiveView| by_hand(d),
    );
}

fn item_lines_exec(ds: &Vec<&Directive>, mark: &str, out: &mut Vec<String>)
    ensures
        strs(final(out)@) == strs(old(out)@) + item_lines(ref_views(ds@), mark@),
{
    let ghost all = ref_views(ds@);
    let ghost start = strs(out@);
    let n = ds.len();
    let mut i: usize = 0;
    while i < n
        invariant
            i <= n == ds@.len(),
            all == ref_views(ds@),
            strs(out@) == start + item_lines(all.take(i as int), mark@),
        decreases n - i,
    {
        proof {
            assert(all.take(i + 1).drop_last() =~= all.take(i as int));
            assert(all.take(i + 1).last() == ds@[i as int]@);
        }
        let d = ds[i];
        let mut first = concat_str(&Vec::new(), "  ");
        first = concat_str(&first, mark);
        first = concat_str(&first, " ");
        first = concat_str(&first, d.subject);
        first = concat_str(&first, " - ");
        first = concat_str(&first, d.handling.detail());
        let mut second = concat_str(&Vec::new(), "      \"");
        second = concat_str(&second, d.sentence.as_str());
        second = concat_str(&second, "\"");
        let ghost before = strs(out@);
        out.push(string_of(&first));
        out.push(string_of(&second));
        proof {
            assert(strs(out@) =~= before + seq![first@, second@]);
            assert(first@ =~= "  "@ + mark@ + " "@ + d@.subject + " - "@ + detail_spec(
                d@.handling,
            )@);
        }
        i = i + 1;
    }
    proof {
        assert(all.take(n as int) =~= all);
    }
}

fn group_exec(directives: &[Directive], automated: bool) -> (r: Vec<&Directive>)
    ensures
        ref_views(r@) == if automated {
            filter_map(directive_views(directives@), |d: DirectiveView| by_a_task(d))
        } else {
            filter_map(directive_views(directives@), |d: DirectiveView| untouched(d))
        },
{
    let ghost all = directive_views(directives@);
    let mut out: Vec<&Directive> = Vec::new();
    let n = directives.len();
    let mut i: usize = 0;
    while i < n
        invariant
            i <= n == directives@.len(),
            all == directive_views(directives@),
            ref_views(out@) == if automated {
                filter_map(all.take(i as int), |d: DirectiveView| by_a_task(d))
            } else {
                filter_map(all.take(i as int), |d: DirectiveView| untouched(d))
            },
        decreases n - i,
    {
        proof {
            assert(all.take(i + 1).drop_last() =~= all.take(i as int));
            assert(all.take(i + 1).last() == directives@[i as int]@);
        }
        let d = &directives[i];
        let wanted = match d.handling {
            Handling::Automated(_) => automated,
            Handling::SafeByInaction(_) => !automated,
            Handling::Manual(_) => false,
        };
        if wanted {
            let ghost before = ref_views(out@);
            out.push(d);
            proof {
                assert(ref_views(out@) =~= before.push(d@));
            }
        }
        i = i + 1;
    }
    proof {
        assert(all.take(n as int) =~= all);
    }
    out
}

fn group_lines_exec(heading: &str, ds: &Vec<&Directive>, out: &mut Vec<String>)
    ensures
        strs(final(out)@) == strs(old(out)@) + group_lines(heading@, ref_views(ds@)),
{
    if ds.len() == 0 {
        proof {
            assert(strs(out@) =~= strs(out@) + Seq::<Seq<char>>::empty());
        }
        return;
    }
    let ghost before = strs(out@);
    out.push(String::new());
    out.push(heading.to_string());
    proof {
        assert(strs(out@) =~= before + seq![Seq::<char>::empty(), heading@]);
    }
    item_lines_exec(ds, "\u{2713}", out);
    proof {
        assert(before + seq![Seq::<char>::empty(), heading@] + item_lines(ref_views(ds@), "\u{2713}"@)
            =~= before + group_lines(heading@, ref_views(ds@)));
    }
}

/// The report of the directives, one line per entry, grouped by who has to
/// act on them.
///
/// The by-hand group comes last, because it is the only part that asks the
/// reader to do something. Everything above it is there so the classification
/// can be checked rather than taken on trust.
pub fn display(directives: &[Directive]) -> (r: Vec<String>)
    ensures
        strs(r@) == display_spec(directive_views(directives@)),
{
    let mut out: Vec<String> = Vec::new();
    if directives.len() == 0 {
        out.push("No round-specific instructions recognised in this README.".to_string());
        proof {
            assert(strs(out@) =~= display_spec(directive_views(directives@)));
        }
        return out;
    }
    out.push(String::new());
    out.push("What this round does differently".to_string());
    proof {
        assert(strs(out@) =~= seq![Seq::<char>::empty(), "What this round does differently"@]);
    }
    let automated = group_exec(directives, true);
    group_lines_exec("Handled by a task - the README changed what the run does", &automated, &mut out);
    let untouched_ones = group_exec(directives, false);
    group_lines_exec("Not touched - no task has code that would break these", &untouched_ones, &mut out);
    let hand = manual(directives);
    if hand.len() > 0 {
        let mut heading = concat_str(&Vec::new(), "Do these by hand (");
        heading = concat_chars(&heading, &decimal_of(hand.len() as u64));
        heading = concat_str(&heading, ") - this tool cannot, and a missed one is a lost item");
        let ghost before = strs(out@);
        out.push(String::new());
        out.push(string_of(&heading));
        proof {
            assert(strs(out@) =~= before + seq![Seq::<char>::empty(), heading@]);
        }
        item_lines_exec(&hand, "!", &mut out);
    }
    proof {
        let ds = directive_views(directives@);
        assert(strs(out@) =~= display_spec(ds));
    }
    out
}

// ---------------------------------------------------------------------------
// The ledger
// ---------------------------------------------------------------------------

/// What recording one directive writes to the remediation ledger.
#[derive(Debug, Clone)]
pub enum LedgerEntry {
    /// A by-hand instruction: a change that was deliberately not attempted.
    Fix {
        target: &'static str,
        intent: String,
        before: Option<String>,
        action: &'static str,
        outcome: FixOutcome,
        evidence: &'static str,
    },
    /// An instruction a task carries out, or that nothing here would break:
    /// a finding, and a compliant one.
    Finding { target: &'static str, detail: String, compliant: bool, note: &'static str },
}

/// The ledger entry for one directive.
pub open spec fn records(e: LedgerEntry, d: DirectiveView) -> bool {
    match d.handling {
        Handling::Manual(advice) => e matches LedgerEntry::Fix {
            target,
            intent,
            before,
            action,
            outcome,
            evidence,
        } && target@ == d.subject && intent@ == d.sentence && before is None && action@
            == "nothing - this needs a person"@ && outcome == FixOutcome::Skipped && evidence
            == advice,
        _ => e matches LedgerEntry::Finding { target, detail, compliant, note } && target@
            == d.subject && detail@ == d.sentence && compliant && note == detail_spec(d.handling),
    }
}

/// The ledger entries for the directives, one each, in order.
///
/// The by-hand ones are recorded as `Skipped`, not `Failed`: nothing was
/// attempted, so "attempted and did not take" would be false, and in a summary
/// where genuine failures also appear an instruction the tool was never going
/// to carry out would look like a write that did not land. They are still not
/// compliant, because they are outstanding work.
pub fn record(directives: &[Directive]) -> (r: Vec<LedgerEntry>)
    ensures
        r@.len() == directives@.len(),
        forall|i: int| 0 <= i < r@.len() ==> records(#[trigger] r@[i], directives@[i]@),
{
    let mut out: Vec<LedgerEntry> = Vec::new();
    let n = directives.len();
    let mut i: usize = 0;
    while i < n
        invariant
            i <= n == directives@.len(),
            out@.len() == i,
            forall|k: int| 0 <= k < i ==> records(#[trigger] out@[k], directives@[k]@),
        decreases n - i,
    {
        let d = &directives[i];
        let e = match d.handling {
            Handling::Manual(advice) => LedgerEntry::Fix {
                target: d.subject,
                intent: string_of(&chars_of(d.sentence.as_str())),
                before: None,
                action: "nothing - this needs a person",
                outcome: FixOutcome::Skipped,
                evidence: advice,
            },
            _ => LedgerEntry::Finding {
                target: d.subject,
                detail: string_of(&chars_of(d.sentence.as_str())),
                compliant: true,
                note: d.handling.detail(),
            },
        };
        out.push(e);
        i = i + 1;
    }
    out
}

// ---------------------------------------------------------------------------
// What the report promises
// ---------------------------------------------------------------------------

/// Where each directive found by the first `n` patterns came from: the
/// patterns, in increasing order, each reporting at most once; and the
/// sentences they claimed, one per directive, none twice.
proof fn lemma_extract_origin(ss: Seq<Seq<char>>, n: nat) -> (ps: Seq<int>)
    requires
        n <= PATTERN_COUNT,
    ensures
        ps.len() == extract_state(ss, n).0.len() == extract_state(ss, n).1.len(),
        forall|k: int|
            0 <= k < ps.len() ==> 0 <= #[trigger] ps[k] < n && extract_state(ss, n).0[k].subject
                == PATTERN_SUBJECTS@[ps[k]]@ && extract_state(ss, n).0[k].handling == handling_of(
                ps[k],
            ),
        forall|k: int, l: int| 0 <= k < l < ps.len() ==> ps[k] < ps[l],
        forall|k: int, l: int|
            0 <= k < l < ps.len() ==> extract_state(ss, n).1[k] != extract_state(ss, n).1[l],
    decreases n,
{
    if n == 0 {
        Seq::empty()
    } else {
        let prev = lemma_extract_origin(ss, (n - 1) as nat);
        let st = extract_state(ss, (n - 1) as nat);
        let next = extract_state(ss, n);
        if next.0.len() == st.0.len() {
            assert(next == st);
            prev
        } else {
            let ps = prev.push(n - 1);
            let p = n - 1;
            match first_hit_from(hits(p, ss), 0) {
                Some((i, s, e)) => {
                    assert(!st.1.contains(ss[i]));
                    assert(next.1 == st.1.push(ss[i]));
                    assert forall|k: int, l: int| 0 <= k < l < ps.len() implies next.1[k]
                        != next.1[l] by {
                        if l == ps.len() - 1 {
                            assert(next.1[l] == ss[i]);
                            assert(next.1[k] == st.1[k]);
                        } else {
                            assert(next.1[k] == st.1[k]);
                            assert(next.1[l] == st.1[l]);
                        }
                    }
                    assert forall|k: int| 0 <= k < ps.len() implies 0 <= #[trigger] ps[k] < n
                        && next.0[k].subject == PATTERN_SUBJECTS@[ps[k]]@ && next.0[k].handling
                        == handling_of(ps[k]) by {
                        if k < prev.len() {
                            assert(next.0[k] == st.0[k]);
                        }
                    }
                },
                None => {},
            }
            ps
        }
    }
}

/// `ps` names, for each directive, the pattern it came from, in increasing
/// order.
pub open spec fn pattern_origin(ds: Seq<DirectiveView>, ps: Seq<int>) -> bool {
    &&& ps.len() == ds.len()
    &&& forall|k: int|
        0 <= k < ps.len() ==> 0 <= #[trigger] ps[k] < PATTERN_COUNT && ds[k].subject
            == PATTERN_SUBJECTS@[ps[k]]@ && ds[k].handling == handling_of(ps[k])
    &&& forall|k: int, l: int| 0 <= k < l < ps.len() ==> ps[k] < ps[l]
}

/// Each pattern reports at most once, and the report follows the order of
/// the patterns: there is one increasing choice of patterns that gives every
/// directive its subject and its handling. A README repeats itself, and
/// listing the same instruction three times trains the reader to skim.
pub proof fn law_one_directive_per_pattern(ss: Seq<Seq<char>>)
    ensures
        directives_in(ss).len() <= PATTERN_COUNT,
        exists|ps: Seq<int>| #[trigger] pattern_origin(directives_in(ss), ps),
{
    let ps = lemma_extract_origin(ss, PATTERN_COUNT as nat);
    lemma_increasing_bound(ps, PATTERN_COUNT as int);
    assert(pattern_origin(directives_in(ss), ps));
}

/// An increasing sequence of numbers below `n` has at most `n` of them.
proof fn lemma_increasing_bound(ps: Seq<int>, n: int)
    requires
        0 <= n,
        forall|k: int| 0 <= k < ps.len() ==> 0 <= #[trigger] ps[k] < n,
        forall|k: int, l: int| 0 <= k < l < ps.len() ==> ps[k] < ps[l],
    ensures
        ps.len() <= n,
    decreases ps.len(),
{
    if ps.len() > 0 {
        let init = ps.drop_last();
        assert forall|k: int| 0 <= k < init.len() implies 0 <= #[trigger] init[k] < ps.last() by {
            assert(init[k] == ps[k]);
        }
        assert(0 <= ps[ps.len() - 1] < n);
        lemma_increasing_bound(init, ps.last());
    }
}

/// The by-hand directives are exactly the directives a person has to act on:
/// every one that needs a person is listed, and nothing else is.
pub proof fn law_manual_lists_exactly_the_by_hand_ones(ds: Seq<DirectiveView>)
    ensures
        forall|d: DirectiveView| #[trigger] manual_spec(ds).contains(d) <==> ds.contains(d)
            && d.handling is Manual,
{
    let f = |d: DirectiveView| by_hand(d);
    assert forall|d: DirectiveView| #[trigger] manual_spec(ds).contains(d) implies ds.contains(d)
        && d.handling is Manual by {
        let k = choose|k: int| 0 <= k < manual_spec(ds).len() && manual_spec(ds)[k] == d;
        lemma_filter_map_source(ds, f, k);
        let i = choose|i: int| 0 <= i < ds.len() && f(#[trigger] ds[i]) == Some(manual_spec(ds)[k]);
        assert(ds[i] == d);
    }
    assert forall|d: DirectiveView| ds.contains(d) && d.handling is Manual implies #[trigger] manual_spec(
        ds,
    ).contains(d) by {
        let i = choose|i: int| 0 <= i < ds.len() && ds[i] == d;
        lemma_filter_map_keeps(ds, f, i);
    }
}

/// An instruction a person has to carry out is never recorded as done: its
/// ledger entry is a change left alone on purpose, and not a compliant one.
pub proof fn law_by_hand_is_never_recorded_compliant(e: LedgerEntry, d: DirectiveView)
    requires
        records(e, d),
        d.handling is Manual,
    ensures
        e matches LedgerEntry::Fix { outcome, .. } && outcome == FixOutcome::Skipped && outcome
            != FixOutcome::Fixed && outcome != FixOutcome::AlreadyCompliant,
{
}

/// The first byte of a character's encoding is never a continuation byte,
/// and every later byte is one.
proof fn lemma_utf8_char_bytes(c: char)
    ensures
        1 <= utf8_char(c).len() <= 4,
        !(0x80 <= utf8_char(c)[0] < 0xC0),
        utf8_char(c)[0] < 0x80 ==> utf8_char(c).len() == 1,
        forall|k: int| 1 <= k < utf8_char(c).len() ==> 0x80 <= #[trigger] utf8_char(c)[k] < 0xC0,
{
    let u = c as u32;
    if u < 0x80 {
    } else if u < 0x800 {
        assert(0xC0 <= 0xC0 + u / 64 < 0xE0) by (nonlinear_arith)
            requires
                0x80 <= u < 0x800,
        ;
        assert(0 <= u % 64 < 64) by (nonlinear_arith);
    } else if u < 0x10000 {
        assert(0xE0 <= 0xE0 + u / 4096 < 0xF0) by (nonlinear_arith)
            requires
                0x800 <= u < 0x10000,
        ;
        assert(0 <= (u / 64) % 64 < 64) by (nonlinear_arith);
        assert(0 <= u % 64 < 64) by (nonlinear_arith);
    } else {
        assert(u <= 0x10FFFF);
        assert(0xF0 <= 0xF0 + u / 262144 < 0xF8) by (nonlinear_arith)
            requires
                0x10000 <= u <= 0x10FFFF,
        ;
        assert(0 <= (u / 4096) % 64 < 64) by (nonlinear_arith);
        assert(0 <= (u / 64) % 64 < 64) by (nonlinear_arith);
        assert(0 <= u % 64 < 64) by (nonlinear_arith);
    }
}

/// In the encoding of a text, the first byte is not a continuation byte,
/// and neither is a byte that follows an ASCII one.
proof fn lemma_utf8_starts(s: Seq<char>)
    ensures
        utf8(s).len() > 0 ==> !(0x80 <= utf8(s)[0] < 0xC0),
        forall|i: int|
            0 < i < utf8(s).len() && utf8(s)[i - 1] < 0x80 ==> !(0x80 <= #[trigger] utf8(s)[i] < 0xC0),
    decreases s.len(),
{
    if s.len() > 0 {
        let init = s.drop_last();
        let c = s.last();
        lemma_utf8_starts(init);
        lemma_utf8_char_bytes(c);
        let a = utf8(init);
        let e = utf8_char(c);
        let b = utf8(s);
        assert(b == a + e);
        assert forall|i: int| 0 < i < b.len() && b[i - 1] < 0x80 implies !(0x80 <= #[trigger] b[i]
            < 0xC0) by {
            if i < a.len() {
                assert(b[i] == a[i]);
                assert(b[i - 1] == a[i - 1]);
            } else if i == a.len() {
                assert(b[i] == e[0]);
            } else {
                assert(b[i - 1] == e[i - 1 - a.len()]);
                assert(b[i] == e[i - a.len()]);
                if i - 1 - a.len() > 0 {
                    assert(0x80 <= e[i - 1 - a.len()]);
                }
            }
        }
        if a.len() > 0 {
            assert(b[0] == a[0]);
        } else {
            assert(b[0] == e[0]);
        }
    }
}

proof fn lemma_back_to_boundary_lands(b: Seq<u8>, i: int)
    requires
        0 <= i,
    ensures
        back_to_boundary(b, i) == 0 || char_boundary(b, back_to_boundary(b, i)),
    decreases i,
{
    if i > 0 && !char_boundary(b, i) {
        lemma_back_to_boundary_lands(b, i - 1);
    }
}

proof fn lemma_forward_to_boundary_lands(b: Seq<u8>, i: int)
    requires
        0 <= i <= b.len(),
    ensures
        char_boundary(b, forward_to_boundary(b, i)),
    decreases b.len() - i,
{
    if i < b.len() && !char_boundary(b, i) {
        lemma_forward_to_boundary_lands(b, i + 1);
    }
}

proof fn lemma_first_space_at(b: Seq<u8>, lo: int, hi: int)
    requires
        0 <= lo,
        hi <= b.len(),
    ensures
        first_space(b, lo, hi) matches Some(k) ==> b[lo + k] == 0x20 && lo + k < hi,
    decreases hi - lo,
{
    if lo < hi && b[lo] != 0x20 {
        lemma_first_space_at(b, lo + 1, hi);
    }
}

proof fn lemma_last_space_at(b: Seq<u8>, lo: int, hi: int)
    requires
        0 <= lo,
        hi <= b.len(),
    ensures
        last_space(b, lo, hi) matches Some(k) ==> b[lo + k] == 0x20 && lo <= lo + k < hi,
    decreases hi - lo,
{
    if lo < hi && b[hi - 1] != 0x20 {
        lemma_last_space_at(b, lo, hi - 1);
    }
}

/// The text facts an excerpt relies on: the first byte is not a
/// continuation byte, and no byte after an ASCII one is.
pub open spec fn starts_cleanly(b: Seq<u8>) -> bool {
    &&& b.len() > 0 ==> !(0x80 <= b[0] < 0xC0)
    &&& forall|i: int| 0 < i < b.len() && b[i - 1] < 0x80 ==> !(0x80 <= #[trigger] b[i] < 0xC0)
}

proof fn lemma_front_on_boundary(b: Seq<u8>, from1: int, start: int)
    requires
        0 <= from1 <= start <= b.len(),
        char_boundary(b, from1),
        starts_cleanly(b),
    ensures
        ({
            let from2 = if from1 > 0 {
                match first_space(b, from1, start) {
                    Some(k) => from1 + k + 1,
                    None => from1,
                }
            } else {
                from1
            };
            char_boundary(b, from2) && 0 <= from2 <= start
        }),
{
    lemma_first_space_at(b, from1, start);
    lemma_first_space(b, from1, start);
    if from1 > 0 {
        if let Some(k) = first_space(b, from1, start) {
            let f = from1 + k + 1;
            assert(b[f - 1] == 0x20);
            if f < b.len() {
                assert(!(0x80 <= b[f] < 0xC0));
            }
        }
    }
}

proof fn lemma_back_on_boundary(b: Seq<u8>, end: int, to1: int)
    requires
        0 <= end <= to1 <= b.len(),
        char_boundary(b, to1),
    ensures
        ({
            let to2 = if to1 < b.len() {
                match last_space(b, end, to1) {
                    Some(k) => end + k,
                    None => to1,
                }
            } else {
                to1
            };
            char_boundary(b, to2) && end <= to2 <= b.len()
        }),
{
    lemma_last_space_at(b, end, to1);
}

proof fn lemma_excerpt_range_on_boundaries(b: Seq<u8>, start: int, end: int)
    requires
        0 <= start <= end <= b.len(),
        starts_cleanly(b),
    ensures
        char_boundary(b, excerpt_range(b, start, end).0),
        char_boundary(b, excerpt_range(b, start, end).1),
        0 <= excerpt_range(b, start, end).0 <= excerpt_range(b, start, end).1 <= b.len(),
        excerpt_range(b, start, end).0 <= start,
        end <= excerpt_range(b, start, end).1,
{
    let width = end - start;
    let padding = (if width < EXCERPT { EXCERPT - width } else { 0 }) / 2;
    let from0 = if start > padding { start - padding } else { 0 };
    let to0 = if end + padding < b.len() { end + padding } else { b.len() as int };
    lemma_back_to_boundary(b, from0);
    lemma_back_to_boundary_lands(b, from0);
    lemma_forward_to_boundary(b, to0);
    lemma_forward_to_boundary_lands(b, to0);
    let from1 = back_to_boundary(b, from0);
    let to1 = forward_to_boundary(b, to0);
    if from1 == 0 && b.len() > 0 {
        assert(char_boundary(b, 0));
    }
    lemma_front_on_boundary(b, from1, start);
    lemma_back_on_boundary(b, end, to1);
}

/// An excerpt never splits a character: for a match that lies on character
/// boundaries, the window shown starts and ends on character boundaries too,
/// however the window was widened to characters and narrowed to words.
pub proof fn law_excerpt_keeps_characters_whole(s: Seq<char>, start: int, end: int)
    requires
        0 <= start <= end <= utf8(s).len(),
    ensures
        char_boundary(utf8(s), excerpt_range(utf8(s), start, end).0),
        char_boundary(utf8(s), excerpt_range(utf8(s), start, end).1),
        0 <= excerpt_range(utf8(s), start, end).0 <= excerpt_range(utf8(s), start, end).1 <= utf8(
            s,
        ).len(),
{
    lemma_utf8_starts(s);
    lemma_excerpt_range_on_boundaries(utf8(s), start, end);
}


proof fn lemma_utf8_concat(a: Seq<char>, b: Seq<char>)
    ensures
        utf8(a + b) == utf8(a) + utf8(b),
    decreases b.len(),
{
    if b.len() == 0 {
        assert(a + b =~= a);
        assert(utf8(a) + utf8(b) =~= utf8(a));
    } else {
        lemma_utf8_concat(a, b.drop_last());
        assert((a + b).drop_last() =~= a + b.drop_last());
        assert((a + b).last() == b.last());
        assert(utf8(a) + utf8(b) =~= utf8(a) + utf8(b.drop_last()) + utf8_char(b.last()));
    }
}

proof fn lemma_utf8_len(s: Seq<char>)
    ensures
        utf8(s).len() >= s.len(),
    decreases s.len(),
{
    if s.len() > 0 {
        lemma_utf8_len(s.drop_last());
        lemma_utf8_char_bytes(s.last());
    }
}

/// A character boundary of a text's encoding ends the encoding of the
/// characters before it.
proof fn lemma_chars_in(s: Seq<char>, i: int)
    requires
        0 <= i <= utf8(s).len(),
        char_boundary(utf8(s), i),
    ensures
        0 <= chars_in(s, i) <= s.len(),
        utf8(s.take(chars_in(s, i))) == utf8(s).take(i),
    decreases s.len(),
{
    if s.len() == 0 {
        assert(utf8(s).take(i) =~= utf8(s));
        assert(s.take(0) =~= s);
    } else if i >= utf8(s).len() {
        assert(s.take(s.len() as int) =~= s);
        assert(utf8(s).take(i) =~= utf8(s));
    } else {
        let init = s.drop_last();
        let a = utf8(init);
        let e = utf8_char(s.last());
        assert(utf8(s) == a + e);
        lemma_utf8_char_bytes(s.last());
        if i <= a.len() {
            if i < a.len() {
                assert(utf8(s)[i] == a[i]);
            }
            lemma_chars_in(init, i);
            let k = chars_in(init, i);
            assert(init.take(k) =~= s.take(k));
            assert(utf8(s).take(i) =~= a.take(i));
        } else {
            assert(utf8(s)[i] == e[i - a.len()]);
            assert(false);
        }
    }
}

/// The bytes between two character boundaries encode the characters
/// between them.
proof fn lemma_utf8_subrange(s: Seq<char>, i: int, j: int)
    requires
        0 <= i <= j <= utf8(s).len(),
        char_boundary(utf8(s), i),
        char_boundary(utf8(s), j),
    ensures
        0 <= chars_in(s, i) <= chars_in(s, j) <= s.len(),
        utf8(s.subrange(chars_in(s, i), chars_in(s, j))) == utf8(s).subrange(i, j),
{
    lemma_chars_in(s, i);
    lemma_chars_in(s, j);
    let ki = chars_in(s, i);
    let kj = chars_in(s, j);
    if ki > kj {
        let mid = s.subrange(kj, ki);
        assert(s.take(ki) =~= s.take(kj) + mid);
        lemma_utf8_concat(s.take(kj), mid);
        lemma_utf8_len(mid);
        assert(utf8(s.take(ki)).len() == i);
        assert(utf8(s.take(kj)).len() == j);
        assert(utf8(s.take(ki)).len() == utf8(s.take(kj)).len() + utf8(mid).len());
        assert(false);
    }
    let mid = s.subrange(ki, kj);
    assert(s.take(kj) =~= s.take(ki) + mid);
    lemma_utf8_concat(s.take(ki), mid);
    assert(utf8(s).subrange(i, j) =~= utf8(s).take(j).skip(i));
    assert(utf8(s.take(kj)).skip(i) =~= utf8(mid));
}

/// An excerpt is a piece of the sentence it quotes, and the phrase that
/// matched is always in it: a sentence of at most [`EXCERPT`] bytes is shown
/// whole; a longer one as the characters between two character boundaries
/// `from <= start` and `to >= end`, trimmed, with `...` before it exactly when
/// `from > 0` and after it exactly when `to` is short of the end.
pub proof fn law_excerpt_quotes_its_sentence(s: Seq<char>, start: int, end: int)
    requires
        0 <= start <= end <= utf8(s).len(),
    ensures
        utf8(s).len() <= EXCERPT ==> excerpt_spec(s, start, end) == s,
        utf8(s).len() > EXCERPT ==> ({
            let (from, to) = excerpt_range(utf8(s), start, end);
            &&& 0 <= from <= start
            &&& end <= to <= utf8(s).len()
            &&& char_boundary(utf8(s), from)
            &&& char_boundary(utf8(s), to)
            &&& 0 <= chars_in(s, from) <= chars_in(s, to) <= s.len()
            &&& excerpt_spec(s, start, end) == ellipsis(from > 0) + trim(
                s.subrange(chars_in(s, from), chars_in(s, to)),
            ) + ellipsis(to < utf8(s).len())
        }),
{
    if utf8(s).len() > EXCERPT {
        lemma_utf8_starts(s);
        lemma_excerpt_range_on_boundaries(utf8(s), start, end);
        let (from, to) = excerpt_range(utf8(s), start, end);
        lemma_utf8_subrange(s, from, to);
    }
}

} // verus!
