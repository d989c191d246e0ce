//! Keyword-and-value configuration files under `/etc`: how a definition is
//! read, and how the file is rewritten so that exactly one active definition
//! of a key remains.
//!
//! `sshd` obeys the first definition of a keyword and `sysctl` the last, so a
//! rewrite replaces the first active definition in place and comments out the
//! later ones. After that both rules agree - which is the law proved at the
//! end of this module: reading a key back from a rewritten file yields exactly
//! the value that was written.
use vstd::prelude::*;

use crate::text::{
    concat_str, decimal_of, decimal_string,
    has_no, index_of, lemma_line_state_joined, lemma_lines_plain, lemma_skip_ws_at, lemma_trim_is,
    lemma_trim_pad, lemma_trim_strip_cr, line_state, strip_cr, chars_of, eq_ignore_case, eq_ignore_case_chars, extend, is_whitespace, is_ws, join, join_chars,
    lines, lines_of, seqs, skip_ws, slice, split_once, split_once_chars,
    string_of, strings_of, strs, trim, trim_bounds, trim_chars,
};

verus! {

/// How a file separates a keyword from its value.
#[derive(Debug, Clone, Copy, PartialEq, Eq, Structural)]
pub enum Style {
    /// `PermitRootLogin no` - sshd_config, login.defs, common-*.
    Space,
    /// `net.ipv4.ip_forward = 0` - sysctl.conf, limits.conf.
    Equals,
    /// `APT::Periodic::Update-Package-Lists "1";` - the apt configuration
    /// directory, where the value is quoted and the line ends in a semicolon.
    AptConf,
}

/// A trimmed line that is neither blank nor a comment.
pub open spec fn active_trimmed(t: Seq<char>) -> bool {
    t.len() > 0 && t[0] != '#' && t[0] != ';'
}

/// Is this line something a parser acts on, rather than a comment or a blank?
pub open spec fn line_is_active(line: Seq<char>) -> bool {
    active_trimmed(trim(line))
}

/// The position of the first whitespace character at or after `i`, or the
/// length when there is none.
pub open spec fn ws_index(s: Seq<char>, i: int) -> int
    decreases s.len() - i,
{
    if i < 0 || i >= s.len() {
        s.len() as int
    } else if is_ws(s[i]) {
        i
    } else {
        ws_index(s, i + 1)
    }
}

/// `splitn(2, char::is_whitespace)`: the first word, and what follows the
/// whitespace character that ended it (empty when nothing did).
pub open spec fn split_first_word(t: Seq<char>) -> (Seq<char>, Seq<char>) {
    let i = ws_index(t, 0);
    if i < t.len() {
        (t.subrange(0, i), t.subrange(i + 1, t.len() as int))
    } else {
        (t, Seq::empty())
    }
}

/// `trim_end_matches(c)`: every trailing `c` removed.
pub open spec fn strip_end_all(s: Seq<char>, c: char) -> Seq<char>
    decreases s.len(),
{
    if s.len() > 0 && s.last() == c {
        strip_end_all(s.drop_last(), c)
    } else {
        s
    }
}

/// `trim_start_matches(c)`: every leading `c` removed.
pub open spec fn strip_start_all(s: Seq<char>, c: char) -> Seq<char>
    decreases s.len(),
{
    if s.len() > 0 && s[0] == c {
        strip_start_all(s.drop_first(), c)
    } else {
        s
    }
}

/// `trim_matches(c)`: every leading and trailing `c` removed.
pub open spec fn strip_both_all(s: Seq<char>, c: char) -> Seq<char> {
    strip_end_all(strip_start_all(s, c), c)
}

/// The keyword and value a line defines under `style`, or `None` for a
/// comment, a blank, or a line that is not a definition.
pub open spec fn split_spec(style: Style, line: Seq<char>) -> Option<(Seq<char>, Seq<char>)> {
    let t = trim(line);
    if !active_trimmed(t) {
        None
    } else {
        match style {
            Style::Space => {
                let (k, rest) = split_first_word(t);
                Some((k, trim(rest)))
            },
            Style::Equals => match split_once(t, '=') {
                Some((k, v)) => Some((trim(k), trim(v))),
                None => None,
            },
            Style::AptConf => {
                let (k, rest) = split_first_word(t);
                Some((k, strip_both_all(trim(strip_end_all(trim(rest), ';')), '"')))
            },
        }
    }
}

/// How a style writes a definition.
pub open spec fn format_spec(style: Style, key: Seq<char>, value: Seq<char>) -> Seq<char> {
    match style {
        Style::Space => key + seq![' '] + value,
        Style::Equals => key + seq![' ', '=', ' '] + value,
        Style::AptConf => key + seq![' ', '"'] + value + seq!['"', ';'],
    }
}

/// The values of `key` defined by the given lines, in order.
pub open spec fn values_in(ls: Seq<Seq<char>>, style: Style, key: Seq<char>) -> Seq<Seq<char>>
    decreases ls.len(),
{
    if ls.len() == 0 {
        Seq::empty()
    } else {
        let before = values_in(ls.drop_last(), style, key);
        match split_spec(style, ls.last()) {
            Some((k, v)) => if eq_ignore_case(k, key) {
                before.push(v)
            } else {
                before
            },
            None => before,
        }
    }
}

/// The active values of `key` in `text`, in the order they appear.
pub open spec fn active_values_spec(text: Seq<char>, style: Style, key: Seq<char>) -> Seq<
    Seq<char>,
> {
    values_in(lines(text), style, key)
}

/// Does this line define `key`?
pub open spec fn defines(style: Style, line: Seq<char>, key: Seq<char>) -> bool {
    match split_spec(style, line) {
        Some((k, _)) => eq_ignore_case(k, key),
        None => false,
    }
}

/// The leading whitespace of a line.
pub open spec fn indent_of(line: Seq<char>) -> Seq<char> {
    line.subrange(0, skip_ws(line, 0))
}

/// Appended after a definition that a rewrite commented out.
pub open spec fn superseded_note() -> Seq<char> {
    "    # superseded by PinnacleCyPat"@
}

/// Written above a definition that a rewrite appended.
pub open spec fn appended_note() -> Seq<char> {
    "# set by PinnacleCyPat"@
}

/// The lines written so far, and whether the key has been written, after
/// rewriting the lines `ls`.
pub open spec fn rewrite_state(ls: Seq<Seq<char>>, style: Style, key: Seq<char>, wanted: Seq<char>) -> (
    Seq<Seq<char>>,
    bool,
)
    decreases ls.len(),
{
    if ls.len() == 0 {
        (Seq::empty(), false)
    } else {
        let (out, written) = rewrite_state(ls.drop_last(), style, key, wanted);
        let line = ls.last();
        if defines(style, line, key) {
            if written {
                (out.push(seq!['#', ' '] + line + superseded_note()), true)
            } else {
                (out.push(indent_of(line) + wanted), true)
            }
        } else {
            (out.push(line), written)
        }
    }
}

/// The lines of the rewritten file.
pub open spec fn rewrite_lines(ls: Seq<Seq<char>>, style: Style, key: Seq<char>, value: Seq<char>) -> Seq<
    Seq<char>,
> {
    let wanted = format_spec(style, key, value);
    let (out, written) = rewrite_state(ls, style, key, wanted);
    if written {
        out
    } else {
        let padded = if out.len() > 0 && trim(out.last()).len() != 0 {
            out.push(Seq::empty())
        } else {
            out
        };
        padded.push(appended_note()).push(wanted)
    }
}

/// The new contents of a file after setting `key` to `value` in it.
pub open spec fn rewrite_spec(original: Seq<char>, style: Style, key: Seq<char>, value: Seq<char>) -> Seq<
    char,
> {
    join(rewrite_lines(lines(original), style, key, value), seq!['\n']) + seq!['\n']
}

pub fn is_active_chars(line: &Vec<char>) -> (b: bool)
    ensures
        b == line_is_active(line@),
{
    let (a, z) = trim_bounds(line);
    a < z && line[a] != '#' && line[a] != ';'
}

/// Is this line something the parser will act on, rather than a comment or a
/// blank?
pub fn is_active(line: &str) -> (b: bool)
    ensures
        b == line_is_active(line@),
{
    is_active_chars(&chars_of(line))
}

pub fn ws_index_exec(t: &Vec<char>) -> (i: usize)
    ensures
        i == ws_index(t@, 0),
        i <= t.len(),
        i < t.len() ==> is_ws(t@[i as int]),
        forall|k: int| 0 <= k < i ==> !is_ws(t@[k]),
{
    let n = t.len();
    let mut i: usize = 0;
    while i < n && !is_whitespace(t[i])
        invariant
            i <= n == t.len(),
            ws_index(t@, 0) == ws_index(t@, i as int),
            forall|k: int| 0 <= k < i ==> !is_ws(t@[k]),
        decreases n - i,
    {
        i = i + 1;
    }
    i
}

fn split_first_word_exec(t: &Vec<char>) -> (r: (Vec<char>, Vec<char>))
    ensures
        (r.0@, r.1@) == split_first_word(t@),
{
    let i = ws_index_exec(t);
    if i < t.len() {
        (slice(t, 0, i), slice(t, i + 1, t.len()))
    } else {
        let e: Vec<char> = Vec::new();
        proof {
            assert(t@.subrange(0, t@.len() as int) =~= t@);
        }
        (slice(t, 0, t.len()), e)
    }
}

fn strip_end_all_exec(s: &Vec<char>, c: char) -> (r: Vec<char>)
    ensures
        r@ == strip_end_all(s@, c),
{
    let mut j = s.len();
    proof {
        assert(s@.subrange(0, j as int) =~= s@);
    }
    while j > 0 && s[j - 1] == c
        invariant
            j <= s.len(),
            strip_end_all(s@, c) == strip_end_all(s@.subrange(0, j as int), c),
        decreases j,
    {
        proof {
            assert(s@.subrange(0, j as int).drop_last() =~= s@.subrange(0, j - 1));
        }
        j = j - 1;
    }
    slice(s, 0, j)
}

fn strip_start_all_exec(s: &Vec<char>, c: char) -> (r: Vec<char>)
    ensures
        r@ == strip_start_all(s@, c),
{
    let n = s.len();
    let mut i: usize = 0;
    proof {
        assert(s@.subrange(0, n as int) =~= s@);
    }
    while i < n && s[i] == c
        invariant
            i <= n == s.len(),
            strip_start_all(s@, c) == strip_start_all(s@.subrange(i as int, n as int), c),
        decreases n - i,
    {
        proof {
            assert(s@.subrange(i as int, n as int).drop_first() =~= s@.subrange(i + 1, n as int));
        }
        i = i + 1;
    }
    slice(s, i, n)
}

impl Style {
    /// How this style writes a new definition.
    pub fn format(self, key: &Vec<char>, value: &Vec<char>) -> (r: Vec<char>)
        ensures
            r@ == format_spec(self, key@, value@),
    {
        let mut out: Vec<char> = Vec::new();
        extend(&mut out, key);
        match self {
            Style::Space => {
                out.push(' ');
                extend(&mut out, value);
            },
            Style::Equals => {
                out.push(' ');
                out.push('=');
                out.push(' ');
                extend(&mut out, value);
            },
            Style::AptConf => {
                out.push(' ');
                out.push('"');
                extend(&mut out, value);
                out.push('"');
                out.push(';');
            },
        }
        proof {
            assert(out@ =~= format_spec(self, key@, value@));
        }
        out
    }

    /// Split a line into its keyword and value, or `None` if it is a comment,
    /// blank, or not a definition at all.
    pub fn split(self, line: &Vec<char>) -> (r: Option<(Vec<char>, Vec<char>)>)
        ensures
            match r {
                Some((k, v)) => split_spec(self, line@) == Some((k@, v@)),
                None => split_spec(self, line@) is None,
            },
    {
        let t = trim_chars(line);
        if !(t.len() > 0 && t[0] != '#' && t[0] != ';') {
            return None;
        }
        match self {
            Style::Space => {
                let (k, rest) = split_first_word_exec(&t);
                Some((k, trim_chars(&rest)))
            },
            Style::Equals => match split_once_chars(&t, '=') {
                Some((k, v)) => Some((trim_chars(&k), trim_chars(&v))),
                None => None,
            },
            Style::AptConf => {
                let (k, rest) = split_first_word_exec(&t);
                let a = trim_chars(&rest);
                let b = strip_end_all_exec(&a, ';');
                let c = trim_chars(&b);
                let d = strip_start_all_exec(&c, '"');
                let e = strip_end_all_exec(&d, '"');
                Some((k, e))
            },
        }
    }
}

fn defines_exec(style: Style, line: &Vec<char>, key: &Vec<char>) -> (b: bool)
    ensures
        b == defines(style, line@, key@),
{
    match style.split(line) {
        Some((k, _)) => eq_ignore_case_chars(&k, key),
        None => false,
    }
}

/// The active values of `key` in `text`, in the order they appear.
///
/// "Active" means not commented out. More than one is a misconfiguration
/// whichever parser reads the file, which is why they are all returned.
pub fn active_values(text: &str, style: Style, key: &str) -> (r: Vec<String>)
    ensures
        strs(r@) == active_values_spec(text@, style, key@),
{
    let ls = lines_of(&chars_of(text));
    let key = chars_of(key);
    let mut out: Vec<Vec<char>> = Vec::new();
    let n = ls.len();
    let mut i: usize = 0;
    while i < n
        invariant
            i <= n == ls.len(),
            seqs(out@) == values_in(seqs(ls@).take(i as int), style, key@),
        decreases n - i,
    {
        proof {
            assert(seqs(ls@).take(i + 1).drop_last() =~= seqs(ls@).take(i as int));
        }
        match style.split(&ls[i]) {
            Some((k, v)) => {
                if eq_ignore_case_chars(&k, &key) {
                    let ghost before = seqs(out@);
                    out.push(v);
                    proof {
                        assert(seqs(out@) =~= before.push(v@));
                    }
                }
            },
            None => {},
        }
        i = i + 1;
    }
    proof {
        assert(seqs(ls@).take(n as int) =~= seqs(ls@));
    }
    strings_of(&out)
}

/// Produce the new file contents after setting `key` to `value`: the first
/// active definition is replaced in place (keeping its indentation), every
/// later one is commented out, and a key the file never defined is appended
/// under a note. The result always ends with a newline.
pub fn rewrite(original: &str, style: Style, key: &str, value: &str) -> (r: String)
    ensures
        r@ == rewrite_spec(original@, style, key@, value@),
{
    let keyv = chars_of(key);
    let valuev = chars_of(value);
    let wanted = style.format(&keyv, &valuev);
    let ls = lines_of(&chars_of(original));
    let superseded = chars_of("    # superseded by PinnacleCyPat");
    let mut out: Vec<Vec<char>> = Vec::new();
    let mut written = false;
    let n = ls.len();
    let mut i: usize = 0;
    while i < n
        invariant
            i <= n == ls.len(),
            wanted@ == format_spec(style, keyv@, valuev@),
            superseded@ == superseded_note(),
            (seqs(out@), written) == rewrite_state(seqs(ls@).take(i as int), style, keyv@, wanted@),
        decreases n - i,
    {
        proof {
            assert(seqs(ls@).take(i + 1).drop_last() =~= seqs(ls@).take(i as int));
        }
        let line = &ls[i];
        let ghost before = seqs(out@);
        if defines_exec(style, line, &keyv) {
            if written {
                let mut c: Vec<char> = Vec::new();
                c.push('#');
                c.push(' ');
                extend(&mut c, line);
                extend(&mut c, &superseded);
                proof {
                    assert(c@ =~= seq!['#', ' '] + line@ + superseded_note());
                }
                out.push(c);
                proof {
                    assert(seqs(out@) =~= before.push(seq!['#', ' '] + line@ + superseded_note()));
                }
            } else {
                let (a, _z) = trim_bounds(line);
                let mut c = slice(line, 0, a);
                extend(&mut c, &wanted);
                out.push(c);
                written = true;
                proof {
                    assert(seqs(out@) =~= before.push(indent_of(line@) + wanted@));
                }
            }
        } else {
            out.push(clone_chars(line));
            proof {
                assert(seqs(out@) =~= before.push(line@));
            }
        }
        i = i + 1;
    }
    proof {
        assert(seqs(ls@).take(n as int) =~= seqs(ls@));
    }
    if !written {
        let m = out.len();
        if m > 0 {
            let (a, z) = trim_bounds(&out[m - 1]);
            if a < z {
                let ghost before = seqs(out@);
                out.push(Vec::new());
                proof {
                    assert(seqs(out@) =~= before.push(Seq::empty()));
                }
            }
        }
        let ghost before = seqs(out@);
        out.push(chars_of("# set by PinnacleCyPat"));
        out.push(wanted);
        proof {
            assert(seqs(out@) =~= before.push(appended_note()).push(format_spec(style, keyv@, valuev@)));
        }
    }
    let mut nl: Vec<char> = Vec::new();
    nl.push('\n');
    let mut text = join_chars(&out, &nl);
    text.push('\n');
    proof {
        assert(nl@ =~= seq!['\n']);
        assert(text@ =~= rewrite_spec(original@, style, key@, value@));
    }
    string_of(&text)
}

fn clone_chars(v: &Vec<char>) -> (r: Vec<char>)
    ensures
        r@ == v@,
{
    let r = slice(v, 0, v.len());
    proof {
        assert(v@.subrange(0, v@.len() as int) =~= v@);
    }
    r
}

// ---------------------------------------------------------------------------
// Reading back what was written
// ---------------------------------------------------------------------------

/// A key that a file of this style can hold as one definition: not empty, not
/// a comment, with no whitespace in it (for `Equals`, only none at its ends, no
/// line break and no `=`).
pub open spec fn plain_key(style: Style, key: Seq<char>) -> bool {
    &&& key.len() > 0
    &&& key[0] != '#' && key[0] != ';'
    &&& match style {
        Style::Equals => trim(key) == key && has_no(key, '=') && has_no(key, '\n'),
        _ => forall|i: int| 0 <= i < key.len() ==> !is_ws(key[i]),
    }
}

/// A value that reads back as itself: no line break; for `Space` and `Equals`
/// no whitespace at its ends (the reader trims it); for `AptConf` no quote at
/// its ends (the reader strips the quoting).
pub open spec fn plain_value(style: Style, value: Seq<char>) -> bool {
    &&& has_no(value, '\n')
    &&& match style {
        Style::AptConf => value.len() == 0 || (value[0] != '"' && value.last() != '"'),
        _ => trim(value) == value,
    }
}

proof fn lemma_split_equal_trim(style: Style, a: Seq<char>, b: Seq<char>)
    requires
        trim(a) == trim(b),
    ensures
        split_spec(style, a) == split_spec(style, b),
{
}

proof fn lemma_ws_index_at(s: Seq<char>, i: int, r: int)
    requires
        0 <= i <= r <= s.len(),
        forall|k: int| i <= k < r ==> !is_ws(s[k]),
        r == s.len() || is_ws(s[r]),
    ensures
        ws_index(s, i) == r,
    decreases r - i,
{
    if i < r {
        lemma_ws_index_at(s, i + 1, r);
    }
}

proof fn lemma_index_of_at(s: Seq<char>, c: char, i: int, r: int)
    requires
        0 <= i <= r <= s.len(),
        forall|k: int| i <= k < r ==> s[k] != c,
        r == s.len() || s[r] == c,
    ensures
        index_of(s, c, i) == r,
    decreases r - i,
{
    if i < r {
        lemma_index_of_at(s, c, i + 1, r);
    }
}

proof fn lemma_strip_start_quote(v: Seq<char>)
    requires
        v.len() == 0 || v[0] != '"',
    ensures
        strip_start_all(seq!['"'] + v, '"') == v,
{
    let s = seq!['"'] + v;
    assert(s.drop_first() =~= v);
    assert(strip_start_all(s, '"') == strip_start_all(v, '"'));
    assert(strip_start_all(v, '"') == v);
}

proof fn lemma_strip_end_one(v: Seq<char>, c: char)
    requires
        v.len() == 0 || v.last() != c,
    ensures
        strip_end_all(v + seq![c], c) == v,
{
    let s = v + seq![c];
    assert(s.drop_last() =~= v);
    assert(strip_end_all(s, c) == strip_end_all(v, c));
    assert(strip_end_all(v, c) == v);
}

/// A freshly formatted definition, with or without indentation, reads as
/// defining `key` with `value`.
proof fn lemma_wanted_reads_back(style: Style, key: Seq<char>, value: Seq<char>, indent: Seq<char>)
    requires
        plain_key(style, key),
        plain_value(style, value),
        forall|k: int| 0 <= k < indent.len() ==> is_ws(indent[k]),
    ensures
        split_spec(style, indent + format_spec(style, key, value)) == Some((key, value)),
{
    let w = format_spec(style, key, value);
    let e: Seq<char> = Seq::empty();
    lemma_trim_pad(indent, w, e);
    assert(indent + w + e =~= indent + w);
    let n = key.len() as int;
    match style {
        Style::Space => {
            assert(!is_ws(key[0]));
            if value.len() == 0 {
                lemma_trim_is(w, 0, n);
                assert(w.subrange(0, n) =~= key);
                lemma_ws_index_at(key, 0, n);
                assert(trim(e) =~= e) by {
                    lemma_trim_is(e, 0, 0);
                }
            } else {
                let (a, b) = lemma_trim_bounds_of(value);
                assert(a == 0 && b == value.len()) by {
                    if a != 0 || b != value.len() {
                        assert(value.subrange(a, b).len() != value.len());
                    }
                }
                assert(!is_ws(value.last()));
                assert(w[w.len() - 1] == value.last());
                lemma_trim_is(w, 0, w.len() as int);
                assert(w.subrange(0, w.len() as int) =~= w);
                lemma_ws_index_at(w, 0, n);
                assert(w.subrange(0, n) =~= key);
                assert(w.subrange(n + 1, w.len() as int) =~= value);
            }
        },
        Style::Equals => {
            let (ka, kb) = lemma_trim_bounds_of(key);
            assert(ka == 0 && kb == n) by {
                if ka != 0 || kb != n {
                    assert(key.subrange(ka, kb).len() != key.len());
                }
            }
            assert(!is_ws(key[0]) && !is_ws(key[n - 1]));
            let t = if value.len() == 0 {
                lemma_trim_is(w, 0, n + 2);
                w.subrange(0, n + 2)
            } else {
                let (a, b) = lemma_trim_bounds_of(value);
                assert(a == 0 && b == value.len()) by {
                    if a != 0 || b != value.len() {
                        assert(value.subrange(a, b).len() != value.len());
                    }
                }
                assert(w[w.len() - 1] == value.last());
                lemma_trim_is(w, 0, w.len() as int);
                w.subrange(0, w.len() as int)
            };
            assert(t[n + 1] == '=');
            lemma_index_of_at(t, '=', 0, n + 1);
            assert(t.subrange(0, n + 1) =~= key + seq![' ']);
            lemma_trim_pad(e, key, seq![' ']);
            assert(e + key + seq![' '] =~= key + seq![' ']);
            if value.len() == 0 {
                assert(t.subrange(n + 2, t.len() as int) =~= e);
                lemma_trim_is(e, 0, 0);
                assert(e.subrange(0, 0) =~= e);
            } else {
                assert(t.subrange(n + 2, t.len() as int) =~= seq![' '] + value);
                lemma_trim_pad(seq![' '], value, e);
                assert(seq![' '] + value + e =~= seq![' '] + value);
            }
        },
        Style::AptConf => {
            assert(w[w.len() - 1] == ';');
            lemma_trim_is(w, 0, w.len() as int);
            assert(w.subrange(0, w.len() as int) =~= w);
            lemma_ws_index_at(w, 0, n);
            assert(w.subrange(0, n) =~= key);
            let rest = w.subrange(n + 1, w.len() as int);
            assert(rest =~= seq!['"'] + value + seq!['"', ';']);
            lemma_trim_is(rest, 0, rest.len() as int);
            assert(rest.subrange(0, rest.len() as int) =~= rest);
            let q = seq!['"'] + value + seq!['"'];
            assert(rest =~= q + seq![';']);
            lemma_strip_end_one(q, ';');
            lemma_trim_is(q, 0, q.len() as int);
            assert(q.subrange(0, q.len() as int) =~= q);
            assert(q =~= seq!['"'] + (value + seq!['"']));
            if value.len() == 0 {
                assert(value + seq!['"'] =~= seq!['"']);
                assert(seq!['"'].drop_first().len() == 0);
                assert(strip_start_all(seq!['"'], '"') == strip_start_all(seq!['"'].drop_first(), '"'));
                assert(strip_start_all(q, '"') == strip_start_all(q.drop_first(), '"'));
                assert(q.drop_first() =~= seq!['"']);
                assert(strip_start_all(q, '"') =~= e);
            } else {
                assert((value + seq!['"'])[0] == value[0]);
                lemma_strip_start_quote(value + seq!['"']);
                lemma_strip_end_one(value, '"');
            }
        },
    }
}

proof fn lemma_trim_bounds_of(s: Seq<char>) -> (r: (int, int))
    ensures
        0 <= r.0 <= r.1 <= s.len(),
        trim(s) == s.subrange(r.0, r.1),
        (r.0 < r.1 && !is_ws(s[r.0]) && !is_ws(s[r.1 - 1])) || (r.0 == r.1),
{
    crate::text::lemma_trim_bounds(s)
}

/// Comments read as no definition at all.
proof fn lemma_comment_defines_nothing(style: Style, line: Seq<char>)
    requires
        line.len() > 0 && line[0] == '#',
    ensures
        split_spec(style, line) is None,
{
    let (a, b) = lemma_trim_bounds_of(line);
    assert(!is_ws('#'));
    assert(a == 0) by {
        if a > 0 {
            crate::text::lemma_trim_bounds(line);
        }
    }
    let r = crate::text::lemma_trim_bounds(line);
    assert(trim(line)[0] == '#');
}

/// The values read from a sequence of lines do not change when each line
/// loses a trailing carriage return.
proof fn lemma_values_strip_cr(ls: Seq<Seq<char>>, style: Style, key: Seq<char>)
    ensures
        values_in(ls.map_values(|l: Seq<char>| strip_cr(l)), style, key) == values_in(ls, style, key),
    decreases ls.len(),
{
    if ls.len() > 0 {
        let m = ls.map_values(|l: Seq<char>| strip_cr(l));
        lemma_values_strip_cr(ls.drop_last(), style, key);
        assert(m.drop_last() =~= ls.drop_last().map_values(|l: Seq<char>| strip_cr(l)));
        lemma_trim_strip_cr(ls.last());
        lemma_split_equal_trim(style, m.last(), ls.last());
    }
}

/// While rewriting, the lines written so far define the key exactly once if
/// it has been written and not at all otherwise; and none holds a newline.
proof fn lemma_rewrite_state(ls: Seq<Seq<char>>, style: Style, key: Seq<char>, value: Seq<char>)
    requires
        plain_key(style, key),
        plain_value(style, value),
        forall|i: int| 0 <= i < ls.len() ==> has_no(#[trigger] ls[i], '\n'),
    ensures
        ({
            let (out, written) = rewrite_state(ls, style, key, format_spec(style, key, value));
            &&& values_in(out, style, key) == (if written {
                seq![value]
            } else {
                Seq::<Seq<char>>::empty()
            })
            &&& out.len() == ls.len()
            &&& forall|i: int| 0 <= i < out.len() ==> has_no(#[trigger] out[i], '\n')
        }),
    decreases ls.len(),
{
    if ls.len() > 0 {
        let w = format_spec(style, key, value);
        lemma_rewrite_state(ls.drop_last(), style, key, value);
        let (out0, written0) = rewrite_state(ls.drop_last(), style, key, w);
        let (out, written) = rewrite_state(ls, style, key, w);
        let line = ls.last();
        assert(has_no(line, '\n'));
        assert(out.drop_last() =~= out0);
        assert(has_no(w, '\n')) by {
            assert forall|i: int| 0 <= i < w.len() implies w[i] != '\n' by {
                if i < key.len() {
                    assert(w[i] == key[i]);
                    match style {
                        Style::Equals => {},
                        _ => {
                            assert(!is_ws(key[i]));
                        },
                    }
                } else {
                    match style {
                        Style::Space => {
                            if i > key.len() {
                                assert(w[i] == value[i - key.len() - 1]);
                            }
                        },
                        Style::Equals => {
                            if i > key.len() + 2 {
                                assert(w[i] == value[i - key.len() - 3]);
                            }
                        },
                        Style::AptConf => {
                            if i > key.len() + 1 && i < key.len() + 2 + value.len() {
                                assert(w[i] == value[i - key.len() - 2]);
                            }
                        },
                    }
                }
            }
        }
        if defines(style, line, key) {
            if written0 {
                let c = seq!['#', ' '] + line + superseded_note();
                lemma_comment_defines_nothing(style, c);
                reveal_strlit("    # superseded by PinnacleCyPat");
                assert(has_no(c, '\n')) by {
                    assert forall|i: int| 0 <= i < c.len() implies c[i] != '\n' by {
                        if i >= 2 && i < 2 + line.len() {
                            assert(c[i] == line[i - 2]);
                        } else if i >= 2 + line.len() {
                            assert(c[i] == superseded_note()[i - 2 - line.len()]);
                        }
                    }
                }
            } else {
                let ind = indent_of(line);
                crate::text::lemma_skip_ws_bounds(line, 0);
                lemma_wanted_reads_back(style, key, value, ind);
                assert(has_no(ind + w, '\n')) by {
                    assert forall|i: int| 0 <= i < (ind + w).len() implies (ind + w)[i] != '\n' by {
                        if i < ind.len() {
                            assert((ind + w)[i] == line[i]);
                        } else {
                            assert((ind + w)[i] == w[i - ind.len()]);
                        }
                    }
                }
                assert(eq_ignore_case(key, key));
            }
        }
        assert forall|i: int| 0 <= i < out.len() implies has_no(#[trigger] out[i], '\n') by {
            if i < out0.len() {
                assert(out[i] == out0[i]);
            }
        }
    }
}

proof fn lemma_key_starts_plain(style: Style, key: Seq<char>)
    requires
        plain_key(style, key),
    ensures
        !is_ws(key[0]),
{
    match style {
        Style::Equals => {
            if is_ws(key[0]) {
                crate::text::lemma_skip_ws_bounds(key, 0);
                assert(skip_ws(key, 0) == skip_ws(key, 1));
                crate::text::lemma_skip_ws_bounds(key, 1);
                let st = key.subrange(skip_ws(key, 0), key.len() as int);
                crate::text::lemma_skip_ws_back_bounds(st, st.len() as int);
                assert(trim(key).len() < key.len());
            }
        },
        _ => {},
    }
}

proof fn lemma_skip_ws_concat(a: Seq<char>, b: Seq<char>, i: int)
    requires
        0 <= i <= a.len(),
        forall|k: int| 0 <= k < a.len() ==> is_ws(a[k]),
        b.len() > 0,
        !is_ws(b[0]),
    ensures
        skip_ws(a + b, i) == a.len(),
    decreases a.len() - i,
{
    if i < a.len() {
        lemma_skip_ws_concat(a, b, i + 1);
    } else {
        assert((a + b)[i] == b[0]);
    }
}

proof fn lemma_indent_is_space(line: Seq<char>)
    ensures
        forall|k: int| 0 <= k < indent_of(line).len() ==> is_ws(#[trigger] indent_of(line)[k]),
{
    crate::text::lemma_skip_ws_bounds(line, 0);
}

/// A definition written with an indent keeps that indent when read again,
/// and defines the key.
proof fn lemma_written_line(style: Style, key: Seq<char>, value: Seq<char>, indent: Seq<char>)
    requires
        plain_key(style, key),
        plain_value(style, value),
        forall|k: int| 0 <= k < indent.len() ==> is_ws(indent[k]),
    ensures
        defines(style, indent + format_spec(style, key, value), key),
        indent_of(indent + format_spec(style, key, value)) == indent,
{
    let w = format_spec(style, key, value);
    lemma_wanted_reads_back(style, key, value, indent);
    assert(eq_ignore_case(key, key));
    lemma_key_starts_plain(style, key);
    assert(w[0] == key[0]);
    lemma_skip_ws_concat(indent, w, 0);
    assert((indent + w).subrange(0, indent.len() as int) =~= indent);
}

/// Setting a key that is already set changes nothing: rewriting the lines a
/// rewrite produced gives the same lines, so writing a file that already
/// holds the setting leaves it as it is.
pub proof fn law_rewrite_is_idempotent(ls: Seq<Seq<char>>, style: Style, key: Seq<char>, value: Seq<char>)
    requires
        plain_key(style, key),
        plain_value(style, value),
    ensures
        rewrite_lines(rewrite_lines(ls, style, key, value), style, key, value) == rewrite_lines(
            ls,
            style,
            key,
            value,
        ),
{
    let w = format_spec(style, key, value);
    let l1 = rewrite_lines(ls, style, key, value);
    law_rewrite_keeps_other_lines(ls, style, key, w);
    let (out, written) = rewrite_state(ls, style, key, w);
    if written {
        assert(l1 == out);
        law_rewrite_keeps_other_lines(l1, style, key, w);
        let (r, w2) = rewrite_state(l1, style, key, w);
        assert forall|i: int| 0 <= i < l1.len() implies r[i] == l1[i] by {
            if !defines(style, ls[i], key) {
                assert(l1[i] == ls[i]);
            } else if exists|j: int| 0 <= j < i && #[trigger] defines(style, ls[j], key) {
                assert(l1[i] == seq!['#', ' '] + ls[i] + superseded_note());
                lemma_comment_defines_nothing(style, l1[i]);
            } else {
                lemma_indent_is_space(ls[i]);
                lemma_written_line(style, key, value, indent_of(ls[i]));
                assert forall|j: int| 0 <= j < i implies !#[trigger] defines(style, l1[j], key) by {
                    assert(!defines(style, ls[j], key));
                    assert(l1[j] == ls[j]);
                }
            }
        }
        let j = choose|j: int| 0 <= j < ls.len() && #[trigger] defines(style, ls[j], key);
        assert(w2) by {
            if !(exists|k: int| 0 <= k < j && #[trigger] defines(style, ls[k], key)) {
                lemma_indent_is_space(ls[j]);
                lemma_written_line(style, key, value, indent_of(ls[j]));
                assert(defines(style, l1[j], key));
            } else {
                let k = choose|k: int| 0 <= k < j && #[trigger] defines(style, ls[k], key);
                lemma_first_definition(ls, style, key, k);
                let f = choose|f: int| 0 <= f <= k && #[trigger] defines(style, ls[f], key) && forall|n: int| 0 <= n < f ==> !#[trigger] defines(style, ls[n], key);
                lemma_indent_is_space(ls[f]);
                lemma_written_line(style, key, value, indent_of(ls[f]));
                assert(!(exists|n: int| 0 <= n < f && #[trigger] defines(style, ls[n], key)));
                assert(defines(style, l1[f], key));
            }
        }
        assert(rewrite_lines(l1, style, key, value) == r);
        assert(r =~= l1);
    } else {
        let e: Seq<char> = Seq::empty();
        let padded = if out.len() > 0 && trim(out.last()).len() != 0 {
            out.push(e)
        } else {
            out
        };
        assert(l1 == padded.push(appended_note()).push(w));
        assert(out =~= ls) by {
            assert forall|i: int| 0 <= i < ls.len() implies out[i] == ls[i] by {
                assert(!defines(style, ls[i], key));
            }
        }
        law_rewrite_keeps_other_lines(l1, style, key, w);
        let (r, w2) = rewrite_state(l1, style, key, w);
        let last = l1.len() - 1;
        reveal_strlit("# set by PinnacleCyPat");
        lemma_comment_defines_nothing(style, appended_note());
        assert(e + w =~= w);
        lemma_written_line(style, key, value, e);
        assert forall|i: int| 0 <= i < last implies !#[trigger] defines(style, l1[i], key) by {
            if i < ls.len() {
                assert(l1[i] == ls[i]);
            } else if i < padded.len() {
                assert(l1[i] == e);
                assert(trim(e) =~= e);
            } else {
                assert(l1[i] == appended_note());
            }
        }
        assert(l1[last] == w);
        assert(defines(style, l1[last], key));
        assert(forall|i: int| 0 <= i < last ==> r[i] == l1[i]);
        assert(r[last] == indent_of(l1[last]) + w);
        assert(indent_of(l1[last]) =~= e);
        assert(w2);
        assert(r =~= l1);
    }
}

/// A line that does not end in a carriage return, which `lines` would drop
/// when the line is read back.
pub open spec fn no_cr_end(l: Seq<char>) -> bool {
    !(l.len() > 0 && l.last() == '\r')
}

proof fn lemma_value_ends_plain(style: Style, value: Seq<char>)
    requires
        plain_value(style, value),
        value.len() > 0,
        !(style is AptConf),
    ensures
        !is_ws(value.last()),
{
    if is_ws(value.last()) {
        crate::text::lemma_skip_ws_bounds(value, 0);
        let st = value.subrange(skip_ws(value, 0), value.len() as int);
        crate::text::lemma_skip_ws_back_bounds(st, st.len() as int);
        if st.len() > 0 {
            assert(st.last() == value.last());
            assert(crate::text::skip_ws_back(st, st.len() as int) == crate::text::skip_ws_back(st, st.len() - 1));
            crate::text::lemma_skip_ws_back_bounds(st, st.len() - 1);
        }
        assert(trim(value).len() < value.len());
    }
}

proof fn lemma_wanted_ends_plain(style: Style, key: Seq<char>, value: Seq<char>)
    requires
        plain_key(style, key),
        plain_value(style, value),
    ensures
        no_cr_end(format_spec(style, key, value)),
{
    let w = format_spec(style, key, value);
    assert(!is_ws(';'));
    assert(is_ws('\r'));
    match style {
        Style::AptConf => {},
        _ => {
            if value.len() > 0 {
                lemma_value_ends_plain(style, value);
                assert(w.last() == value.last());
            }
        },
    }
}

/// The lines a rewrite writes hold no line break and end in no carriage
/// return, when the lines it read did not.
proof fn lemma_rewritten_lines_plain(ls: Seq<Seq<char>>, style: Style, key: Seq<char>, value: Seq<char>)
    requires
        plain_key(style, key),
        plain_value(style, value),
        forall|i: int| 0 <= i < ls.len() ==> has_no(#[trigger] ls[i], '\n') && no_cr_end(ls[i]),
    ensures
        rewrite_lines(ls, style, key, value).len() > 0,
        forall|i: int|
            0 <= i < rewrite_lines(ls, style, key, value).len() ==> has_no(
                #[trigger] rewrite_lines(ls, style, key, value)[i],
                '\n',
            ) && no_cr_end(rewrite_lines(ls, style, key, value)[i]),
{
    let w = format_spec(style, key, value);
    let l1 = rewrite_lines(ls, style, key, value);
    law_rewrite_keeps_other_lines(ls, style, key, w);
    lemma_wanted_has_no_newline(style, key, value);
    lemma_wanted_ends_plain(style, key, value);
    reveal_strlit("    # superseded by PinnacleCyPat");
    reveal_strlit("# set by PinnacleCyPat");
    let (out, written) = rewrite_state(ls, style, key, w);
    assert forall|i: int| 0 <= i < out.len() implies has_no(#[trigger] out[i], '\n') && no_cr_end(out[i]) by {
        if !defines(style, ls[i], key) {
        } else if exists|j: int| 0 <= j < i && #[trigger] defines(style, ls[j], key) {
            let c = seq!['#', ' '] + ls[i] + superseded_note();
            assert(c.last() == 't');
            assert forall|k: int| 0 <= k < c.len() implies c[k] != '\n' by {
                if 2 <= k < 2 + ls[i].len() {
                    assert(c[k] == ls[i][k - 2]);
                }
            }
        } else {
            lemma_indent_is_space(ls[i]);
            crate::text::lemma_skip_ws_bounds(ls[i], 0);
            let ind = indent_of(ls[i]);
            let c = ind + w;
            assert(w.len() > 0);
            assert(c.last() == w.last());
            assert forall|k: int| 0 <= k < c.len() implies c[k] != '\n' by {
                if k < ind.len() {
                    assert(c[k] == ind[k]);
                    assert(ind[k] == ls[i][k]);
                } else {
                    assert(c[k] == w[k - ind.len()]);
                }
            }
        }
    }
    if written {
        let j = choose|j: int| 0 <= j < ls.len() && #[trigger] defines(style, ls[j], key);
        assert(l1 == out);
    } else {
        let e: Seq<char> = Seq::empty();
        let padded = if out.len() > 0 && trim(out.last()).len() != 0 {
            out.push(e)
        } else {
            out
        };
        assert(l1 == padded.push(appended_note()).push(w));
        assert forall|i: int| 0 <= i < l1.len() implies has_no(#[trigger] l1[i], '\n') && no_cr_end(l1[i]) by {
            if i < out.len() {
                assert(l1[i] == out[i]);
            } else if i == l1.len() - 1 {
                assert(l1[i] == w);
            } else if i == l1.len() - 2 {
                assert(l1[i] == appended_note());
            } else {
                assert(l1[i] == e);
            }
        }
    }
}

/// Writing a setting that a file already holds leaves the file as it is:
/// rewriting the text a rewrite produced gives the same text (for a file
/// whose lines end in no carriage return, which reading would drop).
pub proof fn law_rewrite_text_is_idempotent(original: Seq<char>, style: Style, key: Seq<char>, value: Seq<char>)
    requires
        plain_key(style, key),
        plain_value(style, value),
        forall|i: int| 0 <= i < lines(original).len() ==> no_cr_end(#[trigger] lines(original)[i]),
    ensures
        rewrite_spec(rewrite_spec(original, style, key, value), style, key, value) == rewrite_spec(
            original,
            style,
            key,
            value,
        ),
{
    let ls = lines(original);
    lemma_lines_plain(original);
    lemma_rewritten_lines_plain(ls, style, key, value);
    let l1 = rewrite_lines(ls, style, key, value);
    lemma_line_state_joined(l1);
    let text = join(l1, seq!['\n']) + seq!['\n'];
    assert(l1.map_values(|l: Seq<char>| strip_cr(l)) =~= l1);
    assert(lines(text) == l1);
    law_rewrite_is_idempotent(ls, style, key, value);
}

proof fn lemma_first_definition(ls: Seq<Seq<char>>, style: Style, key: Seq<char>, k: int)
    requires
        0 <= k < ls.len(),
        defines(style, ls[k], key),
    ensures
        exists|f: int|
            0 <= f <= k && #[trigger] defines(style, ls[f], key) && forall|n: int|
                0 <= n < f ==> !#[trigger] defines(style, ls[n], key),
    decreases k,
{
    if exists|n: int| 0 <= n < k && #[trigger] defines(style, ls[n], key) {
        let n = choose|n: int| 0 <= n < k && #[trigger] defines(style, ls[n], key);
        lemma_first_definition(ls, style, key, n);
    } else {
        assert(forall|n: int| 0 <= n < k ==> !#[trigger] defines(style, ls[n], key));
    }
}

/// Rewriting keeps every other line as it was, in order: a line that does
/// not define the key is copied verbatim, the first definition becomes the
/// new one, and every later definition is commented out with a note, so
/// nothing is lost and only one definition stays active.
pub proof fn law_rewrite_keeps_other_lines(
    ls: Seq<Seq<char>>,
    style: Style,
    key: Seq<char>,
    wanted: Seq<char>,
)
    ensures
        rewrite_state(ls, style, key, wanted).0.len() == ls.len(),
        rewrite_state(ls, style, key, wanted).1 == exists|j: int|
            0 <= j < ls.len() && #[trigger] defines(style, ls[j], key),
        forall|i: int|
            0 <= i < ls.len() && !defines(style, ls[i], key) ==> #[trigger] rewrite_state(
                ls,
                style,
                key,
                wanted,
            ).0[i] == ls[i],
        forall|i: int|
            0 <= i < ls.len() && defines(style, ls[i], key) && (exists|j: int|
                0 <= j < i && #[trigger] defines(style, ls[j], key)) ==> #[trigger] rewrite_state(
                ls,
                style,
                key,
                wanted,
            ).0[i] == seq!['#', ' '] + ls[i] + superseded_note(),
        forall|i: int|
            0 <= i < ls.len() && defines(style, ls[i], key) && !(exists|j: int|
                0 <= j < i && #[trigger] defines(style, ls[j], key)) ==> #[trigger] rewrite_state(
                ls,
                style,
                key,
                wanted,
            ).0[i] == indent_of(ls[i]) + wanted,
    decreases ls.len(),
{
    if ls.len() > 0 {
        let init = ls.drop_last();
        law_rewrite_keeps_other_lines(init, style, key, wanted);
        let (prev, pw) = rewrite_state(init, style, key, wanted);
        let (out, w) = rewrite_state(ls, style, key, wanted);
        assert forall|i: int| 0 <= i < init.len() implies out[i] == prev[i] by {}
        assert forall|i: int| 0 <= i < init.len() implies ls[i] == init[i] by {}
        let n = ls.len() - 1;
        if w {
            if !pw {
                assert(defines(style, ls[n], key));
            } else {
                let j = choose|j: int| 0 <= j < init.len() && #[trigger] defines(style, init[j], key);
                assert(defines(style, ls[j], key));
            }
        } else {
            assert forall|j: int| 0 <= j < ls.len() implies !#[trigger] defines(style, ls[j], key) by {
                if j < n {
                    assert(ls[j] == init[j]);
                }
            }
        }
        assert forall|i: int|
            0 <= i < ls.len() && defines(style, ls[i], key) && (exists|j: int|
                0 <= j < i && #[trigger] defines(style, ls[j], key)) implies #[trigger] out[i] == seq![
            '#',
            ' ',
        ] + ls[i] + superseded_note() by {
            let j = choose|j: int| 0 <= j < i && #[trigger] defines(style, ls[j], key);
            if i < n {
                assert(ls[j] == init[j]);
                assert(defines(style, init[j], key));
            } else {
                assert(ls[j] == init[j]);
                assert(pw);
            }
        }
        assert forall|i: int|
            0 <= i < ls.len() && defines(style, ls[i], key) && !(exists|j: int|
                0 <= j < i && #[trigger] defines(style, ls[j], key)) implies #[trigger] out[i]
            == indent_of(ls[i]) + wanted by {
            if i < n {
                assert forall|j: int| 0 <= j < i implies !#[trigger] defines(style, init[j], key) by {
                    assert(ls[j] == init[j]);
                }
            } else {
                if pw {
                    let j = choose|j: int| 0 <= j < init.len() && #[trigger] defines(style, init[j], key);
                    assert(ls[j] == init[j]);
                    assert(defines(style, ls[j], key));
                }
            }
        }
    }
}

/// Setting a key and then reading it back gives exactly the value written:
/// whatever the file held before - no definition, one, or several, commented
/// or not, indented or not - the rewritten file has one active definition of
/// the key, and it is the new value.
pub proof fn law_rewrite_then_read(original: Seq<char>, style: Style, key: Seq<char>, value: Seq<char>)
    requires
        plain_key(style, key),
        plain_value(style, value),
    ensures
        active_values_spec(rewrite_spec(original, style, key, value), style, key) == seq![value],
{
    let ls = lines(original);
    let w = format_spec(style, key, value);
    lemma_lines_plain(original);
    lemma_rewrite_state(ls, style, key, value);
    let (out, written) = rewrite_state(ls, style, key, w);
    let outl = rewrite_lines(ls, style, key, value);
    let e: Seq<char> = Seq::empty();
    if !written {
        let padded = if out.len() > 0 && trim(out.last()).len() != 0 {
            out.push(e)
        } else {
            out
        };
        reveal_strlit("# set by PinnacleCyPat");
        lemma_comment_defines_nothing(style, appended_note());
        lemma_wanted_reads_back(style, key, value, e);
        assert(e + w =~= w);
        assert(eq_ignore_case(key, key));
        assert(values_in(padded, style, key) =~= Seq::<Seq<char>>::empty()) by {
            if out.len() > 0 && trim(out.last()).len() != 0 {
                assert(padded.drop_last() =~= out);
                assert(trim(e).len() == 0);
            }
        }
        assert(outl.drop_last().drop_last() =~= padded);
        assert(outl.last() == w);
        assert(outl.drop_last().last() == appended_note());
        assert(split_spec(style, w) == Some((key, value)));
        assert(values_in(outl.drop_last(), style, key) == values_in(padded, style, key));
        assert(values_in(outl, style, key) =~= seq![value]);
        lemma_rewrite_state(ls, style, key, value);
        assert forall|i: int| 0 <= i < outl.len() implies has_no(#[trigger] outl[i], '\n') by {
            if i < out.len() {
                assert(outl[i] == out[i]);
            } else if i == outl.len() - 1 {
                assert(outl[i] == w);
                assert(has_no(w, '\n')) by {
                    lemma_rewrite_state(seq![seq![]], style, key, value);
                    assert(has_no(e, '\n'));
                    lemma_wanted_has_no_newline(style, key, value);
                }
            } else if i == outl.len() - 2 {
                assert(outl[i] == appended_note());
            } else {
                assert(outl[i] == e);
            }
        }
    } else {
        assert(outl == out);
    }
    assert(outl.len() > 0);
    lemma_line_state_joined(outl);
    let text = join(outl, seq!['\n']) + seq!['\n'];
    assert(lines(text) == outl.map_values(|l: Seq<char>| strip_cr(l)));
    lemma_values_strip_cr(outl, style, key);
}

proof fn lemma_wanted_has_no_newline(style: Style, key: Seq<char>, value: Seq<char>)
    requires
        plain_key(style, key),
        plain_value(style, value),
    ensures
        has_no(format_spec(style, key, value), '\n'),
{
    let ls = seq![seq!['#']];
    assert(has_no(ls[0], '\n'));
    let e: Seq<char> = Seq::empty();
    let w = format_spec(style, key, value);
    assert forall|i: int| 0 <= i < w.len() implies w[i] != '\n' by {
        if i < key.len() {
            assert(w[i] == key[i]);
            match style {
                Style::Equals => {},
                _ => {
                    assert(!is_ws(key[i]));
                },
            }
        } else {
            match style {
                Style::Space => {
                    if i > key.len() {
                        assert(w[i] == value[i - key.len() - 1]);
                    }
                },
                Style::Equals => {
                    if i > key.len() + 2 {
                        assert(w[i] == value[i - key.len() - 3]);
                    }
                },
                Style::AptConf => {
                    if i > key.len() + 1 && i < key.len() + 2 + value.len() {
                        assert(w[i] == value[i - key.len() - 2]);
                    }
                },
            }
        }
    }
}


} // verus!

verus! {

/// What a file says of a key, as the ledger records it: `absent`, its one
/// value, or every value with how many definitions are active.
pub open spec fn read_state_spec(text: Seq<char>, style: Style, key: Seq<char>) -> Seq<char> {
    let values = active_values_spec(text, style, key);
    if values.len() == 0 {
        "absent"@
    } else if values.len() == 1 {
        values[0]
    } else {
        join(values, ", "@) + " ("@ + decimal_string(values.len()) + " active definitions)"@
    }
}

pub fn read_state(text: &str, style: Style, key: &str) -> (r: String)
    ensures
        r@ == read_state_spec(text@, style, key@),
{
    let values = active_values(text, style, key);
    if values.len() == 0 {
        return string_of(&chars_of("absent"));
    }
    if values.len() == 1 {
        return string_of(&chars_of(values[0].as_str()));
    }
    let joined = join_chars(&crate::text::chars_all(&values), &chars_of(", "));
    let mut v = concat_str(&joined, " (");
    extend(&mut v, &decimal_of(values.len() as u64));
    v = concat_str(&v, " active definitions)");
    string_of(&v)
}

/// A line taken out of use, marked so a person can see who did it.
pub fn commented(line: &str) -> (r: String)
    ensures
        r@ == "# "@ + line@ + "    # removed by PinnacleCyPat"@,
{
    let mut v = chars_of("# ");
    v = concat_str(&v, line);
    v = concat_str(&v, "    # removed by PinnacleCyPat");
    string_of(&v)
}

} // verus!
