//! Where a competition image keeps its README, and how to read the shortcuts
//! that point at it: Internet Shortcuts (`.url`), freedesktop launchers
//! (`.desktop`) and the `file:` addresses they hold. Looking at the disk and
//! the network is the program's; what is decided from what it finds is here.
use vstd::prelude::*;
use crate::paths::{
    extension, extension_exec, file_name, file_name_exec, stem, stem_exec,
};
use crate::text::{
    chars_of, concat_chars, concat_str, contains, contains_chars, eq_chars, eq_ignore_case,
    eq_ignore_case_chars, from_utf16_lossy, from_utf8_lossy, is_ascii_alpha, lines, lines_of,
    lowercase, lowercase_chars, seqs, slice, split_once, split_once_chars, starts_with,
    starts_with_chars, string_of, strs, trim, trim_chars, utf16_lossy, utf8, utf8_bytes,
    utf8_lossy, views, words, words_of,
};

verus! {

/// The scoring engine's service, which is never disabled.
pub const CCS_CLIENT_SERVICE_NAME: &'static str = "CCSClient";

/// The scoring report's desktop shortcut.
pub const SCORING_REPORT_SHORTCUT: &'static str = "CyberPatriot Scoring Report";

/// This build's version.
pub const VERSION: &'static str = "1.8.0";

/// Passwords that meet the complexity rules: 14 or more characters, upper
/// and lower case, a digit and a symbol.
pub const SECURE_PASSWORDS: [&'static str; 10] = [
    "CyberP@tr10t2026!",
    "Secur3P@ssw0rd#1",
    "Str0ng!P@ssKey99",
    "C0mpl3x#Pass2026",
    "H@rdT0Gu3ss!123",
    "S@fetyF1rst#2026",
    "Pr0t3ct3d!Acc0unt",
    "N0H@ck1ng#All0wed",
    "D3f3nd3r$#Strong1",
    "W1nd0ws!S3cur3#99",
];

/// Where a Linux competition image installs its resources, canonical
/// spelling first (Linux paths are case-sensitive).
pub const CYBERPATRIOT_DIRS: [&'static str; 5] = [
    "/opt/CyberPatriot",
    "/opt/cyberpatriot",
    "/usr/share/CyberPatriot",
    "/usr/share/cyberpatriot",
    "/etc/CyberPatriot",
];

/// Where a Windows image installs its resources.
pub const WINDOWS_CYBERPATRIOT_DIRS: [&'static str; 1] = ["C:\\CyberPatriot"];

/// The file names a README may have in a directory.
pub const README_NAMES: [&'static str; 4] = [
    "README.desktop",
    "README.html",
    "README.htm",
    "readme.html",
];

pub open spec fn version_string_spec(build_date: Seq<char>) -> Seq<char> {
    "v"@ + VERSION@ + " (build "@ + build_date + ")"@
}

/// The version and build stamp as one display string.
pub fn version_string(build_date: &str) -> (r: String)
    ensures
        r@ == version_string_spec(build_date@),
{
    let mut v = chars_of("v");
    v = concat_str(&v, VERSION);
    v = concat_str(&v, " (build ");
    v = concat_str(&v, build_date);
    v = concat_str(&v, ")");
    string_of(&v)
}

/// The machine-wide desktop of a Windows image.
pub fn common_desktop_dir() -> (r: String)
    ensures
        r@ == "C:\\Users\\Public\\Desktop"@,
{
    String::from_str("C:\\Users\\Public\\Desktop")
}

/// `PathBuf::join` of a relative name on Unix: a `/` between the two unless
/// the directory is empty or already ends in one.
pub open spec fn join_path(dir: Seq<char>, name: Seq<char>) -> Seq<char> {
    if dir.len() == 0 {
        name
    } else if dir.last() == '/' {
        dir + name
    } else {
        dir + "/"@ + name
    }
}

fn join_path_exec(dir: &Vec<char>, name: &str) -> (r: Vec<char>)
    ensures
        r@ == join_path(dir@, name@),
{
    if dir.len() == 0 {
        chars_of(name)
    } else if dir[dir.len() - 1] == '/' {
        concat_str(dir, name)
    } else {
        concat_str(&concat_str(dir, "/"), name)
    }
}

/// The Windows candidates, in the order they are worth trying.
pub open spec fn windows_paths_spec(desktop: Seq<char>) -> Seq<Seq<char>> {
    let common = "C:\\Users\\Public\\Desktop"@;
    seq![
        "C:\\CyberPatriot\\README.url"@,
        "C:\\CyberPatriot\\README.html"@,
        "C:\\Users\\Public\\Desktop\\README.url"@,
        "C:\\Users\\Public\\Desktop\\README.html"@,
        "C:\\Users\\Public\\Documents\\README.html"@,
        join_path(common, "README.url"@),
        join_path(common, "README.html"@),
        join_path(desktop, "README.url"@),
        join_path(desktop, "README.html"@),
        "C:\\Users\\*\\Desktop\\README.url"@,
        "C:\\Users\\*\\Desktop\\README.html"@,
    ]
}

/// The README candidates of a Windows image, given the current user's
/// desktop directory.
pub fn windows_readme_paths(desktop: &str) -> (r: Vec<String>)
    ensures
        strs(r@) == windows_paths_spec(desktop@),
{
    let d = chars_of(desktop);
    let common = chars_of("C:\\Users\\Public\\Desktop");
    let mut v: Vec<Vec<char>> = Vec::new();
    v.push(chars_of("C:\\CyberPatriot\\README.url"));
    v.push(chars_of("C:\\CyberPatriot\\README.html"));
    v.push(chars_of("C:\\Users\\Public\\Desktop\\README.url"));
    v.push(chars_of("C:\\Users\\Public\\Desktop\\README.html"));
    v.push(chars_of("C:\\Users\\Public\\Documents\\README.html"));
    v.push(join_path_exec(&common, "README.url"));
    v.push(join_path_exec(&common, "README.html"));
    v.push(join_path_exec(&d, "README.url"));
    v.push(join_path_exec(&d, "README.html"));
    v.push(chars_of("C:\\Users\\*\\Desktop\\README.url"));
    v.push(chars_of("C:\\Users\\*\\Desktop\\README.html"));
    proof {
        assert(seqs(v@) =~= windows_paths_spec(desktop@));
    }
    crate::text::strings_of(&v)
}

/// The directories a Linux image's README may be in by a fixed name.
pub open spec fn linux_dirs() -> Seq<Seq<char>> {
    views(CYBERPATRIOT_DIRS@).push("/root/Desktop"@)
}

/// The Linux candidates: each fixed name in each resource directory, each in
/// the user's desktop and documents, then any user's desktop.
pub open spec fn linux_paths_spec(desktop: Seq<char>, home: Seq<char>) -> Seq<Seq<char>> {
    Seq::new(24, |i: int| linux_dirs()[i / 4] + "/"@ + README_NAMES@[i % 4]@) + Seq::new(
        8,
        |i: int|
            if i % 2 == 0 {
                join_path(desktop, README_NAMES@[i / 2]@)
            } else {
                join_path(join_path(home, "Documents"@), README_NAMES@[i / 2]@)
            },
    ) + seq!["/home/*/Desktop/README.desktop"@, "/home/*/Desktop/README.html"@]
}

/// The README candidates of a Linux image, given the current user's desktop
/// and home directories.
pub fn linux_readme_paths(desktop: &str, home: &str) -> (r: Vec<String>)
    ensures
        strs(r@) == linux_paths_spec(desktop@, home@),
{
    let ghost first = Seq::new(
        24,
        |i: int| linux_dirs()[i / 4] + "/"@ + README_NAMES@[i % 4]@,
    );
    let ghost second = Seq::new(
        8,
        |i: int|
            if i % 2 == 0 {
                join_path(desktop@, README_NAMES@[i / 2]@)
            } else {
                join_path(join_path(home@, "Documents"@), README_NAMES@[i / 2]@)
            },
    );
    let mut v: Vec<Vec<char>> = Vec::new();
    let mut di: usize = 0;
    while di < 6
        invariant
            di <= 6,
            seqs(v@) == first.take(4 * di as int),
            first == Seq::new(24, |i: int| linux_dirs()[i / 4] + "/"@ + README_NAMES@[i % 4]@),
        decreases 6 - di,
    {
        let dir = if di < 5 {
            chars_of(CYBERPATRIOT_DIRS[di])
        } else {
            chars_of("/root/Desktop")
        };
        proof {
            assert(dir@ == linux_dirs()[di as int]);
        }
        let mut ni: usize = 0;
        while ni < 4
            invariant
                di < 6,
                ni <= 4,
                dir@ == linux_dirs()[di as int],
                seqs(v@) == first.take(4 * di + ni),
                first == Seq::new(
                    24,
                    |i: int| linux_dirs()[i / 4] + "/"@ + README_NAMES@[i % 4]@,
                ),
            decreases 4 - ni,
        {
            let p = concat_str(&concat_str(&dir, "/"), README_NAMES[ni]);
            let ghost before = seqs(v@);
            v.push(p);
            proof {
                let k = 4 * di + ni;
                assert(k / 4 == di && k % 4 == ni);
                assert(first[k] == p@);
                assert(seqs(v@) =~= before.push(p@));
                assert(seqs(v@) =~= first.take(k + 1));
            }
            ni = ni + 1;
        }
        di = di + 1;
    }
    let d = chars_of(desktop);
    let docs = join_path_exec(&chars_of(home), "Documents");
    let mut ni: usize = 0;
    while ni < 4
        invariant
            ni <= 4,
            d@ == desktop@,
            docs@ == join_path(home@, "Documents"@),
            seqs(v@) == first + second.take(2 * ni as int),
            first.len() == 24,
            second == Seq::new(
                8,
                |i: int|
                    if i % 2 == 0 {
                        join_path(desktop@, README_NAMES@[i / 2]@)
                    } else {
                        join_path(join_path(home@, "Documents"@), README_NAMES@[i / 2]@)
                    },
            ),
        decreases 4 - ni,
    {
        let a = join_path_exec(&d, README_NAMES[ni]);
        let b = join_path_exec(&docs, README_NAMES[ni]);
        let ghost before = seqs(v@);
        v.push(a);
        v.push(b);
        proof {
            let k = 2 * ni;
            assert(k % 2 == 0 && k / 2 == ni);
            assert((k + 1) % 2 == 1 && (k + 1) / 2 == ni);
            assert(second[k] == a@);
            assert(second[k + 1] == b@);
            assert(seqs(v@) =~= before.push(a@).push(b@));
            assert(seqs(v@) =~= first + second.take(2 * ni + 2));
        }
        ni = ni + 1;
    }
    let ghost before = seqs(v@);
    let w1 = chars_of("/home/*/Desktop/README.desktop");
    let w2 = chars_of("/home/*/Desktop/README.html");
    v.push(w1);
    v.push(w2);
    proof {
        assert(seqs(v@) =~= before.push(w1@).push(w2@));
        assert(second.take(8) =~= second);
        assert(seqs(v@) =~= linux_paths_spec(desktop@, home@));
    }
    crate::text::strings_of(&v)
}

/// The README candidates of this platform, a Linux image.
pub fn default_readme_paths(desktop: &str, home: &str) -> (r: Vec<String>)
    ensures
        strs(r@) == linux_paths_spec(desktop@, home@),
{
    linux_readme_paths(desktop, home)
}

/// Is the shortcut target a web address rather than a path? Only the scheme
/// is looked at.
pub open spec fn is_remote_spec(target: Seq<char>) -> bool {
    let l = lowercase(trim(target));
    starts_with(l, "http://"@) || starts_with(l, "https://"@)
}

fn is_remote_chars(target: &Vec<char>) -> (b: bool)
    ensures
        b == is_remote_spec(target@),
{
    let l = lowercase_chars(&trim_chars(target));
    starts_with_chars(&l, &chars_of("http://")) || starts_with_chars(&l, &chars_of("https://"))
}

pub fn is_remote_target(target: &str) -> (b: bool)
    ensures
        b == is_remote_spec(target@),
{
    is_remote_chars(&chars_of(target))
}

/// The `URL=` value of the first line, at or after `k`, whose key (trimmed,
/// ASCII case aside) is `URL`; the value is trimmed.
pub open spec fn shortcut_url(ls: Seq<Seq<char>>, k: nat) -> Option<Seq<char>>
    decreases ls.len() - k,
{
    if k >= ls.len() {
        None
    } else {
        match split_once(ls[k as int], '=') {
            Some((key, value)) => if eq_ignore_case(trim(key), "URL"@) {
                Some(trim(value))
            } else {
                shortcut_url(ls, k + 1)
            },
            None => shortcut_url(ls, k + 1),
        }
    }
}

pub open spec fn internet_shortcut_spec(contents: Seq<char>) -> Option<Seq<char>> {
    shortcut_url(lines(contents), 0)
}

fn parse_internet_shortcut_chars(contents: &Vec<char>) -> (r: Option<Vec<char>>)
    ensures
        match r {
            Some(u) => internet_shortcut_spec(contents@) == Some(u@),
            None => internet_shortcut_spec(contents@) is None,
        },
{
    let ls = lines_of(contents);
    let ghost all = seqs(ls@);
    let url = chars_of("URL");
    let n = ls.len();
    let mut k: usize = 0;
    while k < n
        invariant
            k <= n == ls.len(),
            all == seqs(ls@),
            all == lines(contents@),
            url@ == "URL"@,
            shortcut_url(all, 0) == shortcut_url(all, k as nat),
        decreases n - k,
    {
        match split_once_chars(&ls[k], '=') {
            Some((key, value)) => {
                if eq_ignore_case_chars(&trim_chars(&key), &url) {
                    return Some(trim_chars(&value));
                }
            },
            None => {},
        }
        k = k + 1;
    }
    None
}

/// The `URL=` value of an Internet Shortcut. The key is matched without
/// regard to case, and other keys are passed over.
pub fn parse_internet_shortcut(contents: &str) -> (r: Option<String>)
    ensures
        match r {
            Some(u) => internet_shortcut_spec(contents@) == Some(u@),
            None => internet_shortcut_spec(contents@) is None,
        },
{
    match parse_internet_shortcut_chars(&chars_of(contents)) {
        Some(u) => Some(string_of(&u)),
        None => None,
    }
}

/// A freedesktop field code: a placeholder the desktop substitutes.
pub open spec fn is_field_code(t: Seq<char>) -> bool {
    t == "%u"@ || t == "%U"@ || t == "%f"@ || t == "%F"@ || t == "%i"@ || t == "%c"@ || t
        == "%k"@
}

/// The quoting and punctuation a command-line token may carry.
pub open spec fn is_punct(c: char) -> bool {
    c == '"' || c == '\'' || c == ',' || c == ';'
}

/// The first position at or after `i` that is not punctuation.
pub open spec fn skip_punct(t: Seq<char>, i: int) -> int
    decreases t.len() - i,
{
    if i >= t.len() {
        t.len() as int
    } else if is_punct(t[i]) {
        skip_punct(t, i + 1)
    } else {
        i
    }
}

/// The position after the last non-punctuation character before `j`.
pub open spec fn skip_punct_back(t: Seq<char>, j: int) -> int
    decreases j,
{
    if j <= 0 {
        0
    } else if is_punct(t[j - 1]) {
        skip_punct_back(t, j - 1)
    } else {
        j
    }
}

/// `trim_matches` of the quoting and punctuation.
pub open spec fn strip_punct(t: Seq<char>) -> Seq<char> {
    let a = skip_punct(t, 0);
    if a >= t.len() {
        seq![]
    } else {
        t.subrange(a, skip_punct_back(t, t.len() as int))
    }
}

/// The first token, at or after `k`, that is not a field code and, stripped
/// of its quoting, is a web address.
pub open spec fn first_address(tokens: Seq<Seq<char>>, k: nat) -> Option<Seq<char>>
    decreases tokens.len() - k,
{
    if k >= tokens.len() {
        None
    } else if !is_field_code(tokens[k as int]) && is_remote_spec(strip_punct(tokens[k as int])) {
        Some(strip_punct(tokens[k as int]))
    } else {
        first_address(tokens, k + 1)
    }
}

pub open spec fn url_in_command_line_spec(command: Seq<char>) -> Option<Seq<char>> {
    first_address(words(command), 0)
}

proof fn lemma_skip_punct(t: Seq<char>, i: int)
    requires
        0 <= i <= t.len(),
    ensures
        i <= skip_punct(t, i) <= t.len(),
        forall|k: int| i <= k < skip_punct(t, i) ==> is_punct(t[k]),
        skip_punct(t, i) < t.len() ==> !is_punct(t[skip_punct(t, i)]),
    decreases t.len() - i,
{
    if i < t.len() && is_punct(t[i]) {
        lemma_skip_punct(t, i + 1);
    }
}

proof fn lemma_skip_punct_back(t: Seq<char>, j: int, a: int)
    requires
        0 <= a < j <= t.len(),
        !is_punct(t[a]),
    ensures
        a < skip_punct_back(t, j) <= j,
    decreases j,
{
    if is_punct(t[j - 1]) {
        lemma_skip_punct_back(t, j - 1, a);
    }
}

fn strip_punct_exec(t: &Vec<char>) -> (r: Vec<char>)
    ensures
        r@ == strip_punct(t@),
{
    let n = t.len();
    let mut a: usize = 0;
    while a < n && (t[a] == '"' || t[a] == '\'' || t[a] == ',' || t[a] == ';')
        invariant
            a <= n == t.len(),
            skip_punct(t@, 0) == skip_punct(t@, a as int),
        decreases n - a,
    {
        a = a + 1;
    }
    if a >= n {
        return Vec::new();
    }
    let mut b: usize = n;
    proof {
        lemma_skip_punct_back(t@, n as int, a as int);
    }
    while b > 0 && (t[b - 1] == '"' || t[b - 1] == '\'' || t[b - 1] == ',' || t[b - 1] == ';')
        invariant
            b <= n == t.len(),
            a < n,
            !is_punct(t@[a as int]),
            a < b,
            skip_punct_back(t@, n as int) == skip_punct_back(t@, b as int),
        decreases b,
    {
        proof {
            lemma_skip_punct_back(t@, b - 1, a as int);
            assert(a < b - 1);
        }
        b = b - 1;
    }
    slice(t, a, b)
}

fn url_in_command_line_chars(command: &Vec<char>) -> (r: Option<Vec<char>>)
    ensures
        match r {
            Some(u) => url_in_command_line_spec(command@) == Some(u@),
            None => url_in_command_line_spec(command@) is None,
        },
{
    let toks = words_of(command);
    let ghost all = seqs(toks@);
    let n = toks.len();
    let mut k: usize = 0;
    while k < n
        invariant
            k <= n == toks.len(),
            all == seqs(toks@),
            all == words(command@),
            first_address(all, 0) == first_address(all, k as nat),
        decreases n - k,
    {
        let t = &toks[k];
        let code = eq_chars(t, &chars_of("%u")) || eq_chars(t, &chars_of("%U")) || eq_chars(
            t,
            &chars_of("%f"),
        ) || eq_chars(t, &chars_of("%F")) || eq_chars(t, &chars_of("%i")) || eq_chars(
            t,
            &chars_of("%c"),
        ) || eq_chars(t, &chars_of("%k"));
        if !code {
            let s = strip_punct_exec(t);
            if is_remote_chars(&s) {
                return Some(s);
            }
        }
        k = k + 1;
    }
    None
}

/// The first web address of a command line, without its quoting; field
/// codes are not arguments.
pub fn url_in_command_line(command: &str) -> (r: Option<String>)
    ensures
        match r {
            Some(u) => url_in_command_line_spec(command@) == Some(u@),
            None => url_in_command_line_spec(command@) is None,
        },
{
    match url_in_command_line_chars(&chars_of(command)) {
        Some(u) => Some(string_of(&u)),
        None => None,
    }
}

/// Reading a launcher from line `k` on, with the first `Exec=` value seen so
/// far: a non-empty `URL=` wins outright; otherwise the address in the first
/// `Exec=` line. Comments and group headers are passed over.
pub open spec fn desktop_from(ls: Seq<Seq<char>>, k: nat, exec: Option<Seq<char>>) -> Option<
    Seq<char>,
>
    decreases ls.len() - k,
{
    if k >= ls.len() {
        match exec {
            Some(e) => url_in_command_line_spec(e),
            None => None,
        }
    } else {
        let line = trim(ls[k as int]);
        if line.len() > 0 && (line[0] == '#' || line[0] == '[') {
            desktop_from(ls, k + 1, exec)
        } else {
            match split_once(line, '=') {
                None => desktop_from(ls, k + 1, exec),
                Some((k0, v0)) => {
                    let key = trim(k0);
                    let value = trim(v0);
                    if eq_ignore_case(key, "URL"@) && value.len() > 0 {
                        Some(value)
                    } else if eq_ignore_case(key, "Exec"@) && exec is None {
                        desktop_from(ls, k + 1, Some(value))
                    } else {
                        desktop_from(ls, k + 1, exec)
                    }
                },
            }
        }
    }
}

pub open spec fn desktop_entry_spec(contents: Seq<char>) -> Option<Seq<char>> {
    desktop_from(lines(contents), 0, None)
}

fn parse_desktop_entry_chars(contents: &Vec<char>) -> (r: Option<Vec<char>>)
    ensures
        match r {
            Some(u) => desktop_entry_spec(contents@) == Some(u@),
            None => desktop_entry_spec(contents@) is None,
        },
{
    let ls = lines_of(contents);
    let ghost all = seqs(ls@);
    let url = chars_of("URL");
    let exec_key = chars_of("Exec");
    let mut exec: Option<Vec<char>> = None;
    let n = ls.len();
    let mut k: usize = 0;
    while k < n
        invariant
            k <= n == ls.len(),
            all == seqs(ls@),
            all == lines(contents@),
            url@ == "URL"@,
            exec_key@ == "Exec"@,
            desktop_from(all, 0, None) == desktop_from(
                all,
                k as nat,
                match exec {
                    Some(e) => Some(e@),
                    None => None,
                },
            ),
        decreases n - k,
    {
        let line = trim_chars(&ls[k]);
        if line.len() > 0 && (line[0] == '#' || line[0] == '[') {
        } else {
            match split_once_chars(&line, '=') {
                None => {},
                Some((k0, v0)) => {
                    let key = trim_chars(&k0);
                    let value = trim_chars(&v0);
                    if eq_ignore_case_chars(&key, &url) && value.len() > 0 {
                        return Some(value);
                    } else if eq_ignore_case_chars(&key, &exec_key) && exec.is_none() {
                        exec = Some(value);
                    }
                },
            }
        }
        k = k + 1;
    }
    match exec {
        Some(e) => url_in_command_line_chars(&e),
        None => None,
    }
}

/// The address a freedesktop launcher opens: its `URL=` when it has one,
/// else the web address in its `Exec=` command line, field codes aside.
pub fn parse_desktop_entry(contents: &str) -> (r: Option<String>)
    ensures
        match r {
            Some(u) => desktop_entry_spec(contents@) == Some(u@),
            None => desktop_entry_spec(contents@) is None,
        },
{
    match parse_desktop_entry_chars(&chars_of(contents)) {
        Some(u) => Some(string_of(&u)),
        None => None,
    }
}

/// Does the path begin with a drive letter and a colon?
pub open spec fn is_drive_spec(p: Seq<char>) -> bool {
    p.len() >= 2 && is_ascii_alpha(p[0]) && p[1] == ':'
}

pub fn is_windows_drive_path(path: &str) -> (b: bool)
    ensures
        b == is_drive_spec(path@),
{
    let p = chars_of(path);
    p.len() >= 2 && (('a' <= p[0] && p[0] <= 'z') || ('A' <= p[0] && p[0] <= 'Z')) && p[1] == ':'
}

/// Every `from` replaced by `to`.
pub open spec fn replace_char(s: Seq<char>, from: char, to: char) -> Seq<char> {
    Seq::new(s.len(), |i: int| if s[i] == from { to } else { s[i] })
}

fn replace_char_exec(s: &Vec<char>, from: char, to: char) -> (r: Vec<char>)
    ensures
        r@ == replace_char(s@, from, to),
{
    let mut out: Vec<char> = Vec::new();
    let n = s.len();
    let mut i: usize = 0;
    while i < n
        invariant
            i <= n == s.len(),
            out@ == replace_char(s@, from, to).take(i as int),
        decreases n - i,
    {
        out.push(if s[i] == from { to } else { s[i] });
        i = i + 1;
        proof {
            assert(out@ =~= replace_char(s@, from, to).take(i as int));
        }
    }
    proof {
        assert(replace_char(s@, from, to).take(n as int) =~= replace_char(s@, from, to));
    }
    out
}

pub open spec fn is_hex_byte(b: u8) -> bool {
    (48 <= b && b <= 57) || (65 <= b && b <= 70) || (97 <= b && b <= 102)
}

pub open spec fn hex_value(b: u8) -> int {
    if 48 <= b && b <= 57 {
        b - 48
    } else if 65 <= b && b <= 70 {
        b - 55
    } else {
        b - 87
    }
}

/// What `u8::from_str_radix` makes of two bytes: two hex digits, or `+` and
/// one.
pub open spec fn hex_pair(a: u8, b: u8) -> Option<u8> {
    if is_hex_byte(a) && is_hex_byte(b) {
        Some((16 * hex_value(a) + hex_value(b)) as u8)
    } else if a == 43 && is_hex_byte(b) {
        Some(hex_value(b) as u8)
    } else {
        None
    }
}

/// The bytes from `i` on with each `%XX` escape (two hex digits, with two
/// bytes still after the `%`) decoded.
pub open spec fn percent_from(b: Seq<u8>, i: int) -> Seq<u8>
    decreases b.len() - i,
{
    if i >= b.len() || i < 0 {
        seq![]
    } else if b[i] == 37 && i + 2 < b.len() && hex_pair(b[i + 1], b[i + 2]) is Some {
        seq![hex_pair(b[i + 1], b[i + 2]).unwrap()] + percent_from(b, i + 3)
    } else {
        seq![b[i]] + percent_from(b, i + 1)
    }
}

fn hex_value_exec(b: u8) -> (r: Option<u8>)
    ensures
        match r {
            Some(v) => is_hex_byte(b) && v == hex_value(b),
            None => !is_hex_byte(b),
        },
{
    if 48 <= b && b <= 57 {
        Some(b - 48)
    } else if 65 <= b && b <= 70 {
        Some(b - 55)
    } else if 97 <= b && b <= 102 {
        Some(b - 87)
    } else {
        None
    }
}

fn hex_pair_exec(a: u8, b: u8) -> (r: Option<u8>)
    ensures
        r == hex_pair(a, b),
{
    match (hex_value_exec(a), hex_value_exec(b)) {
        (Some(x), Some(y)) => Some(16 * x + y),
        (None, Some(y)) => if a == 43 {
            Some(y)
        } else {
            None
        },
        _ => None,
    }
}

/// Decode the `%XX` escapes of a URI's bytes.
pub fn percent_decode_bytes(b: &Vec<u8>) -> (r: Vec<u8>)
    ensures
        r@ == percent_from(b@, 0),
{
    let mut out: Vec<u8> = Vec::new();
    let n = b.len();
    let mut i: usize = 0;
    while i < n
        invariant
            i <= n == b.len(),
            out@ + percent_from(b@, i as int) == percent_from(b@, 0),
        decreases n - i,
    {
        if b[i] == 37 && n - i > 2 {
            match hex_pair_exec(b[i + 1], b[i + 2]) {
                Some(v) => {
                    let ghost before = out@;
                    out.push(v);
                    proof {
                        assert(before + percent_from(b@, i as int) =~= out@ + percent_from(
                            b@,
                            i + 3,
                        ));
                    }
                    i = i + 3;
                    continue;
                },
                None => {},
            }
        }
        let ghost before = out@;
        out.push(b[i]);
        proof {
            assert(before + percent_from(b@, i as int) =~= out@ + percent_from(b@, i + 1));
        }
        i = i + 1;
    }
    proof {
        assert(out@ + percent_from(b@, n as int) =~= out@);
    }
    out
}

/// `%XX` escapes decoded, then the bytes read as UTF-8 (lossily).
pub fn percent_decode(input: &str) -> (r: String)
    ensures
        r@ == utf8_lossy(percent_from(utf8(input@), 0)),
{
    let b = utf8_bytes(input);
    let d = percent_decode_bytes(&b);
    from_utf8_lossy(d.as_slice())
}

/// `b` without the prefix `p`, if it has it.
pub open spec fn strip_bytes(b: Seq<u8>, p: Seq<u8>) -> Seq<u8> {
    if p.len() <= b.len() && b.take(p.len() as int) == p {
        b.skip(p.len() as int)
    } else {
        b
    }
}

fn strip_bytes_exec(b: &Vec<u8>, p: &[u8]) -> (r: Vec<u8>)
    ensures
        r@ == strip_bytes(b@, p@),
{
    let m = p.len();
    let n = b.len();
    let mut matches = m <= n;
    if matches {
        let mut k: usize = 0;
        while k < m
            invariant
                k <= m <= n,
                m == p@.len(),
                n == b@.len(),
                matches == forall|t: int| 0 <= t < k ==> b@[t] == p@[t],
            decreases m - k,
        {
            if b[k] != p[k] {
                matches = false;
            }
            k = k + 1;
        }
        proof {
            if matches {
                assert(b@.take(m as int) =~= p@);
            } else {
                let t = choose|t: int| 0 <= t < m && b@[t] != p@[t];
                assert(b@.take(m as int)[t] != p@[t]);
            }
        }
    }
    let start = if matches {
        m
    } else {
        0
    };
    let mut out: Vec<u8> = Vec::new();
    let mut i = start;
    while i < n
        invariant
            start <= i <= n == b@.len(),
            out@ == b@.subrange(start as int, i as int),
        decreases n - i,
    {
        out.push(b[i]);
        i = i + 1;
        proof {
            assert(out@ =~= b@.subrange(start as int, i as int));
        }
    }
    proof {
        assert(b@.skip(0) =~= b@);
        assert(b@.subrange(start as int, n as int) =~= b@.skip(start as int));
    }
    out
}

/// Byte `i` starts a character (or ends the string).
pub open spec fn is_char_start(b: Seq<u8>, i: int) -> bool {
    i == b.len() || (0 <= i < b.len() && !(0x80 <= b[i] && b[i] < 0xC0))
}

/// What `to_local_path` can take: a `file:` target (its scheme recognised by
/// `to_lowercase`) whose fifth byte starts a character, so that the text
/// after the scheme can be sliced off.
pub open spec fn local_path_ok(target: Seq<char>) -> bool {
    starts_with(lowercase(trim(target)), "file:"@) ==> is_char_start(utf8(trim(target)), 5)
}

/// A `/`-leading string without its leading slashes.
pub open spec fn strip_slashes(s: Seq<char>) -> Seq<char>
    decreases s.len(),
{
    if s.len() > 0 && s[0] == '/' {
        strip_slashes(s.drop_first())
    } else {
        s
    }
}

fn strip_slashes_exec(s: &Vec<char>) -> (r: Vec<char>)
    ensures
        r@ == strip_slashes(s@),
{
    let n = s.len();
    let mut i: usize = 0;
    proof {
        assert(s@.skip(0) =~= s@);
    }
    while i < n && s[i] == '/'
        invariant
            i <= n == s.len(),
            strip_slashes(s@) == strip_slashes(s@.skip(i as int)),
        decreases n - i,
    {
        proof {
            assert(s@.skip(i as int).drop_first() =~= s@.skip(i + 1));
        }
        i = i + 1;
    }
    proof {
        assert(s@.skip(i as int) =~= s@.subrange(i as int, n as int));
    }
    slice(s, i, n)
}

/// What a `file:` target's text after the scheme decodes to: a leading `//`
/// and then `localhost` dropped, `%XX` escapes decoded.
pub open spec fn file_uri_path(t: Seq<char>) -> Seq<char> {
    let rest = utf8(t).skip(5);
    utf8_lossy(percent_from(strip_bytes(strip_bytes(rest, "//"@.map_values(|c: char| c as u8)), "localhost"@.map_values(|c: char| c as u8)), 0))
}

/// A shortcut target as a local path: nothing for an empty or web target; a
/// `file:` URI decoded, as a Windows path when it names a drive and as an
/// absolute POSIX path otherwise; a bare path as it is, with Windows
/// separators when it names a drive.
pub open spec fn to_local_spec(target: Seq<char>) -> Option<Seq<char>> {
    let t = trim(target);
    let lower = lowercase(t);
    if t.len() == 0 {
        None
    } else if starts_with(lower, "http://"@) || starts_with(lower, "https://"@) {
        None
    } else if starts_with(lower, "file:"@) {
        let decoded = file_uri_path(t);
        let without_root = strip_slashes(decoded);
        if is_drive_spec(without_root) {
            Some(replace_char(without_root, '/', '\\'))
        } else if decoded.len() > 0 && decoded[0] == '/' {
            Some(decoded)
        } else {
            Some("/"@ + decoded)
        }
    } else if is_drive_spec(t) {
        Some(replace_char(t, '/', '\\'))
    } else {
        Some(t)
    }
}

fn ascii_bytes(s: &str) -> (r: Vec<u8>)
    ensures
        r@ == s@.map_values(|c: char| c as u8),
{
    let v = chars_of(s);
    let mut out: Vec<u8> = Vec::new();
    let n = v.len();
    let mut i: usize = 0;
    while i < n
        invariant
            i <= n == v.len(),
            v@ == s@,
            out@ == s@.map_values(|c: char| c as u8).take(i as int),
        decreases n - i,
    {
        out.push(v[i] as u8);
        i = i + 1;
        proof {
            assert(out@ =~= s@.map_values(|c: char| c as u8).take(i as int));
        }
    }
    proof {
        assert(s@.map_values(|c: char| c as u8).take(n as int) =~= s@.map_values(
            |c: char| c as u8,
        ));
    }
    out
}

fn to_local_chars(target: &Vec<char>) -> (r: Option<Vec<char>>)
    requires
        local_path_ok(target@),
    ensures
        match r {
            Some(p) => to_local_spec(target@) == Some(p@),
            None => to_local_spec(target@) is None,
        },
{
    let t = trim_chars(target);
    if t.len() == 0 {
        return None;
    }
    let lower = lowercase_chars(&t);
    if starts_with_chars(&lower, &chars_of("http://")) || starts_with_chars(
        &lower,
        &chars_of("https://"),
    ) {
        return None;
    }
    if starts_with_chars(&lower, &chars_of("file:")) {
        let ts = string_of(&t);
        let bytes = utf8_bytes(ts.as_str());
        proof {
            reveal_strlit("file:");
            assert(is_char_start(bytes@, 5));
        }
        let mut rest: Vec<u8> = Vec::new();
        let bn = bytes.len();
        let mut i: usize = 5;
        while i < bn
            invariant
                5 <= i <= bn == bytes@.len(),
                rest@ == bytes@.subrange(5, i as int),
            decreases bn - i,
        {
            rest.push(bytes[i]);
            i = i + 1;
            proof {
                assert(rest@ =~= bytes@.subrange(5, i as int));
            }
        }
        proof {
            assert(rest@ =~= utf8(t@).skip(5));
        }
        let r1 = strip_bytes_exec(&rest, ascii_bytes("//").as_slice());
        let r2 = strip_bytes_exec(&r1, ascii_bytes("localhost").as_slice());
        let dec = percent_decode_bytes(&r2);
        let decoded_s = from_utf8_lossy(dec.as_slice());
        let decoded = chars_of(decoded_s.as_str());
        let without_root = strip_slashes_exec(&decoded);
        let wr_s = string_of(&without_root);
        if is_windows_drive_path(wr_s.as_str()) {
            return Some(replace_char_exec(&without_root, '/', '\\'));
        }
        if decoded.len() > 0 && decoded[0] == '/' {
            return Some(decoded);
        }
        return Some(concat_chars(&chars_of("/"), &decoded));
    }
    let ts = string_of(&t);
    if is_windows_drive_path(ts.as_str()) {
        return Some(replace_char_exec(&t, '/', '\\'));
    }
    Some(t)
}

/// Convert a shortcut target into a local path, if it names one.
pub fn to_local_path(target: &str) -> (r: Option<String>)
    requires
        local_path_ok(target@),
    ensures
        match r {
            Some(p) => to_local_spec(target@) == Some(p@),
            None => to_local_spec(target@) is None,
        },
{
    match to_local_chars(&chars_of(target)) {
        Some(p) => Some(string_of(&p)),
        None => None,
    }
}

/// The 16-bit units of UTF-16 bytes, little- or big-endian; an odd last
/// byte is left out.
pub open spec fn utf16_units(b: Seq<u8>, little: bool) -> Seq<u16> {
    Seq::new(
        b.len() / 2,
        |k: int|
            if little {
                (b[2 * k] + 256 * b[2 * k + 1]) as u16
            } else {
                (256 * b[2 * k] + b[2 * k + 1]) as u16
            },
    )
}

/// A text file's bytes as text, without assuming UTF-8: a UTF-16 byte-order
/// mark selects UTF-16, a UTF-8 one is dropped, and anything else is read as
/// UTF-8 with invalid sequences replaced.
pub open spec fn decode_lenient_spec(b: Seq<u8>) -> Seq<char> {
    if b.len() >= 2 && b[0] == 0xFF && b[1] == 0xFE {
        utf16_lossy(utf16_units(b.skip(2), true))
    } else if b.len() >= 2 && b[0] == 0xFE && b[1] == 0xFF {
        utf16_lossy(utf16_units(b.skip(2), false))
    } else if b.len() >= 3 && b[0] == 0xEF && b[1] == 0xBB && b[2] == 0xBF {
        utf8_lossy(b.skip(3))
    } else {
        utf8_lossy(b)
    }
}

fn utf16_units_exec(b: &[u8], start: usize, little: bool) -> (r: Vec<u16>)
    requires
        start <= b@.len(),
    ensures
        r@ == utf16_units(b@.skip(start as int), little),
{
    let ghost rest = b@.skip(start as int);
    let blen = b.len();
    let m = (blen - start) / 2;
    let mut out: Vec<u16> = Vec::new();
    let mut k: usize = 0;
    while k < m
        invariant
            k <= m,
            blen == b@.len(),
            m == (b@.len() - start) / 2,
            start <= b@.len(),
            rest == b@.skip(start as int),
            out@ == utf16_units(rest, little).take(k as int),
        decreases m - k,
    {
        proof {
            let len = b@.len() - start;
            assert(2 * m <= len) by (nonlinear_arith)
                requires
                    m == len / 2,
                    len >= 0,
            ;
            assert(2 * k + 2 <= 2 * m);
            assert(start + 2 * k + 1 < b@.len());
        }
        let lo = b[start + 2 * k];
        let hi = b[start + 2 * k + 1];
        let u: u16 = if little {
            (lo as u16) + 256 * (hi as u16)
        } else {
            256 * (lo as u16) + (hi as u16)
        };
        proof {
            assert(rest[2 * k as int] == lo);
            assert(rest[2 * k + 1] == hi);
        }
        out.push(u);
        k = k + 1;
        proof {
            assert(out@ =~= utf16_units(rest, little).take(k as int));
        }
    }
    proof {
        assert(utf16_units(rest, little).take(m as int) =~= utf16_units(rest, little));
    }
    out
}

/// Read a text file's bytes without assuming they are UTF-8.
pub fn decode_lenient(b: &[u8]) -> (r: String)
    ensures
        r@ == decode_lenient_spec(b@),
{
    let n = b.len();
    if n >= 2 && b[0] == 0xFF && b[1] == 0xFE {
        let units = utf16_units_exec(b, 2, true);
        from_utf16_lossy(units.as_slice())
    } else if n >= 2 && b[0] == 0xFE && b[1] == 0xFF {
        let units = utf16_units_exec(b, 2, false);
        from_utf16_lossy(units.as_slice())
    } else if n >= 3 && b[0] == 0xEF && b[1] == 0xBB && b[2] == 0xBF {
        let mut rest: Vec<u8> = Vec::new();
        let mut i: usize = 3;
        while i < n
            invariant
                3 <= i <= n == b@.len(),
                rest@ == b@.subrange(3, i as int),
            decreases n - i,
        {
            rest.push(b[i]);
            i = i + 1;
            proof {
                assert(rest@ =~= b@.subrange(3, i as int));
            }
        }
        proof {
            assert(rest@ =~= b@.skip(3));
        }
        from_utf8_lossy(rest.as_slice())
    } else {
        from_utf8_lossy(b)
    }
}

/// Is the path a shortcut (`.url`, `.lnk` or `.desktop`, in any case)?
pub open spec fn is_shortcut_spec(path: Seq<char>) -> bool {
    match file_name(path) {
        Some(n) => match extension(n) {
            Some(e) => eq_ignore_case(e, "url"@) || eq_ignore_case(e, "lnk"@) || eq_ignore_case(
                e,
                "desktop"@,
            ),
            None => false,
        },
        None => false,
    }
}

pub fn is_shortcut(path: &str) -> (b: bool)
    ensures
        b == is_shortcut_spec(path@),
{
    match file_name_exec(&chars_of(path)) {
        None => false,
        Some(n) => match extension_exec(&n) {
            None => false,
            Some(e) => eq_ignore_case_chars(&e, &chars_of("url")) || eq_ignore_case_chars(
                &e,
                &chars_of("lnk"),
            ) || eq_ignore_case_chars(&e, &chars_of("desktop")),
        },
    }
}

/// The characters other than spaces.
pub open spec fn without_spaces(s: Seq<char>) -> Seq<char>
    decreases s.len(),
{
    if s.len() == 0 {
        seq![]
    } else if s.last() == ' ' {
        without_spaces(s.drop_last())
    } else {
        without_spaces(s.drop_last()).push(s.last())
    }
}

/// Does the shortcut's name, lowercased and without spaces, say `readme`?
/// ("README.url", "Read Me.lnk", "CyberPatriot README.desktop")
pub open spec fn names_readme_spec(path: Seq<char>) -> bool {
    match file_name(path) {
        Some(n) => contains(without_spaces(lowercase(stem(n))), "readme"@),
        None => false,
    }
}

pub fn shortcut_name_looks_like_readme(path: &str) -> (b: bool)
    ensures
        b == names_readme_spec(path@),
{
    match file_name_exec(&chars_of(path)) {
        None => false,
        Some(n) => {
            let l = lowercase_chars(&stem_exec(&n));
            let mut out: Vec<char> = Vec::new();
            let m = l.len();
            let mut i: usize = 0;
            while i < m
                invariant
                    i <= m == l.len(),
                    out@ == without_spaces(l@.take(i as int)),
                decreases m - i,
            {
                proof {
                    assert(l@.take(i + 1).drop_last() =~= l@.take(i as int));
                }
                if l[i] != ' ' {
                    out.push(l[i]);
                }
                i = i + 1;
            }
            proof {
                assert(l@.take(m as int) =~= l@);
            }
            contains_chars(&out, &chars_of("readme"))
        },
    }
}

/// A path's extension, lowercased, or empty.
pub open spec fn lower_extension(path: Seq<char>) -> Seq<char> {
    match file_name(path) {
        Some(n) => match extension(n) {
            Some(e) => lowercase(e),
            None => seq![],
        },
        None => seq![],
    }
}

/// What a shortcut's contents name as its target.
pub open spec fn shortcut_target(ext: Seq<char>, contents: Seq<char>) -> Option<Seq<char>> {
    if ext == "desktop"@ {
        desktop_entry_spec(contents)
    } else {
        internet_shortcut_spec(contents)
    }
}

/// What `describe_unresolvable` can take: a target it would turn into a local
/// path is one `to_local_path` can take.
pub open spec fn describable(path: Seq<char>, contents: Option<Seq<char>>) -> bool {
    match contents {
        Some(c) => match shortcut_target(lower_extension(path), c) {
            Some(t) => local_path_ok(t),
            None => true,
        },
        None => true,
    }
}

/// Why a README candidate that exists could not be used, given the
/// shortcut's text when it could be read: a web address that could not be
/// downloaded, a file that is not there, or a shortcut with no target.
pub open spec fn describe_spec(path: Seq<char>, contents: Option<Seq<char>>) -> Seq<char> {
    let ext = lower_extension(path);
    if ext != "url"@ && ext != "desktop"@ {
        "exists but could not be resolved to a readable file"@
    } else {
        match contents {
            None => "shortcut could not be read"@,
            Some(c) => match shortcut_target(ext, c) {
                None => if ext == "desktop"@ {
                    "launcher has no URL= entry and no address in its Exec= line"@
                } else {
                    "shortcut has no URL= entry"@
                },
                Some(target) => if is_remote_spec(target) {
                    "shortcut points to '"@ + target + "', which could not be downloaded"@
                } else {
                    match to_local_spec(target) {
                        Some(local) => "shortcut points to '"@ + local + "', which does not exist"@,
                        None => "shortcut target '"@ + target + "' is not a usable location"@,
                    }
                },
            },
        }
    }
}

/// Explain why an existing candidate could not be turned into a README.
pub fn describe_unresolvable(path: &str, contents: Option<&str>) -> (r: String)
    requires
        describable(
            path@,
            match contents {
                Some(c) => Some(c@),
                None => None,
            },
        ),
    ensures
        r@ == describe_spec(
            path@,
            match contents {
                Some(c) => Some(c@),
                None => None,
            },
        ),
{
    let ext: Vec<char> = match file_name_exec(&chars_of(path)) {
        Some(n) => match extension_exec(&n) {
            Some(e) => lowercase_chars(&e),
            None => Vec::new(),
        },
        None => Vec::new(),
    };
    let is_url = eq_chars(&ext, &chars_of("url"));
    let is_desktop = eq_chars(&ext, &chars_of("desktop"));
    if !is_url && !is_desktop {
        return String::from_str("exists but could not be resolved to a readable file");
    }
    let c = match contents {
        None => {
            return String::from_str("shortcut could not be read");
        },
        Some(c) => chars_of(c),
    };
    let parsed = if is_desktop {
        parse_desktop_entry_chars(&c)
    } else {
        parse_internet_shortcut_chars(&c)
    };
    match parsed {
        None => if is_desktop {
            String::from_str("launcher has no URL= entry and no address in its Exec= line")
        } else {
            String::from_str("shortcut has no URL= entry")
        },
        Some(target) => {
            if is_remote_chars(&target) {
                let mut v = concat_chars(&chars_of("shortcut points to '"), &target);
                v = concat_str(&v, "', which could not be downloaded");
                string_of(&v)
            } else {
                match to_local_chars(&target) {
                    Some(local) => {
                        let mut v = concat_chars(&chars_of("shortcut points to '"), &local);
                        v = concat_str(&v, "', which does not exist");
                        string_of(&v)
                    },
                    None => {
                        let mut v = concat_chars(&chars_of("shortcut target '"), &target);
                        v = concat_str(&v, "' is not a usable location");
                        string_of(&v)
                    },
                }
            }
        },
    }
}

// ---------------------------------------------------------------------------
// Following a README candidate
// ---------------------------------------------------------------------------

/// How many shortcuts are followed before giving up: enough for
/// `.lnk` -> `.url` -> `.html`, and a bound on a shortcut that names itself.
pub const MAX_HOPS: usize = 5;

/// [`to_local_path`] for any target: `None` also where the target is a
/// `file:` address whose scheme cannot be sliced off.
pub fn checked_local_path(target: &str) -> (r: Option<String>)
    ensures
        match r {
            Some(p) => local_path_ok(target@) && to_local_spec(target@) == Some(p@),
            None => !local_path_ok(target@) || to_local_spec(target@) is None,
        },
{
    if local_path_ok_exec(target) {
        to_local_path(target)
    } else {
        None
    }
}

/// Can [`to_local_path`] take this target?
pub fn local_path_ok_exec(target: &str) -> (b: bool)
    ensures
        b == local_path_ok(target@),
{
    let t = trim_chars(&chars_of(target));
    let lowered = lowercase_chars(&t);
    if starts_with_chars(&lowered, &chars_of("file:")) {
        let b = utf8_bytes(string_of(&t).as_str());
        b.len() == 5 || (5 < b.len() && !(0x80 <= b[5] && b[5] < 0xC0))
    } else {
        true
    }
}

/// [`describe_unresolvable`] for any candidate: where the shortcut's target
/// is a `file:` address that cannot be sliced, it is called not a usable
/// location.
pub fn describe_candidate(path: &str, contents: Option<&str>) -> (r: String)
    ensures
        describable(path@, match contents { Some(c) => Some(c@), None => None }) ==> r@ == describe_spec(
            path@,
            match contents { Some(c) => Some(c@), None => None },
        ),
        !describable(path@, match contents { Some(c) => Some(c@), None => None }) ==> r@
            == "shortcut target '"@ + shortcut_target(lower_extension(path@), contents->0@)->0
            + "' is not a usable location"@,
{
    let ext = lower_extension_exec(path);
    let usable = match contents {
        None => true,
        Some(c) => {
            let target = if eq_chars(&ext, &chars_of("desktop")) {
                parse_desktop_entry(c)
            } else {
                parse_internet_shortcut(c)
            };
            match target {
                Some(t) => {
                    if local_path_ok_exec(t.as_str()) {
                        true
                    } else {
                        let mut v = chars_of("shortcut target '");
                        v = concat_str(&v, t.as_str());
                        v = concat_str(&v, "' is not a usable location");
                        return string_of(&v);
                    }
                },
                None => true,
            }
        },
    };
    proof {
        assert(usable);
    }
    describe_unresolvable(path, contents)
}

/// What to do with a path on the way to the README.
#[derive(Debug, Clone, Copy, PartialEq, Eq, Structural)]
pub enum Hop {
    /// It is a web address: fetch it, and what comes back is the README.
    Download,
    /// An Internet Shortcut: read it and follow its `URL=` entry.
    InternetShortcut,
    /// A freedesktop launcher: read it and follow the address in it.
    DesktopEntry,
    /// A Windows shell link: ask the shell where it points.
    WindowsShortcut,
    /// The document itself, if it is a file.
    Document,
}

/// What a path on disk is, by its extension in any case.
pub open spec fn hop_of(path: Seq<char>) -> Hop {
    let e = lower_extension(path);
    if e == "url"@ {
        Hop::InternetShortcut
    } else if e == "lnk"@ {
        Hop::WindowsShortcut
    } else if e == "desktop"@ {
        Hop::DesktopEntry
    } else {
        Hop::Document
    }
}

fn lower_extension_exec(path: &str) -> (r: Vec<char>)
    ensures
        r@ == lower_extension(path@),
{
    match file_name_exec(&chars_of(path)) {
        Some(n) => match extension_exec(&n) {
            Some(e) => lowercase_chars(&e),
            None => Vec::new(),
        },
        None => Vec::new(),
    }
}

/// The next step for a path reached by following a shortcut.
pub fn next_hop(path: &str) -> (h: Hop)
    ensures
        h == hop_of(path@),
{
    let e = lower_extension_exec(path);
    if eq_chars(&e, &chars_of("url")) {
        Hop::InternetShortcut
    } else if eq_chars(&e, &chars_of("lnk")) {
        Hop::WindowsShortcut
    } else if eq_chars(&e, &chars_of("desktop")) {
        Hop::DesktopEntry
    } else {
        Hop::Document
    }
}

/// The first step for a README candidate: a web address given directly is
/// fetched (so `--readme <https address>` works), anything else is a path.
pub fn first_hop(candidate: &str) -> (h: Hop)
    ensures
        h == if is_remote_spec(candidate@) {
            Hop::Download
        } else {
            hop_of(candidate@)
        },
{
    if is_remote_target(candidate) {
        Hop::Download
    } else {
        next_hop(candidate)
    }
}

/// Where a shortcut leads.
#[derive(Debug, Clone)]
pub enum Follow {
    /// To a web address, which is fetched.
    Download(String),
    /// To a path, which is the next hop.
    Path(String),
    /// Nowhere usable.
    Stop,
}

/// Where a shortcut's contents lead: its target, fetched when it is a web
/// address, else taken as a local path where it names one.
pub open spec fn follows_to(f: Follow, desktop: bool, contents: Seq<char>) -> bool {
    let target = if desktop {
        desktop_entry_spec(contents)
    } else {
        internet_shortcut_spec(contents)
    };
    match target {
        None => f is Stop,
        Some(t) => if is_remote_spec(t) {
            f matches Follow::Download(u) && u@ == t
        } else if local_path_ok(t) && to_local_spec(t) is Some {
            f matches Follow::Path(p) && Some(p@) == to_local_spec(t)
        } else {
            f is Stop
        },
    }
}

/// Follow a `.url` (or, with `desktop`, a `.desktop`) file's contents.
pub fn follow_shortcut(desktop: bool, contents: &str) -> (f: Follow)
    ensures
        follows_to(f, desktop, contents@),
{
    let target = if desktop {
        parse_desktop_entry(contents)
    } else {
        parse_internet_shortcut(contents)
    };
    match target {
        None => Follow::Stop,
        Some(t) => {
            if is_remote_target(t.as_str()) {
                Follow::Download(t)
            } else {
                match checked_local_path(t.as_str()) {
                    Some(p) => Follow::Path(p),
                    None => Follow::Stop,
                }
            }
        },
    }
}

/// One line of the discovery report: where was looked, and what it led to.
pub fn attempt_found(place: &str, found: &str) -> (r: String)
    ensures
        r@ == place@ + " -> "@ + found@,
{
    let mut v = chars_of(place);
    v = concat_str(&v, " -> ");
    v = concat_str(&v, found);
    string_of(&v)
}

/// One line of the discovery report: where was looked, and why it led
/// nowhere.
pub fn attempt_note(place: &str, note: &str) -> (r: String)
    ensures
        r@ == place@ + " ("@ + note@ + ")"@,
{
    let mut v = chars_of(place);
    v = concat_str(&v, " (");
    v = concat_str(&v, note);
    v = concat_str(&v, ")");
    string_of(&v)
}

/// The directories to look in, in order: each candidate that exists, once.
pub open spec fn search_dirs_spec(candidates: Seq<Seq<char>>, exists: Seq<bool>) -> Seq<Seq<char>>
    decreases candidates.len(),
{
    if candidates.len() == 0 {
        Seq::empty()
    } else {
        let before = search_dirs_spec(candidates.drop_last(), exists.take(candidates.len() - 1));
        let d = candidates.last();
        if exists[candidates.len() - 1] && !before.contains(d) {
            before.push(d)
        } else {
            before
        }
    }
}

/// The directories to look in for a README shortcut: the candidates, in
/// the order given (the canonical CyberPatriot directories first, then
/// desktops), keeping each that exists and only its first mention.
pub fn search_dirs(candidates: &Vec<String>, exists: &Vec<bool>) -> (r: Vec<String>)
    requires
        candidates@.len() == exists@.len(),
    ensures
        strs(r@) == search_dirs_spec(strs(candidates@), exists@),
{
    let ghost cs = strs(candidates@);
    let mut out: Vec<String> = Vec::new();
    let mut seen: Vec<Vec<char>> = Vec::new();
    let n = candidates.len();
    let mut i: usize = 0;
    while i < n
        invariant
            i <= n == candidates@.len() == exists@.len(),
            cs == strs(candidates@),
            strs(out@) == seqs(seen@),
            strs(out@) == search_dirs_spec(cs.take(i as int), exists@.take(i as int)),
        decreases n - i,
    {
        proof {
            assert(cs.take(i + 1).drop_last() =~= cs.take(i as int));
            assert(exists@.take(i + 1).take(i as int) =~= exists@.take(i as int));
            assert(cs.take(i + 1).last() == candidates@[i as int]@);
        }
        let d = chars_of(candidates[i].as_str());
        if exists[i] {
            let mut found = false;
            let mut k: usize = 0;
            while k < seen.len()
                invariant
                    k <= seen@.len(),
                    found == exists|j: int| 0 <= j < k && #[trigger] seqs(seen@)[j] == d@,
                decreases seen@.len() - k,
            {
                proof {
                    assert(seqs(seen@)[k as int] == seen@[k as int]@);
                }
                if eq_chars(&seen[k], &d) {
                    found = true;
                }
                k = k + 1;
            }
            proof {
                if seqs(seen@).contains(d@) {
                    let j = choose|j: int| 0 <= j < seqs(seen@).len() && seqs(seen@)[j] == d@;
                    assert(seqs(seen@)[j] == d@);
                }
            }
            if !found {
                let ghost before = strs(out@);
                let ghost seen_before = seqs(seen@);
                out.push(string_of(&d));
                seen.push(d);
                proof {
                    assert(strs(out@) =~= before.push(candidates@[i as int]@));
                    assert(seqs(seen@) =~= seen_before.push(candidates@[i as int]@));
                }
            }
        }
        i = i + 1;
    }
    proof {
        assert(cs.take(n as int) =~= cs);
        assert(exists@.take(n as int) =~= exists@);
    }
    out
}

} // verus!
