//! What is decided about a command before it runs and after it fails: how an
//! argument string splits into arguments, how a value is quoted for
//! PowerShell, which programs can download a file and with what arguments,
//! and what a failed download is reported as. Running the process is the
//! program's.
use vstd::prelude::*;
use crate::text::{
    chars_of, concat_chars, concat_str, contains, contains_chars, is_whitespace, is_ws, join,
    join_chars, occurs_at, seqs, starts_with, string_of, strings_of, strs, trim, trim_chars,
};

verus! {

/// How long a command may run, in seconds.
pub const COMMAND_TIMEOUT_SECS: u64 = 120;

/// Reading an argument string up to some point: the arguments finished, the
/// one being read, whether a `"` is open, and whether an argument has begun.
pub open spec fn arg_state(s: Seq<char>) -> (Seq<Seq<char>>, Seq<char>, bool, bool)
    decreases s.len(),
{
    if s.len() == 0 {
        (seq![], seq![], false, false)
    } else {
        let (args, cur, quoted, started) = arg_state(s.drop_last());
        let c = s.last();
        if c == '"' {
            (args, cur, !quoted, true)
        } else if is_ws(c) && !quoted {
            if started {
                (args.push(cur), seq![], quoted, false)
            } else {
                (args, cur, quoted, started)
            }
        } else {
            (args, cur.push(c), quoted, true)
        }
    }
}

/// The arguments of an argument string: split at whitespace outside double
/// quotes, the quotes themselves removed; `""` is an empty argument.
pub open spec fn split_arguments_spec(s: Seq<char>) -> Seq<Seq<char>> {
    let (args, cur, _, started) = arg_state(s);
    if started {
        args.push(cur)
    } else {
        args
    }
}

pub fn split_arguments(input: &str) -> (r: Vec<String>)
    ensures
        strs(r@) == split_arguments_spec(input@),
{
    let v = chars_of(input);
    let mut args: Vec<Vec<char>> = Vec::new();
    let mut cur: Vec<char> = Vec::new();
    let mut quoted = false;
    let mut started = false;
    let n = v.len();
    let mut i: usize = 0;
    while i < n
        invariant
            i <= n == v.len(),
            v@ == input@,
            arg_state(v@.take(i as int)) == (seqs(args@), cur@, quoted, started),
        decreases n - i,
    {
        proof {
            assert(v@.take(i + 1).drop_last() =~= v@.take(i as int));
            assert(v@.take(i + 1).last() == v@[i as int]);
        }
        let c = v[i];
        if c == '"' {
            quoted = !quoted;
            started = true;
        } else if is_whitespace(c) && !quoted {
            if started {
                let ghost before = seqs(args@);
                let ghost cv = cur@;
                args.push(cur);
                cur = Vec::new();
                started = false;
                proof {
                    assert(seqs(args@) =~= before.push(cv));
                    assert(cur@ =~= Seq::<char>::empty());
                }
            }
        } else {
            cur.push(c);
            started = true;
        }
        i = i + 1;
    }
    proof {
        assert(v@.take(n as int) =~= v@);
    }
    if started {
        let ghost before = seqs(args@);
        let ghost cv = cur@;
        args.push(cur);
        proof {
            assert(seqs(args@) =~= before.push(cv));
        }
    }
    strings_of(&args)
}

/// Each `'` doubled, which is how a single-quoted PowerShell string holds one.
pub open spec fn double_quotes(s: Seq<char>) -> Seq<char>
    decreases s.len(),
{
    if s.len() == 0 {
        seq![]
    } else if s.last() == '\'' {
        double_quotes(s.drop_last()) + seq!['\'', '\'']
    } else {
        double_quotes(s.drop_last()).push(s.last())
    }
}

pub open spec fn ps_quote_spec(value: Seq<char>) -> Seq<char> {
    seq!['\''] + double_quotes(value) + seq!['\'']
}

/// Quote a value as a single-quoted PowerShell string.
pub fn ps_quote(value: &str) -> (r: String)
    ensures
        r@ == ps_quote_spec(value@),
{
    let v = chars_of(value);
    let mut out: Vec<char> = Vec::new();
    out.push('\'');
    let n = v.len();
    let mut i: usize = 0;
    while i < n
        invariant
            i <= n == v.len(),
            out@ == seq!['\''] + double_quotes(v@.take(i as int)),
        decreases n - i,
    {
        proof {
            assert(v@.take(i + 1).drop_last() =~= v@.take(i as int));
        }
        if v[i] == '\'' {
            out.push('\'');
            out.push('\'');
        } else {
            out.push(v[i]);
        }
        i = i + 1;
        proof {
            assert(out@ =~= seq!['\''] + double_quotes(v@.take(i as int)));
        }
    }
    out.push('\'');
    proof {
        assert(v@.take(n as int) =~= v@);
        assert(out@ =~= ps_quote_spec(value@));
    }
    string_of(&out)
}

/// The arguments that run `script` in PowerShell: strictly, where any error
/// stops the script and exits 1 with the message on stderr, or as a query,
/// where errors are ignored and the exit is 0.
pub open spec fn powershell_args_spec(script: Seq<char>, strict: bool) -> Seq<char> {
    if strict {
        "-NoProfile -NonInteractive -Command \"$ErrorActionPreference = 'Stop'; try { "@ + script
            + " } catch { [Console]::Error.WriteLine($_.Exception.Message); exit 1 }\""@
    } else {
        "-NoProfile -NonInteractive -Command \"$ErrorActionPreference = 'SilentlyContinue'; "@
            + script + "; exit 0\""@
    }
}

/// The script is wrapped in double quotes, so it may not hold one.
pub fn powershell_args(script: &str, strict: bool) -> (r: String)
    requires
        !script@.contains('"'),
    ensures
        r@ == powershell_args_spec(script@, strict),
{
    let v = if strict {
        concat_str(
            &concat_str(
                &chars_of(
                    "-NoProfile -NonInteractive -Command \"$ErrorActionPreference = 'Stop'; try { ",
                ),
                script,
            ),
            " } catch { [Console]::Error.WriteLine($_.Exception.Message); exit 1 }\"",
        )
    } else {
        concat_str(
            &concat_str(
                &chars_of(
                    "-NoProfile -NonInteractive -Command \"$ErrorActionPreference = 'SilentlyContinue'; ",
                ),
                script,
            ),
            "; exit 0\"",
        )
    };
    string_of(&v)
}

/// The PowerShell arguments always start with `-NoProfile`, pass
/// `-NonInteractive`, and hold the script itself; strict ones stop on an
/// error and exit 1, query ones ignore errors and exit 0.
pub proof fn law_powershell_args_parts(script: Seq<char>)
    ensures
        starts_with(powershell_args_spec(script, true), "-NoProfile"@),
        starts_with(powershell_args_spec(script, false), "-NoProfile"@),
        contains(powershell_args_spec(script, true), "-NonInteractive"@),
        contains(powershell_args_spec(script, false), "-NonInteractive"@),
        contains(powershell_args_spec(script, true), script),
        contains(powershell_args_spec(script, false), script),
        contains(powershell_args_spec(script, true), "$ErrorActionPreference = 'Stop'"@),
        contains(powershell_args_spec(script, true), "exit 1"@),
        contains(powershell_args_spec(script, false), "$ErrorActionPreference = 'SilentlyContinue'"@),
        contains(powershell_args_spec(script, false), "exit 0"@),
{
    let strict_head = "-NoProfile -NonInteractive -Command \"$ErrorActionPreference = 'Stop'; try { "@;
    let strict_tail = " } catch { [Console]::Error.WriteLine($_.Exception.Message); exit 1 }\""@;
    let query_head = "-NoProfile -NonInteractive -Command \"$ErrorActionPreference = 'SilentlyContinue'; "@;
    let query_tail = "; exit 0\""@;
    reveal_strlit("-NoProfile -NonInteractive -Command \"$ErrorActionPreference = 'Stop'; try { ");
    reveal_strlit(" } catch { [Console]::Error.WriteLine($_.Exception.Message); exit 1 }\"");
    reveal_strlit("-NoProfile -NonInteractive -Command \"$ErrorActionPreference = 'SilentlyContinue'; ");
    reveal_strlit("; exit 0\"");
    reveal_strlit("-NoProfile");
    reveal_strlit("-NonInteractive");
    reveal_strlit("$ErrorActionPreference = 'Stop'");
    reveal_strlit("$ErrorActionPreference = 'SilentlyContinue'");
    reveal_strlit("exit 1");
    reveal_strlit("exit 0");
    let a = powershell_args_spec(script, true);
    let q = powershell_args_spec(script, false);
    assert(a.subrange(0, 10) =~= "-NoProfile"@);
    assert(q.subrange(0, 10) =~= "-NoProfile"@);
    assert(a.subrange(11, 26) =~= "-NonInteractive"@);
    assert(q.subrange(11, 26) =~= "-NonInteractive"@);
    assert(occurs_at(a, "-NonInteractive"@, 11));
    assert(occurs_at(q, "-NonInteractive"@, 11));
    assert(a.subrange(37, 68) =~= "$ErrorActionPreference = 'Stop'"@);
    assert(occurs_at(a, "$ErrorActionPreference = 'Stop'"@, 37));
    assert(q.subrange(37, 80) =~= "$ErrorActionPreference = 'SilentlyContinue'"@);
    assert(occurs_at(q, "$ErrorActionPreference = 'SilentlyContinue'"@, 37));
    let sa = strict_head.len() as int;
    assert(a.subrange(sa, sa + script.len()) =~= script);
    assert(occurs_at(a, script, sa));
    let sq = query_head.len() as int;
    assert(q.subrange(sq, sq + script.len()) =~= script);
    assert(occurs_at(q, script, sq));
    let e1 = sa + script.len() + 61;
    assert(a.subrange(e1, e1 + 6) =~= "exit 1"@);
    assert(occurs_at(a, "exit 1"@, e1));
    let e0 = sq + script.len() + 2;
    assert(q.subrange(e0, e0 + 6) =~= "exit 0"@);
    assert(occurs_at(q, "exit 0"@, e0));
}

/// A query's arguments never ask for a failing exit: when the script itself
/// does not say `exit 1`, neither do the arguments around it.
pub proof fn law_query_args_never_exit_1(script: Seq<char>)
    requires
        !contains(script, "exit 1"@),
    ensures
        !contains(powershell_args_spec(script, false), "exit 1"@),
{
    let head = "-NoProfile -NonInteractive -Command \"$ErrorActionPreference = 'SilentlyContinue'; "@;
    let tail = "; exit 0\""@;
    let pat = "exit 1"@;
    reveal_strlit("-NoProfile -NonInteractive -Command \"$ErrorActionPreference = 'SilentlyContinue'; ");
    reveal_strlit("; exit 0\"");
    reveal_strlit("exit 1");
    let q = powershell_args_spec(script, false);
    assert(q == head + script + tail);
    let h = head.len() as int;
    let n = script.len() as int;
    assert(h == 82);
    assert forall|k: int| 0 <= k < h implies head[k] != 'x' by {}
    if contains(q, pat) {
        let i = choose|i: int| occurs_at(q, pat, i);
        assert(q.subrange(i, i + 6) == pat);
        assert(q[i] == 'e' && q[i + 1] == 'x' && q[i + 2] == 'i' && q[i + 3] == 't' && q[i + 4] == ' '
            && q[i + 5] == '1') by {
            assert(q[i] == q.subrange(i, i + 6)[0]);
            assert(q[i + 1] == q.subrange(i, i + 6)[1]);
            assert(q[i + 2] == q.subrange(i, i + 6)[2]);
            assert(q[i + 3] == q.subrange(i, i + 6)[3]);
            assert(q[i + 4] == q.subrange(i, i + 6)[4]);
            assert(q[i + 5] == q.subrange(i, i + 6)[5]);
        }
        if i + 1 < h {
            assert(q[i + 1] == head[i + 1]);
        } else if i + 1 == h {
            assert(q[i] == head[h - 1]);
        } else if i + 1 >= h + n {
            let t = i - h - n;
            if t >= 0 {
                assert(q[i + 5] == tail[t + 5]);
            } else {
                assert(q[i + 1] == tail[0]);
            }
        } else {
            if i + 6 <= h + n {
                assert(script.subrange(i - h, i - h + 6) =~= pat);
                assert(occurs_at(script, pat, i - h));
            } else {
                let k = h + n;
                assert(q[k] == tail[0]);
            }
        }
    }
}

/// How a downloader is told where to fetch from and where to write.
#[derive(Debug, Clone, Copy, PartialEq, Eq, Structural)]
pub enum DownloaderKind {
    Curl,
    Wget,
    PowerShell,
}

/// A program that can download a file.
#[derive(Debug, Clone, Copy)]
pub struct Downloader {
    pub program: &'static str,
    pub kind: DownloaderKind,
}

/// The downloaders of a Linux image, in the order they are tried: a stock
/// Ubuntu desktop ships `wget` and not `curl`, so both are needed.
pub fn downloaders() -> (r: Vec<Downloader>)
    ensures
        r@.len() == 2,
        r@[0].program@ == "curl"@,
        r@[0].kind == DownloaderKind::Curl,
        r@[1].program@ == "wget"@,
        r@[1].kind == DownloaderKind::Wget,
{
    let mut v: Vec<Downloader> = Vec::new();
    v.push(Downloader { program: "curl", kind: DownloaderKind::Curl });
    v.push(Downloader { program: "wget", kind: DownloaderKind::Wget });
    v
}

/// The arguments of a download: curl follows redirects and fails on an HTTP
/// error (`-L -f`) rather than saving the error page; wget is quiet; the
/// PowerShell form uses TLS 1.2 and `Invoke-WebRequest`.
pub open spec fn invocation_spec(kind: DownloaderKind, url: Seq<char>, dest: Seq<char>) -> Seq<
    char,
> {
    match kind {
        DownloaderKind::Curl => "-L -f -s -S -o \""@ + dest + "\" \""@ + url + "\""@,
        DownloaderKind::Wget => "-q -O \""@ + dest + "\" \""@ + url + "\""@,
        DownloaderKind::PowerShell => powershell_args_spec(
            "[Net.ServicePointManager]::SecurityProtocol = [Net.SecurityProtocolType]::Tls12; Invoke-WebRequest -Uri "@
                + ps_quote_spec(url) + " -OutFile "@ + ps_quote_spec(dest) + " -UseBasicParsing"@,
            true,
        ),
    }
}

impl Downloader {
    /// The program and arguments that download `url` to `dest`. A PowerShell
    /// download cannot take a `"` in either.
    pub fn invocation(&self, url: &str, dest: &str) -> (r: (String, String))
        requires
            self.kind == DownloaderKind::PowerShell ==> !url@.contains('"') && !dest@.contains('"'),
        ensures
            r.0@ == self.program@,
            r.1@ == invocation_spec(self.kind, url@, dest@),
    {
        let program = string_of(&chars_of(self.program));
        let args = match self.kind {
            DownloaderKind::Curl => {
                let mut v = chars_of("-L -f -s -S -o \"");
                v = concat_str(&v, dest);
                v = concat_str(&v, "\" \"");
                v = concat_str(&v, url);
                v = concat_str(&v, "\"");
                string_of(&v)
            },
            DownloaderKind::Wget => {
                let mut v = chars_of("-q -O \"");
                v = concat_str(&v, dest);
                v = concat_str(&v, "\" \"");
                v = concat_str(&v, url);
                v = concat_str(&v, "\"");
                string_of(&v)
            },
            DownloaderKind::PowerShell => {
                let mut v = chars_of(
                    "[Net.ServicePointManager]::SecurityProtocol = [Net.SecurityProtocolType]::Tls12; Invoke-WebRequest -Uri ",
                );
                let qu = ps_quote(url);
                let qd = ps_quote(dest);
                v = concat_str(&v, qu.as_str());
                v = concat_str(&v, " -OutFile ");
                v = concat_str(&v, qd.as_str());
                v = concat_str(&v, " -UseBasicParsing");
                let script = string_of(&v);
                proof {
                        reveal_strlit("[Net.ServicePointManager]::SecurityProtocol = [Net.SecurityProtocolType]::Tls12; Invoke-WebRequest -Uri ");
                        reveal_strlit(" -OutFile ");
                        reveal_strlit(" -UseBasicParsing");
                        lemma_quoted_no_double(url@);
                        lemma_quoted_no_double(dest@);
                        assert(!script@.contains('"'));
                }
                powershell_args(script.as_str(), true)
            },
        };
        (program, args)
    }
}

proof fn lemma_quoted_no_double(s: Seq<char>)
    requires
        !s.contains('"'),
    ensures
        !ps_quote_spec(s).contains('"'),
{
    lemma_doubled_no_double(s);
    assert forall|i: int| 0 <= i < ps_quote_spec(s).len() implies ps_quote_spec(s)[i] != '"' by {
        if 0 < i < ps_quote_spec(s).len() - 1 {
            assert(ps_quote_spec(s)[i] == double_quotes(s)[i - 1]);
        }
    }
}

proof fn lemma_doubled_no_double(s: Seq<char>)
    requires
        !s.contains('"'),
    ensures
        forall|i: int| 0 <= i < double_quotes(s).len() ==> double_quotes(s)[i] != '"',
    decreases s.len(),
{
    if s.len() > 0 {
        assert(!s.drop_last().contains('"')) by {
            if s.drop_last().contains('"') {
                let k = choose|k: int| 0 <= k < s.drop_last().len() && s.drop_last()[k] == '"';
                assert(s[k] == '"');
            }
        }
        lemma_doubled_no_double(s.drop_last());
        assert(s[s.len() - 1] != '"');
        let prev = double_quotes(s.drop_last());
        assert forall|i: int| 0 <= i < double_quotes(s).len() implies double_quotes(s)[i] != '"' by {
            if i < prev.len() {
                if s.last() == '\'' {
                    assert(double_quotes(s) == prev + seq!['\'', '\'']);
                } else {
                    assert(double_quotes(s) == prev.push(s.last()));
                }
                assert(double_quotes(s)[i] == prev[i]);
            }
        }
    }
}

/// What one failed download attempt says: the program is not installed, or
/// it ran and failed, with why.
#[derive(Debug, Clone, PartialEq, Eq)]
pub enum Attempt {
    Missing,
    Failed(String),
}

/// An attempt that exited without a code and with an error saying the
/// program was not found is a missing program; otherwise it failed, with its
/// trimmed error, or with no file produced.
pub open spec fn attempt_spec(program: Seq<char>, code: Option<i32>, error: Option<Seq<char>>) -> (
    bool,
    Seq<char>,
) {
    match error {
        Some(e) => if code is None && (contains(e, "os error 2"@) || contains(e, "cannot find"@)) {
            (true, seq![])
        } else if trim(e).len() > 0 {
            (false, program + ": "@ + trim(e))
        } else {
            (false, program + " produced no file"@)
        },
        None => (false, program + " produced no file"@),
    }
}

pub fn classify_attempt(program: &str, code: Option<i32>, error: Option<&str>) -> (r: Attempt)
    ensures
        match r {
            Attempt::Missing => attempt_spec(
                program@,
                code,
                match error {
                    Some(e) => Some(e@),
                    None => None,
                },
            ).0,
            Attempt::Failed(m) => !attempt_spec(
                program@,
                code,
                match error {
                    Some(e) => Some(e@),
                    None => None,
                },
            ).0 && attempt_spec(
                program@,
                code,
                match error {
                    Some(e) => Some(e@),
                    None => None,
                },
            ).1 == m@,
        },
{
    let p = chars_of(program);
    match error {
        Some(e) => {
            let ev = chars_of(e);
            if code.is_none() && (contains_chars(&ev, &chars_of("os error 2")) || contains_chars(
                &ev,
                &chars_of("cannot find"),
            )) {
                Attempt::Missing
            } else {
                let t = trim_chars(&ev);
                if t.len() > 0 {
                    Attempt::Failed(string_of(&concat_chars(&concat_str(&p, ": "), &t)))
                } else {
                    Attempt::Failed(string_of(&concat_str(&p, " produced no file")))
                }
            }
        },
        None => Attempt::Failed(string_of(&concat_str(&p, " produced no file"))),
    }
}

/// The error of a download no downloader managed: when none even ran, which
/// were tried and how to get one; otherwise each failure, `; `-separated.
pub open spec fn download_error_spec(failed: Seq<Seq<char>>, missing: Seq<Seq<char>>) -> Seq<char> {
    if failed.len() == 0 {
        "no downloader is installed (tried "@ + join(missing, ", "@)
            + "). Install one with `sudo apt install curl`, or open the README in a browser, save it as HTML and pass it with --readme <file>"@
    } else {
        join(failed, "; "@)
    }
}

pub fn download_error(failed: &Vec<String>, missing: &Vec<String>) -> (r: String)
    ensures
        r@ == download_error_spec(strs(failed@), strs(missing@)),
{
    if failed.len() == 0 {
        let m = join_chars(&crate::text::chars_all(missing), &chars_of(", "));
        let mut v = concat_chars(&chars_of("no downloader is installed (tried "), &m);
        v = concat_str(
            &v,
            "). Install one with `sudo apt install curl`, or open the README in a browser, save it as HTML and pass it with --readme <file>",
        );
        string_of(&v)
    } else {
        string_of(&join_chars(&crate::text::chars_all(failed), &chars_of("; ")))
    }
}

} // verus!
