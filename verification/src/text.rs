//! Text as sequences of characters: the reading primitives every parser in
//! this crate is built from, each stated as a spec function and implemented
//! over `Vec<char>`.
//!
//! The spec functions follow the std functions they stand for (`str::trim`,
//! `str::lines`, `str::split_whitespace`, `str::split`, ...), written as folds
//! over the characters so that a left-to-right loop matches them step by step.
use vstd::prelude::*;

verus! {

// ---------------------------------------------------------------------------
// Characters
// ---------------------------------------------------------------------------

/// The Unicode `White_Space` property, which is what `char::is_whitespace`
/// tests.
pub open spec fn is_ws(c: char) -> bool {
    let u = c as u32;
    (9 <= u && u <= 13) || u == 32 || u == 0x85 || u == 0xa0 || u == 0x1680 || (0x2000 <= u
        && u <= 0x200a) || u == 0x2028 || u == 0x2029 || u == 0x202f || u == 0x205f || u == 0x3000
}

pub fn is_whitespace(c: char) -> (b: bool)
    ensures
        b == is_ws(c),
{
    let u = c as u32;
    (9 <= u && u <= 13) || u == 32 || u == 0x85 || u == 0xa0 || u == 0x1680 || (0x2000 <= u
        && u <= 0x200a) || u == 0x2028 || u == 0x2029 || u == 0x202f || u == 0x205f || u == 0x3000
}

/// `char::to_ascii_lowercase`.
pub open spec fn lower_ascii(c: char) -> char {
    if 'A' <= c && c <= 'Z' {
        ((c as u32) + 32) as char
    } else {
        c
    }
}

pub fn to_ascii_lower(c: char) -> (r: char)
    ensures
        r == lower_ascii(c),
{
    if 'A' <= c && c <= 'Z' {
        let u: u32 = (c as u32) + 32;
        proof {
            assert(97 <= u <= 122);
        }
        char_from_ascii(u)
    } else {
        c
    }
}

fn char_from_ascii(u: u32) -> (c: char)
    requires
        u < 128,
    ensures
        c == u as char,
        c as u32 == u,
{
    let b: u8 = u as u8;
    b as char
}

pub open spec fn is_ascii_digit(c: char) -> bool {
    '0' <= c && c <= '9'
}

pub open spec fn is_ascii_alpha(c: char) -> bool {
    ('a' <= c && c <= 'z') || ('A' <= c && c <= 'Z')
}

/// `str::eq_ignore_ascii_case`.
pub open spec fn eq_ignore_case(a: Seq<char>, b: Seq<char>) -> bool {
    a.len() == b.len() && forall|i: int| 0 <= i < a.len() ==> lower_ascii(a[i]) == lower_ascii(b[i])
}

/// The string with every ASCII capital lowered, as `str::to_ascii_lowercase`.
pub open spec fn lower_ascii_str(s: Seq<char>) -> Seq<char> {
    Seq::new(s.len(), |i: int| lower_ascii(s[i]))
}

// ---------------------------------------------------------------------------
// Prefixes, suffixes, substrings
// ---------------------------------------------------------------------------

pub open spec fn starts_with(s: Seq<char>, p: Seq<char>) -> bool {
    p.len() <= s.len() && s.subrange(0, p.len() as int) == p
}

pub open spec fn ends_with(s: Seq<char>, p: Seq<char>) -> bool {
    p.len() <= s.len() && s.subrange(s.len() - p.len(), s.len() as int) == p
}

pub open spec fn occurs_at(s: Seq<char>, p: Seq<char>, i: int) -> bool {
    0 <= i && i + p.len() <= s.len() && s.subrange(i, i + p.len()) == p
}

/// `str::contains` with a string pattern.
pub open spec fn contains(s: Seq<char>, p: Seq<char>) -> bool {
    exists|i: int| occurs_at(s, p, i)
}

/// The position of the first occurrence of `c`, or `s.len()` when there is none.
pub open spec fn index_of(s: Seq<char>, c: char, i: int) -> int
    decreases s.len() - i,
{
    if i < 0 || i >= s.len() {
        s.len() as int
    } else if s[i] == c {
        i
    } else {
        index_of(s, c, i + 1)
    }
}

/// `str::split_once` with a character pattern.
pub open spec fn split_once(s: Seq<char>, c: char) -> Option<(Seq<char>, Seq<char>)> {
    let i = index_of(s, c, 0);
    if i < s.len() {
        Some((s.subrange(0, i), s.subrange(i + 1, s.len() as int)))
    } else {
        None
    }
}

// ---------------------------------------------------------------------------
// Trimming
// ---------------------------------------------------------------------------

pub open spec fn skip_ws(s: Seq<char>, i: int) -> int
    decreases s.len() - i,
{
    if 0 <= i < s.len() && is_ws(s[i]) {
        skip_ws(s, i + 1)
    } else {
        i
    }
}

pub open spec fn skip_ws_back(s: Seq<char>, j: int) -> int
    decreases j,
{
    if 0 < j <= s.len() && is_ws(s[j - 1]) {
        skip_ws_back(s, j - 1)
    } else {
        j
    }
}

/// `str::trim_start`.
pub open spec fn trim_start(s: Seq<char>) -> Seq<char> {
    s.subrange(skip_ws(s, 0), s.len() as int)
}

/// `str::trim_end`.
pub open spec fn trim_end(s: Seq<char>) -> Seq<char> {
    s.subrange(0, skip_ws_back(s, s.len() as int))
}

/// `str::trim`.
pub open spec fn trim(s: Seq<char>) -> Seq<char> {
    trim_end(trim_start(s))
}

pub proof fn lemma_skip_ws_bounds(s: Seq<char>, i: int)
    requires
        0 <= i <= s.len(),
    ensures
        i <= skip_ws(s, i) <= s.len(),
        forall|k: int| i <= k < skip_ws(s, i) ==> is_ws(s[k]),
        skip_ws(s, i) < s.len() ==> !is_ws(s[skip_ws(s, i)]),
    decreases s.len() - i,
{
    if i < s.len() && is_ws(s[i]) {
        lemma_skip_ws_bounds(s, i + 1);
    }
}

pub proof fn lemma_skip_ws_back_bounds(s: Seq<char>, j: int)
    requires
        0 <= j <= s.len(),
    ensures
        0 <= skip_ws_back(s, j) <= j,
        forall|k: int| skip_ws_back(s, j) <= k < j ==> is_ws(s[k]),
        skip_ws_back(s, j) > 0 ==> !is_ws(s[skip_ws_back(s, j) - 1]),
    decreases j,
{
    if 0 < j && is_ws(s[j - 1]) {
        lemma_skip_ws_back_bounds(s, j - 1);
    }
}

/// The start and end of the trimmed part of `v`.
pub fn trim_bounds(v: &Vec<char>) -> (r: (usize, usize))
    ensures
        r.0 <= r.1 <= v.len(),
        r.0 == skip_ws(v@, 0),
        v@.subrange(r.0 as int, r.1 as int) == trim(v@),
{
    let n = v.len();
    let mut i: usize = 0;
    while i < n && is_whitespace(v[i])
        invariant
            i <= n == v.len(),
            skip_ws(v@, 0) == skip_ws(v@, i as int),
        decreases n - i,
    {
        i = i + 1;
    }
    let ghost t = v@.subrange(i as int, n as int);
    let mut j: usize = n;
    while j > i && is_whitespace(v[j - 1])
        invariant
            i <= j <= n == v.len(),
            t == v@.subrange(i as int, n as int),
            skip_ws_back(t, t.len() as int) == skip_ws_back(t, j - i),
        decreases j,
    {
        j = j - 1;
    }
    proof {
        assert(skip_ws(v@, 0) == i);
        assert(trim_start(v@) == t);
        assert(skip_ws_back(t, (j - i) as int) == j - i);
        assert(trim(v@) =~= v@.subrange(i as int, j as int));
    }
    (i, j)
}

/// The characters of `v` between `a` and `b`.
pub fn slice(v: &Vec<char>, a: usize, b: usize) -> (r: Vec<char>)
    requires
        a <= b <= v.len(),
    ensures
        r@ == v@.subrange(a as int, b as int),
{
    let mut out: Vec<char> = Vec::new();
    let mut k = a;
    while k < b
        invariant
            a <= k <= b <= v.len(),
            out@ == v@.subrange(a as int, k as int),
        decreases b - k,
    {
        out.push(v[k]);
        k = k + 1;
        proof {
            assert(out@ =~= v@.subrange(a as int, k as int));
        }
    }
    out
}

pub fn trim_chars(v: &Vec<char>) -> (r: Vec<char>)
    ensures
        r@ == trim(v@),
{
    let (a, b) = trim_bounds(v);
    slice(v, a, b)
}

// ---------------------------------------------------------------------------
// Lines, words, pieces
// ---------------------------------------------------------------------------

/// A line with one trailing carriage return removed.
pub open spec fn strip_cr(l: Seq<char>) -> Seq<char> {
    if l.len() > 0 && l.last() == '\r' {
        l.drop_last()
    } else {
        l
    }
}

/// The lines finished so far, and the one in progress, after reading `s`.
pub open spec fn line_state(s: Seq<char>) -> (Seq<Seq<char>>, Seq<char>)
    decreases s.len(),
{
    if s.len() == 0 {
        (Seq::empty(), Seq::empty())
    } else {
        let (done, cur) = line_state(s.drop_last());
        if s.last() == '\n' {
            (done.push(strip_cr(cur)), Seq::empty())
        } else {
            (done, cur.push(s.last()))
        }
    }
}

/// `str::lines`: split at `\n`, drop one `\r` before it, and no empty last line.
pub open spec fn lines(s: Seq<char>) -> Seq<Seq<char>> {
    let (done, cur) = line_state(s);
    if cur.len() == 0 {
        done
    } else {
        done.push(cur)
    }
}

/// The words finished so far, and the one in progress, after reading `s`.
pub open spec fn word_state(s: Seq<char>) -> (Seq<Seq<char>>, Seq<char>)
    decreases s.len(),
{
    if s.len() == 0 {
        (Seq::empty(), Seq::empty())
    } else {
        let (done, cur) = word_state(s.drop_last());
        if is_ws(s.last()) {
            if cur.len() == 0 {
                (done, cur)
            } else {
                (done.push(cur), Seq::empty())
            }
        } else {
            (done, cur.push(s.last()))
        }
    }
}

/// `str::split_whitespace`.
pub open spec fn words(s: Seq<char>) -> Seq<Seq<char>> {
    let (done, cur) = word_state(s);
    if cur.len() == 0 {
        done
    } else {
        done.push(cur)
    }
}

/// The pieces finished so far, and the one in progress, splitting at `sep`.
pub open spec fn piece_state(s: Seq<char>, sep: char) -> (Seq<Seq<char>>, Seq<char>)
    decreases s.len(),
{
    if s.len() == 0 {
        (Seq::empty(), Seq::empty())
    } else {
        let (done, cur) = piece_state(s.drop_last(), sep);
        if s.last() == sep {
            (done.push(cur), Seq::empty())
        } else {
            (done, cur.push(s.last()))
        }
    }
}

/// `str::split` with a character pattern: empty pieces are kept.
pub open spec fn split(s: Seq<char>, sep: char) -> Seq<Seq<char>> {
    let (done, cur) = piece_state(s, sep);
    done.push(cur)
}

/// The character sequences held in a list of character vectors.
pub open spec fn seqs(v: Seq<Vec<char>>) -> Seq<Seq<char>> {
    v.map_values(|x: Vec<char>| x@)
}

/// The character sequences held in a list of strings.
pub open spec fn strs(v: Seq<String>) -> Seq<Seq<char>> {
    v.map_values(|x: String| x@)
}

/// `[..].join(sep)`.
pub open spec fn join(parts: Seq<Seq<char>>, sep: Seq<char>) -> Seq<char>
    decreases parts.len(),
{
    if parts.len() == 0 {
        Seq::empty()
    } else if parts.len() == 1 {
        parts[0]
    } else {
        join(parts.drop_last(), sep) + sep + parts.last()
    }
}

/// `split_whitespace().collect::<Vec<_>>().join(" ")`.
pub open spec fn collapse(s: Seq<char>) -> Seq<char> {
    join(words(s), seq![' '])
}

pub fn lines_of(v: &Vec<char>) -> (r: Vec<Vec<char>>)
    ensures
        seqs(r@) == lines(v@),
{
    let mut done: Vec<Vec<char>> = Vec::new();
    let mut cur: Vec<char> = Vec::new();
    let n = v.len();
    let mut i: usize = 0;
    while i < n
        invariant
            i <= n == v.len(),
            line_state(v@.take(i as int)) == (seqs(done@), cur@),
        decreases n - i,
    {
        let c = v[i];
        let ghost old_cur = cur@;
        proof {
            assert(v@.take(i + 1).drop_last() =~= v@.take(i as int));
        }
        if c == '\n' {
            let mut l = cur;
            let m = l.len();
            if m > 0 && l[m - 1] == '\r' {
                l.pop();
            }
            proof {
                assert(l@ =~= strip_cr(cur@));
            }
            let ghost before = seqs(done@);
            done.push(l);
            cur = Vec::new();
            proof {
                assert(seqs(done@) =~= before.push(strip_cr(old_cur)));
                assert(seqs(done@) =~= line_state(v@.take(i + 1)).0);
                assert(cur@ =~= line_state(v@.take(i + 1)).1);
            }
        } else {
            cur.push(c);
        }
        i = i + 1;
    }
    proof {
        assert(v@.take(n as int) =~= v@);
    }
    if cur.len() > 0 {
        let ghost before = seqs(done@);
        let ghost last = cur@;
        done.push(cur);
        proof {
            assert(seqs(done@) =~= before.push(last));
        }
    }
    done
}

pub fn words_of(v: &Vec<char>) -> (r: Vec<Vec<char>>)
    ensures
        seqs(r@) == words(v@),
{
    let mut done: Vec<Vec<char>> = Vec::new();
    let mut cur: Vec<char> = Vec::new();
    let n = v.len();
    let mut i: usize = 0;
    while i < n
        invariant
            i <= n == v.len(),
            word_state(v@.take(i as int)) == (seqs(done@), cur@),
        decreases n - i,
    {
        let c = v[i];
        let ghost old_cur = cur@;
        proof {
            assert(v@.take(i + 1).drop_last() =~= v@.take(i as int));
        }
        if is_whitespace(c) {
            if cur.len() > 0 {
                let ghost before = seqs(done@);
                done.push(cur);
                cur = Vec::new();
                proof {
                    assert(seqs(done@) =~= before.push(old_cur));
                    assert(seqs(done@) =~= word_state(v@.take(i + 1)).0);
                    assert(cur@ =~= word_state(v@.take(i + 1)).1);
                }
            }
        } else {
            cur.push(c);
        }
        i = i + 1;
    }
    proof {
        assert(v@.take(n as int) =~= v@);
    }
    if cur.len() > 0 {
        let ghost before = seqs(done@);
        let ghost last = cur@;
        done.push(cur);
        proof {
            assert(seqs(done@) =~= before.push(last));
        }
    }
    done
}

pub fn split_of(v: &Vec<char>, sep: char) -> (r: Vec<Vec<char>>)
    ensures
        seqs(r@) == split(v@, sep),
{
    let mut done: Vec<Vec<char>> = Vec::new();
    let mut cur: Vec<char> = Vec::new();
    let n = v.len();
    let mut i: usize = 0;
    while i < n
        invariant
            i <= n == v.len(),
            piece_state(v@.take(i as int), sep) == (seqs(done@), cur@),
        decreases n - i,
    {
        let c = v[i];
        let ghost old_cur = cur@;
        proof {
            assert(v@.take(i + 1).drop_last() =~= v@.take(i as int));
        }
        if c == sep {
            let ghost before = seqs(done@);
            done.push(cur);
            cur = Vec::new();
            proof {
                assert(seqs(done@) =~= before.push(old_cur));
                assert(seqs(done@) =~= piece_state(v@.take(i + 1), sep).0);
                assert(cur@ =~= piece_state(v@.take(i + 1), sep).1);
            }
        } else {
            cur.push(c);
        }
        i = i + 1;
    }
    proof {
        assert(v@.take(n as int) =~= v@);
    }
    let ghost before = seqs(done@);
    let ghost last = cur@;
    done.push(cur);
    proof {
        assert(seqs(done@) =~= before.push(last));
    }
    done
}

/// Append `b` to `a`.
pub fn extend(a: &mut Vec<char>, b: &Vec<char>)
    ensures
        final(a)@ == old(a)@ + b@,
{
    let n = b.len();
    let mut i: usize = 0;
    while i < n
        invariant
            i <= n == b.len(),
            a@ == old(a)@ + b@.take(i as int),
        decreases n - i,
    {
        a.push(b[i]);
        i = i + 1;
        proof {
            assert(a@ =~= old(a)@ + b@.take(i as int));
        }
    }
    proof {
        assert(b@.take(n as int) =~= b@);
    }
}

/// `a` followed by `b`.
pub fn concat_chars(a: &Vec<char>, b: &Vec<char>) -> (r: Vec<char>)
    ensures
        r@ == a@ + b@,
{
    let mut out: Vec<char> = Vec::new();
    extend(&mut out, a);
    extend(&mut out, b);
    proof {
        assert(out@ =~= a@ + b@);
    }
    out
}

/// `a` followed by the characters of `b`.
pub fn concat_str(a: &Vec<char>, b: &str) -> (r: Vec<char>)
    ensures
        r@ == a@ + b@,
{
    concat_chars(a, &chars_of(b))
}

/// The characters of each string of a list.
pub fn chars_all(v: &Vec<String>) -> (r: Vec<Vec<char>>)
    ensures
        seqs(r@) == strs(v@),
{
    let mut out: Vec<Vec<char>> = Vec::new();
    let n = v.len();
    let mut i: usize = 0;
    while i < n
        invariant
            i <= n == v.len(),
            seqs(out@) == strs(v@).take(i as int),
        decreases n - i,
    {
        let ghost before = seqs(out@);
        out.push(chars_of(v[i].as_str()));
        proof {
            assert(seqs(out@) =~= before.push(strs(v@)[i as int]));
        }
        i = i + 1;
        proof {
            assert(seqs(out@) =~= strs(v@).take(i as int));
        }
    }
    proof {
        assert(strs(v@).take(n as int) =~= strs(v@));
    }
    out
}

/// A copy of a list of character vectors.
pub fn copy_all(a: &Vec<Vec<char>>) -> (r: Vec<Vec<char>>)
    ensures
        seqs(r@) == seqs(a@),
{
    let mut out: Vec<Vec<char>> = Vec::new();
    let n = a.len();
    let mut i: usize = 0;
    while i < n
        invariant
            i <= n == a.len(),
            seqs(out@) == seqs(a@).take(i as int),
        decreases n - i,
    {
        let x = a[i].clone();
        proof {
            assert(x@ == seqs(a@)[i as int]);
        }
        let ghost before = seqs(out@);
        out.push(x);
        proof {
            assert(seqs(out@) =~= before.push(seqs(a@)[i as int]));
        }
        i = i + 1;
        proof {
            assert(seqs(out@) =~= seqs(a@).take(i as int));
        }
    }
    proof {
        assert(seqs(a@).take(n as int) =~= seqs(a@));
    }
    out
}

/// Move every element of `b` to the end of `a`.
pub fn append_all(a: &mut Vec<Vec<char>>, b: Vec<Vec<char>>)
    ensures
        seqs(final(a)@) == seqs(old(a)@) + seqs(b@),
{
    let mut b = b;
    let ghost b0 = b@;
    let ghost a0 = a@;
    a.append(&mut b);
    proof {
        assert(a@ == a0 + b0);
        assert forall|k: int| 0 <= k < a@.len() implies #[trigger] seqs(a@)[k] == (seqs(a0) + seqs(b0))[k] by {
            if k < a0.len() {
                assert(a@[k] == a0[k]);
            } else {
                assert(a@[k] == b0[k - a0.len()]);
            }
        }
        assert(seqs(a@) =~= seqs(a0) + seqs(b0));
    }
}

pub fn join_chars(parts: &Vec<Vec<char>>, sep: &Vec<char>) -> (r: Vec<char>)
    ensures
        r@ == join(seqs(parts@), sep@),
{
    let mut out: Vec<char> = Vec::new();
    let n = parts.len();
    let mut i: usize = 0;
    while i < n
        invariant
            i <= n == parts.len(),
            out@ == join(seqs(parts@).take(i as int), sep@),
        decreases n - i,
    {
        proof {
            assert(seqs(parts@).take(i + 1).drop_last() =~= seqs(parts@).take(i as int));
        }
        if i > 0 {
            extend(&mut out, sep);
        }
        extend(&mut out, &parts[i]);
        i = i + 1;
        proof {
            if i == 1 {
                assert(out@ =~= join(seqs(parts@).take(i as int), sep@));
            }
        }
    }
    proof {
        assert(seqs(parts@).take(n as int) =~= seqs(parts@));
    }
    out
}

/// `parts.join(sep)`, for string slices.
pub fn join_strs(parts: &[&str], sep: &str) -> (r: String)
    ensures
        r@ == join(views(parts@), sep@),
{
    let mut all: Vec<Vec<char>> = Vec::new();
    let mut i: usize = 0;
    while i < parts.len()
        invariant
            i <= parts@.len(),
            seqs(all@) == views(parts@).take(i as int),
        decreases parts@.len() - i,
    {
        let ghost before = seqs(all@);
        let c = chars_of(parts[i]);
        all.push(c);
        proof {
            assert(seqs(all@) =~= before.push(c@));
            assert(views(parts@).take(i as int + 1) =~= views(parts@).take(i as int).push(
                views(parts@)[i as int],
            ));
        }
        i = i + 1;
    }
    proof {
        assert(views(parts@).take(parts@.len() as int) =~= views(parts@));
    }
    string_of(&join_chars(&all, &chars_of(sep)))
}

/// `parts.join(sep)`.
pub fn join_strings(parts: &Vec<String>, sep: &str) -> (r: String)
    ensures
        r@ == join(strs(parts@), sep@),
{
    string_of(&join_chars(&chars_all(parts), &chars_of(sep)))
}

pub fn collapse_chars(v: &Vec<char>) -> (r: Vec<char>)
    ensures
        r@ == collapse(v@),
{
    let w = words_of(v);
    let sep = vec![' '];
    proof {
        assert(sep@ =~= seq![' ']);
    }
    join_chars(&w, &sep)
}

// ---------------------------------------------------------------------------
// Searching
// ---------------------------------------------------------------------------

pub fn find_char(v: &Vec<char>, c: char, from: usize) -> (r: usize)
    requires
        from <= v.len(),
    ensures
        r == index_of(v@, c, from as int),
        from <= r <= v.len(),
        r < v.len() ==> v@[r as int] == c,
        forall|k: int| from <= k < r ==> v@[k] != c,
{
    let n = v.len();
    let mut i = from;
    while i < n && v[i] != c
        invariant
            from <= i <= n == v.len(),
            index_of(v@, c, from as int) == index_of(v@, c, i as int),
            forall|k: int| from <= k < i ==> v@[k] != c,
        decreases n - i,
    {
        i = i + 1;
    }
    i
}

pub fn split_once_chars(v: &Vec<char>, c: char) -> (r: Option<(Vec<char>, Vec<char>)>)
    ensures
        match r {
            Some((a, b)) => split_once(v@, c) == Some((a@, b@)),
            None => split_once(v@, c) is None,
        },
{
    let i = find_char(v, c, 0);
    if i < v.len() {
        let a = slice(v, 0, i);
        let b = slice(v, i + 1, v.len());
        Some((a, b))
    } else {
        None
    }
}

/// Does `p` occur in `v` at `i`?
pub fn occurs_at_exec(v: &Vec<char>, p: &Vec<char>, i: usize) -> (b: bool)
    ensures
        b == occurs_at(v@, p@, i as int),
{
    if i > v.len() || p.len() > v.len() - i {
        return false;
    }
    let m = p.len();
    let mut k: usize = 0;
    while k < m
        invariant
            k <= m == p.len(),
            i + m <= v.len(),
            forall|t: int| 0 <= t < k ==> v@[i + t] == p@[t],
        decreases m - k,
    {
        if v[i + k] != p[k] {
            proof {
                assert(v@.subrange(i as int, i + m)[k as int] != p@[k as int]);
            }
            return false;
        }
        k = k + 1;
    }
    proof {
        assert(v@.subrange(i as int, i + m) =~= p@);
    }
    true
}

/// The first position at or after `from` where `p` occurs.
pub fn find_sub(v: &Vec<char>, p: &Vec<char>, from: usize) -> (r: Option<usize>)
    ensures
        match r {
            Some(i) => from <= i && occurs_at(v@, p@, i as int) && forall|k: int|
                from <= k < i ==> !occurs_at(v@, p@, k),
            None => forall|k: int| from <= k ==> !occurs_at(v@, p@, k),
        },
{
    let n = v.len();
    if from > n || p.len() > n - from {
        return None;
    }
    let last = n - p.len();
    let mut i = from;
    while i <= last
        invariant
            from <= i <= last + 1,
            last + p.len() == n == v.len(),
            forall|k: int| from <= k < i ==> !occurs_at(v@, p@, k),
        decreases last + 1 - i,
    {
        if occurs_at_exec(v, p, i) {
            return Some(i);
        }
        if i == last {
            proof {
                assert forall|k: int| from <= k implies !occurs_at(v@, p@, k) by {
                    if k > last {
                    }
                }
            }
            return None;
        }
        i = i + 1;
    }
    None
}

pub fn contains_chars(v: &Vec<char>, p: &Vec<char>) -> (b: bool)
    ensures
        b == contains(v@, p@),
{
    match find_sub(v, p, 0) {
        Some(i) => true,
        None => {
            proof {
                assert forall|k: int| !occurs_at(v@, p@, k) by {
                    if k < 0 {
                    }
                }
            }
            false
        },
    }
}

pub fn starts_with_chars(v: &Vec<char>, p: &Vec<char>) -> (b: bool)
    ensures
        b == starts_with(v@, p@),
{
    occurs_at_exec(v, p, 0)
}

pub fn ends_with_chars(v: &Vec<char>, p: &Vec<char>) -> (b: bool)
    ensures
        b == ends_with(v@, p@),
{
    if p.len() > v.len() {
        false
    } else {
        occurs_at_exec(v, p, v.len() - p.len())
    }
}

pub fn eq_chars(a: &Vec<char>, b: &Vec<char>) -> (r: bool)
    ensures
        r == (a@ == b@),
{
    if a.len() != b.len() {
        return false;
    }
    let r = occurs_at_exec(a, b, 0);
    proof {
        assert(a@ =~= a@.subrange(0, b@.len() as int));
    }
    r
}

pub fn eq_ignore_case_chars(a: &Vec<char>, b: &Vec<char>) -> (r: bool)
    ensures
        r == eq_ignore_case(a@, b@),
{
    if a.len() != b.len() {
        return false;
    }
    let n = a.len();
    let mut i: usize = 0;
    while i < n
        invariant
            i <= n == a.len() == b.len(),
            forall|k: int| 0 <= k < i ==> lower_ascii(a@[k]) == lower_ascii(b@[k]),
        decreases n - i,
    {
        if to_ascii_lower(a[i]) != to_ascii_lower(b[i]) {
            return false;
        }
        i = i + 1;
    }
    true
}

pub fn lower_ascii_chars(v: &Vec<char>) -> (r: Vec<char>)
    ensures
        r@ == lower_ascii_str(v@),
{
    let mut out: Vec<char> = Vec::new();
    let n = v.len();
    let mut i: usize = 0;
    while i < n
        invariant
            i <= n == v.len(),
            out@ == lower_ascii_str(v@).take(i as int),
        decreases n - i,
    {
        out.push(to_ascii_lower(v[i]));
        i = i + 1;
        proof {
            assert(out@ =~= lower_ascii_str(v@).take(i as int));
        }
    }
    proof {
        assert(out@ =~= lower_ascii_str(v@));
    }
    out
}

// ---------------------------------------------------------------------------
// Between `str`, `String` and `Vec<char>`
// ---------------------------------------------------------------------------

/// The characters of a string, in order.
pub fn chars_of(s: &str) -> (res: Vec<char>)
    ensures
        res@ == s@,
{
    let mut out: Vec<char> = Vec::new();
    for c in it: s.chars()
        invariant
            out@ == it.seq().take(it.index() as int),
    {
        out.push(c);
    }
    proof {
        assert(out@ =~= s@);
    }
    out
}

/// `String::push`, which vstd does not specify: the string gains `c` at its end.
#[verifier::external_body]
fn push_char(s: &mut String, c: char)
    ensures
        final(s)@ == old(s)@.push(c),
{
    s.push(c)
}

pub fn string_of(v: &Vec<char>) -> (s: String)
    ensures
        s@ == v@,
{
    let mut s = String::new();
    let n = v.len();
    let mut i: usize = 0;
    while i < n
        invariant
            i <= n == v.len(),
            s@ == v@.take(i as int),
        decreases n - i,
    {
        push_char(&mut s, v[i]);
        i = i + 1;
        proof {
            assert(s@ =~= v@.take(i as int));
        }
    }
    proof {
        assert(v@.take(n as int) =~= v@);
    }
    s
}

pub fn strings_of(vs: &Vec<Vec<char>>) -> (r: Vec<String>)
    ensures
        strs(r@) == seqs(vs@),
{
    let mut out: Vec<String> = Vec::new();
    let n = vs.len();
    let mut i: usize = 0;
    while i < n
        invariant
            i <= n == vs.len(),
            strs(out@) == seqs(vs@).take(i as int),
        decreases n - i,
    {
        let ghost before = strs(out@);
        let t = string_of(&vs[i]);
        out.push(t);
        proof {
            assert(strs(out@) =~= before.push(vs@[i as int]@));
        }
        i = i + 1;
        proof {
            assert(strs(out@) =~= seqs(vs@).take(i as int));
        }
    }
    proof {
        assert(seqs(vs@).take(n as int) =~= seqs(vs@));
    }
    out
}

} // verus!

verus! {

// ---------------------------------------------------------------------------
// Facts about trimming and lines
// ---------------------------------------------------------------------------

/// `skip_ws` stops at the first non-whitespace position at or after `i`.
pub proof fn lemma_skip_ws_at(s: Seq<char>, i: int, r: int)
    requires
        0 <= i <= r <= s.len(),
        forall|k: int| i <= k < r ==> is_ws(s[k]),
        r == s.len() || !is_ws(s[r]),
    ensures
        skip_ws(s, i) == r,
    decreases r - i,
{
    if i < r {
        lemma_skip_ws_at(s, i + 1, r);
    }
}

/// `skip_ws_back` stops at the last non-whitespace position before `j`.
pub proof fn lemma_skip_ws_back_at(s: Seq<char>, j: int, r: int)
    requires
        0 <= r <= j <= s.len(),
        forall|k: int| r <= k < j ==> is_ws(s[k]),
        r == 0 || !is_ws(s[r - 1]),
    ensures
        skip_ws_back(s, j) == r,
    decreases j - r,
{
    if r < j {
        lemma_skip_ws_back_at(s, j - 1, r);
    }
}

/// The trimmed part of `s` is `s[a..b]` when everything outside it is
/// whitespace and its ends are not.
pub proof fn lemma_trim_is(s: Seq<char>, a: int, b: int)
    requires
        0 <= a <= b <= s.len(),
        forall|k: int| 0 <= k < a ==> is_ws(s[k]),
        forall|k: int| b <= k < s.len() ==> is_ws(s[k]),
        (a < b && !is_ws(s[a]) && !is_ws(s[b - 1])) || (a == b && forall|k: int|
            0 <= k < s.len() ==> is_ws(s[k])),
    ensures
        trim(s) == s.subrange(a, b),
{
    if a < b {
        lemma_skip_ws_at(s, 0, a);
        let t = s.subrange(a, s.len() as int);
        lemma_skip_ws_back_at(t, t.len() as int, b - a);
        assert(trim(s) =~= s.subrange(a, b));
    } else {
        lemma_skip_ws_at(s, 0, s.len() as int);
        let t = s.subrange(s.len() as int, s.len() as int);
        assert(t.len() == 0);
        assert(trim(s) =~= s.subrange(a, b));
    }
}

/// Where `trim` cuts: `s[a..b]`, with only whitespace outside it.
pub proof fn lemma_trim_bounds(s: Seq<char>) -> (r: (int, int))
    ensures
        0 <= r.0 <= r.1 <= s.len(),
        trim(s) == s.subrange(r.0, r.1),
        forall|k: int| 0 <= k < r.0 ==> is_ws(s[k]),
        forall|k: int| r.1 <= k < s.len() ==> is_ws(s[k]),
        (r.0 < r.1 && !is_ws(s[r.0]) && !is_ws(s[r.1 - 1])) || (r.0 == r.1 && forall|k: int|
            0 <= k < s.len() ==> is_ws(s[k])),
{
    lemma_skip_ws_bounds(s, 0);
    let a = skip_ws(s, 0);
    let t = s.subrange(a, s.len() as int);
    lemma_skip_ws_back_bounds(t, t.len() as int);
    let b = a + skip_ws_back(t, t.len() as int);
    if a == b {
        assert forall|k: int| 0 <= k < s.len() implies is_ws(s[k]) by {
            if k >= a {
                assert(s[k] == t[k - a]);
            }
        }
    } else {
        assert(s[b - 1] == t[b - a - 1]);
        assert forall|k: int| b <= k < s.len() implies is_ws(s[k]) by {
            assert(s[k] == t[k - a]);
        }
    }
    assert(trim(s) =~= s.subrange(a, b));
    (a, b)
}

/// Whitespace at either end does not change what `trim` gives.
pub proof fn lemma_trim_pad(p: Seq<char>, s: Seq<char>, q: Seq<char>)
    requires
        forall|k: int| 0 <= k < p.len() ==> is_ws(p[k]),
        forall|k: int| 0 <= k < q.len() ==> is_ws(q[k]),
    ensures
        trim(p + s + q) == trim(s),
{
    let (a, b) = lemma_trim_bounds(s);
    let t = p + s + q;
    let n = p.len() as int;
    if a < b {
        assert(t[n + a] == s[a]);
        assert(t[n + b - 1] == s[b - 1]);
        assert forall|k: int| 0 <= k < n + a implies is_ws(t[k]) by {
            if k >= n {
                assert(t[k] == s[k - n]);
            }
        }
        assert forall|k: int| n + b <= k < t.len() implies is_ws(t[k]) by {
            if k < n + s.len() {
                assert(t[k] == s[k - n]);
            } else {
                assert(t[k] == q[k - n - s.len()]);
            }
        }
        lemma_trim_is(t, n + a, n + b);
        assert(t.subrange(n + a, n + b) =~= s.subrange(a, b));
    } else {
        assert forall|k: int| 0 <= k < t.len() implies is_ws(t[k]) by {
            if k < n {
            } else if k < n + s.len() {
                assert(t[k] == s[k - n]);
            } else {
                assert(t[k] == q[k - n - s.len()]);
            }
        }
        lemma_trim_is(t, 0, 0);
        assert(t.subrange(0, 0) =~= s.subrange(a, b));
    }
}

/// Removing a carriage return does not change what `trim` gives.
pub proof fn lemma_trim_strip_cr(l: Seq<char>)
    ensures
        trim(strip_cr(l)) == trim(l),
{
    if l.len() > 0 && l.last() == '\r' {
        let e: Seq<char> = Seq::empty();
        lemma_trim_pad(e, l.drop_last(), seq!['\r']);
        assert(e + l.drop_last() + seq!['\r'] =~= l);
        lemma_trim_pad(e, l.drop_last(), e);
        assert(e + l.drop_last() + e =~= l.drop_last());
    }
}

/// `trim` leaves a trimmed text as it is.
pub proof fn lemma_trim_idempotent(s: Seq<char>)
    ensures
        trim(trim(s)) == trim(s),
{
    let (a, b) = lemma_trim_bounds(s);
    let t = s.subrange(a, b);
    if a < b {
        assert(t[0] == s[a]);
        assert(t[t.len() - 1] == s[b - 1]);
        lemma_trim_is(t, 0, t.len() as int);
        assert(t.subrange(0, t.len() as int) =~= t);
    } else {
        lemma_trim_is(t, 0, 0);
        assert(t.subrange(0, 0) =~= t);
    }
}

/// What `trim` keeps of a text holds no character the text did not, and
/// neither of its ends is whitespace.
pub proof fn lemma_trim_parts(s: Seq<char>, c: char)
    ensures
        has_no(s, c) ==> has_no(trim(s), c),
        trim(s).len() > 0 ==> !is_ws(trim(s)[0]) && !is_ws(trim(s).last()),
{
    let (a, b) = lemma_trim_bounds(s);
    if has_no(s, c) {
        assert forall|i: int| 0 <= i < trim(s).len() implies trim(s)[i] != c by {
            assert(trim(s)[i] == s[a + i]);
        }
    }
    if trim(s).len() > 0 {
        assert(trim(s)[0] == s[a]);
        assert(trim(s).last() == s[b - 1]);
    }
}

/// Lines joined with newlines read back as the same lines, when none is
/// empty, holds a newline, or ends in a carriage return.
pub proof fn lemma_lines_of_joined(ks: Seq<Seq<char>>)
    requires
        forall|i: int|
            0 <= i < ks.len() ==> has_no(#[trigger] ks[i], '\n') && ks[i].len() > 0 && ks[i].last()
                != '\r',
    ensures
        lines(join(ks, seq!['\n'])) == ks,
{
    let nl = seq!['\n'];
    if ks.len() == 0 {
        assert(lines(join(ks, nl)) =~= ks);
    } else if ks.len() == 1 {
        lemma_line_state_plain(ks[0]);
        assert(lines(join(ks, nl)) =~= ks);
    } else {
        let init = ks.drop_last();
        let last = ks.last();
        assert(forall|i: int| 0 <= i < init.len() ==> has_no(#[trigger] init[i], '\n')) by {
            assert forall|i: int| 0 <= i < init.len() implies has_no(#[trigger] init[i], '\n') by {
                assert(init[i] == ks[i]);
            }
        }
        lemma_line_state_joined(init);
        lemma_line_state_plain(last);
        lemma_line_state_concat(join(init, nl) + nl, last);
        assert(join(ks, nl) == join(init, nl) + nl + last);
        assert(line_state(last).0 =~= Seq::<Seq<char>>::empty());
        assert(init.map_values(|l: Seq<char>| strip_cr(l)) =~= init) by {
            assert forall|i: int| 0 <= i < init.len() implies #[trigger] strip_cr(init[i])
                == init[i] by {
                assert(init[i] == ks[i]);
            }
        }
        assert(init.map_values(|l: Seq<char>| strip_cr(l)) + Seq::<Seq<char>>::empty() =~= init);
        assert(lines(join(ks, nl)) =~= init.push(last));
        assert(init.push(last) =~= ks);
    }
}

/// Words are never empty, and hold no whitespace.
pub proof fn lemma_words_plain(s: Seq<char>)
    ensures
        forall|i: int|
            0 <= i < words(s).len() ==> #[trigger] words(s)[i].len() > 0 && forall|k: int|
                0 <= k < words(s)[i].len() ==> !is_ws(words(s)[i][k]),
{
    lemma_word_state_plain(s);
}

proof fn lemma_word_state_plain(s: Seq<char>)
    ensures
        forall|i: int|
            0 <= i < word_state(s).0.len() ==> #[trigger] word_state(s).0[i].len() > 0 && forall|
                k: int,
            | 0 <= k < word_state(s).0[i].len() ==> !is_ws(word_state(s).0[i][k]),
        forall|k: int| 0 <= k < word_state(s).1.len() ==> !is_ws(word_state(s).1[k]),
    decreases s.len(),
{
    if s.len() > 0 {
        lemma_word_state_plain(s.drop_last());
        let (d, c) = word_state(s.drop_last());
        if is_ws(s.last()) {
            if c.len() > 0 {
                assert forall|i: int| 0 <= i < d.push(c).len() implies #[trigger] d.push(c)[i].len()
                    > 0 && forall|k: int|
                    0 <= k < d.push(c)[i].len() ==> !is_ws(d.push(c)[i][k]) by {
                    if i < d.len() {
                        assert(d.push(c)[i] == d[i]);
                    }
                }
            }
        } else {
            assert forall|k: int| 0 <= k < c.push(s.last()).len() implies !is_ws(
                c.push(s.last())[k],
            ) by {
                if k < c.len() {
                    assert(c.push(s.last())[k] == c[k]);
                }
            }
        }
    }
}

/// Whitespace in `t` is single spaces, each between two other characters.
pub open spec fn single_spaced(t: Seq<char>) -> bool {
    forall|i: int|
        0 <= i < t.len() && is_ws(#[trigger] t[i]) ==> t[i] == ' ' && 0 < i < t.len() - 1 && !is_ws(
            t[i - 1],
        ) && !is_ws(t[i + 1])
}

/// Words without whitespace, joined by single spaces, are single-spaced.
pub proof fn lemma_join_single_spaced(ws: Seq<Seq<char>>)
    requires
        forall|i: int|
            0 <= i < ws.len() ==> #[trigger] ws[i].len() > 0 && forall|k: int|
                0 <= k < ws[i].len() ==> !is_ws(ws[i][k]),
    ensures
        single_spaced(join(ws, seq![' '])),
        ws.len() > 0 ==> join(ws, seq![' ']).len() > 0 && !is_ws(join(ws, seq![' ']).last()),
    decreases ws.len(),
{
    let sp = seq![' '];
    if ws.len() == 0 {
    } else if ws.len() == 1 {
        let w = ws[0];
        assert(join(ws, sp) == w);
        assert(!is_ws(w[w.len() - 1]));
    } else {
        let init = ws.drop_last();
        let w = ws.last();
        assert forall|i: int| 0 <= i < init.len() implies #[trigger] init[i].len() > 0 && forall|
            k: int,
        | 0 <= k < init[i].len() ==> !is_ws(init[i][k]) by {
            assert(init[i] == ws[i]);
        }
        lemma_join_single_spaced(init);
        let a = join(init, sp);
        let t = join(ws, sp);
        assert(t == a + sp + w);
        assert(!is_ws(w[0]));
        assert(!is_ws(w[w.len() - 1]));
        assert(is_ws(' '));
        assert forall|i: int| 0 <= i < t.len() && is_ws(#[trigger] t[i]) implies t[i] == ' ' && 0
            < i < t.len() - 1 && !is_ws(t[i - 1]) && !is_ws(t[i + 1]) by {
            if i < a.len() {
                assert(t[i] == a[i]);
                if i + 1 < a.len() {
                    assert(t[i + 1] == a[i + 1]);
                }
                assert(t[i - 1] == a[i - 1]);
            } else if i == a.len() {
                assert(t[i - 1] == a.last());
                assert(t[i + 1] == w[0]);
            } else {
                assert(t[i] == w[i - a.len() - 1]);
            }
        }
        assert(t.last() == w[w.len() - 1]);
    }
}

pub open spec fn has_no(s: Seq<char>, c: char) -> bool {
    forall|i: int| 0 <= i < s.len() ==> s[i] != c
}

/// A line with no newline in it is read as one unfinished line.
pub proof fn lemma_line_state_plain(l: Seq<char>)
    requires
        has_no(l, '\n'),
    ensures
        line_state(l) == (Seq::<Seq<char>>::empty(), l),
    decreases l.len(),
{
    if l.len() > 0 {
        lemma_line_state_plain(l.drop_last());
        assert(l.drop_last().push(l.last()) =~= l);
    }
}

/// Reading `a` then `b`, when `a` ended with a finished line.
pub proof fn lemma_line_state_concat(a: Seq<char>, b: Seq<char>)
    requires
        line_state(a).1.len() == 0,
    ensures
        line_state(a + b) == (line_state(a).0 + line_state(b).0, line_state(b).1),
    decreases b.len(),
{
    if b.len() == 0 {
        assert(a + b =~= a);
        assert(line_state(a).0 + line_state(b).0 =~= line_state(a).0);
    } else {
        lemma_line_state_concat(a, b.drop_last());
        assert((a + b).drop_last() =~= a + b.drop_last());
        assert((a + b).last() == b.last());
        let (d0, c0) = line_state(b.drop_last());
        if b.last() == '\n' {
            assert(line_state(a).0 + d0.push(strip_cr(c0)) =~= (line_state(a).0 + d0).push(
                strip_cr(c0),
            ));
        }
    }
}

/// Joining lines with newlines, and ending with one, reads back as the lines.
pub proof fn lemma_line_state_joined(ls: Seq<Seq<char>>)
    requires
        ls.len() > 0,
        forall|i: int| 0 <= i < ls.len() ==> has_no(#[trigger] ls[i], '\n'),
    ensures
        line_state(join(ls, seq!['\n']) + seq!['\n']) == (
            ls.map_values(|l: Seq<char>| strip_cr(l)),
            Seq::<char>::empty(),
        ),
    decreases ls.len(),
{
    let nl = seq!['\n'];
    let last = ls.last();
    lemma_line_state_plain(last);
    assert((last + nl).drop_last() =~= last);
    assert(line_state(last + nl) == (seq![strip_cr(last)], Seq::<char>::empty()));
    if ls.len() == 1 {
        assert(join(ls, nl) == ls[0]);
        assert(ls.map_values(|l: Seq<char>| strip_cr(l)) =~= seq![strip_cr(last)]);
    } else {
        let init = ls.drop_last();
        lemma_line_state_joined(init);
        let a = join(init, nl) + nl;
        lemma_line_state_concat(a, last + nl);
        assert(join(ls, nl) + nl =~= a + (last + nl));
        assert(init.map_values(|l: Seq<char>| strip_cr(l)) + seq![strip_cr(last)] =~= ls.map_values(
            |l: Seq<char>| strip_cr(l),
        ));
    }
}

/// No line of a text contains a newline.
pub proof fn lemma_lines_plain(s: Seq<char>)
    ensures
        forall|i: int| 0 <= i < lines(s).len() ==> has_no(#[trigger] lines(s)[i], '\n'),
{
    lemma_line_state_plain_parts(s);
}

proof fn lemma_line_state_plain_parts(s: Seq<char>)
    ensures
        forall|i: int|
            0 <= i < line_state(s).0.len() ==> has_no(#[trigger] line_state(s).0[i], '\n'),
        has_no(line_state(s).1, '\n'),
    decreases s.len(),
{
    if s.len() > 0 {
        lemma_line_state_plain_parts(s.drop_last());
        let (d, c) = line_state(s.drop_last());
        if s.last() == '\n' {
            assert(has_no(strip_cr(c), '\n'));
            assert forall|i: int| 0 <= i < d.push(strip_cr(c)).len() implies has_no(
                #[trigger] d.push(strip_cr(c))[i],
                '\n',
            ) by {
                if i < d.len() {
                    assert(d.push(strip_cr(c))[i] == d[i]);
                }
            }
        }
    }
}

} // verus!

verus! {

// ---------------------------------------------------------------------------
// Tables of string literals
// ---------------------------------------------------------------------------

/// The character sequences of a list of string slices.
pub open spec fn views(v: Seq<&str>) -> Seq<Seq<char>> {
    v.map_values(|s: &str| s@)
}

/// Does the table hold `x`, ignoring ASCII case?
pub open spec fn any_ci(table: Seq<Seq<char>>, x: Seq<char>) -> bool {
    exists|i: int| 0 <= i < table.len() && eq_ignore_case(#[trigger] table[i], x)
}

/// Does the table hold `x` exactly?
pub open spec fn any_eq(table: Seq<Seq<char>>, x: Seq<char>) -> bool {
    exists|i: int| 0 <= i < table.len() && #[trigger] table[i] == x
}

pub fn any_ci_exec(table: &[&str], x: &Vec<char>) -> (b: bool)
    ensures
        b == any_ci(views(table@), x@),
{
    let n = table.len();
    let mut i: usize = 0;
    while i < n
        invariant
            i <= n == table@.len(),
            forall|k: int| 0 <= k < i ==> !eq_ignore_case(#[trigger] views(table@)[k], x@),
        decreases n - i,
    {
        let t = chars_of(table[i]);
        if eq_ignore_case_chars(&t, x) {
            assert(eq_ignore_case(views(table@)[i as int], x@));
            return true;
        }
        i = i + 1;
    }
    false
}

pub fn any_eq_exec(table: &[&str], x: &Vec<char>) -> (b: bool)
    ensures
        b == any_eq(views(table@), x@),
{
    let n = table.len();
    let mut i: usize = 0;
    while i < n
        invariant
            i <= n == table@.len(),
            forall|k: int| 0 <= k < i ==> #[trigger] views(table@)[k] != x@,
        decreases n - i,
    {
        let t = chars_of(table[i]);
        if eq_chars(&t, x) {
            assert(views(table@)[i as int] == x@);
            return true;
        }
        i = i + 1;
    }
    false
}

/// Does `x` begin with one of the table's entries?
pub open spec fn any_prefix(table: Seq<Seq<char>>, x: Seq<char>) -> bool {
    exists|i: int| 0 <= i < table.len() && starts_with(x, #[trigger] table[i])
}

pub fn any_prefix_exec(table: &[&str], x: &Vec<char>) -> (b: bool)
    ensures
        b == any_prefix(views(table@), x@),
{
    let n = table.len();
    let mut i: usize = 0;
    while i < n
        invariant
            i <= n == table@.len(),
            forall|k: int| 0 <= k < i ==> !starts_with(x@, #[trigger] views(table@)[k]),
        decreases n - i,
    {
        let t = chars_of(table[i]);
        if starts_with_chars(x, &t) {
            assert(starts_with(x@, views(table@)[i as int]));
            return true;
        }
        i = i + 1;
    }
    false
}

/// What `str::to_lowercase` returns: lowercasing by the Unicode tables,
/// which nothing here spells out.
pub uninterp spec fn lowercase(s: Seq<char>) -> Seq<char>;

/// `str::to_lowercase`.
#[verifier::external_body]
pub(crate) fn to_lowercase(s: &str) -> (r: String)
    ensures
        r@ == lowercase(s@),
{
    s.to_lowercase()
}

/// What `char::is_alphanumeric` returns: the Unicode `Alphabetic` or
/// `Numeric` property, which nothing here spells out.
pub uninterp spec fn alphanumeric(c: char) -> bool;

/// `char::is_alphanumeric`.
#[verifier::external_body]
pub(crate) fn is_alphanumeric(c: char) -> (b: bool)
    ensures
        b == alphanumeric(c),
{
    c.is_alphanumeric()
}

/// What `char::is_uppercase` returns: the Unicode `Uppercase` property.
pub uninterp spec fn uppercase_char(c: char) -> bool;

/// `char::is_uppercase`.
#[verifier::external_body]
pub(crate) fn is_uppercase(c: char) -> (b: bool)
    ensures
        b == uppercase_char(c),
{
    c.is_uppercase()
}

/// What `char::is_lowercase` returns: the Unicode `Lowercase` property.
pub uninterp spec fn lowercase_char(c: char) -> bool;

/// `char::is_lowercase`.
#[verifier::external_body]
pub(crate) fn is_lowercase(c: char) -> (b: bool)
    ensures
        b == lowercase_char(c),
{
    c.is_lowercase()
}

/// What `char::is_numeric` returns: the Unicode `Numeric` categories.
pub uninterp spec fn numeric_char(c: char) -> bool;

/// `char::is_numeric`.
#[verifier::external_body]
pub(crate) fn is_numeric(c: char) -> (b: bool)
    ensures
        b == numeric_char(c),
{
    c.is_numeric()
}

/// The UTF-8 encoding of one character.
pub open spec fn utf8_char(c: char) -> Seq<u8> {
    let u = c as u32;
    if u < 0x80 {
        seq![u as u8]
    } else if u < 0x800 {
        seq![(0xC0 + u / 64) as u8, (0x80 + u % 64) as u8]
    } else if u < 0x10000 {
        seq![(0xE0 + u / 4096) as u8, (0x80 + (u / 64) % 64) as u8, (0x80 + u % 64) as u8]
    } else {
        seq![
            (0xF0 + u / 262144) as u8,
            (0x80 + (u / 4096) % 64) as u8,
            (0x80 + (u / 64) % 64) as u8,
            (0x80 + u % 64) as u8,
        ]
    }
}

/// The UTF-8 encoding of a string, which is how `str` holds it.
pub open spec fn utf8(s: Seq<char>) -> Seq<u8>
    decreases s.len(),
{
    if s.len() == 0 {
        seq![]
    } else {
        utf8(s.drop_last()) + utf8_char(s.last())
    }
}

fn push_utf8_char(out: &mut Vec<u8>, c: char)
    ensures
        final(out)@ == old(out)@ + utf8_char(c),
{
    let u = c as u32;
    if u < 0x80 {
        out.push(u as u8);
    } else if u < 0x800 {
        out.push((0xC0 + u / 64) as u8);
        out.push((0x80 + u % 64) as u8);
    } else if u < 0x10000 {
        out.push((0xE0 + u / 4096) as u8);
        out.push((0x80 + (u / 64) % 64) as u8);
        out.push((0x80 + u % 64) as u8);
    } else {
        out.push((0xF0 + u / 262144) as u8);
        out.push((0x80 + (u / 4096) % 64) as u8);
        out.push((0x80 + (u / 64) % 64) as u8);
        out.push((0x80 + u % 64) as u8);
    }
    proof {
        assert(out@ =~= old(out)@ + utf8_char(c));
    }
}

/// A string's bytes, as `str::as_bytes` holds them: its characters encoded
/// as UTF-8.
pub(crate) fn utf8_bytes(s: &str) -> (r: Vec<u8>)
    ensures
        r@ == utf8(s@),
{
    let cs = chars_of(s);
    let mut out: Vec<u8> = Vec::new();
    let mut i: usize = 0;
    while i < cs.len()
        invariant
            i <= cs@.len(),
            cs@ == s@,
            out@ == utf8(cs@.take(i as int)),
        decreases cs@.len() - i,
    {
        proof {
            assert(cs@.take(i as int + 1).drop_last() =~= cs@.take(i as int));
        }
        push_utf8_char(&mut out, cs[i]);
        i = i + 1;
    }
    proof {
        assert(cs@.take(cs@.len() as int) =~= cs@);
    }
    out
}

/// What `String::from_utf8_lossy` returns: the bytes decoded as UTF-8, each
/// invalid sequence replaced by U+FFFD, by rules nothing here spells out.
pub uninterp spec fn utf8_lossy(b: Seq<u8>) -> Seq<char>;

/// `String::from_utf8_lossy`: bytes that are the UTF-8 encoding of a text
/// come back as that text, as the documentation says of valid input.
#[verifier::external_body]
pub(crate) fn from_utf8_lossy(b: &[u8]) -> (r: String)
    ensures
        r@ == utf8_lossy(b@),
        forall|t: Seq<char>| #[trigger] utf8(t) == b@ ==> r@ == t,
{
    String::from_utf8_lossy(b).into_owned()
}

/// What `String::from_utf16_lossy` returns: the units decoded as UTF-16,
/// each unpaired surrogate replaced by U+FFFD.
pub uninterp spec fn utf16_lossy(units: Seq<u16>) -> Seq<char>;

/// `String::from_utf16_lossy`.
#[verifier::external_body]
pub(crate) fn from_utf16_lossy(units: &[u16]) -> (r: String)
    ensures
        r@ == utf16_lossy(units@),
{
    String::from_utf16_lossy(units)
}

/// `to_lowercase` on characters held as a vector.
pub fn lowercase_chars(v: &Vec<char>) -> (r: Vec<char>)
    ensures
        r@ == lowercase(v@),
{
    let s = string_of(v);
    let l = to_lowercase(s.as_str());
    chars_of(l.as_str())
}

// ---------------------------------------------------------------------------
// Decimal numbers
// ---------------------------------------------------------------------------

pub open spec fn digit_value(c: char) -> int {
    (c as u32) - ('0' as u32)
}

pub open spec fn all_digits(s: Seq<char>) -> bool {
    forall|i: int| 0 <= i < s.len() ==> is_ascii_digit(#[trigger] s[i])
}

/// The number the decimal digits `s` spell.
pub open spec fn decimal(s: Seq<char>) -> int
    decreases s.len(),
{
    if s.len() == 0 {
        0
    } else {
        decimal(s.drop_last()) * 10 + digit_value(s.last())
    }
}

/// The digits `u32::from_str` reads: an optional `+`, then at least one digit.
pub open spec fn unsigned_digits(s: Seq<char>) -> Seq<char> {
    if s.len() > 0 && s[0] == '+' {
        s.drop_first()
    } else {
        s
    }
}

/// What `str::parse::<u32>` returns.
pub open spec fn parse_u32_spec(s: Seq<char>) -> Option<u32> {
    let d = unsigned_digits(s);
    if d.len() > 0 && all_digits(d) && decimal(d) <= u32::MAX {
        Some(decimal(d) as u32)
    } else {
        None
    }
}

pub proof fn lemma_decimal_nonneg(s: Seq<char>)
    requires
        all_digits(s),
    ensures
        decimal(s) >= 0,
        s.len() > 0 ==> decimal(s) >= decimal(s.drop_last()),
    decreases s.len(),
{
    if s.len() > 0 {
        lemma_decimal_nonneg(s.drop_last());
    }
}

pub fn parse_u32(v: &Vec<char>) -> (r: Option<u32>)
    ensures
        r == parse_u32_spec(v@),
{
    let n = v.len();
    let start: usize = if n > 0 && v[0] == '+' {
        1
    } else {
        0
    };
    let ghost d = unsigned_digits(v@);
    proof {
        assert(d =~= v@.subrange(start as int, n as int));
    }
    if start == n {
        return None;
    }
    let mut acc: u64 = 0;
    let mut i = start;
    while i < n
        invariant
            start <= i <= n == v.len(),
            d == unsigned_digits(v@),
            d == v@.subrange(start as int, n as int),
            all_digits(v@.subrange(start as int, i as int)),
            acc == decimal(v@.subrange(start as int, i as int)),
            acc <= u32::MAX,
        decreases n - i,
    {
        let c = v[i];
        if !('0' <= c && c <= '9') {
            proof {
                assert(d[i - start] == c);
                assert(!is_ascii_digit(d[i - start]));
            }
            return None;
        }
        let digit: u64 = ((c as u32) - ('0' as u32)) as u64;
        let next: u64 = acc * 10 + digit;
        proof {
            let p = v@.subrange(start as int, i + 1);
            assert(p.drop_last() =~= v@.subrange(start as int, i as int));
            assert(all_digits(p));
        }
        if next > 4294967295 {
            proof {
                let p = v@.subrange(start as int, i + 1);
                assert(d.subrange(0, p.len() as int) =~= p);
                assert(p.last() == c);
                assert(decimal(p) == next);
                lemma_prefix_decimal_grows(d, p.len() as int);
            }
            return None;
        }
        acc = next;
        i = i + 1;
    }
    proof {
        assert(d =~= v@.subrange(start as int, n as int));
    }
    Some(acc as u32)
}

/// A longer run of digits spells at least as large a number as its prefix.
proof fn lemma_prefix_decimal_grows(d: Seq<char>, k: int)
    requires
        0 <= k <= d.len(),
        all_digits(d.subrange(0, k)),
    ensures
        all_digits(d) ==> decimal(d) >= decimal(d.subrange(0, k)),
    decreases d.len() - k,
{
    if k < d.len() && all_digits(d) {
        assert(d.subrange(0, k + 1).drop_last() =~= d.subrange(0, k));
        lemma_decimal_nonneg(d.subrange(0, k + 1));
        lemma_prefix_decimal_grows(d, k + 1);
    } else if k == d.len() {
        assert(d.subrange(0, k) =~= d);
    }
}

pub open spec fn is_octal_digit(c: char) -> bool {
    '0' <= c && c <= '7'
}

pub open spec fn all_octal(s: Seq<char>) -> bool {
    forall|i: int| 0 <= i < s.len() ==> is_octal_digit(#[trigger] s[i])
}

/// The number the octal digits `s` spell.
pub open spec fn octal_value(s: Seq<char>) -> int
    decreases s.len(),
{
    if s.len() == 0 {
        0
    } else {
        octal_value(s.drop_last()) * 8 + digit_value(s.last())
    }
}

/// What `u32::from_str_radix(s, 8)` returns.
pub open spec fn parse_octal_spec(s: Seq<char>) -> Option<u32> {
    let d = unsigned_digits(s);
    if d.len() > 0 && all_octal(d) && octal_value(d) <= u32::MAX {
        Some(octal_value(d) as u32)
    } else {
        None
    }
}

proof fn lemma_prefix_octal_grows(d: Seq<char>, k: int)
    requires
        0 <= k <= d.len(),
        all_octal(d.subrange(0, k)),
    ensures
        all_octal(d) ==> octal_value(d) >= octal_value(d.subrange(0, k)),
    decreases d.len() - k,
{
    if k < d.len() && all_octal(d) {
        assert(d.subrange(0, k + 1).drop_last() =~= d.subrange(0, k));
        lemma_octal_nonneg(d.subrange(0, k + 1));
        lemma_prefix_octal_grows(d, k + 1);
    } else if k == d.len() {
        assert(d.subrange(0, k) =~= d);
    }
}

proof fn lemma_octal_nonneg(s: Seq<char>)
    requires
        all_octal(s),
    ensures
        octal_value(s) >= 0,
        s.len() > 0 ==> octal_value(s) >= octal_value(s.drop_last()),
    decreases s.len(),
{
    if s.len() > 0 {
        lemma_octal_nonneg(s.drop_last());
    }
}

/// `u32::from_str_radix(v, 8).ok()`.
pub fn parse_octal(v: &Vec<char>) -> (r: Option<u32>)
    ensures
        r == parse_octal_spec(v@),
{
    let n = v.len();
    let start: usize = if n > 0 && v[0] == '+' {
        1
    } else {
        0
    };
    let ghost d = unsigned_digits(v@);
    proof {
        assert(d =~= v@.subrange(start as int, n as int));
    }
    if start == n {
        return None;
    }
    let mut acc: u64 = 0;
    let mut i = start;
    while i < n
        invariant
            start <= i <= n == v.len(),
            d == unsigned_digits(v@),
            d == v@.subrange(start as int, n as int),
            all_octal(v@.subrange(start as int, i as int)),
            acc == octal_value(v@.subrange(start as int, i as int)),
            acc <= u32::MAX,
        decreases n - i,
    {
        let c = v[i];
        if !('0' <= c && c <= '7') {
            proof {
                assert(d[i - start] == c);
                assert(!is_octal_digit(d[i - start]));
            }
            return None;
        }
        let digit: u64 = ((c as u32) - ('0' as u32)) as u64;
        let next: u64 = acc * 8 + digit;
        proof {
            let p = v@.subrange(start as int, i + 1);
            assert(p.drop_last() =~= v@.subrange(start as int, i as int));
            assert(all_octal(p));
        }
        if next > 4294967295 {
            proof {
                let p = v@.subrange(start as int, i + 1);
                assert(d.subrange(0, p.len() as int) =~= p);
                assert(p.last() == c);
                assert(octal_value(p) == next);
                lemma_prefix_octal_grows(d, p.len() as int);
            }
            return None;
        }
        acc = next;
        i = i + 1;
    }
    proof {
        assert(d =~= v@.subrange(start as int, n as int));
    }
    Some(acc as u32)
}

/// The decimal digits of `n`, as `n.to_string()` writes them.
pub open spec fn decimal_string(n: nat) -> Seq<char>
    decreases n,
{
    if n < 10 {
        seq![digit_char(n)]
    } else {
        decimal_string(n / 10).push(digit_char(n % 10))
    }
}

pub open spec fn digit_char(d: nat) -> char {
    (('0' as u32) + d) as char
}

/// The character of one decimal digit.
pub fn digit_char_exec(d: u32) -> (c: char)
    requires
        d < 10,
    ensures
        c == digit_char(d as nat),
{
    char_from_ascii(48 + d)
}

pub fn decimal_of(n: u64) -> (r: Vec<char>)
    ensures
        r@ == decimal_string(n as nat),
    decreases n,
{
    if n < 10 {
        let mut v: Vec<char> = Vec::new();
        v.push(char_from_ascii((48 + n) as u32));
        proof {
            assert(v@ =~= seq![digit_char(n as nat)]);
        }
        v
    } else {
        let mut v = decimal_of(n / 10);
        v.push(char_from_ascii((48 + n % 10) as u32));
        proof {
            assert(v@ =~= decimal_string(n as nat));
        }
        v
    }
}

} // verus!

verus! {

/// Text with numbers written into it: `parts[0]`, the first count in decimal,
/// `parts[1]`, and so on, as `format!` writes a message with counts.
pub open spec fn interleave(parts: Seq<Seq<char>>, counts: Seq<usize>) -> Seq<char>
    decreases counts.len(),
{
    if counts.len() == 0 {
        if parts.len() > 0 {
            parts[0]
        } else {
            Seq::empty()
        }
    } else {
        interleave(parts.drop_last(), counts.drop_last()) + decimal_string(counts.last() as nat)
            + parts.last()
    }
}

/// [`interleave`], as a string.
pub fn format_counts(parts: &[&str], counts: &[usize]) -> (r: String)
    requires
        parts@.len() == counts@.len() + 1,
    ensures
        r@ == interleave(views(parts@), counts@),
{
    let ghost ps = views(parts@);
    let mut out = chars_of(parts[0]);
    let n = counts.len();
    let mut i: usize = 0;
    proof {
        assert(ps.take(1).len() == 1);
        assert(counts@.take(0).len() == 0);
    }
    while i < n
        invariant
            i <= n == counts@.len(),
            parts@.len() == n + 1,
            ps == views(parts@),
            out@ == interleave(ps.take(i + 1), counts@.take(i as int)),
        decreases n - i,
    {
        let ghost before = out@;
        extend(&mut out, &decimal_of(counts[i] as u64));
        extend(&mut out, &chars_of(parts[i + 1]));
        proof {
            assert(ps.take(i + 2).drop_last() =~= ps.take(i + 1));
            assert(counts@.take(i + 1).drop_last() =~= counts@.take(i as int));
            assert(ps.take(i + 2).last() == parts@[i + 1]@);
        }
        i = i + 1;
    }
    proof {
        assert(ps.take(n + 1) =~= ps);
        assert(counts@.take(n as int) =~= counts@);
    }
    string_of(&out)
}

// ---------------------------------------------------------------------------
// Sequences
// ---------------------------------------------------------------------------

/// `iter().filter_map(f).collect()`.
pub open spec fn filter_map<A, B>(s: Seq<A>, f: spec_fn(A) -> Option<B>) -> Seq<B>
    decreases s.len(),
{
    if s.len() == 0 {
        Seq::empty()
    } else {
        let r = filter_map(s.drop_last(), f);
        match f(s.last()) {
            Some(b) => r.push(b),
            None => r,
        }
    }
}

/// `filter_map` of two lists joined is the two results joined.
pub proof fn lemma_filter_map_append<A, B>(a: Seq<A>, b: Seq<A>, f: spec_fn(A) -> Option<B>)
    ensures
        filter_map(a + b, f) == filter_map(a, f) + filter_map(b, f),
    decreases b.len(),
{
    if b.len() == 0 {
        assert(a + b =~= a);
        assert(filter_map(b, f) =~= Seq::<B>::empty());
        assert(filter_map(a, f) + filter_map(b, f) =~= filter_map(a, f));
    } else {
        lemma_filter_map_append(a, b.drop_last(), f);
        assert((a + b).drop_last() =~= a + b.drop_last());
        assert((a + b).last() == b.last());
        match f(b.last()) {
            Some(x) => {
                assert(filter_map(a, f) + filter_map(b, f) =~= (filter_map(a, f) + filter_map(
                    b.drop_last(),
                    f,
                )).push(x));
            },
            None => {},
        }
    }
}

/// Whatever `f` maps an element to is among what `filter_map` keeps.
pub proof fn lemma_filter_map_keeps<A, B>(s: Seq<A>, f: spec_fn(A) -> Option<B>, i: int)
    requires
        0 <= i < s.len(),
        f(s[i]) is Some,
    ensures
        filter_map(s, f).contains(f(s[i])->0),
    decreases s.len(),
{
    let r = filter_map(s.drop_last(), f);
    if i == s.len() - 1 {
        let b = f(s[i])->0;
        assert(filter_map(s, f) == r.push(b));
        assert(r.push(b)[r.len() as int] == b);
    } else {
        lemma_filter_map_keeps(s.drop_last(), f, i);
        assert(s.drop_last()[i] == s[i]);
        let b = f(s[i])->0;
        let k = choose|k: int| 0 <= k < r.len() && r[k] == b;
        match f(s.last()) {
            Some(x) => {
                assert(r.push(x)[k] == b);
            },
            None => {},
        }
    }
}

/// Every element `filter_map` keeps comes from an element `f` maps to it.
pub proof fn lemma_filter_map_source<A, B>(s: Seq<A>, f: spec_fn(A) -> Option<B>, k: int)
    requires
        0 <= k < filter_map(s, f).len(),
    ensures
        exists|i: int| 0 <= i < s.len() && f(#[trigger] s[i]) == Some(filter_map(s, f)[k]),
    decreases s.len(),
{
    let r = filter_map(s.drop_last(), f);
    match f(s.last()) {
        Some(b) => {
            if k < r.len() {
                lemma_filter_map_source(s.drop_last(), f, k);
                let i = choose|i: int| 0 <= i < s.drop_last().len() && f(#[trigger] s.drop_last()[i]) == Some(r[k]);
                assert(s[i] == s.drop_last()[i]);
            } else {
                assert(f(s[s.len() - 1]) == Some(filter_map(s, f)[k]));
            }
        },
        None => {
            lemma_filter_map_source(s.drop_last(), f, k);
            let i = choose|i: int| 0 <= i < s.drop_last().len() && f(#[trigger] s.drop_last()[i]) == Some(r[k]);
            assert(s[i] == s.drop_last()[i]);
        },
    }
}

/// The last piece of `s` split at `sep`: what `rsplit(sep).next()` gives.
pub open spec fn last_piece(s: Seq<char>, sep: char) -> Seq<char> {
    piece_state(s, sep).1
}

pub fn last_piece_exec(v: &Vec<char>, sep: char) -> (r: Vec<char>)
    ensures
        r@ == last_piece(v@, sep),
{
    let pieces = split_of(v, sep);
    let n = pieces.len();
    proof {
        assert(seqs(pieces@).last() == last_piece(v@, sep));
    }
    slice(&pieces[n - 1], 0, pieces[n - 1].len())
}

} // verus!
