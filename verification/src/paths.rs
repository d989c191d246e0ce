//! Paths read the way `std::path::Path` reads them on Unix: the file name is
//! the last component, and the extension what follows its last dot.
use vstd::prelude::*;
use crate::text::{chars_of, eq_chars, filter_map, seqs, slice, split, split_of};

verus! {

/// The components of a path: its `/`-separated parts, without empty ones
/// and without `.`.
pub open spec fn path_components(p: Seq<char>) -> Seq<Seq<char>> {
    filter_map(
        split(p, '/'),
        |c: Seq<char>|
            if c.len() == 0 || c == "."@ {
                None
            } else {
                Some(c)
            },
    )
}

/// `Path::file_name`: the last component, unless it is `..` or there is none.
pub open spec fn file_name(p: Seq<char>) -> Option<Seq<char>> {
    let c = path_components(p);
    if c.len() == 0 || c.last() == ".."@ {
        None
    } else {
        Some(c.last())
    }
}

/// `Path::extension` of a file name: what follows its last dot, unless it has
/// none or its only dot starts it (`.bashrc`).
pub open spec fn extension(name: Seq<char>) -> Option<Seq<char>> {
    let d = split(name, '.');
    if name == ".."@ || d.len() < 2 || (d.len() == 2 && d[0].len() == 0) {
        None
    } else {
        Some(d.last())
    }
}

pub fn path_components_exec(p: &Vec<char>) -> (r: Vec<Vec<char>>)
    ensures
        seqs(r@) == path_components(p@),
{
    let parts = split_of(p, '/');
    let ghost all = seqs(parts@);
    let dot = chars_of(".");
    let mut out: Vec<Vec<char>> = Vec::new();
    let n = parts.len();
    let mut i: usize = 0;
    while i < n
        invariant
            i <= n == parts.len(),
            all == seqs(parts@),
            all == split(p@, '/'),
            dot@ == "."@,
            seqs(out@) == filter_map(
                all.take(i as int),
                |c: Seq<char>|
                    if c.len() == 0 || c == "."@ {
                        None
                    } else {
                        Some(c)
                    },
            ),
        decreases n - i,
    {
        proof {
            assert(all.take(i + 1).drop_last() =~= all.take(i as int));
            assert(all.take(i + 1).last() == all[i as int]);
        }
        if parts[i].len() > 0 && !eq_chars(&parts[i], &dot) {
            let ghost before = seqs(out@);
            out.push(parts[i].clone());
            proof {
                assert(seqs(out@) =~= before.push(all[i as int]));
            }
        }
        i = i + 1;
    }
    proof {
        assert(all.take(n as int) =~= all);
    }
    out
}

/// `Path::file_name`.
pub fn file_name_exec(p: &Vec<char>) -> (r: Option<Vec<char>>)
    ensures
        match r {
            Some(n) => file_name(p@) == Some(n@),
            None => file_name(p@) is None,
        },
{
    let c = path_components_exec(p);
    let n = c.len();
    if n == 0 || eq_chars(&c[n - 1], &chars_of("..")) {
        return None;
    }
    Some(slice(&c[n - 1], 0, c[n - 1].len()))
}

/// `Path::extension` of a file name.
pub fn extension_exec(name: &Vec<char>) -> (r: Option<Vec<char>>)
    ensures
        match r {
            Some(e) => extension(name@) == Some(e@),
            None => extension(name@) is None,
        },
{
    let d = split_of(name, '.');
    if eq_chars(name, &chars_of("..")) || d.len() < 2 || (d.len() == 2 && d[0].len() == 0) {
        return None;
    }
    Some(slice(&d[d.len() - 1], 0, d[d.len() - 1].len()))
}

/// The index of the last `c` in `s`, or -1.
pub open spec fn last_index(s: Seq<char>, c: char) -> int
    decreases s.len(),
{
    if s.len() == 0 {
        -1
    } else if s.last() == c {
        s.len() - 1
    } else {
        last_index(s.drop_last(), c)
    }
}

/// `Path::file_stem` of a file name: all before its last dot, or the whole
/// name when it has no dot or only a leading one.
pub open spec fn stem(name: Seq<char>) -> Seq<char> {
    let j = last_index(name, '.');
    if j <= 0 {
        name
    } else {
        name.take(j)
    }
}

pub fn last_index_exec(s: &Vec<char>, c: char) -> (r: Option<usize>)
    ensures
        match r {
            Some(j) => last_index(s@, c) == j && j < s.len(),
            None => last_index(s@, c) == -1,
        },
{
    let mut k: usize = s.len();
    proof {
        assert(s@.take(k as int) =~= s@);
    }
    while k > 0
        invariant
            k <= s.len(),
            last_index(s@, c) == last_index(s@.take(k as int), c),
        decreases k,
    {
        proof {
            assert(s@.take(k as int).drop_last() =~= s@.take(k - 1));
        }
        if s[k - 1] == c {
            return Some(k - 1);
        }
        k = k - 1;
    }
    None
}

pub fn stem_exec(name: &Vec<char>) -> (r: Vec<char>)
    ensures
        r@ == stem(name@),
{
    proof {
        assert(name@.take(name@.len() as int) =~= name@);
    }
    match last_index_exec(name, '.') {
        Some(j) => if j == 0 {
            slice(name, 0, name.len())
        } else {
            slice(name, 0, j)
        },
        None => slice(name, 0, name.len()),
    }
}

} // verus!
