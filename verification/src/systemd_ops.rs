//! What `systemctl` reports, read into values, and the states that count as a
//! unit being masked or running. Calling `systemctl` is the program's.
use vstd::prelude::*;
use crate::text::{
    chars_of, contains, contains_chars, ends_with, ends_with_chars, eq_chars, filter_map, lines,
    lines_of, seqs, starts_with, starts_with_chars, string_of, words, words_of,
};
use crate::apt::pair_views;

verus! {

/// How long a `systemctl` call may take, in seconds.
pub const SYSTEMCTL_TIMEOUT_SECS: u64 = 60;

/// `(unit, state)` from the first two columns of a line whose first column
/// names a unit (it has a dot, which a summary line's count does not).
pub open spec fn unit_file_entry(l: Seq<char>) -> Option<(Seq<char>, Seq<char>)> {
    let w = words(l);
    if w.len() >= 2 && contains(w[0], "."@) {
        Some((w[0], w[1]))
    } else {
        None
    }
}

/// The units of `systemctl list-unit-files --no-legend --plain`, with their
/// state. The first two columns are taken, which reads both the older
/// two-column and the newer three-column output.
pub fn parse_unit_files(output: &str) -> (r: Vec<(String, String)>)
    ensures
        pair_views(r@) == filter_map(lines(output@), |l: Seq<char>| unit_file_entry(l)),
{
    let tv = chars_of(output);
    let ls = lines_of(&tv);
    let ghost all = seqs(ls@);
    let dot = chars_of(".");
    let mut out: Vec<(String, String)> = Vec::new();
    let n = ls.len();
    let mut i: usize = 0;
    while i < n
        invariant
            i <= n == ls.len(),
            all == seqs(ls@),
            all == lines(output@),
            dot@ == "."@,
            pair_views(out@) == filter_map(all.take(i as int), |l: Seq<char>| unit_file_entry(l)),
        decreases n - i,
    {
        proof {
            assert(all.take(i + 1).drop_last() =~= all.take(i as int));
            assert(all.take(i + 1).last() == all[i as int]);
        }
        let w = words_of(&ls[i]);
        if w.len() >= 2 && contains_chars(&w[0], &dot) {
            let p = (string_of(&w[0]), string_of(&w[1]));
            let ghost before = pair_views(out@);
            out.push(p);
            proof {
                assert(pair_views(out@) =~= before.push((p.0@, p.1@)));
            }
        }
        i = i + 1;
    }
    proof {
        assert(all.take(n as int) =~= all);
    }
    out
}

/// Is an `is-enabled` state that of a masked unit?
pub fn is_masked_state(state: &str) -> (b: bool)
    ensures
        b == (state@ == "masked"@),
{
    eq_chars(&chars_of(state), &chars_of("masked"))
}

/// Is `"<is-enabled>, <is-active>"` that of a unit enabled and running?
pub open spec fn enabled_and_active_spec(state: Seq<char>) -> bool {
    starts_with(state, "enabled"@) && ends_with(state, "active"@)
}

pub fn is_enabled_and_active(state: &str) -> (b: bool)
    ensures
        b == enabled_and_active_spec(state@),
{
    let s = chars_of(state);
    starts_with_chars(&s, &chars_of("enabled")) && ends_with_chars(&s, &chars_of("active"))
}

} // verus!
