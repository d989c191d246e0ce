//! A Windows account policy as `net accounts` prints it, and the values the
//! benchmark wants.
use vstd::prelude::*;
use crate::text::{
    all_digits, chars_of, contains, contains_chars, decimal, is_ascii_digit, lowercase,
    lowercase_chars, seqs, split_once, split_once_chars, trim, trim_chars,
};

verus! {

/// The account policy, field by field. `complexity_enabled` is not in the
/// `net accounts` table; only `secedit` reports it.
#[derive(Debug, Clone, Copy)]
pub struct PasswordPolicyInfo {
    pub min_password_length: i32,
    pub max_password_age: i32,
    pub min_password_age: i32,
    pub password_history_count: i32,
    pub complexity_enabled: bool,
    pub lockout_threshold: i32,
    pub lockout_duration: i32,
    pub lockout_observation_window: i32,
    pub reversible_encryption_disabled: bool,
}

/// A policy with every number 0 and every switch off.
pub open spec fn empty_policy() -> PasswordPolicyInfo {
    PasswordPolicyInfo {
        min_password_length: 0,
        max_password_age: 0,
        min_password_age: 0,
        password_history_count: 0,
        complexity_enabled: false,
        lockout_threshold: 0,
        lockout_duration: 0,
        lockout_observation_window: 0,
        reversible_encryption_disabled: false,
    }
}

impl Default for PasswordPolicyInfo {
    fn default() -> (p: Self)
        ensures
            p == empty_policy(),
    {
        PasswordPolicyInfo {
            min_password_length: 0,
            max_password_age: 0,
            min_password_age: 0,
            password_history_count: 0,
            complexity_enabled: false,
            lockout_threshold: 0,
            lockout_duration: 0,
            lockout_observation_window: 0,
            reversible_encryption_disabled: false,
        }
    }
}

/// The leading run of digits and `-` signs.
pub open spec fn numeric_prefix(v: Seq<char>) -> Seq<char>
    decreases v.len(),
{
    if v.len() > 0 && (is_ascii_digit(v[0]) || v[0] == '-') {
        seq![v[0]] + numeric_prefix(v.drop_first())
    } else {
        seq![]
    }
}

/// What `str::parse::<i32>` returns: an optional sign, then at least one
/// digit, within range.
pub open spec fn parse_i32_spec(s: Seq<char>) -> Option<i32> {
    if s.len() > 0 && s[0] == '-' {
        let d = s.drop_first();
        if d.len() > 0 && all_digits(d) && decimal(d) <= 2147483648 {
            Some((0 - decimal(d)) as i32)
        } else {
            None
        }
    } else {
        let d = if s.len() > 0 && s[0] == '+' {
            s.drop_first()
        } else {
            s
        };
        if d.len() > 0 && all_digits(d) && decimal(d) <= 2147483647 {
            Some(decimal(d) as i32)
        } else {
            None
        }
    }
}

/// The number after the colon of a `net accounts` line: `Never` and
/// `Unlimited` are -1, `None` is 0, a number is read with its sign, and
/// anything else is 0.
pub open spec fn extract_spec(line: Seq<char>) -> i32 {
    match split_once(line, ':') {
        None => 0i32,
        Some((_, value)) => {
            let v = trim(value);
            let l = lowercase(v);
            if contains(l, "never"@) || contains(l, "unlimited"@) {
                -1i32
            } else if contains(l, "none"@) {
                0i32
            } else {
                match parse_i32_spec(numeric_prefix(v)) {
                    Some(n) => n,
                    None => 0i32,
                }
            }
        },
    }
}

proof fn lemma_decimal_step(d: Seq<char>, k: int)
    requires
        0 <= k < d.len(),
    ensures
        decimal(d.take(k + 1)) == decimal(d.take(k)) * 10 + crate::text::digit_value(d[k]),
{
    assert(d.take(k + 1).drop_last() =~= d.take(k));
}

/// The decimal digits `d` as a number, if it is at most `limit`.
fn bounded_decimal(d: &Vec<char>, start: usize, limit: u64) -> (r: Option<u64>)
    requires
        start <= d.len(),
        limit <= 4294967296,
    ensures
        match r {
            Some(v) => all_digits(d@.skip(start as int)) && v == decimal(d@.skip(start as int))
                && v <= limit,
            None => !(all_digits(d@.skip(start as int)) && decimal(d@.skip(start as int)) <= limit),
        },
{
    let ghost s = d@.skip(start as int);
    let n = d.len();
    let mut acc: u64 = 0;
    let mut i = start;
    proof {
        assert(s.take(0) =~= Seq::<char>::empty());
    }
    while i < n
        invariant
            start <= i <= n == d.len(),
            s == d@.skip(start as int),
            limit <= 4294967296,
            all_digits(s.take(i - start)),
            acc == decimal(s.take(i - start)),
            acc <= limit,
        decreases n - i,
    {
        let c = d[i];
        proof {
            assert(s[i - start] == c);
        }
        if !('0' <= c && c <= '9') {
            proof {
                assert(!is_ascii_digit(s[i - start]));
            }
            return None;
        }
        proof {
            lemma_decimal_step(s, i - start);
            assert(all_digits(s.take(i - start + 1)));
        }
        let next: u64 = acc * 10 + ((c as u32) - ('0' as u32)) as u64;
        if next > limit {
            proof {
                lemma_decimal_grows(s, i - start + 1);
            }
            return None;
        }
        acc = next;
        i = i + 1;
    }
    proof {
        assert(s.take(n - start) =~= s);
    }
    Some(acc)
}

/// A longer run of digits spells at least as large a number as its prefix.
proof fn lemma_decimal_grows(d: Seq<char>, k: int)
    requires
        0 <= k <= d.len(),
        all_digits(d.take(k)),
    ensures
        all_digits(d) ==> decimal(d) >= decimal(d.take(k)),
    decreases d.len() - k,
{
    if k < d.len() && all_digits(d) {
        lemma_decimal_step(d, k);
        assert(all_digits(d.take(k + 1)));
        crate::text::lemma_decimal_nonneg(d.take(k + 1));
        lemma_decimal_grows(d, k + 1);
    } else if k == d.len() {
        assert(d.take(k) =~= d);
    }
}

fn parse_i32_exec(s: &Vec<char>) -> (r: Option<i32>)
    ensures
        r == parse_i32_spec(s@),
{
    let n = s.len();
    if n > 0 && s[0] == '-' {
        if n == 1 {
            return None;
        }
        proof {
            assert(s@.drop_first() =~= s@.skip(1));
        }
        match bounded_decimal(s, 1, 2147483648) {
            Some(v) => {
                let r: i64 = 0 - (v as i64);
                Some(r as i32)
            },
            None => None,
        }
    } else {
        let start: usize = if n > 0 && s[0] == '+' {
            1
        } else {
            0
        };
        proof {
            assert(s@.skip(0) =~= s@);
            assert(s@.drop_first() =~= s@.skip(1));
        }
        if start == n {
            return None;
        }
        match bounded_decimal(s, start, 2147483647) {
            Some(v) => Some(v as i32),
            None => None,
        }
    }
}

fn numeric_prefix_exec(v: &Vec<char>) -> (r: Vec<char>)
    ensures
        r@ == numeric_prefix(v@),
{
    let n = v.len();
    let mut i: usize = 0;
    proof {
        assert(v@.skip(0) =~= v@);
        assert(v@.take(0) + numeric_prefix(v@) =~= numeric_prefix(v@));
    }
    while i < n && (('0' <= v[i] && v[i] <= '9') || v[i] == '-')
        invariant
            i <= n == v.len(),
            numeric_prefix(v@) == v@.take(i as int) + numeric_prefix(v@.skip(i as int)),
        decreases n - i,
    {
        proof {
            assert(v@.skip(i as int).drop_first() =~= v@.skip(i + 1));
            assert(v@.take(i + 1) =~= v@.take(i as int).push(v@[i as int]));
        }
        i = i + 1;
    }
    proof {
        assert(v@.skip(0) =~= v@);
        assert(v@.take(0) =~= Seq::<char>::empty());
    }
    crate::text::slice(v, 0, i)
}

fn extract_chars(line: &Vec<char>) -> (r: i32)
    ensures
        r == extract_spec(line@),
{
    match split_once_chars(line, ':') {
        None => 0,
        Some((_, value)) => {
            let v = trim_chars(&value);
            let l = lowercase_chars(&v);
            if contains_chars(&l, &chars_of("never")) || contains_chars(&l, &chars_of("unlimited")) {
                -1
            } else if contains_chars(&l, &chars_of("none")) {
                0
            } else {
                match parse_i32_exec(&numeric_prefix_exec(&v)) {
                    Some(n) => n,
                    None => 0,
                }
            }
        },
    }
}

/// Read the number of a `net accounts` line.
pub fn extract_numeric_value(line: &str) -> (r: i32)
    ensures
        r == extract_spec(line@),
{
    extract_chars(&chars_of(line))
}

/// The pieces of `s` between `\r` and `\n` characters, empty ones included:
/// those finished, and the one being read.
pub open spec fn crlf_state(s: Seq<char>) -> (Seq<Seq<char>>, Seq<char>)
    decreases s.len(),
{
    if s.len() == 0 {
        (seq![], seq![])
    } else {
        let (done, cur) = crlf_state(s.drop_last());
        if s.last() == '\r' || s.last() == '\n' {
            (done.push(cur), seq![])
        } else {
            (done, cur.push(s.last()))
        }
    }
}

pub open spec fn crlf_pieces(s: Seq<char>) -> Seq<Seq<char>> {
    let (done, cur) = crlf_state(s);
    done.push(cur)
}

/// The policy after one line of the table: the first label the line holds
/// decides the field; `-1` ("Never") is stored as 0 for the maximum age and
/// the lockout threshold.
pub open spec fn net_step(p: PasswordPolicyInfo, line: Seq<char>) -> PasswordPolicyInfo {
    let v = extract_spec(line);
    if line.len() == 0 {
        p
    } else if contains(line, "Minimum password length"@) {
        PasswordPolicyInfo { min_password_length: v, ..p }
    } else if contains(line, "Maximum password age"@) {
        PasswordPolicyInfo { max_password_age: if v == -1 { 0 } else { v }, ..p }
    } else if contains(line, "Minimum password age"@) {
        PasswordPolicyInfo { min_password_age: v, ..p }
    } else if contains(line, "Length of password history"@) {
        PasswordPolicyInfo { password_history_count: v, ..p }
    } else if contains(line, "Lockout threshold"@) {
        PasswordPolicyInfo { lockout_threshold: if v == -1 { 0 } else { v }, ..p }
    } else if contains(line, "Lockout duration"@) {
        PasswordPolicyInfo { lockout_duration: v, ..p }
    } else if contains(line, "Lockout observation window"@) {
        PasswordPolicyInfo { lockout_observation_window: v, ..p }
    } else {
        p
    }
}

pub open spec fn net_state(ls: Seq<Seq<char>>) -> PasswordPolicyInfo
    decreases ls.len(),
{
    if ls.len() == 0 {
        empty_policy()
    } else {
        net_step(net_state(ls.drop_last()), ls.last())
    }
}

fn crlf_pieces_exec(v: &Vec<char>) -> (r: Vec<Vec<char>>)
    ensures
        seqs(r@) == crlf_pieces(v@),
{
    let mut done: Vec<Vec<char>> = Vec::new();
    let mut cur: Vec<char> = Vec::new();
    let n = v.len();
    let mut i: usize = 0;
    while i < n
        invariant
            i <= n == v.len(),
            crlf_state(v@.take(i as int)) == (seqs(done@), cur@),
        decreases n - i,
    {
        let c = v[i];
        proof {
            assert(v@.take(i + 1).drop_last() =~= v@.take(i as int));
            assert(v@.take(i + 1).last() == c);
        }
        if c == '\r' || c == '\n' {
            let ghost before = seqs(done@);
            let ghost cv = cur@;
            done.push(cur);
            cur = Vec::new();
            proof {
                assert(seqs(done@) =~= before.push(cv));
                assert(cur@ =~= Seq::<char>::empty());
            }
        } else {
            cur.push(c);
        }
        i = i + 1;
    }
    proof {
        assert(v@.take(n as int) =~= v@);
    }
    let ghost before = seqs(done@);
    let ghost cv = cur@;
    done.push(cur);
    proof {
        assert(seqs(done@) =~= before.push(cv));
    }
    done
}

impl PasswordPolicyInfo {
    /// Read the table `net accounts` prints (an English console only). The
    /// lines are split at `\r` and `\n`, blank ones skipped.
    pub fn parse_net_accounts(output: &str) -> (p: Self)
        ensures
            p == net_state(crlf_pieces(output@)),
    {
        let ls = crlf_pieces_exec(&chars_of(output));
        let ghost all = seqs(ls@);
        let mut p = PasswordPolicyInfo::default();
        let n = ls.len();
        let mut i: usize = 0;
        while i < n
            invariant
                i <= n == ls.len(),
                all == seqs(ls@),
                all == crlf_pieces(output@),
                p == net_state(all.take(i as int)),
            decreases n - i,
        {
            proof {
                assert(all.take(i + 1).drop_last() =~= all.take(i as int));
                assert(all.take(i + 1).last() == all[i as int]);
            }
            let line = &ls[i];
            if line.len() > 0 {
                if contains_chars(line, &chars_of("Minimum password length")) {
                    p.min_password_length = extract_chars(line);
                } else if contains_chars(line, &chars_of("Maximum password age")) {
                    let v = extract_chars(line);
                    p.max_password_age = if v == -1 {
                        0
                    } else {
                        v
                    };
                } else if contains_chars(line, &chars_of("Minimum password age")) {
                    p.min_password_age = extract_chars(line);
                } else if contains_chars(line, &chars_of("Length of password history")) {
                    p.password_history_count = extract_chars(line);
                } else if contains_chars(line, &chars_of("Lockout threshold")) {
                    let v = extract_chars(line);
                    p.lockout_threshold = if v == -1 {
                        0
                    } else {
                        v
                    };
                } else if contains_chars(line, &chars_of("Lockout duration")) {
                    p.lockout_duration = extract_chars(line);
                } else if contains_chars(line, &chars_of("Lockout observation window")) {
                    p.lockout_observation_window = extract_chars(line);
                }
            }
            i = i + 1;
        }
        proof {
            assert(all.take(n as int) =~= all);
        }
        p
    }
}

/// The account policy the benchmark wants.
pub struct PasswordPolicyStandards;

impl PasswordPolicyStandards {
    pub const MIN_PASSWORD_LENGTH: i32 = 14;
    /// Days.
    pub const MAX_PASSWORD_AGE: i32 = 60;
    /// Days.
    pub const MIN_PASSWORD_AGE: i32 = 1;
    pub const PASSWORD_HISTORY_COUNT: i32 = 24;
    pub const COMPLEXITY_ENABLED: bool = true;
    pub const REVERSIBLE_ENCRYPTION_DISABLED: bool = true;
    /// Failed attempts.
    pub const LOCKOUT_THRESHOLD: i32 = 5;
    /// Minutes.
    pub const LOCKOUT_DURATION: i32 = 30;
    /// Minutes.
    pub const LOCKOUT_OBSERVATION_WINDOW: i32 = 30;
}

} // verus!
