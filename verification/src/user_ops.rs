//! Accounts and groups as `/etc/passwd`, `/etc/group` and `/etc/shadow` record
//! them: colon-separated records with a format fixed by POSIX and no locale
//! anywhere near them.
//!
//! Everything here reads text that has already been read from disk; the reads
//! themselves, and the `useradd`/`usermod`/`gpasswd` calls that change the
//! files, are made by the application around this library.
use vstd::prelude::*;

use crate::knowledge::{FIRST_HUMAN_UID, SYSTEM_ACCOUNTS};
use crate::text::{
    concat_chars, concat_str, decimal_of, decimal_string, slice, split_once, split_once_chars,
    any_ci, any_ci_exec, chars_of, eq_chars, filter_map, last_piece, last_piece_exec, lines,
    lines_of, parse_u32, parse_u32_spec, seqs, split, split_of, starts_with, string_of, strs,
    trim, trim_chars, views,
};

verus! {

/// One account, as `/etc/passwd` records it.
#[derive(Debug, Clone, PartialEq, Eq)]
pub struct Account {
    pub name: String,
    pub uid: u32,
    pub gid: u32,
    /// The GECOS field - a full name, when the image bothered to set one.
    pub comment: String,
    pub home: String,
    pub shell: String,
}

/// An account's fields as character sequences.
pub struct AccountView {
    pub name: Seq<char>,
    pub uid: u32,
    pub gid: u32,
    pub comment: Seq<char>,
    pub home: Seq<char>,
    pub shell: Seq<char>,
}

impl View for Account {
    type V = AccountView;

    open spec fn view(&self) -> AccountView {
        AccountView {
            name: self.name@,
            uid: self.uid,
            gid: self.gid,
            comment: self.comment@,
            home: self.home@,
            shell: self.shell@,
        }
    }
}

/// The accounts of a list, as views.
pub open spec fn account_views(v: Seq<Account>) -> Seq<AccountView> {
    v.map_values(|a: Account| a@)
}

/// The system account names, as character sequences.
pub open spec fn system_accounts() -> Seq<Seq<char>> {
    views(SYSTEM_ACCOUNTS@)
}

/// Is `name` one of the accounts that are never removed or locked?
pub open spec fn is_system_account_spec(name: Seq<char>) -> bool {
    any_ci(system_accounts(), name)
}

/// Is this a human account rather than one a package created? Both the uid
/// rule and the name list are needed: the uid rule alone would classify
/// `nobody` (65534) as a person.
pub open spec fn is_human_spec(a: AccountView) -> bool {
    a.uid >= FIRST_HUMAN_UID && a.uid != 65534 && !is_system_account_spec(a.name)
}

/// The shells that refuse a login, by file name.
pub open spec fn nologin_names() -> Seq<Seq<char>> {
    seq!["nologin"@, "false"@, "true"@, "sync"@, "halt"@, "shutdown"@]
}

/// Is this shell one that refuses the login? Compared by file name, so it holds
/// wherever the distribution puts `nologin`.
pub open spec fn is_nologin_spec(shell: Seq<char>) -> bool {
    trim(shell).len() == 0 || nologin_names().contains(last_piece(shell, '/'))
}

/// Is `name` a system account, which is never removed?
pub fn is_system_account(name: &str) -> (b: bool)
    ensures
        b == is_system_account_spec(name@),
{
    any_ci_exec(&SYSTEM_ACCOUNTS, &chars_of(name))
}

impl Account {
    /// Is this a human account rather than one a package created?
    pub fn is_human(&self) -> (b: bool)
        ensures
            b == is_human_spec(self@),
    {
        self.uid >= FIRST_HUMAN_UID && self.uid != 65534 && !is_system_account(self.name.as_str())
    }

    /// Can this account log in at all? A shell of `nologin` or `false` is how
    /// a service account is kept out.
    pub fn can_log_in(&self) -> (b: bool)
        ensures
            b == !is_nologin_spec(self.shell@),
    {
        !is_nologin_shell(self.shell.as_str())
    }
}

/// Is this shell one that refuses the login?
pub fn is_nologin_shell(shell: &str) -> (b: bool)
    ensures
        b == is_nologin_spec(shell@),
{
    let v = chars_of(shell);
    let t = trim_chars(&v);
    if t.len() == 0 {
        return true;
    }
    let name = last_piece_exec(&v, '/');
    let names = ["nologin", "false", "true", "sync", "halt", "shutdown"];
    let mut i: usize = 0;
    while i < 6
        invariant
            i <= 6,
            names@ == seq!["nologin", "false", "true", "sync", "halt", "shutdown"],
            name@ == last_piece(shell@, '/'),
            forall|k: int| 0 <= k < i ==> nologin_names()[k] != name@,
        decreases 6 - i,
    {
        if eq_chars(&chars_of(names[i]), &name) {
            proof {
                assert(nologin_names()[i as int] == name@);
            }
            return true;
        }
        i = i + 1;
    }
    proof {
        assert forall|k: int| 0 <= k < nologin_names().len() implies nologin_names()[k]
            != name@ by {}
    }
    false
}

/// A line of a colon-separated database worth reading: not blank, not a comment.
pub open spec fn record_line(l: Seq<char>) -> bool {
    trim(l).len() != 0 && !starts_with(l, seq!['#'])
}

/// The account one `/etc/passwd` line records, if it is a complete record.
pub open spec fn passwd_record(l: Seq<char>) -> Option<AccountView> {
    if !record_line(l) {
        None
    } else {
        let f = split(l, ':');
        if f.len() < 7 {
            None
        } else {
            match (parse_u32_spec(f[2]), parse_u32_spec(f[3])) {
                (Some(uid), Some(gid)) => Some(
                    AccountView { name: f[0], uid, gid, comment: f[4], home: f[5], shell: f[6] },
                ),
                _ => None,
            }
        }
    }
}

/// The accounts `/etc/passwd` content records, in order; short or malformed
/// records are skipped rather than guessed at.
pub open spec fn parse_passwd_spec(text: Seq<char>) -> Seq<AccountView> {
    filter_map(lines(text), |l: Seq<char>| passwd_record(l))
}

fn is_record_line(l: &Vec<char>) -> (b: bool)
    ensures
        b == record_line(l@),
{
    let t = trim_chars(l);
    proof {
        if l@.len() > 0 {
            if l@[0] == '#' {
                assert(l@.subrange(0, 1) =~= seq!['#']);
            } else {
                assert(l@.subrange(0, 1)[0] != seq!['#'][0]);
            }
        }
    }
    !(t.len() == 0 || (l.len() > 0 && l[0] == '#'))
}

/// Parse `/etc/passwd` content into accounts.
pub fn parse_passwd(text: &str) -> (r: Vec<Account>)
    ensures
        account_views(r@) == parse_passwd_spec(text@),
{
    let ls = lines_of(&chars_of(text));
    let mut out: Vec<Account> = Vec::new();
    let n = ls.len();
    let mut i: usize = 0;
    while i < n
        invariant
            i <= n == ls.len(),
            account_views(out@) == filter_map(
                seqs(ls@).take(i as int),
                |l: Seq<char>| passwd_record(l),
            ),
        decreases n - i,
    {
        proof {
            assert(seqs(ls@).take(i + 1).drop_last() =~= seqs(ls@).take(i as int));
        }
        let line = &ls[i];
        let ghost before = account_views(out@);
        if is_record_line(line) {
            let f = split_of(line, ':');
            if f.len() >= 7 {
                match (parse_u32(&f[2]), parse_u32(&f[3])) {
                    (Some(uid), Some(gid)) => {
                        let a = Account {
                            name: string_of(&f[0]),
                            uid,
                            gid,
                            comment: string_of(&f[4]),
                            home: string_of(&f[5]),
                            shell: string_of(&f[6]),
                        };
                        out.push(a);
                        proof {
                            assert(account_views(out@) =~= before.push(a@));
                        }
                    },
                    _ => {},
                }
            }
        }
        i = i + 1;
    }
    proof {
        assert(seqs(ls@).take(n as int) =~= seqs(ls@));
    }
    out
}

/// A group as `(name, gid, supplementary members)`.
pub open spec fn group_view(g: (String, u32, Vec<String>)) -> (Seq<char>, u32, Seq<Seq<char>>) {
    (g.0@, g.1, strs(g.2@))
}

pub open spec fn group_views(v: Seq<(String, u32, Vec<String>)>) -> Seq<(Seq<char>, u32, Seq<Seq<char>>)> {
    v.map_values(|g: (String, u32, Vec<String>)| group_view(g))
}

/// The members listed in a group record's fourth field: comma-separated,
/// trimmed, with empty entries dropped.
pub open spec fn member_list(field: Seq<char>) -> Seq<Seq<char>> {
    filter_map(
        split(field, ','),
        |m: Seq<char>|
            if trim(m).len() == 0 {
                None
            } else {
                Some(trim(m))
            },
    )
}

/// The group one `/etc/group` line records, if it is a complete record.
pub open spec fn group_record(l: Seq<char>) -> Option<(Seq<char>, u32, Seq<Seq<char>>)> {
    if !record_line(l) {
        None
    } else {
        let f = split(l, ':');
        if f.len() < 4 {
            None
        } else {
            match parse_u32_spec(f[2]) {
                Some(gid) => Some((f[0], gid, member_list(f[3]))),
                None => None,
            }
        }
    }
}

/// The groups `/etc/group` content records, in order.
pub open spec fn parse_group_spec(text: Seq<char>) -> Seq<(Seq<char>, u32, Seq<Seq<char>>)> {
    filter_map(lines(text), |l: Seq<char>| group_record(l))
}

fn member_list_exec(field: &Vec<char>) -> (r: Vec<String>)
    ensures
        strs(r@) == member_list(field@),
{
    let pieces = split_of(field, ',');
    let mut out: Vec<String> = Vec::new();
    let n = pieces.len();
    let mut i: usize = 0;
    while i < n
        invariant
            i <= n == pieces.len(),
            strs(out@) == filter_map(
                seqs(pieces@).take(i as int),
                |m: Seq<char>|
                    if trim(m).len() == 0 {
                        None
                    } else {
                        Some(trim(m))
                    },
            ),
        decreases n - i,
    {
        proof {
            assert(seqs(pieces@).take(i + 1).drop_last() =~= seqs(pieces@).take(i as int));
        }
        let t = trim_chars(&pieces[i]);
        if t.len() > 0 {
            let ghost before = strs(out@);
            let s = string_of(&t);
            out.push(s);
            proof {
                assert(strs(out@) =~= before.push(t@));
            }
        }
        i = i + 1;
    }
    proof {
        assert(seqs(pieces@).take(n as int) =~= seqs(pieces@));
    }
    out
}

/// Parse `/etc/group` into `(group, gid, members)`. The member list is the
/// supplementary membership only: an account whose primary gid is the group
/// does not appear in it.
pub fn parse_group(text: &str) -> (r: Vec<(String, u32, Vec<String>)>)
    ensures
        group_views(r@) == parse_group_spec(text@),
{
    let ls = lines_of(&chars_of(text));
    let mut out: Vec<(String, u32, Vec<String>)> = Vec::new();
    let n = ls.len();
    let mut i: usize = 0;
    while i < n
        invariant
            i <= n == ls.len(),
            group_views(out@) == filter_map(seqs(ls@).take(i as int), |l: Seq<char>| group_record(l)),
        decreases n - i,
    {
        proof {
            assert(seqs(ls@).take(i + 1).drop_last() =~= seqs(ls@).take(i as int));
        }
        let line = &ls[i];
        if is_record_line(line) {
            let f = split_of(line, ':');
            if f.len() >= 4 {
                let members = member_list_exec(&f[3]);
                match parse_u32(&f[2]) {
                    Some(gid) => {
                        let ghost before = group_views(out@);
                        let g = (string_of(&f[0]), gid, members);
                        out.push(g);
                        proof {
                            assert(group_views(out@) =~= before.push(group_view(g)));
                        }
                    },
                    None => {},
                }
            }
        }
        i = i + 1;
    }
    proof {
        assert(seqs(ls@).take(n as int) =~= seqs(ls@));
    }
    out
}

/// The state a shadow hash field represents.
pub open spec fn classify_hash_spec(hash: Seq<char>) -> Seq<char> {
    if hash.len() == 0 {
        "no password"@
    } else if hash == "*"@ || (hash.len() > 0 && hash[0] == '!') {
        "locked"@
    } else {
        "set"@
    }
}

/// Turn a shadow hash field into the state it represents: an empty field is a
/// passwordless account (the worst finding on an image), `!`, `!!`, `*` and
/// any `!`-prefixed hash are locked, anything else is a set password.
pub fn classify_hash(hash: &str) -> (r: String)
    ensures
        r@ == classify_hash_spec(hash@),
{
    let h = chars_of(hash);
    if h.len() == 0 {
        String::from_str("no password")
    } else if eq_chars(&h, &chars_of("*")) || h[0] == '!' {
        String::from_str("locked")
    } else {
        String::from_str("set")
    }
}


/// The first line of `ls`, at or after `k`, whose text before its first
/// colon is `name`, with what follows that colon.
pub open spec fn shadow_rest(ls: Seq<Seq<char>>, name: Seq<char>, k: nat) -> Option<Seq<char>>
    decreases ls.len() - k,
{
    if k >= ls.len() {
        None
    } else {
        match split_once(ls[k as int], ':') {
            Some((n, rest)) => if n == name {
                Some(rest)
            } else {
                shadow_rest(ls, name, k + 1)
            },
            None => shadow_rest(ls, name, k + 1),
        }
    }
}

/// The password state of an account, from the text of `/etc/shadow`: the
/// hash field of its record, classified. An account with no record has none.
pub open spec fn password_state_spec(shadow: Seq<char>, name: Seq<char>) -> Option<Seq<char>> {
    match shadow_rest(lines(shadow), name, 0) {
        Some(rest) => Some(classify_hash_spec(split(rest, ':')[0])),
        None => None,
    }
}

pub fn password_state_in(shadow: &str, name: &str) -> (r: Option<String>)
    ensures
        match r {
            Some(s) => password_state_spec(shadow@, name@) == Some(s@),
            None => password_state_spec(shadow@, name@) is None,
        },
{
    let tv = chars_of(shadow);
    let nv = chars_of(name);
    let ls = lines_of(&tv);
    let ghost all = seqs(ls@);
    let n = ls.len();
    let mut k: usize = 0;
    while k < n
        invariant
            k <= n == ls.len(),
            all == seqs(ls@),
            all == lines(shadow@),
            nv@ == name@,
            shadow_rest(all, name@, 0) == shadow_rest(all, name@, k as nat),
        decreases n - k,
    {
        match split_once_chars(&ls[k], ':') {
            Some((field, rest)) => {
                if eq_chars(&field, &nv) {
                    let pieces = split_of(&rest, ':');
                    proof {
                        assert(seqs(pieces@).len() > 0);
                    }
                    let hash = string_of(&pieces[0]);
                    return Some(classify_hash(hash.as_str()));
                }
            },
            None => {},
        }
        k = k + 1;
    }
    None
}

/// A shadow field, or `-1` where the field is empty.
pub open spec fn field_or_unset(f: Seq<char>) -> Seq<char> {
    if f.len() == 0 {
        "-1"@
    } else {
        f
    }
}

/// The first line of `ls`, at or after `k`, that starts with `prefix`.
pub open spec fn first_with_prefix(ls: Seq<Seq<char>>, prefix: Seq<char>, k: nat) -> Option<
    Seq<char>,
>
    decreases ls.len() - k,
{
    if k >= ls.len() {
        None
    } else if starts_with(ls[k as int], prefix) {
        Some(ls[k as int])
    } else {
        first_with_prefix(ls, prefix, k + 1)
    }
}

/// An account's `max/min/warn` ageing values, from the text of `/etc/shadow`
/// (`name:hash:lastchange:min:max:warn:...`); an empty field reads `-1`.
pub open spec fn ageing_spec(shadow: Seq<char>, name: Seq<char>) -> Option<Seq<char>> {
    match first_with_prefix(lines(shadow), name + ":"@, 0) {
        Some(line) => {
            let f = split(line, ':');
            if f.len() < 6 {
                None
            } else {
                Some(
                    field_or_unset(f[4]) + "/"@ + field_or_unset(f[3]) + "/"@ + field_or_unset(
                        f[5],
                    ),
                )
            }
        },
        None => None,
    }
}

fn field_or_unset_exec(f: &Vec<char>) -> (r: Vec<char>)
    ensures
        r@ == field_or_unset(f@),
{
    if f.len() == 0 {
        chars_of("-1")
    } else {
        slice(f, 0, f.len())
    }
}

pub fn ageing_in(shadow: &str, name: &str) -> (r: Option<String>)
    ensures
        match r {
            Some(s) => ageing_spec(shadow@, name@) == Some(s@),
            None => ageing_spec(shadow@, name@) is None,
        },
{
    let tv = chars_of(shadow);
    let prefix = concat_str(&chars_of(name), ":");
    let ls = lines_of(&tv);
    let ghost all = seqs(ls@);
    let n = ls.len();
    let mut k: usize = 0;
    while k < n
        invariant
            k <= n == ls.len(),
            all == seqs(ls@),
            all == lines(shadow@),
            prefix@ == name@ + ":"@,
            first_with_prefix(all, prefix@, 0) == first_with_prefix(all, prefix@, k as nat),
        decreases n - k,
    {
        if crate::text::starts_with_chars(&ls[k], &prefix) {
            let f = split_of(&ls[k], ':');
            if f.len() < 6 {
                return None;
            }
            let mut v = field_or_unset_exec(&f[4]);
            v = concat_str(&v, "/");
            v = concat_chars(&v, &field_or_unset_exec(&f[3]));
            v = concat_str(&v, "/");
            v = concat_chars(&v, &field_or_unset_exec(&f[5]));
            return Some(string_of(&v));
        }
        k = k + 1;
    }
    None
}

/// The `max/min/warn` text an account reads as once its ageing is set.
pub open spec fn ageing_target_spec(max_days: u32, min_days: u32, warn_days: u32) -> Seq<char> {
    decimal_string(max_days as nat) + "/"@ + decimal_string(min_days as nat) + "/"@
        + decimal_string(warn_days as nat)
}

pub fn ageing_target(max_days: u32, min_days: u32, warn_days: u32) -> (r: String)
    ensures
        r@ == ageing_target_spec(max_days, min_days, warn_days),
{
    let mut v = decimal_of(max_days as u64);
    v = concat_str(&v, "/");
    v = concat_chars(&v, &decimal_of(min_days as u64));
    v = concat_str(&v, "/");
    v = concat_chars(&v, &decimal_of(warn_days as u64));
    string_of(&v)
}

/// Why an account may not be deleted, if it may not: a system account is
/// never removed, whatever the README says.
pub open spec fn deletion_refusal_spec(name: Seq<char>) -> Option<Seq<char>> {
    if is_system_account_spec(name) {
        Some(name + " is a system account and is never removed"@)
    } else {
        None
    }
}

/// The guard that runs before any account is deleted.
pub fn deletion_refusal(name: &str) -> (r: Option<String>)
    ensures
        match r {
            Some(s) => deletion_refusal_spec(name@) == Some(s@),
            None => deletion_refusal_spec(name@) is None,
        },
{
    if is_system_account(name) {
        let v = concat_str(&chars_of(name), " is a system account and is never removed");
        Some(string_of(&v))
    } else {
        None
    }
}

} // verus!

verus! {

/// Does the group file define a group of this name?
pub open spec fn has_group(groups: Seq<(Seq<char>, u32, Seq<Seq<char>>)>, name: Seq<char>) -> bool {
    exists|g: int| 0 <= g < groups.len() && #[trigger] groups[g].0 == name
}

/// The first of [`ADMIN_GROUPS`] from position `k` on that the group file
/// defines, or `sudo`.
pub open spec fn admin_group_from(groups: Seq<(Seq<char>, u32, Seq<Seq<char>>)>, k: int) -> Seq<char>
    decreases 3 - k,
{
    if k < 0 || k >= 3 {
        "sudo"@
    } else if has_group(groups, crate::knowledge::ADMIN_GROUPS@[k]@) {
        crate::knowledge::ADMIN_GROUPS@[k]@
    } else {
        admin_group_from(groups, k + 1)
    }
}

/// The administrative group of an image, given its group file: the first of
/// [`ADMIN_GROUPS`] that exists, or `sudo`. Adding a user to a `wheel` group
/// that no `sudoers` rule names grants nothing while seeming to have worked.
pub fn admin_group_in(group_text: &str) -> (r: &'static str)
    ensures
        r@ == admin_group_from(parse_group_spec(group_text@), 0),
{
    let groups = parse_group(group_text);
    let ghost gs = group_views(groups@);
    let mut k: usize = 0;
    while k < 3
        invariant
            k <= 3,
            gs == group_views(groups@),
            gs == parse_group_spec(group_text@),
            admin_group_from(gs, 0) == admin_group_from(gs, k as int),
        decreases 3 - k,
    {
        let candidate = chars_of(crate::knowledge::ADMIN_GROUPS[k]);
        let mut g: usize = 0;
        while g < groups.len()
            invariant
                g <= groups@.len(),
                k < 3,
                gs == group_views(groups@),
                gs == parse_group_spec(group_text@),
                admin_group_from(gs, 0) == admin_group_from(gs, k as int),
                candidate@ == crate::knowledge::ADMIN_GROUPS@[k as int]@,
                forall|i: int| 0 <= i < g ==> #[trigger] gs[i].0 != candidate@,
            decreases groups@.len() - g,
        {
            if eq_chars(&chars_of(groups[g].0.as_str()), &candidate) {
                proof {
                    assert(gs[g as int].0 == candidate@);
                    assert(has_group(gs, candidate@));
                }
                return crate::knowledge::ADMIN_GROUPS[k];
            }
            g = g + 1;
        }
        proof {
            assert(!has_group(gs, candidate@));
        }
        k = k + 1;
    }
    proof {
        reveal_strlit("sudo");
    }
    "sudo"
}

} // verus!
