//! Accounts that can be abused without being unauthorised: a second uid 0,
//! a service account given a login shell, a human account with no password,
//! and password ageing.
use vstd::prelude::*;
use crate::task::Task;
use crate::text::{decimal_string, format_counts, interleave, views};
use crate::text::{chars_of, concat_str, eq_chars, filter_map, join, join_strings, string_of, strs};
use crate::user_ops::{
    account_views, is_human_spec, is_nologin_spec, is_system_account, is_system_account_spec,
    Account, AccountView,
};

verus! {

/// The longest a password may be kept, in days.
pub const MAX_DAYS: u32 = 90;

/// The shortest time between password changes, in days.
pub const MIN_DAYS: u32 = 7;

/// How long before expiry the user is warned, in days.
pub const WARN_DAYS: u32 = 14;

pub struct AccountPermissionsTask {
    pub name: String,
    pub description: String,
    pub dry_run: bool,
}

impl AccountPermissionsTask {
    pub fn new() -> (t: Self)
        ensures
            t.name@ == "Account Permissions"@,
            t.description@ == "Passwordless logins, duplicate root, password ageing"@,
            !t.dry_run,
    {
        AccountPermissionsTask {
            name: String::from_str("Account Permissions"),
            description: String::from_str("Passwordless logins, duplicate root, password ageing"),
            dry_run: false,
        }
    }
}

impl Default for AccountPermissionsTask {
    fn default() -> (t: Self)
        ensures
            t.name@ == "Account Permissions"@,
            t.description@ == "Passwordless logins, duplicate root, password ageing"@,
            !t.dry_run,
    {
        Self::new()
    }
}

pub open spec fn duplicate_superusers_spec(accounts: Seq<AccountView>) -> Seq<Seq<char>> {
    filter_map(
        accounts,
        |a: AccountView|
            if a.uid == 0 && a.name != "root"@ {
                Some(a.name)
            } else {
                None
            },
    )
}

/// The accounts other than `root` with uid 0: superusers `sudo` never logs.
pub fn duplicate_superusers(accounts: &[Account]) -> (r: Vec<String>)
    ensures
        strs(r@) == duplicate_superusers_spec(account_views(accounts@)),
{
    let root = chars_of("root");
    let mut out: Vec<String> = Vec::new();
    let n = accounts.len();
    let mut i: usize = 0;
    while i < n
        invariant
            i <= n == accounts@.len(),
            root@ == "root"@,
            strs(out@) == duplicate_superusers_spec(account_views(accounts@).take(i as int)),
        decreases n - i,
    {
        let ghost av = account_views(accounts@);
        proof {
            assert(av.take(i + 1).drop_last() =~= av.take(i as int));
            assert(av.take(i + 1).last() == accounts@[i as int]@);
        }
        let a = &accounts[i];
        if a.uid == 0 && !eq_chars(&chars_of(a.name.as_str()), &root) {
            let s = string_of(&chars_of(a.name.as_str()));
            let ghost before = strs(out@);
            out.push(s);
            proof {
                assert(strs(out@) =~= before.push(a.name@));
            }
        }
        i = i + 1;
    }
    proof {
        assert(account_views(accounts@).take(n as int) =~= account_views(accounts@));
    }
    out
}

pub open spec fn service_accounts_with_shells_spec(accounts: Seq<AccountView>) -> Seq<Seq<char>> {
    filter_map(
        accounts,
        |a: AccountView|
            if !is_human_spec(a) && a.name != "root"@ && !is_nologin_spec(a.shell)
                && is_system_account_spec(a.name) {
                Some(a.name)
            } else {
                None
            },
    )
}

/// The system accounts, other than `root`, that were given a shell that lets
/// them log in.
pub fn service_accounts_with_shells(accounts: &[Account]) -> (r: Vec<String>)
    ensures
        strs(r@) == service_accounts_with_shells_spec(account_views(accounts@)),
{
    let root = chars_of("root");
    let mut out: Vec<String> = Vec::new();
    let n = accounts.len();
    let mut i: usize = 0;
    while i < n
        invariant
            i <= n == accounts@.len(),
            root@ == "root"@,
            strs(out@) == service_accounts_with_shells_spec(
                account_views(accounts@).take(i as int),
            ),
        decreases n - i,
    {
        let ghost av = account_views(accounts@);
        proof {
            assert(av.take(i + 1).drop_last() =~= av.take(i as int));
            assert(av.take(i + 1).last() == accounts@[i as int]@);
        }
        let a = &accounts[i];
        if !a.is_human() && !eq_chars(&chars_of(a.name.as_str()), &root) && a.can_log_in()
            && is_system_account(a.name.as_str()) {
            let s = string_of(&chars_of(a.name.as_str()));
            let ghost before = strs(out@);
            out.push(s);
            proof {
                assert(strs(out@) =~= before.push(a.name@));
            }
        }
        i = i + 1;
    }
    proof {
        assert(account_views(accounts@).take(n as int) =~= account_views(accounts@));
    }
    out
}

} // verus!

verus! {

impl Task for AccountPermissionsTask {
    fn name(&self) -> (r: &str)
        ensures
            r@ == self.name@,
    {
        self.name.as_str()
    }

    fn description(&self) -> (r: &str)
        ensures
            r@ == self.description@,
    {
        self.description.as_str()
    }

    fn dry_run(&self) -> (b: bool)
        ensures
            b == self.dry_run,
    {
        self.dry_run
    }

    /// Only the flag changes.
    fn set_dry_run(&mut self, value: bool)
        ensures
            *final(self) == (AccountPermissionsTask { dry_run: value, ..*old(self) }),
    {
        self.dry_run = value;
    }
}

} // verus!

verus! {

/// What a dry run reports.
pub fn dry_run_message(passwordless: usize, aged: usize) -> (r: String)
    ensures
        r@ == "DRY RUN: would lock "@ + decimal_string(passwordless as nat)
            + " passwordless accounts and age "@ + decimal_string(aged as nat) + " accounts."@,
{
    let parts = ["DRY RUN: would lock ", " passwordless accounts and age ", " accounts."];
    let r = format_counts(&parts, &[passwordless, aged]);
    proof {
        reveal_with_fuel(interleave, 3);
        assert(views(parts@) =~= seq![parts[0]@, parts[1]@, parts[2]@]);
    }
    r
}

} // verus!

verus! {

/// What a finished run reports.
pub fn summary_message(passwordless: usize, aged: usize, findings: usize) -> (r: String)
    ensures
        r@ == decimal_string(passwordless as nat) + " passwordless accounts locked, "@ + decimal_string(aged as nat) + " accounts aged; "@ + decimal_string(findings as nat) + " findings reported."@,
{
    let parts = ["", " passwordless accounts locked, ", " accounts aged; ", " findings reported."];
    let r = format_counts(&parts, &[passwordless, aged, findings]);
    proof {
        reveal_strlit("");
        reveal_with_fuel(interleave, 4);
        assert(crate::text::views(parts@) =~= seq![parts[0]@, parts[1]@, parts[2]@, parts[3]@]);
        assert(Seq::<char>::empty() + r@ =~= r@);
    }
    r
}


/// What the uid-0 finding records: that no other account has uid 0, or which
/// do and why they are left alone.
pub fn uid_zero_evidence(doubles: &Vec<String>) -> (r: String)
    ensures
        r@ == if doubles@.len() == 0 {
            "no other account shares uid 0"@
        } else {
            join(strs(doubles@), ", "@)
                + " also has uid 0; left in place deliberately, since removing the only usable login would end the round"@
        },
{
    if doubles.len() == 0 {
        String::from_str("no other account shares uid 0")
    } else {
        let joined = join_strings(doubles, ", ");
        let tail = " also has uid 0; left in place deliberately, since removing the only usable login would end the round";
        let v = concat_str(&chars_of(joined.as_str()), tail);
        string_of(&v)
    }
}

/// What the login-shell finding records: that every system account is
/// barred from logging in, or which are not.
pub fn shell_evidence(shells: &Vec<String>) -> (r: String)
    ensures
        r@ == if shells@.len() == 0 {
            "every system account has nologin or false as its shell"@
        } else {
            join(strs(shells@), ", "@) + " can log in"@
        },
{
    if shells.len() == 0 {
        String::from_str("every system account has nologin or false as its shell")
    } else {
        let joined = join_strings(shells, ", ");
        string_of(&concat_str(&chars_of(joined.as_str()), " can log in"))
    }
}


pub open spec fn human_name(a: AccountView) -> Option<Seq<char>> {
    if is_human_spec(a) {
        Some(a.name)
    } else {
        None
    }
}

/// The human accounts, by name, in the order given: only these are locked
/// or given password ageing; system accounts are left alone.
pub fn human_names(accounts: &[Account]) -> (r: Vec<String>)
    ensures
        strs(r@) == filter_map(account_views(accounts@), |a: AccountView| human_name(a)),
{
    let ghost av = account_views(accounts@);
    let ghost f = |a: AccountView| human_name(a);
    let mut out: Vec<String> = Vec::new();
    let mut i: usize = 0;
    while i < accounts.len()
        invariant
            i <= accounts@.len(),
            av == account_views(accounts@),
            f == (|a: AccountView| human_name(a)),
            strs(out@) == filter_map(av.take(i as int), f),
        decreases accounts@.len() - i,
    {
        proof {
            assert(av.take(i as int + 1).drop_last() =~= av.take(i as int));
            assert(av.take(i as int + 1).last() == accounts@[i as int]@);
        }
        if accounts[i].is_human() {
            let name = accounts[i].name.clone();
            let ghost before = strs(out@);
            out.push(name);
            proof {
                assert(strs(out@) =~= before.push(accounts@[i as int].name@));
            }
        }
        i = i + 1;
    }
    proof {
        assert(av.take(accounts@.len() as int) =~= av);
    }
    out
}

/// What `password_state` reports of an account with no password.
pub const NO_PASSWORD: &'static str = "no password";

pub open spec fn lock_entry(name: Seq<char>, state: Option<Seq<char>>) -> Option<Seq<char>> {
    if state == Some(NO_PASSWORD@) {
        Some(name)
    } else {
        None
    }
}

pub open spec fn opt_seq(o: Option<String>) -> Option<Seq<char>> {
    match o {
        Some(s) => Some(s@),
        None => None,
    }
}

/// The accounts to lock: of the human accounts `names`, those whose
/// password state, read in the same order into `states`, is that they have
/// no password at all.
pub fn accounts_to_lock(names: &Vec<String>, states: &Vec<Option<String>>) -> (r: Vec<String>)
    requires
        names@.len() == states@.len(),
    ensures
        strs(r@) == filter_map(
            Seq::new(names@.len(), |i: int| (names@[i]@, opt_seq(states@[i]))),
            |p: (Seq<char>, Option<Seq<char>>)| lock_entry(p.0, p.1),
        ),
{
    let ghost z = Seq::new(names@.len(), |i: int| (names@[i]@, opt_seq(states@[i])));
    let ghost f = |p: (Seq<char>, Option<Seq<char>>)| lock_entry(p.0, p.1);
    let marker = chars_of(NO_PASSWORD);
    let mut out: Vec<String> = Vec::new();
    let mut i: usize = 0;
    while i < names.len()
        invariant
            i <= names@.len() == states@.len(),
            marker@ == NO_PASSWORD@,
            z == Seq::new(names@.len(), |i: int| (names@[i]@, opt_seq(states@[i]))),
            f == (|p: (Seq<char>, Option<Seq<char>>)| lock_entry(p.0, p.1)),
            strs(out@) == filter_map(z.take(i as int), f),
        decreases names@.len() - i,
    {
        proof {
            assert(z.take(i as int + 1).drop_last() =~= z.take(i as int));
            assert(z.take(i as int + 1).last() == z[i as int]);
        }
        let locked = match &states[i] {
            Some(st) => eq_chars(&chars_of(st.as_str()), &marker),
            None => false,
        };
        if locked {
            let name = names[i].clone();
            let ghost before = strs(out@);
            out.push(name);
            proof {
                assert(strs(out@) =~= before.push(names@[i as int]@));
            }
        }
        i = i + 1;
    }
    proof {
        assert(z.take(names@.len() as int) =~= z);
    }
    out
}

} // verus!
