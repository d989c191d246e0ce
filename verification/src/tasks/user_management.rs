//! Accounts against the README: who is authorised, who is an administrator,
//! which accounts are surplus, and which published passwords are too weak to
//! keep. System accounts are never surplus, and the primary user's password
//! is never reset.
use vstd::prelude::*;
use crate::task::{Outcome, Task};
use crate::text::{format_counts, interleave};
use crate::knowledge::{ADMIN_GROUPS, SYSTEM_ACCOUNTS};
use crate::models::{details_of, opt_view, AuthorizedUser, GroupRequirement, ReadmeData, TaskResult};
use crate::ordered::{sorted_strict, sorted_unique};
use crate::text::{
    alphanumeric, any_ci, any_ci_exec, append_all, chars_all, chars_of, concat_str, decimal_of,
    decimal_string, eq_chars, eq_ignore_case, eq_ignore_case_chars, filter_map, lemma_filter_map_append, lemma_filter_map_keeps, is_alphanumeric,
    is_lowercase, is_numeric, is_uppercase, lemma_filter_map_source, lowercase, lowercase_char, lowercase_chars,
    numeric_char, seqs, string_of, strings_of, strs, uppercase_char, views,
};
use crate::user_ops::{
    account_views, is_human_spec, is_system_account, is_system_account_spec, Account, AccountView,
};

verus! {

/// Strong passwords handed to accounts the run creates or resets, in turn.
pub const SECURE_PASSWORDS: [&'static str; 10] = [
    "A9!vX2#rT7$wQ4@eLp6^zM8&bN0Yj5uH3sK1oF",
    "Zx7!Qw2@Er5#Ty8$Ui3%Op6^As9&Df0Gh4(Jk1)L",
    "P0!lK9@mJ8#hG7$fD6%sA5^qW4&eR3tT2(yU1)iO",
    "Vb6!Nn5@Mm4#Ll3$Kk2%Jj1^Hh0&Gg9Ff8(Dd7)S",
    "C3!vB2@nM1#bN0$mL9%kJ8^hG7&fD6sA5(qW4)E",
    "R4!tY3@uI2#oP1$pA0%sD9^fG8&hJ7kL6(lZ5)X",
    "W5!eR4@tT3#yU2$uI1%oP0^aS9&dF8gH7(jK6)L",
    "Q6!wE5@rT4#yU3$uI2%oP1^aS0&dF9gH8(jK7)L",
    "M7!nB6@vC5#xZ4$cV3%bN2^mL1&kJ0hG9(fD8)S",
    "S8!dF7@gH6#jK5$lZ4%xC3^vB2&nM1bN0(mL9)K",
];

/// The fewest characters a password may have.
pub const MIN_PASSWORD_LENGTH: usize = 12;

pub struct UserManagementTask {
    pub name: String,
    pub description: String,
    pub dry_run: bool,
    pub readme_data: Option<ReadmeData>,
}

impl UserManagementTask {
    pub fn new() -> (t: Self)
        ensures
            t.name@ == "User Management"@,
            t.description@ == "Create, remove and correct user accounts"@,
            !t.dry_run,
            t.readme_data is None,
    {
        UserManagementTask {
            name: String::from_str("User Management"),
            description: String::from_str("Create, remove and correct user accounts"),
            dry_run: false,
            readme_data: None,
        }
    }

    pub fn set_readme_data(&mut self, data: ReadmeData)
        ensures
            final(self).readme_data == Some(data),
            final(self).name == old(self).name,
            final(self).description == old(self).description,
            final(self).dry_run == old(self).dry_run,
    {
        self.readme_data = Some(data);
    }
}

impl Default for UserManagementTask {
    fn default() -> (t: Self)
        ensures
            t.name@ == "User Management"@,
            t.description@ == "Create, remove and correct user accounts"@,
            !t.dry_run,
            t.readme_data is None,
    {
        Self::new()
    }
}

/// `n` written with at least two digits, as `{n:02}` writes it.
pub open spec fn two_digits(n: nat) -> Seq<char> {
    let d = decimal_string(n);
    if d.len() < 2 {
        seq!['0'] + d
    } else {
        d
    }
}

pub open spec fn generate_password_spec(index: usize) -> Seq<char> {
    SECURE_PASSWORDS@[(index % 10) as int]@ + "#"@ + two_digits(index as nat)
}

/// The password given to the `index`th account created or reset: an entry
/// of the table in turn, suffixed with the index so that no two repeat.
pub fn generate_password(index: usize) -> (r: String)
    ensures
        r@ == generate_password_spec(index),
{
    proof {
        reveal_strlit("0");
    }
    let mut v = chars_of(SECURE_PASSWORDS[index % 10]);
    v = concat_str(&v, "#");
    let d = decimal_of(index as u64);
    if d.len() < 2 {
        v = concat_str(&v, "0");
    }
    crate::text::extend(&mut v, &d);
    proof {
        assert(v@ =~= generate_password_spec(index));
    }
    string_of(&v)
}

/// Long enough, and with an upper-case letter, a lower-case letter, a digit
/// and a symbol (anything neither alphabetic nor numeric).
pub open spec fn is_secure_spec(p: Seq<char>) -> bool {
    p.len() >= MIN_PASSWORD_LENGTH && (exists|i: int| 0 <= i < p.len() && uppercase_char(
        #[trigger] p[i],
    )) && (exists|i: int| 0 <= i < p.len() && lowercase_char(#[trigger] p[i])) && (exists|i: int|
        0 <= i < p.len() && numeric_char(#[trigger] p[i])) && (exists|i: int|
        0 <= i < p.len() && !alphanumeric(#[trigger] p[i]))
}

/// Is a README-published password strong enough to keep? Judged on length
/// and character classes, which is what the scoring key judges it on.
pub fn is_secure_password(password: &str) -> (b: bool)
    ensures
        b == is_secure_spec(password@),
{
    let p = chars_of(password);
    if p.len() < MIN_PASSWORD_LENGTH {
        return false;
    }
    let mut upper = false;
    let mut lower = false;
    let mut digit = false;
    let mut symbol = false;
    let n = p.len();
    let mut i: usize = 0;
    while i < n
        invariant
            i <= n == p.len(),
            p@ == password@,
            upper == exists|k: int| 0 <= k < i && uppercase_char(#[trigger] p@[k]),
            lower == exists|k: int| 0 <= k < i && lowercase_char(#[trigger] p@[k]),
            digit == exists|k: int| 0 <= k < i && numeric_char(#[trigger] p@[k]),
            symbol == exists|k: int| 0 <= k < i && !alphanumeric(#[trigger] p@[k]),
        decreases n - i,
    {
        let c = p[i];
        if is_uppercase(c) {
            upper = true;
        }
        if is_lowercase(c) {
            lower = true;
        }
        if is_numeric(c) {
            digit = true;
        }
        if !is_alphanumeric(c) {
            symbol = true;
        }
        i = i + 1;
    }
    upper && lower && digit && symbol
}

/// Every account the README names: administrators, then users.
pub open spec fn named_accounts(r: ReadmeData) -> Seq<AuthorizedUser> {
    r.administrators@ + r.users@
}

/// A non-primary account whose published password is weak, by name.
pub open spec fn weak_entry(u: AuthorizedUser) -> Option<Seq<char>> {
    if !u.is_primary_user && match u.password {
        Some(p) => !is_secure_spec(p@),
        None => false,
    } {
        Some(u.username@)
    } else {
        None
    }
}

pub open spec fn weak_spec(r: ReadmeData) -> Seq<Seq<char>> {
    filter_map(named_accounts(r), |u: AuthorizedUser| weak_entry(u))
}

/// The accounts whose README-published password is too weak to keep. The
/// primary user, whose password the README says not to change, is never
/// among them; nor is an account the README gives no password.
pub fn accounts_with_weak_passwords(readme: &ReadmeData) -> (r: Vec<String>)
    ensures
        strs(r@) == weak_spec(*readme),
{
    let mut out: Vec<String> = Vec::new();
    push_weak(&mut out, &readme.administrators);
    push_weak(&mut out, &readme.users);
    proof {
        lemma_filter_map_append(
            readme.administrators@,
            readme.users@,
            |u: AuthorizedUser| weak_entry(u),
        );
    }
    out
}

fn push_weak(out: &mut Vec<String>, v: &Vec<AuthorizedUser>)
    ensures
        strs(final(out)@) == strs(old(out)@) + filter_map(v@, |u: AuthorizedUser| weak_entry(u)),
{
    let ghost start = strs(out@);
    let n = v.len();
    let mut i: usize = 0;
    while i < n
        invariant
            i <= n == v.len(),
            strs(out@) == start + filter_map(v@.take(i as int), |u: AuthorizedUser| weak_entry(u)),
        decreases n - i,
    {
        proof {
            assert(v@.take(i + 1).drop_last() =~= v@.take(i as int));
            assert(v@.take(i + 1).last() == v@[i as int]);
        }
        let u = &v[i];
        if !u.is_primary_user {
            match &u.password {
                Some(p) => {
                    if !is_secure_password(p.as_str()) {
                        let s = string_of(&chars_of(u.username.as_str()));
                        let ghost before = strs(out@);
                        out.push(s);
                        proof {
                            assert(strs(out@) =~= before.push(u.username@));
                        }
                    }
                },
                None => {},
            }
        }
        i = i + 1;
    }
    proof {
        assert(v@.take(n as int) =~= v@);
    }
}

/// Who the README authorises, lowercased, each once and in order; who of
/// them is an administrator; and the accounts it asks to be created.
pub struct Authorised {
    pub everyone: Vec<String>,
    pub admins: Vec<String>,
    pub to_create: Vec<String>,
}

pub open spec fn usernames(v: Seq<AuthorizedUser>) -> Seq<Seq<char>> {
    v.map_values(|u: AuthorizedUser| u.username@)
}

/// The members of the groups, group by group.
pub open spec fn all_members(groups: Seq<GroupRequirement>) -> Seq<Seq<char>>
    decreases groups.len(),
{
    if groups.len() == 0 {
        seq![]
    } else {
        all_members(groups.drop_last()) + strs(groups.last().members@)
    }
}

/// The members of the groups that grant administrative rights.
pub open spec fn admin_members(groups: Seq<GroupRequirement>) -> Seq<Seq<char>>
    decreases groups.len(),
{
    if groups.len() == 0 {
        seq![]
    } else {
        admin_members(groups.drop_last()) + if any_ci(
            views(ADMIN_GROUPS@),
            groups.last().group_name@,
        ) {
            strs(groups.last().members@)
        } else {
            seq![]
        }
    }
}

pub open spec fn lowered(v: Seq<Seq<char>>) -> Seq<Seq<char>> {
    v.map_values(|s: Seq<char>| lowercase(s))
}

/// Everyone the README names: administrators, users, accounts to create and
/// group members.
pub open spec fn everyone_names(r: ReadmeData) -> Seq<Seq<char>> {
    usernames(r.administrators@) + usernames(r.users@) + strs(r.users_to_create@) + all_members(
        r.group_requirements@,
    )
}

/// The administrators: those listed as such, and the members of an
/// administrative group.
pub open spec fn admin_names(r: ReadmeData) -> Seq<Seq<char>> {
    usernames(r.administrators@) + admin_members(r.group_requirements@)
}

fn push_lowered_users(out: &mut Vec<Vec<char>>, v: &Vec<AuthorizedUser>)
    ensures
        seqs(final(out)@) == seqs(old(out)@) + lowered(usernames(v@)),
{
    let ghost start = seqs(out@);
    let n = v.len();
    let mut i: usize = 0;
    while i < n
        invariant
            i <= n == v.len(),
            seqs(out@) == start + lowered(usernames(v@)).take(i as int),
        decreases n - i,
    {
        let ghost before = seqs(out@);
        out.push(lowercase_chars(&chars_of(v[i].username.as_str())));
        proof {
            assert(seqs(out@) =~= before.push(lowered(usernames(v@))[i as int]));
        }
        i = i + 1;
        proof {
            assert(seqs(out@) =~= start + lowered(usernames(v@)).take(i as int));
        }
    }
    proof {
        assert(lowered(usernames(v@)).take(n as int) =~= lowered(usernames(v@)));
    }
}

fn push_lowered(out: &mut Vec<Vec<char>>, v: &Vec<String>)
    ensures
        seqs(final(out)@) == seqs(old(out)@) + lowered(strs(v@)),
{
    let ghost start = seqs(out@);
    let n = v.len();
    let mut i: usize = 0;
    while i < n
        invariant
            i <= n == v.len(),
            seqs(out@) == start + lowered(strs(v@)).take(i as int),
        decreases n - i,
    {
        let ghost before = seqs(out@);
        out.push(lowercase_chars(&chars_of(v[i].as_str())));
        proof {
            assert(seqs(out@) =~= before.push(lowered(strs(v@))[i as int]));
        }
        i = i + 1;
        proof {
            assert(seqs(out@) =~= start + lowered(strs(v@)).take(i as int));
        }
    }
    proof {
        assert(lowered(strs(v@)).take(n as int) =~= lowered(strs(v@)));
    }
}

/// Who the README authorises. A user named only under a group is authorised,
/// and membership of an administrative group (`sudo`, `wheel`, `admin`)
/// grants administrative rights. Names are compared lowercased.
pub fn authorised_from(readme: &ReadmeData) -> (a: Authorised)
    ensures
        sorted_strict(strs(a.everyone@)),
        strs(a.everyone@).to_set() == lowered(everyone_names(*readme)).to_set(),
        sorted_strict(strs(a.admins@)),
        strs(a.admins@).to_set() == lowered(admin_names(*readme)).to_set(),
        strs(a.to_create@) == strs(readme.users_to_create@),
{
    let mut every: Vec<Vec<char>> = Vec::new();
    let mut admins: Vec<Vec<char>> = Vec::new();
    push_lowered_users(&mut every, &readme.administrators);
    push_lowered_users(&mut admins, &readme.administrators);
    push_lowered_users(&mut every, &readme.users);
    push_lowered(&mut every, &readme.users_to_create);
    let ghost every0 = seqs(every@);
    let ghost admins0 = seqs(admins@);
    let groups = &readme.group_requirements;
    let n = groups.len();
    let mut i: usize = 0;
    while i < n
        invariant
            i <= n == groups@.len(),
            seqs(every@) == every0 + lowered(all_members(groups@.take(i as int))),
            seqs(admins@) == admins0 + lowered(admin_members(groups@.take(i as int))),
        decreases n - i,
    {
        proof {
            assert(groups@.take(i + 1).drop_last() =~= groups@.take(i as int));
            assert(groups@.take(i + 1).last() == groups@[i as int]);
        }
        let g = &groups[i];
        push_lowered(&mut every, &g.members);
        if any_ci_exec(&ADMIN_GROUPS, &chars_of(g.group_name.as_str())) {
            push_lowered(&mut admins, &g.members);
        }
        i = i + 1;
        proof {
            let t = groups@.take(i as int);
            assert(lowered(all_members(t)) =~= lowered(all_members(t.drop_last())) + lowered(
                strs(t.last().members@),
            ));
            assert(seqs(every@) =~= every0 + lowered(all_members(t)));
            if any_ci(views(ADMIN_GROUPS@), t.last().group_name@) {
                assert(lowered(admin_members(t)) =~= lowered(admin_members(t.drop_last()))
                    + lowered(strs(t.last().members@)));
            } else {
                assert(admin_members(t) =~= admin_members(t.drop_last()));
            }
            assert(seqs(admins@) =~= admins0 + lowered(admin_members(t)));
        }
    }
    proof {
        assert(groups@.take(n as int) =~= groups@);
        assert(seqs(every@) =~= lowered(everyone_names(*readme)));
        assert(seqs(admins@) =~= lowered(admin_names(*readme)));
    }
    let e = sorted_unique(every);
    let ad = sorted_unique(admins);
    let to_create = strings_of(&chars_all(&readme.users_to_create));
    Authorised { everyone: strings_of(&e), admins: strings_of(&ad), to_create }
}

/// A human account the authorised names do not include (compared
/// lowercased), and that is not a system account.
pub open spec fn unauthorised_entry(a: AccountView, authorised: Seq<Seq<char>>) -> Option<
    Seq<char>,
> {
    if is_human_spec(a) && !authorised.contains(lowercase(a.name)) && !is_system_account_spec(
        a.name,
    ) {
        Some(a.name)
    } else {
        None
    }
}

pub open spec fn unauthorised_spec(present: Seq<AccountView>, authorised: Seq<Seq<char>>) -> Seq<
    Seq<char>,
> {
    filter_map(present, |a: AccountView| unauthorised_entry(a, authorised))
}

fn contains_chars_in(v: &Vec<Vec<char>>, x: &Vec<char>) -> (b: bool)
    ensures
        b == seqs(v@).contains(x@),
{
    let n = v.len();
    let mut i: usize = 0;
    while i < n
        invariant
            i <= n == v.len(),
            forall|k: int| 0 <= k < i ==> seqs(v@)[k] != x@,
        decreases n - i,
    {
        if eq_chars(&v[i], x) {
            assert(seqs(v@)[i as int] == x@);
            return true;
        }
        i = i + 1;
    }
    false
}

/// The human accounts present that the README does not authorise. A system
/// account is never among them, however short the README.
pub fn unauthorised(present: &[Account], authorised: &[String]) -> (r: Vec<String>)
    ensures
        strs(r@) == unauthorised_spec(account_views(present@), strs(authorised@)),
{
    let mut auth: Vec<Vec<char>> = Vec::new();
    let an = authorised.len();
    let mut j: usize = 0;
    while j < an
        invariant
            j <= an == authorised@.len(),
            seqs(auth@) == strs(authorised@).take(j as int),
        decreases an - j,
    {
        let ghost before = seqs(auth@);
        auth.push(chars_of(authorised[j].as_str()));
        proof {
            assert(seqs(auth@) =~= before.push(strs(authorised@)[j as int]));
        }
        j = j + 1;
        proof {
            assert(seqs(auth@) =~= strs(authorised@).take(j as int));
        }
    }
    proof {
        assert(strs(authorised@).take(an as int) =~= strs(authorised@));
    }
    let ghost av = account_views(present@);
    let mut out: Vec<String> = Vec::new();
    let n = present.len();
    let mut i: usize = 0;
    while i < n
        invariant
            i <= n == present@.len(),
            av == account_views(present@),
            seqs(auth@) == strs(authorised@),
            strs(out@) == filter_map(
                av.take(i as int),
                |a: AccountView| unauthorised_entry(a, strs(authorised@)),
            ),
        decreases n - i,
    {
        proof {
            assert(av.take(i + 1).drop_last() =~= av.take(i as int));
            assert(av.take(i + 1).last() == present@[i as int]@);
        }
        let a = &present[i];
        if a.is_human() && !contains_chars_in(&auth, &lowercase_chars(&chars_of(a.name.as_str())))
            && !is_system_account(a.name.as_str()) {
            let s = string_of(&chars_of(a.name.as_str()));
            let ghost before = strs(out@);
            out.push(s);
            proof {
                assert(strs(out@) =~= before.push(a.name@));
            }
        }
        i = i + 1;
    }
    proof {
        assert(av.take(n as int) =~= av);
    }
    out
}

/// Is there an account of that name, ASCII case aside?
pub open spec fn is_present(name: Seq<char>, present: Seq<AccountView>) -> bool {
    exists|k: int| 0 <= k < present.len() && eq_ignore_case(#[trigger] present[k].name, name)
}

fn is_present_exec(name: &Vec<char>, present: &[Account]) -> (b: bool)
    ensures
        b == is_present(name@, account_views(present@)),
{
    let n = present.len();
    let mut k: usize = 0;
    while k < n
        invariant
            k <= n == present@.len(),
            forall|m: int|
                0 <= m < k ==> !eq_ignore_case(#[trigger] account_views(present@)[m].name, name@),
        decreases n - k,
    {
        if eq_ignore_case_chars(&chars_of(present[k].name.as_str()), name) {
            assert(eq_ignore_case(account_views(present@)[k as int].name, name@));
            return true;
        }
        k = k + 1;
    }
    false
}

/// The names, in order, that are (`keep_present`) or are not present as
/// accounts, ASCII case aside.
pub open spec fn by_presence(names: Seq<Seq<char>>, present: Seq<AccountView>, keep_present: bool) -> Seq<
    Seq<char>,
> {
    filter_map(
        names,
        |n: Seq<char>|
            if is_present(n, present) == keep_present {
                Some(n)
            } else {
                None
            },
    )
}

fn filter_by_presence(names: &Vec<String>, present: &[Account], keep_present: bool) -> (r: Vec<
    String,
>)
    ensures
        strs(r@) == by_presence(strs(names@), account_views(present@), keep_present),
{
    let mut out: Vec<String> = Vec::new();
    let n = names.len();
    let mut i: usize = 0;
    while i < n
        invariant
            i <= n == names@.len(),
            strs(out@) == by_presence(
                strs(names@).take(i as int),
                account_views(present@),
                keep_present,
            ),
        decreases n - i,
    {
        proof {
            assert(strs(names@).take(i + 1).drop_last() =~= strs(names@).take(i as int));
            assert(strs(names@).take(i + 1).last() == names@[i as int]@);
        }
        let c = chars_of(names[i].as_str());
        if is_present_exec(&c, present) == keep_present {
            let ghost before = strs(out@);
            out.push(string_of(&c));
            proof {
                assert(strs(out@) =~= before.push(names@[i as int]@));
            }
        }
        i = i + 1;
    }
    proof {
        assert(strs(names@).take(n as int) =~= strs(names@));
    }
    out
}

/// The accounts the README asks for that do not exist yet.
pub fn missing_accounts(to_create: &Vec<String>, present: &[Account]) -> (r: Vec<String>)
    ensures
        strs(r@) == by_presence(strs(to_create@), account_views(present@), false),
{
    filter_by_presence(to_create, present, false)
}

/// The weak-password accounts that exist, whose passwords are to be reset.
pub fn present_accounts(names: &Vec<String>, present: &[Account]) -> (r: Vec<String>)
    ensures
        strs(r@) == by_presence(strs(names@), account_views(present@), true),
{
    filter_by_presence(names, present, true)
}

/// Current administrators the README does not make administrators: neither
/// among its administrators (lowercased) nor `root`.
pub open spec fn demote_spec(current: Seq<Seq<char>>, admins: Seq<Seq<char>>) -> Seq<Seq<char>> {
    filter_map(
        current,
        |a: Seq<char>|
            if admins.contains(lowercase(a)) || a == "root"@ {
                None
            } else {
                Some(a)
            },
    )
}

/// Which current administrators lose their administrative rights.
pub fn admins_to_demote(current: &Vec<String>, admins: &Vec<String>) -> (r: Vec<String>)
    ensures
        strs(r@) == demote_spec(strs(current@), strs(admins@)),
{
    let adm = chars_all(admins);
    let root = chars_of("root");
    let mut out: Vec<String> = Vec::new();
    let n = current.len();
    let mut i: usize = 0;
    while i < n
        invariant
            i <= n == current@.len(),
            seqs(adm@) == strs(admins@),
            root@ == "root"@,
            strs(out@) == demote_spec(strs(current@).take(i as int), strs(admins@)),
        decreases n - i,
    {
        proof {
            assert(strs(current@).take(i + 1).drop_last() =~= strs(current@).take(i as int));
            assert(strs(current@).take(i + 1).last() == current@[i as int]@);
        }
        let c = chars_of(current[i].as_str());
        if !(contains_chars_in(&adm, &lowercase_chars(&c)) || eq_chars(&c, &root)) {
            let ghost before = strs(out@);
            out.push(string_of(&c));
            proof {
                assert(strs(out@) =~= before.push(current@[i as int]@));
            }
        }
        i = i + 1;
    }
    proof {
        assert(strs(current@).take(n as int) =~= strs(current@));
    }
    out
}

/// A system account is never unauthorised, however short the README: every
/// name `unauthorised` gives is that of a human account present, not a
/// system account, and not among the authorised names.
pub proof fn law_system_accounts_never_unauthorised(
    present: Seq<AccountView>,
    authorised: Seq<Seq<char>>,
    k: int,
)
    requires
        0 <= k < unauthorised_spec(present, authorised).len(),
    ensures
        !is_system_account_spec(unauthorised_spec(present, authorised)[k]),
        !authorised.contains(lowercase(unauthorised_spec(present, authorised)[k])),
        exists|i: int|
            0 <= i < present.len() && #[trigger] present[i].name == unauthorised_spec(
                present,
                authorised,
            )[k] && is_human_spec(present[i]),
{
    let f = |a: AccountView| unauthorised_entry(a, authorised);
    lemma_filter_map_source(present, f, k);
    let i = choose|i: int| 0 <= i < present.len() && f(#[trigger] present[i]) == Some(filter_map(present, f)[k]);
    assert(present[i].name == unauthorised_spec(present, authorised)[k]);
}

/// The primary user's password is never reset: every name judged weak is
/// that of an account the README names, which is not the primary user, and
/// whose published password is not secure.
pub proof fn law_primary_password_never_reset(readme: ReadmeData, k: int)
    requires
        0 <= k < weak_spec(readme).len(),
    ensures
        exists|i: int|
            0 <= i < named_accounts(readme).len() && (#[trigger] named_accounts(readme)[i]).username@
                == weak_spec(readme)[k] && !named_accounts(readme)[i].is_primary_user
                && named_accounts(readme)[i].password is Some && !is_secure_spec(
                named_accounts(readme)[i].password.unwrap()@,
            ),
{
    let f = |u: AuthorizedUser| weak_entry(u);
    lemma_filter_map_source(named_accounts(readme), f, k);
}

} // verus!

verus! {

impl Task for UserManagementTask {
    fn name(&self) -> (r: &str)
        ensures
            r@ == self.name@,
    {
        self.name.as_str()
    }

    fn description(&self) -> (r: &str)
        ensures
            r@ == self.description@,
    {
        self.description.as_str()
    }

    fn dry_run(&self) -> (b: bool)
        ensures
            b == self.dry_run,
    {
        self.dry_run
    }

    /// Only the flag changes.
    fn set_dry_run(&mut self, value: bool)
        ensures
            *final(self) == (UserManagementTask { dry_run: value, ..*old(self) }),
    {
        self.dry_run = value;
    }
}

} // verus!

verus! {

/// What is reported when there is no README to go by.
pub const NO_README_MESSAGE: &'static str = "No README data provided; no accounts were changed.";

/// What a dry run reports.
pub fn dry_run_message(create: usize, remove: usize, reset: usize) -> (r: String)
    ensures
        r@ == "DRY RUN: would create "@ + decimal_string(create as nat) + ", remove "@ + decimal_string(remove as nat) + " and reset "@ + decimal_string(reset as nat) + " passwords."@,
{
    let parts = ["DRY RUN: would create ", ", remove ", " and reset ", " passwords."];
    let r = format_counts(&parts, &[create, remove, reset]);
    proof {
        reveal_with_fuel(interleave, 4);
        assert(crate::text::views(parts@) =~= seq![parts[0]@, parts[1]@, parts[2]@, parts[3]@]);
        assert(Seq::<char>::empty() + r@ =~= r@);
    }
    r
}

/// What a finished run reports.
pub fn summary_message(created: usize, removed: usize, reset: usize) -> (r: String)
    ensures
        r@ == "Created "@ + decimal_string(created as nat) + ", removed "@ + decimal_string(removed as nat) + ", reset "@ + decimal_string(reset as nat) + " passwords, corrected administrative rights."@,
{
    let parts = ["Created ", ", removed ", ", reset ", " passwords, corrected administrative rights."];
    let r = format_counts(&parts, &[created, removed, reset]);
    proof {
        reveal_with_fuel(interleave, 4);
        assert(crate::text::views(parts@) =~= seq![parts[0]@, parts[1]@, parts[2]@, parts[3]@]);
        assert(Seq::<char>::empty() + r@ =~= r@);
    }
    r
}

} // verus!

verus! {

/// One change a user-management run asks for.
#[derive(Clone, Debug, PartialEq, Eq)]
pub enum UserStep {
    /// Create the account.
    Create(String),
    /// Give the account just created its password.
    SetPassword(String, String),
    /// Put an administrator in the admin group, if the account exists.
    Grant(String),
    /// Take an account out of the admin group.
    Revoke(String),
    /// Replace a published password that is too weak.
    Reset(String, String),
    /// Remove an account the README does not list, keeping its home.
    Remove(String),
}

/// A [`UserStep`], with its strings as sequences.
pub enum UserStepView {
    Create(Seq<char>),
    SetPassword(Seq<char>, Seq<char>),
    Grant(Seq<char>),
    Revoke(Seq<char>),
    Reset(Seq<char>, Seq<char>),
    Remove(Seq<char>),
}

pub open spec fn step_view(s: UserStep) -> UserStepView {
    match s {
        UserStep::Create(u) => UserStepView::Create(u@),
        UserStep::SetPassword(u, p) => UserStepView::SetPassword(u@, p@),
        UserStep::Grant(u) => UserStepView::Grant(u@),
        UserStep::Revoke(u) => UserStepView::Revoke(u@),
        UserStep::Reset(u, p) => UserStepView::Reset(u@, p@),
        UserStep::Remove(u) => UserStepView::Remove(u@),
    }
}

/// Where a user-management run stands: the accounts to create, the
/// administrators to grant rights to, the ones to revoke, the weak
/// passwords to reset and the accounts to remove, taken in that order; the
/// phase and item reached; an account created whose password is still to
/// be set; and what has been counted and what failed.
pub struct UserRunView {
    pub missing: Seq<Seq<char>>,
    pub admins: Seq<Seq<char>>,
    pub demote: Seq<Seq<char>>,
    pub weak: Seq<Seq<char>>,
    pub surplus: Seq<Seq<char>>,
    pub phase: nat,
    pub index: nat,
    pub pending: Option<nat>,
    pub succeeded: i32,
    pub failures: Seq<Seq<char>>,
}

/// The list phase `p` works through.
pub open spec fn phase_list(v: UserRunView, p: nat) -> Seq<Seq<char>> {
    if p == 0 {
        v.missing
    } else if p == 1 {
        v.admins
    } else if p == 2 {
        v.demote
    } else if p == 3 {
        v.weak
    } else {
        v.surplus
    }
}

/// The first item at or after item `i` of phase `p` that exists.
pub open spec fn position(v: UserRunView, p: nat, i: nat) -> Option<(nat, nat)>
    decreases 5 - p,
{
    if p >= 5 {
        None
    } else if i < phase_list(v, p).len() {
        Some((p, i))
    } else {
        position(v, p + 1, 0)
    }
}

/// The change for item `i` of phase `p`. A reset account gets the password
/// numbered after those of the accounts created.
pub open spec fn step_of(v: UserRunView, p: nat, i: nat) -> UserStepView {
    let name = phase_list(v, p)[i as int];
    if p == 0 {
        UserStepView::Create(name)
    } else if p == 1 {
        UserStepView::Grant(name)
    } else if p == 2 {
        UserStepView::Revoke(name)
    } else if p == 3 {
        UserStepView::Reset(name, generate_password_spec((v.missing.len() + i) as usize))
    } else {
        UserStepView::Remove(name)
    }
}

/// The change a run asks for next: the password of an account just
/// created, else the next item in order, else nothing.
pub open spec fn next_step(v: UserRunView) -> Option<UserStepView> {
    match v.pending {
        Some(i) => Some(UserStepView::SetPassword(v.missing[i as int], generate_password_spec(i as usize))),
        None => match position(v, v.phase, v.index) {
            Some((p, i)) => Some(step_of(v, p, i)),
            None => None,
        },
    }
}

pub open spec fn bump(n: i32) -> i32 {
    if n < i32::MAX {
        (n + 1) as i32
    } else {
        n
    }
}

/// How a failure of phase `p` on account `name` is reported.
pub open spec fn failure_line(p: nat, name: Seq<char>, e: Seq<char>) -> Seq<char> {
    if p == 3 {
        name + ": could not reset the password ("@ + e + ")"@
    } else {
        name + ": "@ + e
    }
}

/// The run after the change it asked for came out as `outcome`. A created
/// account, a granted administrator, a reset password and a removed account
/// count as done; revoking rights and setting a new account's password do
/// not. A created account has its password set next.
pub open spec fn after_step(v: UserRunView, outcome: Outcome) -> UserRunView {
    match v.pending {
        Some(i) => UserRunView {
            pending: None,
            failures: match outcome {
                Outcome::Failed(e) => v.failures.push(
                    v.missing[i as int] + ": could not set a password ("@ + e@ + ")"@,
                ),
                _ => v.failures,
            },
            ..v
        },
        None => match position(v, v.phase, v.index) {
            None => v,
            Some((p, i)) => UserRunView {
                phase: p,
                index: i + 1,
                pending: if p == 0 && outcome is Done {
                    Some(i)
                } else {
                    None
                },
                succeeded: if outcome is Done && p != 2 {
                    bump(v.succeeded)
                } else {
                    v.succeeded
                },
                failures: match outcome {
                    Outcome::Failed(e) => v.failures.push(
                        failure_line(p, phase_list(v, p)[i as int], e@),
                    ),
                    _ => v.failures,
                },
                ..v
            },
        },
    }
}

/// A user-management run in progress.
pub struct UserRun {
    missing: Vec<String>,
    admins: Vec<String>,
    demote: Vec<String>,
    weak: Vec<String>,
    surplus: Vec<String>,
    phase: usize,
    index: usize,
    pending: Option<usize>,
    succeeded: i32,
    failures: Vec<String>,
}

impl UserRun {
    #[verifier::type_invariant]
    spec fn numbered(self) -> bool {
        &&& self.missing@.len() + self.weak@.len() <= usize::MAX
        &&& self.pending matches Some(i) ==> i < self.missing@.len()
    }

    pub closed spec fn state(&self) -> UserRunView {
        UserRunView {
            missing: strs(self.missing@),
            admins: strs(self.admins@),
            demote: strs(self.demote@),
            weak: strs(self.weak@),
            surplus: strs(self.surplus@),
            phase: self.phase as nat,
            index: self.index as nat,
            pending: match self.pending {
                Some(i) => Some(i as nat),
                None => None,
            },
            succeeded: self.succeeded,
            failures: strs(self.failures@),
        }
    }

    /// A run over the given lists, with nothing done yet.
    pub fn new(
        missing: Vec<String>,
        admins: Vec<String>,
        demote: Vec<String>,
        weak: Vec<String>,
        surplus: Vec<String>,
    ) -> (r: Self)
        requires
            missing@.len() + weak@.len() <= usize::MAX,
        ensures
            r.state() == (UserRunView {
                missing: strs(missing@),
                admins: strs(admins@),
                demote: strs(demote@),
                weak: strs(weak@),
                surplus: strs(surplus@),
                phase: 0,
                index: 0,
                pending: None,
                succeeded: 0,
                failures: Seq::empty(),
            }),
    {
        let r = UserRun {
            missing,
            admins,
            demote,
            weak,
            surplus,
            phase: 0,
            index: 0,
            pending: None,
            succeeded: 0,
            failures: Vec::new(),
        };
        proof {
            assert(strs(r.failures@) =~= Seq::<Seq<char>>::empty());
        }
        r
    }

    fn list(&self, p: usize) -> (r: &Vec<String>)
        ensures
            strs(r@) == phase_list(self.state(), p as nat),
    {
        if p == 0 {
            &self.missing
        } else if p == 1 {
            &self.admins
        } else if p == 2 {
            &self.demote
        } else if p == 3 {
            &self.weak
        } else {
            &self.surplus
        }
    }

    fn position_exec(&self) -> (r: Option<(usize, usize)>)
        ensures
            match r {
                Some((p, i)) => position(self.state(), self.state().phase, self.state().index)
                    == Some((p as nat, i as nat)) && p < 5 && (i as nat) < phase_list(
                    self.state(),
                    p as nat,
                ).len(),
                None => position(self.state(), self.state().phase, self.state().index) is None,
            },
    {
        let mut p = self.phase;
        let mut i = self.index;
        while p < 5
            invariant
                position(self.state(), self.state().phase, self.state().index) == position(
                    self.state(),
                    p as nat,
                    i as nat,
                ),
            decreases 5 - p,
        {
            if i < self.list(p).len() {
                return Some((p, i));
            }
            p = p + 1;
            i = 0;
        }
        None
    }

    /// The change to make next, or `None` when the run is over.
    pub fn next(&self) -> (r: Option<UserStep>)
        ensures
            match r {
                Some(s) => next_step(self.state()) == Some(step_view(s)),
                None => next_step(self.state()) is None,
            },
    {
        proof {
            use_type_invariant(self);
        }
        match self.pending {
            Some(i) => {
                let user = self.missing[i].clone();
                Some(UserStep::SetPassword(user, generate_password(i)))
            },
            None => match self.position_exec() {
                None => None,
                Some((p, i)) => {
                    let name = self.list(p)[i].clone();
                    if p == 0 {
                        Some(UserStep::Create(name))
                    } else if p == 1 {
                        Some(UserStep::Grant(name))
                    } else if p == 2 {
                        Some(UserStep::Revoke(name))
                    } else if p == 3 {
                        Some(UserStep::Reset(name, generate_password(self.missing.len() + i)))
                    } else {
                        Some(UserStep::Remove(name))
                    }
                },
            },
        }
    }
}


impl UserRun {
    /// Record how the change [`Self::next`] asked for came out. With nothing
    /// left to do, the run is unchanged.
    pub fn answer(&mut self, outcome: Outcome)
        ensures
            final(self).state() == after_step(old(self).state(), outcome),
    {
        proof {
            use_type_invariant(&*self);
        }
        match self.pending {
            Some(i) => {
                if let Outcome::Failed(e) = &outcome {
                    let text = password_failure(&self.missing[i], e);
                    self.failures = pushed(&self.failures, text);
                    proof {
                        assert(strs(self.failures@) =~= strs(old(self).failures@).push(text@));
                    }
                }
                self.pending = None;
            },
            None => match self.position_exec() {
                None => {},
                Some((p, i)) => {
                    let length = self.list(p).len();
                    assert(i < length);
                    let done = matches!(outcome, Outcome::Done);
                    if let Outcome::Failed(e) = &outcome {
                        let text = step_failure(p, &self.list(p)[i], e);
                        self.failures = pushed(&self.failures, text);
                        proof {
                            assert(strs(self.failures@) =~= strs(old(self).failures@).push(text@));
                        }
                    }
                    if done && p != 2 && self.succeeded < i32::MAX {
                        self.succeeded = self.succeeded + 1;
                    }
                    self.phase = p;
                    self.index = i + 1;
                    if p == 0 && done {
                        self.pending = Some(i);
                    }
                },
            },
        }
    }

    /// Close the run into `result`: how many changes counted, whether any
    /// failed and why, and what was done.
    pub fn finish(&self, result: &mut TaskResult)
        ensures
            final(result).items_succeeded == self.state().succeeded,
            final(result).success == (self.state().failures.len() == 0),
            final(result).message@ == "Created "@ + decimal_string(self.state().missing.len())
                + ", removed "@ + decimal_string(self.state().surplus.len()) + ", reset "@
                + decimal_string(self.state().weak.len())
                + " passwords, corrected administrative rights."@,
            opt_view(final(result).error_details) == details_of(self.state().failures),
            final(result).task_name == old(result).task_name,
            final(result).items_attempted == old(result).items_attempted,
            final(result).items_skipped == old(result).items_skipped,
            final(result).verified == old(result).verified,
            final(result).confidence_percent == old(result).confidence_percent,
    {
        result.items_succeeded = self.succeeded;
        let message = summary_message(self.missing.len(), self.surplus.len(), self.weak.len());
        result.finish(message, &self.failures);
    }
}

/// `v` with `s` added at the end, as a new vector.
fn pushed(v: &Vec<String>, s: String) -> (r: Vec<String>)
    ensures
        r@ == v@.push(s),
{
    let mut r: Vec<String> = Vec::new();
    let mut i: usize = 0;
    while i < v.len()
        invariant
            i <= v@.len(),
            r@ == v@.take(i as int),
        decreases v@.len() - i,
    {
        r.push(v[i].clone());
        i = i + 1;
        proof {
            assert(r@ =~= v@.take(i as int));
        }
    }
    r.push(s);
    proof {
        assert(v@.take(v@.len() as int) =~= v@);
    }
    r
}

fn password_failure(user: &String, e: &String) -> (r: String)
    ensures
        r@ == user@ + ": could not set a password ("@ + e@ + ")"@,
{
    let v = concat_str(&chars_of(user.as_str()), ": could not set a password (");
    let v = concat_str(&crate::text::concat_chars(&v, &chars_of(e.as_str())), ")");
    proof {
        assert(v@ =~= user@ + ": could not set a password ("@ + e@ + ")"@);
    }
    string_of(&v)
}

fn step_failure(p: usize, name: &String, e: &String) -> (r: String)
    ensures
        r@ == failure_line(p as nat, name@, e@),
{
    let v = if p == 3 {
        let v = concat_str(&chars_of(name.as_str()), ": could not reset the password (");
        concat_str(&crate::text::concat_chars(&v, &chars_of(e.as_str())), ")")
    } else {
        crate::text::concat_chars(&concat_str(&chars_of(name.as_str()), ": "), &chars_of(e.as_str()))
    };
    proof {
        assert(v@ =~= failure_line(p as nat, name@, e@));
    }
    string_of(&v)
}

/// A README that names no administrator and no user did not parse: acting
/// on it would treat every account on the image as unauthorised.
pub open spec fn names_nobody(r: ReadmeData) -> bool {
    r.administrators@.len() == 0 && r.users@.len() == 0
}

/// The accounts a README leaves unauthorised.
pub open spec fn surplus_spec(r: ReadmeData, present: Seq<AccountView>) -> Seq<Seq<char>> {
    unauthorised_spec(present, lowered(everyone_names(r)))
}

/// What is reported when the README names nobody.
pub const NOBODY_NAMED_MESSAGE: &'static str =
    "The README lists no administrators or users; no accounts were changed.";

/// The accounts to remove, or `None` when the README names no administrator
/// and no user, in which case nothing about the accounts is to be changed.
pub fn surplus_accounts(readme: &ReadmeData, present: &[Account]) -> (r: Option<Vec<String>>)
    ensures
        r is None <==> names_nobody(*readme),
        r matches Some(v) ==> strs(v@) == surplus_spec(*readme, account_views(present@)),
{
    if readme.administrators.len() == 0 && readme.users.len() == 0 {
        return None;
    }
    let plan = authorised_from(readme);
    let v = unauthorised(present, &plan.everyone);
    proof {
        let listed = strs(plan.everyone@);
        let wanted = lowered(everyone_names(*readme));
        assert forall|x: Seq<char>| listed.contains(x) == wanted.contains(x) by {
            assert(listed.to_set().contains(x) == listed.contains(x));
            assert(wanted.to_set().contains(x) == wanted.contains(x));
        }
        let f = |a: AccountView| unauthorised_entry(a, listed);
        let g = |a: AccountView| unauthorised_entry(a, wanted);
        assert(f =~= g);
    }
    Some(v)
}

/// `unauthorised` misses no one: every human, non-system account present
/// whose lowercased name is not authorised is listed. (That it lists no one
/// else is `law_system_accounts_never_unauthorised`.)
pub proof fn law_unauthorised_misses_no_unlisted_human(
    present: Seq<AccountView>,
    authorised: Seq<Seq<char>>,
)
    ensures
        forall|i: int|
            0 <= i < present.len() && is_human_spec(present[i]) && !authorised.contains(
                lowercase(present[i].name),
            ) && !is_system_account_spec(present[i].name) ==> #[trigger] unauthorised_spec(
                present,
                authorised,
            ).contains(present[i].name),
{
    let f = |a: AccountView| unauthorised_entry(a, authorised);
    assert forall|i: int|
        0 <= i < present.len() && is_human_spec(present[i]) && !authorised.contains(
            lowercase(present[i].name),
        ) && !is_system_account_spec(present[i].name) implies #[trigger] unauthorised_spec(
            present,
            authorised,
        ).contains(present[i].name) by {
        lemma_filter_map_keeps(present, f, i);
    }
}

/// A password is only ever set on an account the run has just created, and
/// only once its creation succeeded; and no administrative right is granted
/// while an account remains to be created or a new password to be set.
pub proof fn law_password_follows_its_creation(v: UserRunView, outcome: Outcome)
    requires
        v.pending matches Some(i) ==> i < v.missing.len(),
    ensures
        next_step(v) matches Some(UserStepView::SetPassword(u, _)) ==> v.pending matches Some(i)
            && u == v.missing[i as int],
        after_step(v, outcome).pending matches Some(i) ==> v.pending is None && outcome is Done
            && next_step(v) == Some(UserStepView::Create(v.missing[i as int])),
        next_step(v) matches Some(UserStepView::Grant(_)) ==> v.pending is None && (v.phase >= 1
            || v.index >= v.missing.len()),
{
}

} // verus!
