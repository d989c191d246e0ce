//! Samba shares and NFS exports, read from their configuration and reported
//! with the options that open them to the network. Nothing is removed: a share
//! may be what the round requires.
use vstd::prelude::*;
use crate::task::Task;
use crate::text::{format_counts, interleave};
use crate::file_ops::{is_active_chars, line_is_active, ws_index, ws_index_exec};
use crate::text::{
    alphanumeric, append_all, chars_of, collapse, collapse_chars, concat_chars, concat_str,
    contains, contains_chars, copy_all, eq_chars, eq_ignore_case, eq_ignore_case_chars,
    filter_map, is_alphanumeric, lines, lines_of, lowercase, lowercase_chars, seqs, slice,
    split_once, split_once_chars, starts_with, starts_with_chars, string_of, strings_of, strs,
    trim, trim_bounds, trim_chars, trim_start, views,
};

verus! {

pub const SMB_CONF: &'static str = "/etc/samba/smb.conf";

pub const EXPORTS: &'static str = "/etc/exports";

/// Samba settings, as [`normalise_smb_setting`] writes them, that open a share.
pub const UNSAFE_SMB_SETTINGS: [&'static str; 9] = [
    "guest ok = yes",
    "public = yes",
    "writable = yes",
    "writeable = yes",
    "read only = no",
    "guest only = yes",
    "map to guest = bad user",
    "null passwords = yes",
    "security = share",
];

/// Why each of [`UNSAFE_SMB_SETTINGS`] is a concern, row by row.
pub const UNSAFE_SMB_REASONS: [&'static str; 9] = [
    "anyone on the network can read it with no credential",
    "the older spelling of guest ok",
    "and writable, so anyone can also change it",
    "and writable, so anyone can also change it",
    "the other spelling of writable",
    "forces every connection to be anonymous",
    "a wrong username silently becomes the guest account",
    "an account with no password can connect",
    "share-level security has no user authentication at all",
];

/// NFS export options worth a second look.
pub const UNSAFE_NFS_OPTIONS: [&'static str; 5] = [
    "no_root_squash",
    "insecure",
    "rw",
    "no_all_squash",
    "no_subtree_check",
];

/// Why each of [`UNSAFE_NFS_OPTIONS`] is a concern, row by row.
pub const UNSAFE_NFS_REASONS: [&'static str; 5] = [
    "a client's root writes as root here",
    "accepts connections from unprivileged client ports",
    "exported writable",
    "client uids are trusted as they arrive",
    "not a hole on its own, but it is paired with the ones that are",
];

/// The concern an export to every host carries.
pub const EVERY_HOST: &'static str = "* - exported to every host that can reach this machine";

pub struct SharedFoldersAuditTask {
    pub name: String,
    pub description: String,
    pub dry_run: bool,
}

impl SharedFoldersAuditTask {
    pub fn new() -> (t: Self)
        ensures
            t.name@ == "Shared Folders Audit"@,
            t.description@ == "Report Samba shares and NFS exports"@,
            !t.dry_run,
    {
        SharedFoldersAuditTask {
            name: String::from_str("Shared Folders Audit"),
            description: String::from_str("Report Samba shares and NFS exports"),
            dry_run: false,
        }
    }
}

impl Default for SharedFoldersAuditTask {
    fn default() -> (t: Self)
        ensures
            t.name@ == "Shared Folders Audit"@,
            t.description@ == "Report Samba shares and NFS exports"@,
            !t.dry_run,
    {
        Self::new()
    }
}

/// One Samba share or NFS export, with what is wrong with it.
#[derive(Debug, Clone, PartialEq, Eq)]
pub struct Share {
    /// The share name, or the exported path for NFS.
    pub name: String,
    /// The path it serves, as the file spells it, when the file says.
    pub path: Option<String>,
    /// The reasons this share is worth looking at, in the file's own words.
    pub concerns: Vec<String>,
}

pub struct ShareView {
    pub name: Seq<char>,
    pub path: Option<Seq<char>>,
    pub concerns: Seq<Seq<char>>,
}

pub open spec fn opt_str(o: Option<String>) -> Option<Seq<char>> {
    match o {
        Some(s) => Some(s@),
        None => None,
    }
}

pub open spec fn opt_chars(o: Option<Vec<char>>) -> Option<Seq<char>> {
    match o {
        Some(s) => Some(s@),
        None => None,
    }
}

impl View for Share {
    type V = ShareView;

    open spec fn view(&self) -> ShareView {
        ShareView { name: self.name@, path: opt_str(self.path), concerns: strs(self.concerns@) }
    }
}

pub open spec fn share_views(v: Seq<Share>) -> Seq<ShareView> {
    v.map_values(|s: Share| s@)
}

// ---------------------------------------------------------------------------
// Samba
// ---------------------------------------------------------------------------

/// A setting as Samba reads it: the name's words joined by single spaces and
/// lowercased, ` = `, then the value trimmed and lowercased. A line without
/// `=` is only lowercased.
pub open spec fn normalise_spec(line: Seq<char>) -> Seq<char> {
    match split_once(line, '=') {
        None => lowercase(line),
        Some((k, v)) => lowercase(collapse(k)) + " = "@ + lowercase(trim(v)),
    }
}

fn normalise_chars(line: &Vec<char>) -> (r: Vec<char>)
    ensures
        r@ == normalise_spec(line@),
{
    match split_once_chars(line, '=') {
        None => lowercase_chars(line),
        Some((k, v)) => {
            let kl = lowercase_chars(&collapse_chars(&k));
            let vl = lowercase_chars(&trim_chars(&v));
            concat_chars(&concat_str(&kl, " = "), &vl)
        },
    }
}

/// Put a setting into the form Samba reads it in, so that spacing and case do
/// not decide whether it matches.
pub fn normalise_smb_setting(line: &str) -> (r: String)
    ensures
        r@ == normalise_spec(line@),
{
    string_of(&normalise_chars(&chars_of(line)))
}

/// A setting's value as the file writes it: what follows the first `=`,
/// trimmed, with its case kept (paths are case-sensitive).
pub open spec fn setting_value(line: Seq<char>) -> Seq<char> {
    match split_once(line, '=') {
        Some((k, v)) => trim(v),
        None => line,
    }
}

fn setting_value_chars(line: &Vec<char>) -> (r: Vec<char>)
    ensures
        r@ == setting_value(line@),
{
    match split_once_chars(line, '=') {
        Some((k, v)) => trim_chars(&v),
        None => slice(line, 0, line.len()),
    }
}

/// The concerns a normalised setting raises: `"<setting> - <why>"` for each
/// unsafe setting it is.
pub open spec fn smb_concerns(norm: Seq<char>) -> Seq<Seq<char>> {
    filter_map(
        Seq::new(9, |i: int| i),
        |i: int|
            if norm == UNSAFE_SMB_SETTINGS@[i]@ {
                Some(UNSAFE_SMB_SETTINGS@[i]@ + " - "@ + UNSAFE_SMB_REASONS@[i]@)
            } else {
                None
            },
    )
}

fn smb_concerns_exec(norm: &Vec<char>) -> (r: Vec<Vec<char>>)
    ensures
        seqs(r@) == smb_concerns(norm@),
{
    let mut out: Vec<Vec<char>> = Vec::new();
    let mut i: usize = 0;
    while i < 9
        invariant
            i <= 9,
            seqs(out@) == filter_map(
                Seq::new(i as nat, |k: int| k),
                |k: int|
                    if norm@ == UNSAFE_SMB_SETTINGS@[k]@ {
                        Some(UNSAFE_SMB_SETTINGS@[k]@ + " - "@ + UNSAFE_SMB_REASONS@[k]@)
                    } else {
                        None
                    },
            ),
        decreases 9 - i,
    {
        proof {
            assert(Seq::new((i + 1) as nat, |k: int| k).drop_last() =~= Seq::new(
                i as nat,
                |k: int| k,
            ));
        }
        let setting = chars_of(UNSAFE_SMB_SETTINGS[i]);
        if eq_chars(&setting, norm) {
            let c = concat_str(&concat_str(&setting, " - "), UNSAFE_SMB_REASONS[i]);
            let ghost before = seqs(out@);
            out.push(c);
            proof {
                assert(seqs(out@) =~= before.push(c@));
            }
        }
        i = i + 1;
    }
    proof {
        assert(Seq::new(9, |k: int| k) =~= Seq::new(i as nat, |k: int| k));
    }
    out
}

/// The name between the brackets of a `[section]` header.
pub open spec fn section_name(t: Seq<char>) -> Option<Seq<char>> {
    if t.len() >= 2 && t[0] == '[' && t.last() == ']' {
        Some(t.subrange(1, t.len() - 1))
    } else {
        None
    }
}

/// Where the reading stands: the shares finished, the concerns found in
/// `[global]`, and the share being read, if any.
pub open spec fn smb_step(
    st: (Seq<ShareView>, Seq<Seq<char>>, Option<ShareView>),
    line: Seq<char>,
) -> (Seq<ShareView>, Seq<Seq<char>>, Option<ShareView>) {
    let shares = st.0;
    let global = st.1;
    let current = st.2;
    let t = trim(line);
    if !line_is_active(t) {
        st
    } else {
        match section_name(t) {
            Some(name) => {
                let finished = match current {
                    Some(s) => shares.push(s),
                    None => shares,
                };
                if eq_ignore_case(name, "global"@) {
                    (finished, global, None)
                } else {
                    (finished, global, Some(ShareView { name, path: None, concerns: seq![] }))
                }
            },
            None => {
                let norm = normalise_spec(t);
                let found = smb_concerns(norm);
                match current {
                    Some(s) => (
                        shares,
                        global,
                        Some(
                            ShareView {
                                name: s.name,
                                path: if starts_with(norm, "path = "@) {
                                    Some(setting_value(t))
                                } else {
                                    s.path
                                },
                                concerns: s.concerns + found,
                            },
                        ),
                    ),
                    None => (shares, global + found, None),
                }
            },
        }
    }
}

pub open spec fn smb_state(ls: Seq<Seq<char>>) -> (
    Seq<ShareView>,
    Seq<Seq<char>>,
    Option<ShareView>,
)
    decreases ls.len(),
{
    if ls.len() == 0 {
        (seq![], seq![], None)
    } else {
        smb_step(smb_state(ls.drop_last()), ls.last())
    }
}

/// A concern of `[global]`, as it is reported against a share.
pub open spec fn global_note(c: Seq<char>) -> Seq<char> {
    "[global] "@ + c
}

/// The shares of an `smb.conf`: each `[section]` but `[global]`, its `path`,
/// and the unsafe settings in it, followed by those of `[global]`, which apply
/// to every share.
pub open spec fn parse_smb_spec(text: Seq<char>) -> Seq<ShareView> {
    let st = smb_state(lines(text));
    let all = match st.2 {
        Some(s) => st.0.push(s),
        None => st.0,
    };
    all.map_values(
        |s: ShareView|
            ShareView {
                name: s.name,
                path: s.path,
                concerns: s.concerns + st.1.map_values(|c: Seq<char>| global_note(c)),
            },
    )
}

pub open spec fn part_view(p: (Vec<char>, Option<Vec<char>>, Vec<Vec<char>>)) -> ShareView {
    ShareView { name: p.0@, path: opt_chars(p.1), concerns: seqs(p.2@) }
}

pub open spec fn part_views(v: Seq<(Vec<char>, Option<Vec<char>>, Vec<Vec<char>>)>) -> Seq<
    ShareView,
> {
    v.map_values(|p: (Vec<char>, Option<Vec<char>>, Vec<Vec<char>>)| part_view(p))
}

fn section_name_exec(t: &Vec<char>) -> (r: Option<Vec<char>>)
    ensures
        opt_chars(r) == section_name(t@),
{
    let n = t.len();
    if n >= 2 && t[0] == '[' && t[n - 1] == ']' {
        Some(slice(t, 1, n - 1))
    } else {
        None
    }
}

/// Build a share from its parts, with the `[global]` notes after its own.
fn finish_share(p: &(Vec<char>, Option<Vec<char>>, Vec<Vec<char>>), notes: &Vec<Vec<char>>) -> (s:
    Share)
    ensures
        s@.name == p.0@,
        s@.path == opt_chars(p.1),
        s@.concerns == seqs(p.2@) + seqs(notes@),
{
    let mut cs = copy_all(&p.2);
    append_all(&mut cs, copy_all(notes));
    let path = match &p.1 {
        Some(x) => Some(string_of(x)),
        None => None,
    };
    Share { name: string_of(&p.0), path, concerns: strings_of(&cs) }
}

/// The shares an `smb.conf` defines. `[global]` is configuration rather than
/// a share, and what it sets applies to every share, so its concerns are
/// carried down to each, marked `[global]`. Commented lines are not in effect.
pub fn parse_smb_conf(text: &str) -> (r: Vec<Share>)
    ensures
        share_views(r@) == parse_smb_spec(text@),
{
    let tv = chars_of(text);
    let ls = lines_of(&tv);
    let ghost all = seqs(ls@);
    let mut done: Vec<(Vec<char>, Option<Vec<char>>, Vec<Vec<char>>)> = Vec::new();
    let mut global: Vec<Vec<char>> = Vec::new();
    let mut has_cur = false;
    let mut cur_name: Vec<char> = Vec::new();
    let mut cur_path: Option<Vec<char>> = None;
    let mut cur_concerns: Vec<Vec<char>> = Vec::new();
    let n = ls.len();
    let mut i: usize = 0;
    while i < n
        invariant
            i <= n == ls.len(),
            all == seqs(ls@),
            all == lines(text@),
            smb_state(all.take(i as int)) == (
                part_views(done@),
                seqs(global@),
                if has_cur {
                    Some(
                        ShareView {
                            name: cur_name@,
                            path: opt_chars(cur_path),
                            concerns: seqs(cur_concerns@),
                        },
                    )
                } else {
                    None
                },
            ),
        decreases n - i,
    {
        proof {
            assert(all.take(i + 1).drop_last() =~= all.take(i as int));
            assert(all.take(i + 1).last() == all[i as int]);
        }
        let t = trim_chars(&ls[i]);
        if is_active_chars(&t) {
            match section_name_exec(&t) {
                Some(name) => {
                    if has_cur {
                        let ghost before = part_views(done@);
                        let part = (cur_name, cur_path, cur_concerns);
                        done.push(part);
                        proof {
                            assert(part_views(done@) =~= before.push(part_view(part)));
                        }
                    }
                    let g = chars_of("global");
                    if eq_ignore_case_chars(&name, &g) {
                        has_cur = false;
                        cur_name = Vec::new();
                    } else {
                        has_cur = true;
                        cur_name = name;
                    }
                    cur_path = None;
                    cur_concerns = Vec::new();
                    proof {
                        assert(seqs(cur_concerns@) =~= Seq::<Seq<char>>::empty());
                    }
                },
                None => {
                    let norm = normalise_chars(&t);
                    let found = smb_concerns_exec(&norm);
                    if has_cur {
                        let prefix = chars_of("path = ");
                        proof {
                            reveal_strlit("path = ");
                        }
                        if starts_with_chars(&norm, &prefix) {
                            cur_path = Some(setting_value_chars(&t));
                        }
                        append_all(&mut cur_concerns, found);
                    } else {
                        append_all(&mut global, found);
                    }
                },
            }
        }
        i = i + 1;
    }
    proof {
        assert(all.take(n as int) =~= all);
    }
    if has_cur {
        let ghost before = part_views(done@);
        let part = (cur_name, cur_path, cur_concerns);
        done.push(part);
        proof {
            assert(part_views(done@) =~= before.push(part_view(part)));
        }
    }
    let mut notes: Vec<Vec<char>> = Vec::new();
    let gn = global.len();
    let mut j: usize = 0;
    while j < gn
        invariant
            j <= gn == global.len(),
            seqs(notes@) == seqs(global@).take(j as int).map_values(
                |c: Seq<char>| global_note(c),
            ),
        decreases gn - j,
    {
        let note = concat_chars(&chars_of("[global] "), &global[j]);
        let ghost before = seqs(notes@);
        notes.push(note);
        proof {
            assert(seqs(notes@) =~= before.push(global_note(seqs(global@)[j as int])));
            assert(seqs(global@).take(j + 1) =~= seqs(global@).take(j as int).push(
                seqs(global@)[j as int],
            ));
            assert(seqs(notes@) =~= seqs(global@).take(j + 1).map_values(
                |c: Seq<char>| global_note(c),
            ));
        }
        j = j + 1;
    }
    proof {
        assert(seqs(global@).take(gn as int) =~= seqs(global@));
    }
    let ghost parts = part_views(done@);
    let mut out: Vec<Share> = Vec::new();
    let dn = done.len();
    let mut k: usize = 0;
    while k < dn
        invariant
            k <= dn == done.len(),
            parts == part_views(done@),
            forall|m: int|
                0 <= m < k ==> #[trigger] share_views(out@)[m] == (ShareView {
                    name: parts[m].name,
                    path: parts[m].path,
                    concerns: parts[m].concerns + seqs(notes@),
                }),
            out@.len() == k,
        decreases dn - k,
    {
        let s = finish_share(&done[k], &notes);
        let ghost before = share_views(out@);
        out.push(s);
        proof {
            assert(share_views(out@) =~= before.push(s@));
            assert(parts[k as int] == part_view(done@[k as int]));
        }
        k = k + 1;
    }
    proof {
        let st = smb_state(all);
        assert(share_views(out@) =~= parse_smb_spec(text@));
    }
    out
}

// ---------------------------------------------------------------------------
// NFS
// ---------------------------------------------------------------------------

/// What separates the options of an export: anything that is neither
/// alphanumeric nor `_`.
pub open spec fn is_token_sep(c: char) -> bool {
    !alphanumeric(c) && c != '_'
}

pub open spec fn token_state(s: Seq<char>) -> (Seq<Seq<char>>, Seq<char>)
    decreases s.len(),
{
    if s.len() == 0 {
        (seq![], seq![])
    } else {
        let (done, cur) = token_state(s.drop_last());
        if is_token_sep(s.last()) {
            (done.push(cur), seq![])
        } else {
            (done, cur.push(s.last()))
        }
    }
}

/// `s.split(is_token_sep)`, empty pieces included.
pub open spec fn tokens(s: Seq<char>) -> Seq<Seq<char>> {
    let (done, cur) = token_state(s);
    done.push(cur)
}

pub open spec fn has_token(s: Seq<char>, t: Seq<char>) -> bool {
    exists|k: int| 0 <= k < tokens(s).len() && #[trigger] tokens(s)[k] == t
}

fn tokens_exec(v: &Vec<char>) -> (r: Vec<Vec<char>>)
    ensures
        seqs(r@) == tokens(v@),
{
    let mut done: Vec<Vec<char>> = Vec::new();
    let mut cur: Vec<char> = Vec::new();
    let n = v.len();
    let mut i: usize = 0;
    while i < n
        invariant
            i <= n == v.len(),
            token_state(v@.take(i as int)) == (seqs(done@), cur@),
        decreases n - i,
    {
        let c = v[i];
        proof {
            assert(v@.take(i + 1).drop_last() =~= v@.take(i as int));
            assert(v@.take(i + 1).last() == c);
        }
        if !is_alphanumeric(c) && c != '_' {
            let ghost before = seqs(done@);
            let ghost cv = cur@;
            done.push(cur);
            cur = Vec::new();
            proof {
                assert(seqs(done@) =~= before.push(cv));
                assert(cur@ =~= Seq::<char>::empty());
            }
        } else {
            cur.push(c);
        }
        i = i + 1;
    }
    proof {
        assert(v@.take(n as int) =~= v@);
    }
    let ghost before = seqs(done@);
    let ghost cv = cur@;
    done.push(cur);
    proof {
        assert(seqs(done@) =~= before.push(cv));
    }
    done
}

fn has_token_exec(toks: &Vec<Vec<char>>, t: &Vec<char>) -> (b: bool)
    ensures
        b == exists|k: int| 0 <= k < toks@.len() && #[trigger] seqs(toks@)[k] == t@,
{
    let n = toks.len();
    let mut i: usize = 0;
    while i < n
        invariant
            i <= n == toks.len(),
            forall|k: int| 0 <= k < i ==> #[trigger] seqs(toks@)[k] != t@,
        decreases n - i,
    {
        if eq_chars(&toks[i], t) {
            assert(seqs(toks@)[i as int] == t@);
            return true;
        }
        i = i + 1;
    }
    false
}

/// `"<option> - <why>"` for each unsafe option among the export's options.
pub open spec fn nfs_concerns(lower: Seq<char>) -> Seq<Seq<char>> {
    filter_map(
        Seq::new(5, |i: int| i),
        |i: int|
            if has_token(lower, UNSAFE_NFS_OPTIONS@[i]@) {
                Some(UNSAFE_NFS_OPTIONS@[i]@ + " - "@ + UNSAFE_NFS_REASONS@[i]@)
            } else {
                None
            },
    )
}

fn nfs_concerns_exec(lower: &Vec<char>) -> (r: Vec<Vec<char>>)
    ensures
        seqs(r@) == nfs_concerns(lower@),
{
    let toks = tokens_exec(lower);
    let mut out: Vec<Vec<char>> = Vec::new();
    let mut i: usize = 0;
    while i < 5
        invariant
            i <= 5,
            seqs(toks@) == tokens(lower@),
            seqs(out@) == filter_map(
                Seq::new(i as nat, |k: int| k),
                |k: int|
                    if has_token(lower@, UNSAFE_NFS_OPTIONS@[k]@) {
                        Some(UNSAFE_NFS_OPTIONS@[k]@ + " - "@ + UNSAFE_NFS_REASONS@[k]@)
                    } else {
                        None
                    },
            ),
        decreases 5 - i,
    {
        proof {
            assert(Seq::new((i + 1) as nat, |k: int| k).drop_last() =~= Seq::new(
                i as nat,
                |k: int| k,
            ));
        }
        let option = chars_of(UNSAFE_NFS_OPTIONS[i]);
        if has_token_exec(&toks, &option) {
            let c = concat_str(&concat_str(&option, " - "), UNSAFE_NFS_REASONS[i]);
            let ghost before = seqs(out@);
            out.push(c);
            proof {
                assert(seqs(out@) =~= before.push(c@));
            }
        }
        i = i + 1;
    }
    proof {
        assert(Seq::new(5, |k: int| k) =~= Seq::new(i as nat, |k: int| k));
    }
    out
}

/// An export's path and the rest of its line: a quoted path runs to the next
/// quote, any other to the first whitespace.
pub open spec fn export_split(t: Seq<char>) -> Option<(Seq<char>, Seq<char>)> {
    if t.len() > 0 && t[0] == '"' {
        split_once(t.drop_first(), '"')
    } else {
        let i = ws_index(t, 0);
        if i < t.len() {
            Some((t.take(i), t.skip(i + 1)))
        } else {
            None
        }
    }
}

/// Is the export open to every host: its host list starts with `*`, or an
/// entry ` *(` follows?
pub open spec fn to_every_host(rest: Seq<char>) -> bool {
    (trim_start(rest).len() > 0 && trim_start(rest)[0] == '*') || contains(rest, " *("@)
}

/// The export an active line of `/etc/exports` defines.
pub open spec fn export_entry(line: Seq<char>) -> Option<ShareView> {
    if !line_is_active(line) {
        None
    } else {
        match export_split(trim(line)) {
            None => None,
            Some((path, rest)) => {
                let found = nfs_concerns(lowercase(rest));
                Some(
                    ShareView {
                        name: path,
                        path: Some(path),
                        concerns: if to_every_host(rest) {
                            found.push(EVERY_HOST@)
                        } else {
                            found
                        },
                    },
                )
            },
        }
    }
}

pub open spec fn parse_exports_spec(text: Seq<char>) -> Seq<ShareView> {
    filter_map(lines(text), |l: Seq<char>| export_entry(l))
}

fn export_split_exec(t: &Vec<char>) -> (r: Option<(Vec<char>, Vec<char>)>)
    ensures
        match r {
            Some((a, b)) => export_split(t@) == Some((a@, b@)),
            None => export_split(t@) is None,
        },
{
    let n = t.len();
    if n > 0 && t[0] == '"' {
        let rest = slice(t, 1, n);
        proof {
            assert(rest@ =~= t@.drop_first());
        }
        split_once_chars(&rest, '"')
    } else {
        let i = ws_index_exec(t);
        if i < n {
            let a = slice(t, 0, i);
            let b = slice(t, i + 1, n);
            proof {
                assert(a@ =~= t@.take(i as int));
                assert(b@ =~= t@.skip(i + 1));
            }
            Some((a, b))
        } else {
            None
        }
    }
}

fn to_every_host_exec(rest: &Vec<char>) -> (b: bool)
    ensures
        b == to_every_host(rest@),
{
    let (a, z) = trim_bounds(rest);
    let ts = slice(rest, a, rest.len());
    proof {
        assert(ts@ =~= trim_start(rest@));
    }
    if ts.len() > 0 && ts[0] == '*' {
        return true;
    }
    contains_chars(rest, &chars_of(" *("))
}

/// The NFS exports `/etc/exports` defines, each with the options that open
/// it. Options are matched as whole words, so `ro` is not found inside
/// `no_root_squash`.
pub fn parse_exports(text: &str) -> (r: Vec<Share>)
    ensures
        share_views(r@) == parse_exports_spec(text@),
{
    let tv = chars_of(text);
    let ls = lines_of(&tv);
    let ghost all = seqs(ls@);
    let mut out: Vec<Share> = Vec::new();
    let n = ls.len();
    let mut i: usize = 0;
    while i < n
        invariant
            i <= n == ls.len(),
            all == seqs(ls@),
            all == lines(text@),
            share_views(out@) == filter_map(all.take(i as int), |l: Seq<char>| export_entry(l)),
        decreases n - i,
    {
        proof {
            assert(all.take(i + 1).drop_last() =~= all.take(i as int));
            assert(all.take(i + 1).last() == all[i as int]);
        }
        let line = &ls[i];
        if is_active_chars(line) {
            let t = trim_chars(line);
            match export_split_exec(&t) {
                None => {},
                Some((path, rest)) => {
                    let lower = lowercase_chars(&rest);
                    let mut found = nfs_concerns_exec(&lower);
                    if to_every_host_exec(&rest) {
                        let ghost before = seqs(found@);
                        found.push(chars_of(EVERY_HOST));
                        proof {
                            assert(seqs(found@) =~= before.push(EVERY_HOST@));
                        }
                    }
                    let name = string_of(&path);
                    let p = string_of(&path);
                    let s = Share { name, path: Some(p), concerns: strings_of(&found) };
                    let ghost before = share_views(out@);
                    out.push(s);
                    proof {
                        assert(share_views(out@) =~= before.push(s@));
                    }
                },
            }
        }
        i = i + 1;
    }
    proof {
        assert(all.take(n as int) =~= all);
    }
    out
}

} // verus!

verus! {

impl Task for SharedFoldersAuditTask {
    fn name(&self) -> (r: &str)
        ensures
            r@ == self.name@,
    {
        self.name.as_str()
    }

    fn description(&self) -> (r: &str)
        ensures
            r@ == self.description@,
    {
        self.description.as_str()
    }

    fn dry_run(&self) -> (b: bool)
        ensures
            b == self.dry_run,
    {
        self.dry_run
    }

    /// Only the flag changes.
    fn set_dry_run(&mut self, value: bool)
        ensures
            *final(self) == (SharedFoldersAuditTask { dry_run: value, ..*old(self) }),
    {
        self.dry_run = value;
    }
}

} // verus!

verus! {

/// What is reported when there is nothing shared.
pub const NOTHING_SHARED_MESSAGE: &'static str = "No Samba shares or NFS exports.";

/// What a finished run reports: nothing is removed, whatever was found.
pub fn summary_message(total: usize, risky: usize) -> (r: String)
    ensures
        r@ == if total == 0 {
            NOTHING_SHARED_MESSAGE@
        } else {
            crate::text::decimal_string(total as nat) + " shares found, "@
                + crate::text::decimal_string(risky as nat)
                + " with options worth reviewing. Nothing was removed - a share may be what the round requires."@
        },
{
    if total == 0 {
        return crate::text::string_of(&crate::text::chars_of(NOTHING_SHARED_MESSAGE));
    }
    let parts = ["", " shares found, ", " with options worth reviewing. Nothing was removed - a share may be what the round requires."];
    let r = format_counts(&parts, &[total, risky]);
    proof {
        reveal_strlit("");
        reveal_with_fuel(interleave, 3);
        assert(crate::text::views(parts@) =~= seq![parts[0]@, parts[1]@, parts[2]@]);
        assert(Seq::<char>::empty() + r@ =~= r@);
    }
    r
}

} // verus!
