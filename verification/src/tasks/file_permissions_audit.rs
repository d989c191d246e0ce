//! The permission findings a Linux image is scored on.
//!
//! Modes on the known files are fixed; everything else is only reported. What
//! is decided here: how a mode is written, whether an observed mode and owner
//! are at least as strict as the wanted ones, which setuid programs are the
//! distribution's own, and how the single tagged filesystem scan is sorted
//! into its three lists.
use vstd::prelude::*;
use crate::task::Task;
use crate::text::{decimal_string, format_counts, interleave};
use crate::ordered::{sorted_strict, sorted_unique};
use crate::text::{
    any_eq, any_eq_exec, any_prefix, any_prefix_exec, chars_of, digit_char, digit_char_exec,
    filter_map, last_piece, last_piece_exec, lines, lines_of, parse_octal, parse_octal_spec, seqs,
    split_once, split_once_chars, string_of, strs, trim, trim_chars, views,
};

verus! {

/// setuid and setgid programs a distribution legitimately ships, by file
/// name. The directory is a distribution detail, so the name is matched; the
/// location is checked separately against [`SYSTEM_PREFIXES`].
pub const EXPECTED_SETUID_NAMES: [&'static str; 47] = [
    "chfn",
    "chsh",
    "passwd",
    "newgrp",
    "gpasswd",
    "expiry",
    "chage",
    "su",
    "sudo",
    "sudoedit",
    "unix_chkpwd",
    "pam_extrausers_chkpwd",
    "utempter",
    "sg",
    "mount",
    "umount",
    "fusermount",
    "fusermount3",
    "mount.cifs",
    "mount.nfs",
    "ntfs-3g",
    "dmcrypt-get-device",
    "at",
    "crontab",
    "wall",
    "write",
    "bsd-write",
    "ssh-agent",
    "ssh-keysign",
    "pkexec",
    "polkit-agent-helper-1",
    "dbus-daemon-launch-helper",
    "Xorg.wrap",
    "Xorg",
    "ksu",
    "mlocate",
    "locate",
    "plocate",
    "plocate-build",
    "pppd",
    "ping",
    "ping6",
    "arping",
    "snap-confine",
    "newuidmap",
    "newgidmap",
    "chrome-sandbox",
];

/// Directories a packaged setuid program lives in. A setuid binary anywhere
/// else is a finding whatever it is called.
pub const SYSTEM_PREFIXES: [&'static str; 5] = ["/usr/", "/bin/", "/sbin/", "/opt/", "/snap/"];

/// Where the scan looks for files that should not be world-writable. `/tmp`
/// and `/var/tmp` are world-writable by design, and `/proc` and `/sys` are
/// kernel interfaces.
pub const SEARCH_ROOTS: [&'static str; 7] = ["/etc", "/usr", "/opt", "/srv", "/var", "/home", "/root"];

pub struct FilePermissionsAuditTask {
    pub name: String,
    pub description: String,
    pub dry_run: bool,
}

impl FilePermissionsAuditTask {
    pub fn new() -> (t: Self)
        ensures
            t.name@ == "File Permissions Audit"@,
            t.description@ == "Fix the modes on scored files; report the rest"@,
            !t.dry_run,
    {
        FilePermissionsAuditTask {
            name: String::from_str("File Permissions Audit"),
            description: String::from_str("Fix the modes on scored files; report the rest"),
            dry_run: false,
        }
    }
}

impl Default for FilePermissionsAuditTask {
    fn default() -> (t: Self)
        ensures
            t.name@ == "File Permissions Audit"@,
            t.description@ == "Fix the modes on scored files; report the rest"@,
            !t.dry_run,
    {
        Self::new()
    }
}

/// The four octal digits `format!("{:04o}", mode & 0o7777)` writes: the
/// permission bits only, without the file type `stat` reports above them.
pub open spec fn octal_spec(mode: u32) -> Seq<char> {
    let m = (mode % 4096) as nat;
    seq![digit_char(m / 512), digit_char((m / 64) % 8), digit_char((m / 8) % 8), digit_char(m % 8)]
}

/// Format a mode as the four-digit octal `stat` prints.
pub fn octal(mode: u32) -> (s: String)
    ensures
        s@ == octal_spec(mode),
{
    let m = mode % 4096;
    let mut v: Vec<char> = Vec::new();
    v.push(digit_char_exec(m / 512));
    v.push(digit_char_exec((m / 64) % 8));
    v.push(digit_char_exec((m / 8) % 8));
    v.push(digit_char_exec(m % 8));
    proof {
        assert(v@ =~= octal_spec(mode));
    }
    string_of(&v)
}

/// Is `path` under a system directory, and named as a program the
/// distribution ships setuid?
pub open spec fn is_expected_setuid_spec(path: Seq<char>) -> bool {
    any_prefix(views(SYSTEM_PREFIXES@), path) && any_eq(
        views(EXPECTED_SETUID_NAMES@),
        last_piece(path, '/'),
    )
}

/// Is this setuid binary one a distribution legitimately ships? Both the
/// location and the name are required.
pub fn is_expected_setuid(path: &str) -> (b: bool)
    ensures
        b == is_expected_setuid_spec(path@),
{
    let p = chars_of(path);
    if !any_prefix_exec(&SYSTEM_PREFIXES, &p) {
        return false;
    }
    let name = last_piece_exec(&p, '/');
    any_eq_exec(&EXPECTED_SETUID_NAMES, &name)
}

/// Every permission bit set in `mode` is also set in `wanted`.
pub open spec fn no_extra_bits(mode: u32, wanted: u32) -> bool {
    mode & !wanted == 0
}

/// Dropping permission bits never turns an accepted mode into a rejected
/// one, and neither does wanting more bits: a mode that passes still passes
/// when it is stricter, or when the wanted mode is looser.
pub proof fn law_a_stricter_mode_is_still_accepted(mode: u32, stricter: u32, wanted: u32, looser: u32)
    requires
        no_extra_bits(mode, wanted),
    ensures
        stricter & !mode == 0 ==> no_extra_bits(stricter, wanted),
        wanted & !looser == 0 ==> no_extra_bits(mode, looser),
{
    assert(mode & !wanted == 0 && stricter & !mode == 0 ==> stricter & !wanted == 0) by (bit_vector);
    assert(mode & !wanted == 0 && wanted & !looser == 0 ==> mode & !looser == 0) by (bit_vector);
}

/// Is `"<octal mode> <owner>"` at least as strict as the wanted mode, with
/// exactly the wanted owner? Unreadable state never is.
pub open spec fn is_at_least_as_strict_spec(
    observed: Seq<char>,
    wanted_mode: u32,
    wanted_owner: Seq<char>,
) -> bool {
    match split_once(observed, ' ') {
        None => false,
        Some((mode_text, owner)) => match parse_octal_spec(mode_text) {
            None => false,
            Some(mode) => no_extra_bits(mode, wanted_mode) && owner == wanted_owner,
        },
    }
}

/// Is the observed state at least as strict as the wanted one? Stricter is
/// accepted: loosening a mode to match the benchmark would be a downgrade.
pub fn is_at_least_as_strict(observed: &str, wanted_mode: u32, wanted_owner: &str) -> (b: bool)
    ensures
        b == is_at_least_as_strict_spec(observed@, wanted_mode, wanted_owner@),
{
    let o = chars_of(observed);
    match split_once_chars(&o, ' ') {
        None => false,
        Some((mode_text, owner)) => match parse_octal(&mode_text) {
            None => false,
            Some(mode) => {
                let w = chars_of(wanted_owner);
                (mode & !wanted_mode) == 0 && crate::text::eq_chars(&owner, &w)
            },
        },
    }
}

/// What a single filesystem scan found, by which check matched.
pub struct Scan {
    pub world_writable: Vec<String>,
    pub unowned: Vec<String>,
    pub setuid: Vec<String>,
}

impl Default for Scan {
    fn default() -> (s: Self)
        ensures
            s.world_writable@.len() == 0,
            s.unowned@.len() == 0,
            s.setuid@.len() == 0,
    {
        Scan { world_writable: Vec::new(), unowned: Vec::new(), setuid: Vec::new() }
    }
}

/// A scan line as `(tag, path)`: split at the first space, the path trimmed
/// and not empty.
pub open spec fn scan_entry(line: Seq<char>) -> Option<(Seq<char>, Seq<char>)> {
    match split_once(line, ' ') {
        None => None,
        Some((tag, rest)) => if trim(rest).len() == 0 {
            None
        } else {
            Some((tag, trim(rest)))
        },
    }
}

/// The paths of the lines carrying `tag`.
pub open spec fn tagged(output: Seq<char>, tag: Seq<char>) -> Seq<Seq<char>> {
    filter_map(
        lines(output),
        |l: Seq<char>|
            match scan_entry(l) {
                Some((t, p)) => if t == tag {
                    Some(p)
                } else {
                    None
                },
                None => None,
            },
    )
}

/// The setuid paths that are not the distribution's own.
pub open spec fn unexpected_setuid(output: Seq<char>) -> Seq<Seq<char>> {
    filter_map(
        lines(output),
        |l: Seq<char>|
            match scan_entry(l) {
                Some((t, p)) => if t == "SUID"@ && !is_expected_setuid_spec(p) {
                    Some(p)
                } else {
                    None
                },
                None => None,
            },
    )
}

fn scan_entry_exec(line: &Vec<char>) -> (r: Option<(Vec<char>, Vec<char>)>)
    ensures
        match r {
            Some((t, p)) => scan_entry(line@) == Some((t@, p@)),
            None => scan_entry(line@) is None,
        },
{
    match split_once_chars(line, ' ') {
        None => None,
        Some((tag, rest)) => {
            let path = trim_chars(&rest);
            if path.len() == 0 {
                None
            } else {
                Some((tag, path))
            }
        },
    }
}

/// Sort the tagged output of the scan into its three lists. Lines without a
/// tag and a path are skipped; an unowned file, matched once for `-nouser`
/// and once for `-nogroup`, is listed once, and that list is sorted.
pub fn parse_scan(output: &str) -> (scan: Scan)
    ensures
        strs(scan.world_writable@) == tagged(output@, "WW"@),
        strs(scan.setuid@) == unexpected_setuid(output@),
        sorted_strict(strs(scan.unowned@)),
        strs(scan.unowned@).to_set() == tagged(output@, "UNOWNED"@).to_set(),
{
    let ghost ww_tag = "WW"@;
    let ghost un_tag = "UNOWNED"@;
    let ghost su_tag = "SUID"@;
    proof {
        reveal_strlit("WW");
        reveal_strlit("UNOWNED");
        reveal_strlit("SUID");
        assert(ww_tag.len() == 2 && un_tag.len() == 7 && su_tag.len() == 4);
    }
    let ww_c = chars_of("WW");
    let un_c = chars_of("UNOWNED");
    let su_c = chars_of("SUID");
    let text = chars_of(output);
    let ls = lines_of(&text);
    let ghost all = seqs(ls@);
    let mut ww: Vec<Vec<char>> = Vec::new();
    let mut un: Vec<Vec<char>> = Vec::new();
    let mut su: Vec<String> = Vec::new();
    let n = ls.len();
    let mut i: usize = 0;
    while i < n
        invariant
            i <= n == ls.len(),
            all == seqs(ls@),
            all == lines(output@),
            text@ == output@,
            ww_c@ == ww_tag,
            un_c@ == un_tag,
            su_c@ == su_tag,
            ww_tag == "WW"@,
            un_tag == "UNOWNED"@,
            su_tag == "SUID"@,
            ww_tag != un_tag && ww_tag != su_tag && un_tag != su_tag,
            seqs(ww@) == filter_map(
                all.take(i as int),
                |l: Seq<char>|
                    match scan_entry(l) {
                        Some((t, p)) => if t == ww_tag {
                            Some(p)
                        } else {
                            None
                        },
                        None => None,
                    },
            ),
            seqs(un@) == filter_map(
                all.take(i as int),
                |l: Seq<char>|
                    match scan_entry(l) {
                        Some((t, p)) => if t == un_tag {
                            Some(p)
                        } else {
                            None
                        },
                        None => None,
                    },
            ),
            strs(su@) == filter_map(
                all.take(i as int),
                |l: Seq<char>|
                    match scan_entry(l) {
                        Some((t, p)) => if t == su_tag && !is_expected_setuid_spec(p) {
                            Some(p)
                        } else {
                            None
                        },
                        None => None,
                    },
            ),
        decreases n - i,
    {
        proof {
            assert(all.take(i + 1).drop_last() =~= all.take(i as int));
            assert(all.take(i + 1).last() == all[i as int]);
        }
        let ghost line = all[i as int];
        let ghost ww0 = seqs(ww@);
        let ghost un0 = seqs(un@);
        let ghost su0 = strs(su@);
        match scan_entry_exec(&ls[i]) {
            None => {},
            Some((tag, path)) => {
                if crate::text::eq_chars(&tag, &ww_c) {
                    ww.push(path);
                    proof {
                        assert(seqs(ww@) =~= ww0.push(scan_entry(line).unwrap().1));
                    }
                } else if crate::text::eq_chars(&tag, &un_c) {
                    un.push(path);
                    proof {
                        assert(seqs(un@) =~= un0.push(scan_entry(line).unwrap().1));
                    }
                } else if crate::text::eq_chars(&tag, &su_c) {
                    let s = string_of(&path);
                    if !is_expected_setuid(s.as_str()) {
                        su.push(s);
                        proof {
                            assert(strs(su@) =~= su0.push(scan_entry(line).unwrap().1));
                        }
                    }
                }
            },
        }
        i = i + 1;
    }
    proof {
        assert(all.take(n as int) =~= all);
    }
    let un_sorted = sorted_unique(un);
    Scan {
        world_writable: crate::text::strings_of(&ww),
        unowned: crate::text::strings_of(&un_sorted),
        setuid: su,
    }
}

} // verus!

verus! {

impl Task for FilePermissionsAuditTask {
    fn name(&self) -> (r: &str)
        ensures
            r@ == self.name@,
    {
        self.name.as_str()
    }

    fn description(&self) -> (r: &str)
        ensures
            r@ == self.description@,
    {
        self.description.as_str()
    }

    fn dry_run(&self) -> (b: bool)
        ensures
            b == self.dry_run,
    {
        self.dry_run
    }

    /// Only the flag changes.
    fn set_dry_run(&mut self, value: bool)
        ensures
            *final(self) == (FilePermissionsAuditTask { dry_run: value, ..*old(self) }),
    {
        self.dry_run = value;
    }
}

} // verus!

verus! {

/// What a dry run reports.
pub fn dry_run_message(present: usize) -> (r: String)
    ensures
        r@ == "DRY RUN: would correct up to "@ + decimal_string(present as nat) + " file modes; findings below are read-only."@,
{
    let parts = ["DRY RUN: would correct up to ", " file modes; findings below are read-only."];
    let r = format_counts(&parts, &[present]);
    proof {
        reveal_with_fuel(interleave, 2);
        assert(crate::text::views(parts@) =~= seq![parts[0]@, parts[1]@]);
        assert(Seq::<char>::empty() + r@ =~= r@);
    }
    r
}

/// What a finished run reports.
pub fn summary_message(corrected: usize) -> (r: String)
    ensures
        r@ == "Corrected "@ + decimal_string(corrected as nat) + " file modes."@,
{
    let parts = ["Corrected ", " file modes."];
    let r = format_counts(&parts, &[corrected]);
    proof {
        reveal_with_fuel(interleave, 2);
        assert(crate::text::views(parts@) =~= seq![parts[0]@, parts[1]@]);
        assert(Seq::<char>::empty() + r@ =~= r@);
    }
    r
}

} // verus!

verus! {

/// What `stat -c %a:%U:%G` printed, as a file's mode and owner are compared:
/// the mode as four octal digits, a space, then `user:group`.
pub open spec fn stat_description_spec(output: Seq<char>) -> Option<Seq<char>> {
    let parts = crate::text::split(trim(output), ':');
    if parts.len() < 3 {
        None
    } else {
        match parse_octal_spec(parts[0]) {
            Some(m) => Some(octal_spec(m) + " "@ + parts[1] + ":"@ + parts[2]),
            None => None,
        }
    }
}

pub fn stat_description(output: &str) -> (r: Option<String>)
    ensures
        match r {
            Some(d) => stat_description_spec(output@) == Some(d@),
            None => stat_description_spec(output@) is None,
        },
{
    let parts = crate::text::split_of(&trim_chars(&chars_of(output)), ':');
    if parts.len() < 3 {
        return None;
    }
    match parse_octal(&parts[0]) {
        Some(m) => {
            let mut v = chars_of(octal(m).as_str());
            v = crate::text::concat_str(&v, " ");
            crate::text::extend(&mut v, &parts[1]);
            v = crate::text::concat_str(&v, ":");
            crate::text::extend(&mut v, &parts[2]);
            proof {
                assert(seqs(parts@)[0] == parts@[0]@);
                assert(seqs(parts@)[1] == parts@[1]@);
                assert(seqs(parts@)[2] == parts@[2]@);
            }
            Some(string_of(&v))
        },
        None => {
            proof {
                assert(seqs(parts@)[0] == parts@[0]@);
            }
            None
        },
    }
}


/// A line of `find` output, trimmed, unless it is blank.
pub open spec fn nonblank_line(l: Seq<char>) -> Option<Seq<char>> {
    if trim(l).len() == 0 {
        None
    } else {
        Some(trim(l))
    }
}

/// The shared directories `find` listed as world-writable without the
/// sticky bit: its output lines, trimmed, with the blank ones left out.
pub fn unsticky_dirs(output: &str) -> (r: Vec<String>)
    ensures
        strs(r@) == filter_map(lines(output@), |l: Seq<char>| nonblank_line(l)),
{
    let ghost f = |l: Seq<char>| nonblank_line(l);
    let text = chars_of(output);
    let ls = lines_of(&text);
    let ghost all = seqs(ls@);
    let mut out: Vec<String> = Vec::new();
    let mut i: usize = 0;
    while i < ls.len()
        invariant
            i <= ls@.len(),
            all == seqs(ls@),
            all == lines(output@),
            f == (|l: Seq<char>| nonblank_line(l)),
            strs(out@) == filter_map(all.take(i as int), f),
        decreases ls@.len() - i,
    {
        proof {
            assert(all.take(i as int + 1).drop_last() =~= all.take(i as int));
            assert(all.take(i as int + 1).last() == ls@[i as int]@);
        }
        let t = trim_chars(&ls[i]);
        if t.len() > 0 {
            let ghost before = strs(out@);
            let line = string_of(&t);
            out.push(line);
            proof {
                assert(strs(out@) =~= before.push(line@));
            }
        }
        i = i + 1;
    }
    proof {
        assert(all.take(all.len() as int) =~= all);
    }
    out
}

} // verus!
