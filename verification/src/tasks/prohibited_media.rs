//! Media files in user directories. They are found by extension and listed;
//! they are deleted only when the README's own words prohibit media, because
//! on a media company's image they are the company's work.
use vstd::prelude::*;
use crate::task::Task;
use crate::text::{decimal_string, format_counts, interleave};
use crate::text::{decimal_of, join_strs, string_of};
use crate::models::ReadmeData;
use crate::paths::{extension, extension_exec, file_name, file_name_exec};
use crate::text::{
    any_ci, any_ci_exec, chars_all, chars_of, concat_chars, concat_str, contains, contains_chars,
    eq_chars, filter_map, join, join_chars, lowercase, lowercase_chars, seqs, split, split_of,
    strs, views,
};

verus! {

/// The extensions a media file has, compared without regard to ASCII case.
pub const MEDIA_EXTENSIONS: [&'static str; 28] = [
    "mp3",
    "mp4",
    "m4a",
    "m4v",
    "wav",
    "wma",
    "wmv",
    "avi",
    "mov",
    "mkv",
    "flac",
    "aac",
    "ogg",
    "oga",
    "ogv",
    "webm",
    "flv",
    "mpg",
    "mpeg",
    "3gp",
    "aiff",
    "alac",
    "opus",
    "mid",
    "midi",
    "iso",
    "img",
    "vob",
];

/// Where competitors' files are.
pub const SEARCH_ROOTS: [&'static str; 6] = ["/home", "/root", "/srv", "/opt", "/tmp", "/var/tmp"];

/// Directories programs own: their media is not the competitor's.
pub const EXEMPT_PATH_FRAGMENTS: [&'static str; 7] = [
    "/.cache/",
    "/.local/share/Trash/",
    "/usr/share/",
    "/snap/",
    "/.config/",
    "/site-packages/",
    "/node_modules/",
];

/// What a README says when it prohibits media.
pub const MEDIA_NEEDLES: [&'static str; 6] = [
    "media file",
    "media files",
    "music",
    "video",
    "mp3",
    "non-work related",
];

pub struct ProhibitedMediaTask {
    pub name: String,
    pub description: String,
    pub dry_run: bool,
    pub readme_data: Option<ReadmeData>,
}

/// The text a README's prohibition of media would be in: the scenario, the
/// guidelines and the prohibited software, each lowercased.
pub open spec fn media_haystack(r: ReadmeData) -> Seq<char> {
    lowercase(r.scenario@) + " "@ + lowercase(join(strs(r.guidelines@), " "@)) + " "@ + lowercase(
        join(strs(r.prohibited_software@), " "@),
    )
}

pub open spec fn media_prohibited_spec(readme: Option<ReadmeData>) -> bool {
    match readme {
        None => false,
        Some(r) => exists|i: int|
            0 <= i < 6 && contains(media_haystack(r), #[trigger] MEDIA_NEEDLES@[i]@),
    }
}

impl ProhibitedMediaTask {
    pub fn new() -> (t: Self)
        ensures
            t.name@ == "Prohibited Media"@,
            t.description@ == "Find media files in user directories"@,
            !t.dry_run,
            t.readme_data is None,
    {
        ProhibitedMediaTask {
            name: String::from_str("Prohibited Media"),
            description: String::from_str("Find media files in user directories"),
            dry_run: false,
            readme_data: None,
        }
    }

    pub fn set_readme_data(&mut self, data: ReadmeData)
        ensures
            final(self).readme_data == Some(data),
            final(self).name == old(self).name,
            final(self).description == old(self).description,
            final(self).dry_run == old(self).dry_run,
    {
        self.readme_data = Some(data);
    }

    /// May media be deleted? Only when a README's own words prohibit it;
    /// without a README nothing is deleted.
    pub fn media_is_prohibited(&self) -> (b: bool)
        ensures
            b == media_prohibited_spec(self.readme_data),
    {
        match &self.readme_data {
            None => false,
            Some(r) => {
                let sp = chars_of(" ");
                let mut hay = lowercase_chars(&chars_of(r.scenario.as_str()));
                hay = concat_str(&hay, " ");
                hay = concat_chars(&hay, &lowercase_chars(&join_chars(&chars_all(&r.guidelines), &sp)));
                hay = concat_str(&hay, " ");
                hay = concat_chars(
                    &hay,
                    &lowercase_chars(&join_chars(&chars_all(&r.prohibited_software), &sp)),
                );
                proof {
                    assert(sp@ =~= " "@);
                }
                let mut i: usize = 0;
                while i < 6
                    invariant
                        i <= 6,
                        self.readme_data == Some(*r),
                        hay@ == media_haystack(*r),
                        forall|k: int| 0 <= k < i ==> !contains(hay@, #[trigger] MEDIA_NEEDLES@[k]@),
                    decreases 6 - i,
                {
                    if contains_chars(&hay, &chars_of(MEDIA_NEEDLES[i])) {
                        proof {
                            assert(contains(media_haystack(*r), MEDIA_NEEDLES@[i as int]@));
                        }
                        return true;
                    }
                    i = i + 1;
                }
                false
            },
        }
    }
}

impl Default for ProhibitedMediaTask {
    fn default() -> (t: Self)
        ensures
            t.name@ == "Prohibited Media"@,
            t.description@ == "Find media files in user directories"@,
            !t.dry_run,
            t.readme_data is None,
    {
        Self::new()
    }
}

pub open spec fn is_media_spec(path: Seq<char>) -> bool {
    match file_name(path) {
        Some(n) => match extension(n) {
            Some(e) => any_ci(views(MEDIA_EXTENSIONS@), e),
            None => false,
        },
        None => false,
    }
}

/// Is this a media file, by its extension in any case? The path is read the
/// way `Path` reads it: the extension of its last component.
pub fn is_media(path: &str) -> (b: bool)
    ensures
        b == is_media_spec(path@),
{
    match file_name_exec(&chars_of(path)) {
        None => false,
        Some(name) => match extension_exec(&name) {
            None => false,
            Some(e) => any_ci_exec(&MEDIA_EXTENSIONS, &e),
        },
    }
}

pub open spec fn is_exempt_spec(path: Seq<char>) -> bool {
    exists|i: int| 0 <= i < 7 && contains(path, #[trigger] EXEMPT_PATH_FRAGMENTS@[i]@)
}

/// Is the file under a directory a program owns (a cache, the trash, the
/// system's shared data), whose media is not the competitor's?
pub fn is_exempt(path: &str) -> (b: bool)
    ensures
        b == is_exempt_spec(path@),
{
    let p = chars_of(path);
    let mut i: usize = 0;
    while i < 7
        invariant
            i <= 7,
            p@ == path@,
            forall|k: int| 0 <= k < i ==> !contains(path@, #[trigger] EXEMPT_PATH_FRAGMENTS@[k]@),
        decreases 7 - i,
    {
        if contains_chars(&p, &chars_of(EXEMPT_PATH_FRAGMENTS[i])) {
            return true;
        }
        i = i + 1;
    }
    false
}

} // verus!

verus! {

impl Task for ProhibitedMediaTask {
    fn name(&self) -> (r: &str)
        ensures
            r@ == self.name@,
    {
        self.name.as_str()
    }

    fn description(&self) -> (r: &str)
        ensures
            r@ == self.description@,
    {
        self.description.as_str()
    }

    fn dry_run(&self) -> (b: bool)
        ensures
            b == self.dry_run,
    {
        self.dry_run
    }

    /// Only the flag changes.
    fn set_dry_run(&mut self, value: bool)
        ensures
            *final(self) == (ProhibitedMediaTask { dry_run: value, ..*old(self) }),
    {
        self.dry_run = value;
    }
}

} // verus!

verus! {

/// What is reported when no media file was found.
pub const NOTHING_FOUND_MESSAGE: &'static str = "No media files found.";

/// What is reported when the README does not prohibit media.
pub fn report_only_message(found: usize) -> (r: String)
    ensures
        r@ == decimal_string(found as nat) + " media files found. Review them; no README prohibited media, so nothing was deleted."@,
{
    let parts = ["", " media files found. Review them; no README prohibited media, so nothing was deleted."];
    let r = format_counts(&parts, &[found]);
    proof {
        reveal_strlit("");
        reveal_with_fuel(interleave, 2);
        assert(crate::text::views(parts@) =~= seq![parts[0]@, parts[1]@]);
        assert(Seq::<char>::empty() + r@ =~= r@);
    }
    r
}

/// What a dry run reports.
pub fn dry_run_message(found: usize) -> (r: String)
    ensures
        r@ == "DRY RUN: would delete "@ + decimal_string(found as nat) + " media files."@,
{
    let parts = ["DRY RUN: would delete ", " media files."];
    let r = format_counts(&parts, &[found]);
    proof {
        reveal_with_fuel(interleave, 2);
        assert(crate::text::views(parts@) =~= seq![parts[0]@, parts[1]@]);
        assert(Seq::<char>::empty() + r@ =~= r@);
    }
    r
}

/// What a finished run reports.
pub fn summary_message(deleted: usize) -> (r: String)
    ensures
        r@ == "Deleted "@ + decimal_string(deleted as nat) + " media files."@,
{
    let parts = ["Deleted ", " media files."];
    let r = format_counts(&parts, &[deleted]);
    proof {
        reveal_with_fuel(interleave, 2);
        assert(crate::text::views(parts@) =~= seq![parts[0]@, parts[1]@]);
        assert(Seq::<char>::empty() + r@ =~= r@);
    }
    r
}


/// What the finding records of a search: where it looked.
pub fn searched_evidence() -> (r: String)
    ensures
        r@ == "searched "@ + join(views(SEARCH_ROOTS@), ", "@),
{
    let all = join_strs(&SEARCH_ROOTS, ", ");
    string_of(&concat_str(&chars_of("searched "), all.as_str()))
}

/// What the finding records when media was found and the README did not
/// prohibit it.
pub fn report_only_evidence(found: usize) -> (r: String)
    ensures
        r@ == decimal_string(found as nat)
            + " media files found; not deleted, because no README prohibited them"@,
{
    let v = concat_str(
        &decimal_of(found as u64),
        " media files found; not deleted, because no README prohibited them",
    );
    string_of(&v)
}

} // verus!
