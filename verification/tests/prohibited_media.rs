use pinnacle_cypat::models::ReadmeData;
use pinnacle_cypat::tasks::prohibited_media::{
    is_exempt, is_media, report_only_evidence, searched_evidence, ProhibitedMediaTask, SEARCH_ROOTS,
};

#[test]
fn media_is_recognised_by_extension_in_any_case() {
    for name in ["song.mp3", "clip.MP4", "album.FLAC", "disc.iso"] {
        assert!(is_media(name), "{name} was not recognised");
    }
    for name in ["notes.txt", "report.pdf", "script.sh", "noextension"] {
        assert!(!is_media(name), "{name} was wrongly flagged");
    }
}

#[test]
fn program_owned_directories_are_exempt() {
    assert!(is_exempt("/usr/share/sounds/freedesktop/stereo/bell.oga"));
    assert!(is_exempt("/home/alice/.cache/thumbnails/x.mp4"));
    assert!(is_exempt("/home/alice/.local/share/Trash/files/old.mp3"));
    assert!(!is_exempt("/home/alice/Music/song.mp3"));
    assert!(!is_exempt("/home/alice/Desktop/movie.mp4"));
}

#[test]
fn media_is_only_prohibited_when_the_readme_says_so() {
    let mut task = ProhibitedMediaTask::new();
    assert!(!task.media_is_prohibited(), "no README means no deletion");
    task.set_readme_data(ReadmeData {
        scenario: "The presence of any non-work related media files is strictly prohibited.".to_string(),
        ..Default::default()
    });
    assert!(task.media_is_prohibited());
}

#[test]
fn a_readme_that_says_nothing_about_media_does_not_authorise_deletion() {
    let mut task = ProhibitedMediaTask::new();
    task.set_readme_data(ReadmeData {
        scenario: "You are the administrator for a small accounting firm.".to_string(),
        ..Default::default()
    });
    assert!(!task.media_is_prohibited());
}

#[test]
fn the_extension_is_that_of_the_last_component() {
    assert!(is_media("/home/alice/Music/song.mp3"));
    assert!(is_media("/home/alice/clip.tar.MKV"));
    assert!(!is_media("/home/alice/.mp3"));
    assert!(!is_media("/home/alice/music.mp3/.."));
    assert!(is_media("/home/alice/song.mp3/"));
    assert!(!is_media(""));
}

#[test]
fn a_prohibition_in_the_guidelines_counts_too() {
    let mut task = ProhibitedMediaTask::new();
    task.set_readme_data(ReadmeData {
        guidelines: vec!["No MUSIC on company machines".to_string()],
        ..Default::default()
    });
    assert!(task.media_is_prohibited());
}

#[test]
fn media_left_in_place_is_recorded_with_the_reason() {
    assert_eq!(
        report_only_evidence(3),
        "3 media files found; not deleted, because no README prohibited them"
    );
}

#[test]
fn a_clean_media_search_says_where_it_looked() {
    assert_eq!(searched_evidence(), "searched /home, /root, /srv, /opt, /tmp, /var/tmp");
    assert_eq!(searched_evidence(), format!("searched {}", SEARCH_ROOTS.join(", ")));
}
