use tiny_melody::metadata::{TagData, TagOutcome, SongMetadata, remove_extension, is_audio_file,
    resolve_metadata, UNKNOWN_YEAR};

fn full_tag(
    title: Option<&str>,
    artist: Option<&str>,
    album: Option<&str>,
    track: Option<u32>,
    disc: Option<u32>,
    year: Option<i32>,
) -> TagOutcome {
    TagOutcome::Read(TagData {
        title: title.map(str::to_string),
        artist: artist.map(str::to_string),
        album: album.map(str::to_string),
        track,
        disc,
        year,
    })
}

fn resolve(name: &str, folder: Option<&str>, tag: &TagOutcome) -> SongMetadata {
    resolve_metadata(name, &folder.map(str::to_string), tag)
}

#[test]
fn remove_extension_strips_at_last_dot() {
    assert_eq!(remove_extension("track.mp3"), "track");
    assert_eq!(remove_extension("a.b.c"), "a.b");
    assert_eq!(remove_extension("no_extension"), "no_extension");
    assert_eq!(remove_extension(".mp3"), "");
    assert_eq!(remove_extension(""), "");
}

#[test]
fn audio_names_end_in_mp3_with_a_stem() {
    assert!(is_audio_file("x.mp3"));
    assert!(is_audio_file("a.b.mp3"));
    assert!(!is_audio_file("x.MP3"));
    assert!(!is_audio_file(".mp3"));
    assert!(!is_audio_file("mp3"));
    assert!(!is_audio_file("cover.jpg"));
    assert!(!is_audio_file("song.mp3x"));
}

#[test]
fn failed_tag_read_uses_the_full_fallback_set() {
    let m = resolve("track.mp3", Some("Album1"), &TagOutcome::Failed);
    assert_eq!(m.title, "track");
    assert_eq!(m.artist, "anonymous");
    assert_eq!(m.album, "Album1");
    assert_eq!(m.track, None);
    assert_eq!(m.disc, None);
    assert_eq!(m.year, UNKNOWN_YEAR);
}

#[test]
fn failed_tag_read_without_folder_yields_unknown_album() {
    let m = resolve("track.mp3", None, &TagOutcome::Failed);
    assert_eq!(m.album, "unknown");
}

#[test]
fn successful_tag_is_recorded_verbatim() {
    let t = full_tag(Some("Song"), Some("Band"), Some("Record"), Some(3), Some(1), Some(1999));
    let m = resolve("track.mp3", Some("Folder"), &t);
    assert_eq!(m.title, "Song");
    assert_eq!(m.artist, "Band");
    assert_eq!(m.album, "Record");
    assert_eq!(m.track, Some(3));
    assert_eq!(m.disc, Some(1));
    assert_eq!(m.year, 1999);
}

#[test]
fn empty_title_falls_back_to_the_file_name() {
    let t = full_tag(Some(""), Some("Band"), None, None, None, None);
    let m = resolve("some song.mp3", Some("Folder"), &t);
    assert_eq!(m.title, "some song");
    assert_eq!(m.artist, "Band");
    assert_eq!(m.album, "Folder");
    assert_eq!(m.year, UNKNOWN_YEAR);
}

#[test]
fn missing_fields_fall_back_one_by_one() {
    let t = full_tag(Some("Kept"), None, None, Some(7), None, None);
    let m = resolve("x.mp3", Some("Parent"), &t);
    assert_eq!(m.title, "Kept");
    assert_eq!(m.artist, "anonymous");
    assert_eq!(m.album, "Parent");
    assert_eq!(m.track, Some(7));
    assert_eq!(m.disc, None);
    assert_eq!(m.year, UNKNOWN_YEAR);
}

#[test]
fn present_but_empty_artist_is_kept() {
    let t = full_tag(Some("T"), Some(""), None, None, None, None);
    let m = resolve("x.mp3", None, &t);
    assert_eq!(m.artist, "");
}

#[test]
fn title_fallback_keeps_dotless_names_whole() {
    let m = resolve("plain", None, &TagOutcome::Failed);
    assert_eq!(m.title, "plain");
}
