use tiny_melody::catalog::{Catalog, build_catalog, content_type_of, get_music_path};
use tiny_melody::control::{ControlMessage, SupervisorStep, control_step};
use tiny_melody::fstree::FsEntry;
use tiny_melody::metadata::{TagData, TagOutcome, UNKNOWN_YEAR};
use tiny_melody::scan::scan_entries;

fn untagged(name: &str) -> FsEntry {
    FsEntry::File { name: name.to_string(), tag: TagOutcome::Failed }
}

fn file(name: &str, tag: TagOutcome) -> FsEntry {
    FsEntry::File { name: name.to_string(), tag }
}

fn dir(name: &str, entries: Vec<FsEntry>) -> FsEntry {
    FsEntry::Dir { name: name.to_string(), entries }
}

fn tagged(title: &str, artist: &str, year: i32) -> TagOutcome {
    TagOutcome::Read(TagData {
        title: Some(title.to_string()),
        artist: Some(artist.to_string()),
        album: None,
        track: None,
        disc: None,
        year: Some(year),
    })
}

fn build(entries: Vec<FsEntry>, root_name: Option<&str>) -> Catalog {
    build_catalog(&entries, &root_name.map(str::to_string))
}

#[test]
fn scenario_single_untagged_track_in_root() {
    let c = build(vec![untagged("track.mp3")], Some("Music"));
    assert_eq!(c.total_count, 1);
    assert_eq!(c.song_paths, vec!["track.mp3".to_string()]);
    assert!(c.folder_tree.is_empty());
    assert_eq!(c.metadata.len(), 1);
    assert_eq!(c.metadata[0].title, "track");
    assert_eq!(c.metadata[0].artist, "anonymous");
    assert_eq!(c.metadata[0].year, UNKNOWN_YEAR);
    assert_eq!(c.metadata[0].album, "Music");
}

#[test]
fn scenario_nested_album_with_sub_folder() {
    let tree = vec![dir(
        "Album1",
        vec![untagged("a.mp3"), dir("Sub", vec![untagged("b.mp3")])],
    )];
    let c = build(tree, Some("Music"));
    assert_eq!(c.total_count, 2);
    assert_eq!(
        c.song_paths,
        vec!["Album1/a.mp3".to_string(), "Album1/Sub/b.mp3".to_string()]
    );
    assert_eq!(c.folder_tree.len(), 1);
    let album = &c.folder_tree[0];
    assert_eq!(album.label, "Album1");
    assert_eq!(album.count, 2);
    assert_eq!(album.start, 0);
    assert_eq!(album.children.len(), 1);
    let sub = &album.children[0];
    assert_eq!(sub.label, "Sub");
    assert_eq!(sub.count, 1);
    assert_eq!(sub.start, 1);
    assert!(sub.children.is_empty());
    assert_eq!(c.metadata[0].album, "Album1");
    assert_eq!(c.metadata[1].album, "Sub");
}

#[test]
fn scenario_directory_without_audio_is_pruned() {
    let tree = vec![dir("Empty", vec![file("cover.jpg", TagOutcome::Failed)])];
    let c = build(tree, Some("Music"));
    assert_eq!(c.total_count, 0);
    assert!(c.song_paths.is_empty());
    assert!(c.metadata.is_empty());
    assert!(c.folder_tree.is_empty());
}

#[test]
fn scenario_successful_tag_recorded_verbatim() {
    let tree = vec![file("whatever.mp3", tagged("Song", "Band", 1999))];
    let c = build(tree, Some("Music"));
    assert_eq!(c.total_count, 1);
    assert_eq!(c.metadata[0].title, "Song");
    assert_eq!(c.metadata[0].artist, "Band");
    assert_eq!(c.metadata[0].year, 1999);
}

#[test]
fn top_level_counts_plus_root_files_equal_the_total() {
    let tree = vec![
        untagged("one.mp3"),
        dir("A", vec![untagged("a1.mp3"), untagged("a2.mp3")]),
        untagged("two.mp3"),
        dir("B", vec![dir("B1", vec![untagged("b1.mp3")])]),
        file("notes.txt", TagOutcome::Failed),
    ];
    let c = build(tree, Some("Music"));
    assert_eq!(c.total_count, 5);
    let top_sum: u32 = c.folder_tree.iter().map(|n| n.count).sum();
    let direct_in_root = 2;
    assert_eq!(top_sum + direct_in_root, c.total_count);
}

#[test]
fn every_folder_count_equals_children_plus_direct_files() {
    let tree = vec![dir(
        "A",
        vec![
            untagged("a1.mp3"),
            dir("B", vec![untagged("b1.mp3"), untagged("b2.mp3")]),
            dir("C", vec![untagged("c1.mp3")]),
        ],
    )];
    let c = build(tree, Some("Music"));
    let a = &c.folder_tree[0];
    let children_sum: u32 = a.children.iter().map(|n| n.count).sum();
    assert_eq!(a.count, children_sum + 1);
    assert_eq!(a.count, 4);
    assert_eq!(a.children[0].count, 2);
    assert_eq!(a.children[1].count, 1);
}

#[test]
fn start_offsets_follow_traversal_order() {
    let tree = vec![
        dir("A", vec![untagged("a.mp3")]),
        untagged("root.mp3"),
        dir("B", vec![untagged("b.mp3"), dir("C", vec![untagged("c.mp3")])]),
    ];
    let c = build(tree, Some("Music"));
    assert_eq!(c.song_paths[0], "A/a.mp3");
    assert_eq!(c.song_paths[1], "root.mp3");
    assert_eq!(c.song_paths[2], "B/b.mp3");
    assert_eq!(c.song_paths[3], "B/C/c.mp3");
    assert_eq!(c.folder_tree[0].start, 0);
    assert_eq!(c.folder_tree[1].label, "B");
    assert_eq!(c.folder_tree[1].start, 2);
    assert_eq!(c.folder_tree[1].children[0].label, "C");
    assert_eq!(c.folder_tree[1].children[0].start, 3);
}

#[test]
fn deeply_nested_songless_branches_are_pruned_entirely() {
    let tree = vec![
        dir("X", vec![dir("Y", vec![dir("Z", vec![file("art.png", TagOutcome::Failed)])])]),
        dir("Keep", vec![untagged("k.mp3")]),
    ];
    let c = build(tree, Some("Music"));
    assert_eq!(c.total_count, 1);
    assert_eq!(c.folder_tree.len(), 1);
    assert_eq!(c.folder_tree[0].label, "Keep");
}

#[test]
fn unreadable_directory_scans_as_empty() {
    let tree = vec![dir("Denied", vec![]), untagged("ok.mp3")];
    let c = build(tree, Some("Music"));
    assert_eq!(c.total_count, 1);
    assert_eq!(c.song_paths, vec!["ok.mp3".to_string()]);
    assert!(c.folder_tree.is_empty());
}

#[test]
fn paths_and_metadata_stay_parallel() {
    let tree = vec![
        file("first.mp3", tagged("One", "A", 2001)),
        dir("D", vec![file("second.mp3", tagged("Two", "B", 2002))]),
        file("third.mp3", tagged("Three", "C", 2003)),
    ];
    let c = build(tree, Some("Music"));
    assert_eq!(c.song_paths.len(), c.metadata.len());
    assert_eq!(c.song_paths[0], "first.mp3");
    assert_eq!(c.metadata[0].title, "One");
    assert_eq!(c.song_paths[1], "D/second.mp3");
    assert_eq!(c.metadata[1].title, "Two");
    assert_eq!(c.song_paths[2], "third.mp3");
    assert_eq!(c.metadata[2].title, "Three");
}

#[test]
fn scan_entries_honours_its_starting_index() {
    let entries = vec![dir("A", vec![untagged("a.mp3")])];
    let out = scan_entries(&entries, &"pre/".to_string(), &Some("root".to_string()), 10);
    assert_eq!(out.count, 1);
    assert_eq!(out.paths, vec!["pre/A/a.mp3".to_string()]);
    assert_eq!(out.children[0].start, 10);
}

#[test]
fn get_music_path_joins_in_range_indices() {
    let list = vec!["a.mp3".to_string(), "B/b.mp3".to_string()];
    let root = "/srv/music".to_string();
    assert_eq!(get_music_path(0, &root, &list), Some("/srv/music/a.mp3".to_string()));
    assert_eq!(get_music_path(1, &root, &list), Some("/srv/music/B/b.mp3".to_string()));
}

#[test]
fn get_music_path_rejects_out_of_range_indices() {
    let list = vec!["a.mp3".to_string()];
    let root = "/srv/music".to_string();
    assert_eq!(get_music_path(1, &root, &list), None);
    assert_eq!(get_music_path(usize::MAX, &root, &list), None);
}

#[test]
fn content_type_matches_the_audio_predicate() {
    assert_eq!(content_type_of("song.mp3"), "audio/mpeg");
    assert_eq!(content_type_of("cover.jpg"), "application/octet-stream");
    assert_eq!(content_type_of(".mp3"), "application/octet-stream");
}

#[test]
fn control_messages_drive_the_supervisor() {
    assert_eq!(control_step(&Some(ControlMessage::Restart)), SupervisorStep::Relaunch);
    assert_eq!(control_step(&Some(ControlMessage::Search)), SupervisorStep::RescanThenRelaunch);
    assert_eq!(control_step(&Some(ControlMessage::Stop)), SupervisorStep::Shutdown);
    assert_eq!(control_step(&None), SupervisorStep::Shutdown);
}
