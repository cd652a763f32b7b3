use tiny_melody::catalog::build_catalog;
use tiny_melody::fstree::FsEntry;
use tiny_melody::metadata::{SongMetadata, TagData, TagOutcome};
use tiny_melody::scan::FolderNode;
use tiny_melody::serialize::{folder_tree_json, song_list_text, tag_table_json};

fn untagged(name: &str) -> FsEntry {
    FsEntry::File { name: name.to_string(), tag: TagOutcome::Failed }
}

fn dir(name: &str, entries: Vec<FsEntry>) -> FsEntry {
    FsEntry::Dir { name: name.to_string(), entries }
}

fn meta(title: &str, artist: &str, album: &str, year: i32) -> SongMetadata {
    SongMetadata {
        title: title.to_string(),
        artist: artist.to_string(),
        album: album.to_string(),
        track: None,
        disc: None,
        year,
    }
}

#[test]
fn folder_tree_serializes_nested_nodes_exactly() {
    let node = FolderNode {
        label: "Album1".to_string(),
        count: 2,
        start: 0,
        children: vec![FolderNode {
            label: "Sub".to_string(),
            count: 1,
            start: 1,
            children: vec![],
        }],
    };
    assert_eq!(
        folder_tree_json(&vec![node]),
        "[{\"label\":\"Album1\",\"count\":2,\"start\":0,\"children\":\
         [{\"label\":\"Sub\",\"count\":1,\"start\":1,\"children\":[]}]}]"
    );
}

#[test]
fn empty_folder_tree_serializes_as_empty_array() {
    assert_eq!(folder_tree_json(&vec![]), "[]");
}

#[test]
fn sibling_nodes_are_comma_separated() {
    let a = FolderNode { label: "A".to_string(), count: 1, start: 0, children: vec![] };
    let b = FolderNode { label: "B".to_string(), count: 3, start: 1, children: vec![] };
    assert_eq!(
        folder_tree_json(&vec![a, b]),
        "[{\"label\":\"A\",\"count\":1,\"start\":0,\"children\":[]},\
         {\"label\":\"B\",\"count\":3,\"start\":1,\"children\":[]}]"
    );
}

#[test]
fn labels_are_json_escaped() {
    let node = FolderNode {
        label: "He said \"hi\"\\\n".to_string(),
        count: 1,
        start: 0,
        children: vec![],
    };
    assert_eq!(
        folder_tree_json(&vec![node]),
        "[{\"label\":\"He said \\\"hi\\\"\\\\\\n\",\"count\":1,\"start\":0,\"children\":[]}]"
    );
}

#[test]
fn control_characters_become_unicode_escapes() {
    let m = meta("a\u{1}b", "x", "y", 2000);
    let text = tag_table_json(&vec![m]);
    assert!(text.contains("\"a\\u0001b\""));
}

#[test]
fn tag_table_holds_four_parallel_arrays() {
    let table = vec![
        meta("track", "anonymous", "unknown", 2077),
        meta("Song", "Band", "Record", 1999),
    ];
    assert_eq!(
        tag_table_json(&table),
        "{\"title\":[\"track\",\"Song\"],\"artist\":[\"anonymous\",\"Band\"],\
         \"album\":[\"unknown\",\"Record\"],\"year\":[2077,1999]}"
    );
}

#[test]
fn empty_tag_table_serializes_with_empty_arrays() {
    assert_eq!(
        tag_table_json(&vec![]),
        "{\"title\":[],\"artist\":[],\"album\":[],\"year\":[]}"
    );
}

#[test]
fn negative_years_keep_their_sign() {
    let text = tag_table_json(&vec![meta("t", "a", "b", -44)]);
    assert!(text.ends_with("\"year\":[-44]}"));
}

#[test]
fn large_counts_render_in_full() {
    let node = FolderNode {
        label: "big".to_string(),
        count: 4294967295,
        start: 1048576,
        children: vec![],
    };
    assert_eq!(
        folder_tree_json(&vec![node]),
        "[{\"label\":\"big\",\"count\":4294967295,\"start\":1048576,\"children\":[]}]"
    );
}

#[test]
fn song_list_is_newline_joined_without_trailing_newline() {
    let paths = vec!["a.mp3".to_string(), "B/b.mp3".to_string(), "c.mp3".to_string()];
    assert_eq!(song_list_text(&paths), "a.mp3\nB/b.mp3\nc.mp3");
    assert_eq!(song_list_text(&vec![]), "");
    assert_eq!(song_list_text(&vec!["only.mp3".to_string()]), "only.mp3");
}

#[test]
fn serialized_tree_parses_back_with_the_same_shape() {
    let tree = vec![dir(
        "Album1",
        vec![untagged("a.mp3"), dir("Sub", vec![untagged("b.mp3")])],
    )];
    let c = build_catalog(&tree, &Some("Music".to_string()));
    let text = folder_tree_json(&c.folder_tree);
    let parsed: serde_json::Value = serde_json::from_str(&text).unwrap();
    let top = parsed.as_array().unwrap();
    assert_eq!(top.len(), 1);
    assert_eq!(top[0]["label"], "Album1");
    assert_eq!(top[0]["count"], 2);
    assert_eq!(top[0]["start"], 0);
    let children = top[0]["children"].as_array().unwrap();
    assert_eq!(children.len(), 1);
    assert_eq!(children[0]["label"], "Sub");
    assert_eq!(children[0]["count"], 1);
    assert_eq!(children[0]["start"], 1);
}

#[test]
fn serialized_tag_table_parses_back_with_parallel_columns() {
    let tree = vec![
        untagged("track.mp3"),
        FsEntry::File {
            name: "x.mp3".to_string(),
            tag: TagOutcome::Read(TagData {
                title: Some("Song".to_string()),
                artist: Some("Band".to_string()),
                album: Some("Record".to_string()),
                track: Some(2),
                disc: None,
                year: Some(1999),
            }),
        },
    ];
    let c = build_catalog(&tree, &Some("Music".to_string()));
    let text = tag_table_json(&c.metadata);
    let parsed: serde_json::Value = serde_json::from_str(&text).unwrap();
    assert_eq!(parsed["title"].as_array().unwrap().len(), 2);
    assert_eq!(parsed["title"][0], "track");
    assert_eq!(parsed["artist"][0], "anonymous");
    assert_eq!(parsed["album"][0], "Music");
    assert_eq!(parsed["year"][0], 2077);
    assert_eq!(parsed["title"][1], "Song");
    assert_eq!(parsed["artist"][1], "Band");
    assert_eq!(parsed["album"][1], "Record");
    assert_eq!(parsed["year"][1], 1999);
}

#[test]
fn escaped_labels_round_trip_through_a_json_parser() {
    let label = "quote \" backslash \\ newline \n tab \t bell \u{7}";
    let node = FolderNode { label: label.to_string(), count: 1, start: 0, children: vec![] };
    let text = folder_tree_json(&vec![node]);
    let parsed: serde_json::Value = serde_json::from_str(&text).unwrap();
    assert_eq!(parsed[0]["label"].as_str().unwrap(), label);
}
