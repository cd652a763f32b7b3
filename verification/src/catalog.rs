//! The Catalog Builder and the index-addressed lookups served from a
//! finished catalog.

use vstd::prelude::*;
use crate::fstree::{FsEntry, audio_count_seq, direct_audio_count};
use crate::metadata::{SongMetadata, is_audio_name, opt_view};
use crate::scan::{FolderNode, ScanOutcome, found_songs, lemma_count_decomposition,
    lemma_found_count, lemma_tree_positive, metas_of, metas_view, nodes_positive, nodes_view,
    paths_of, paths_view, scan_entries, spec_tree, sum_counts};
use vstd::string::StringExecFns;

verus! {

/// One scan's snapshot: the flat ordered song-path list, the metadata
/// table parallel to it, the pruned folder tree, and the total count.
pub struct Catalog {
    pub song_paths: Vec<String>,
    pub metadata: Vec<SongMetadata>,
    pub folder_tree: Vec<FolderNode>,
    pub total_count: u32,
}

/// Builds the catalog for a scan root whose entries are `entries` and
/// whose own directory name (used as album fallback for files lying
/// directly in the root) is `root_name`.
///
/// The contract pins all four pieces down: the count is the number of
/// audio files in the tree; paths and metadata are the two columns of
/// the discovered songs, parallel index for index; the folder tree is
/// the pruned tree with exact counts and start offsets; and the
/// top-level counts plus the files directly in the root add up to the
/// total.
pub fn build_catalog(entries: &Vec<FsEntry>, root_name: &Option<String>) -> (c: Catalog)
    requires
        audio_count_seq(entries@) <= u32::MAX as nat,
    ensures
        c.total_count as nat == audio_count_seq(entries@),
        c.song_paths@.len() == c.total_count,
        c.metadata@.len() == c.total_count,
        paths_view(c.song_paths@) == paths_of(
            found_songs(entries@, Seq::empty(), opt_view(*root_name)),
        ),
        metas_view(c.metadata@) == metas_of(
            found_songs(entries@, Seq::empty(), opt_view(*root_name)),
        ),
        nodes_view(c.folder_tree@) == spec_tree(entries@, 0),
        c.total_count as nat == direct_audio_count(entries@) + sum_counts(
            spec_tree(entries@, 0),
        ),
        nodes_positive(nodes_view(c.folder_tree@)),
{
    let empty_prefix = String::new();
    let out = scan_entries(entries, &empty_prefix, root_name, 0);
    proof {
        lemma_found_count(entries@, Seq::empty(), opt_view(*root_name));
        lemma_count_decomposition(entries@, 0);
        lemma_tree_positive(entries@, 0);
        let found = found_songs(entries@, Seq::empty(), opt_view(*root_name));
        assert(paths_view(out.paths@).len() == out.paths@.len());
        assert(metas_view(out.metas@).len() == out.metas@.len());
        assert(paths_of(found).len() == found.len());
        assert(metas_of(found).len() == found.len());
    }
    let ScanOutcome { paths, metas, children, count } = out;
    Catalog { song_paths: paths, metadata: metas, folder_tree: children, total_count: count }
}

/// Maps a global index back to a playable path: the song-path entry at
/// that index joined to the library root — `Some` exactly on indices
/// below the list's length.
pub fn get_music_path(index: usize, music_path: &String, music_list: &Vec<String>) -> (r: Option<
    String,
>)
    ensures
        index < music_list@.len() ==> (r matches Some(p) && p@ == music_path@ + "/"@
            + music_list@[index as int]@),
        index >= music_list@.len() ==> r is None,
{
    if index < music_list.len() {
        let mut p = music_path.clone();
        p.append("/");
        p.append(music_list[index].as_str());
        Some(p)
    } else {
        None
    }
}

/// The content type the serving layer answers with for a file of this
/// name: `audio/mpeg` for catalogued audio, a generic byte stream
/// otherwise.
pub fn content_type_of(name: &str) -> (r: &'static str)
    ensures
        is_audio_name(name@) ==> r@ == "audio/mpeg"@,
        !is_audio_name(name@) ==> r@ == "application/octet-stream"@,
{
    if crate::metadata::is_audio_file(name) {
        "audio/mpeg"
    } else {
        "application/octet-stream"
    }
}

} // verus!
