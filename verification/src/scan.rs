//! The Directory Scanner: one depth-first pass over the entry tree that
//! assigns global indices in traversal order, collects root-relative
//! song paths and resolved metadata as parallel lists, and builds the
//! pruned folder tree.

use vstd::prelude::*;
use crate::fstree::{FsEntry, audio_count, audio_count_seq, direct_audio_count,
    lemma_audio_count_cons, lemma_audio_count_seq_split};
use crate::metadata::{MetaModel, SongMetadata, TagOutcome, is_audio_name, opt_view,
    resolve_metadata, resolve_model, is_audio_file};
use vstd::string::StringExecFns;

verus! {

/// One directory that holds at least one audio file somewhere below it:
/// its name, how many songs its subtree holds, the global index of the
/// first of them, and its sub-folders in discovery order.
pub struct FolderNode {
    pub label: String,
    pub count: u32,
    pub start: u32,
    pub children: Vec<FolderNode>,
}

/// Mathematical image of a `FolderNode`.
pub ghost struct NodeModel {
    pub label: Seq<char>,
    pub count: nat,
    pub start: nat,
    pub children: Seq<NodeModel>,
}

/// Image of one folder node, children included.
pub open spec fn node_view(n: FolderNode) -> NodeModel
    decreases n,
{
    NodeModel {
        label: n.label@,
        count: n.count as nat,
        start: n.start as nat,
        children: nodes_view(n.children@),
    }
}

/// Image of a list of folder nodes.
pub open spec fn nodes_view(s: Seq<FolderNode>) -> Seq<NodeModel>
    decreases s,
{
    if s.len() == 0 {
        Seq::empty()
    } else {
        nodes_view(s.drop_last()).push(node_view(s.last()))
    }
}

/// Sum of the `count` fields of a list of nodes.
pub open spec fn sum_counts(s: Seq<NodeModel>) -> nat
    decreases s,
{
    if s.len() == 0 {
        0nat
    } else {
        sum_counts(s.drop_last()) + s.last().count
    }
}

/// The folder nodes one entry contributes when its subtree starts at
/// global index `offset`: none for a file or a songless directory, one
/// node otherwise.
pub open spec fn tree_for_entry(e: FsEntry, offset: nat) -> Seq<NodeModel>
    decreases e,
{
    match e {
        FsEntry::File { .. } => Seq::empty(),
        FsEntry::Dir { name, entries } => if audio_count_seq(entries@) > 0 {
            seq![
                NodeModel {
                    label: name@,
                    count: audio_count_seq(entries@),
                    start: offset,
                    children: spec_tree(entries@, offset),
                },
            ]
        } else {
            Seq::empty()
        },
    }
}

/// The folder tree of a list of entries whose first song would get
/// global index `start`.
pub open spec fn spec_tree(s: Seq<FsEntry>, start: nat) -> Seq<NodeModel>
    decreases s,
{
    if s.len() == 0 {
        Seq::empty()
    } else {
        spec_tree(s.drop_last(), start) + tree_for_entry(
            s.last(),
            start + audio_count_seq(s.drop_last()),
        )
    }
}

/// One audio file the scan discovers: its root-relative path and the
/// name, folder and tag outcome its metadata is resolved from.  Path
/// list and metadata table are both images of one sequence of these,
/// which is what keeps them parallel.
pub ghost struct FoundSong {
    pub path: Seq<char>,
    pub name: Seq<char>,
    pub folder: Option<Seq<char>>,
    pub tag: TagOutcome,
}

/// The songs one entry contributes, in traversal order.
pub open spec fn songs_for_entry(e: FsEntry, prefix: Seq<char>, folder: Option<Seq<char>>) -> Seq<
    FoundSong,
>
    decreases e,
{
    match e {
        FsEntry::File { name, tag } => if is_audio_name(name@) {
            seq![(FoundSong { path: prefix + name@, name: name@, folder, tag })]
        } else {
            Seq::empty()
        },
        FsEntry::Dir { name, entries } => found_songs(
            entries@,
            prefix + name@ + "/"@,
            Some(name@),
        ),
    }
}

/// All songs a list of entries contributes, in traversal order.
pub open spec fn found_songs(s: Seq<FsEntry>, prefix: Seq<char>, folder: Option<Seq<char>>) -> Seq<
    FoundSong,
>
    decreases s,
{
    if s.len() == 0 {
        Seq::empty()
    } else {
        found_songs(s.drop_last(), prefix, folder) + songs_for_entry(s.last(), prefix, folder)
    }
}

/// The path column of a list of found songs.
pub open spec fn paths_of(songs: Seq<FoundSong>) -> Seq<Seq<char>> {
    songs.map_values(|f: FoundSong| f.path)
}

/// The metadata column of a list of found songs: each entry resolved
/// from the very song its path came from.
pub open spec fn metas_of(songs: Seq<FoundSong>) -> Seq<MetaModel> {
    songs.map_values(|f: FoundSong| resolve_model(f.name, f.folder, f.tag))
}

/// Views of a path list.
pub open spec fn paths_view(s: Seq<String>) -> Seq<Seq<char>> {
    s.map_values(|p: String| p@)
}

/// Views of a metadata list.
pub open spec fn metas_view(s: Seq<SongMetadata>) -> Seq<MetaModel> {
    s.map_values(|m: SongMetadata| m@)
}

/// What one scan of a list of entries returns.
pub struct ScanOutcome {
    pub paths: Vec<String>,
    pub metas: Vec<SongMetadata>,
    pub children: Vec<FolderNode>,
    pub count: u32,
}

proof fn lemma_audio_count_snoc(s: Seq<FsEntry>, i: int)
    requires
        0 <= i < s.len(),
    ensures
        audio_count_seq(s.subrange(0, i + 1)) == audio_count_seq(s.subrange(0, i)) + audio_count(
            s[i],
        ),
{
    let post = s.subrange(0, i + 1);
    assert(post.drop_last() =~= s.subrange(0, i));
    assert(post.last() == s[i]);
}

proof fn lemma_found_snoc(s: Seq<FsEntry>, i: int, prefix: Seq<char>, folder: Option<Seq<char>>)
    requires
        0 <= i < s.len(),
    ensures
        found_songs(s.subrange(0, i + 1), prefix, folder) == found_songs(
            s.subrange(0, i),
            prefix,
            folder,
        ) + songs_for_entry(s[i], prefix, folder),
{
    let post = s.subrange(0, i + 1);
    assert(post.drop_last() =~= s.subrange(0, i));
    assert(post.last() == s[i]);
}

proof fn lemma_tree_snoc(s: Seq<FsEntry>, i: int, start: nat)
    requires
        0 <= i < s.len(),
    ensures
        spec_tree(s.subrange(0, i + 1), start) == spec_tree(s.subrange(0, i), start)
            + tree_for_entry(s[i], start + audio_count_seq(s.subrange(0, i))),
{
    let post = s.subrange(0, i + 1);
    assert(post.drop_last() =~= s.subrange(0, i));
    assert(post.last() == s[i]);
}

proof fn lemma_paths_of_append(a: Seq<FoundSong>, b: Seq<FoundSong>)
    ensures
        paths_of(a + b) == paths_of(a) + paths_of(b),
        metas_of(a + b) == metas_of(a) + metas_of(b),
{
    assert(paths_of(a + b) =~= paths_of(a) + paths_of(b));
    assert(metas_of(a + b) =~= metas_of(a) + metas_of(b));
}

proof fn lemma_views_append(a: Seq<String>, b: Seq<String>, c: Seq<SongMetadata>, d: Seq<
    SongMetadata,
>)
    ensures
        paths_view(a + b) == paths_view(a) + paths_view(b),
        metas_view(c + d) == metas_view(c) + metas_view(d),
{
    assert(paths_view(a + b) =~= paths_view(a) + paths_view(b));
    assert(metas_view(c + d) =~= metas_view(c) + metas_view(d));
}

proof fn lemma_nodes_view_snoc(s: Seq<FolderNode>, n: FolderNode)
    ensures
        nodes_view(s.push(n)) == nodes_view(s).push(node_view(n)),
{
    assert(s.push(n).drop_last() =~= s);
    assert(s.push(n).last() == n);
}

/// The scanner's workhorse: scans `entries` (one directory's contents,
/// in enumeration order), where `prefix` is the root-relative path of
/// that directory (empty at the root, otherwise ending in `/`),
/// `folder` is its name, and `start` the global index its first song
/// receives.
///
/// The returned count is exactly the number of audio files in the
/// subtree; path list and metadata table are the two columns of the
/// discovered songs, index for index; the children list is the pruned
/// folder tree with correct counts and start offsets.
#[verifier::loop_isolation(false)]
pub fn scan_entries(entries: &Vec<FsEntry>, prefix: &String, folder: &Option<String>, start: u32) -> (r:
    ScanOutcome)
    requires
        start as nat + audio_count_seq(entries@) <= u32::MAX as nat,
    ensures
        r.count as nat == audio_count_seq(entries@),
        paths_view(r.paths@) == paths_of(found_songs(entries@, prefix@, opt_view(*folder))),
        metas_view(r.metas@) == metas_of(found_songs(entries@, prefix@, opt_view(*folder))),
        nodes_view(r.children@) == spec_tree(entries@, start as nat),
    decreases entries@,
{
    let ghost fv = opt_view(*folder);
    let mut paths: Vec<String> = Vec::new();
    let mut metas: Vec<SongMetadata> = Vec::new();
    let mut children: Vec<FolderNode> = Vec::new();
    let mut count: u32 = 0;
    let n = entries.len();
    let mut i: usize = 0;
    while i < n
        invariant
            i <= n,
            count as nat == audio_count_seq(entries@.subrange(0, i as int)),
            paths_view(paths@) == paths_of(
                found_songs(entries@.subrange(0, i as int), prefix@, fv),
            ),
            metas_view(metas@) == metas_of(
                found_songs(entries@.subrange(0, i as int), prefix@, fv),
            ),
            nodes_view(children@) == spec_tree(entries@.subrange(0, i as int), start as nat),
        decreases n - i,
    {
        let ghost pre = entries@.subrange(0, i as int);
        let ghost rest = entries@.subrange(i as int, entries@.len() as int);
        proof {
            lemma_audio_count_seq_split(entries@, i as int);
            lemma_audio_count_cons(rest);
            assert(rest[0] == entries@[i as int]);
            assert(rest.subrange(1, rest.len() as int) =~= entries@.subrange(
                i as int + 1,
                entries@.len() as int,
            ));
            lemma_audio_count_snoc(entries@, i as int);
            lemma_found_snoc(entries@, i as int, prefix@, fv);
            lemma_tree_snoc(entries@, i as int, start as nat);
        }
        let entry = &entries[i];
        match entry {
            FsEntry::File { name, tag } => {
                if is_audio_file(name.as_str()) {
                    let p = prefix.clone().concat(name.as_str());
                    let m = resolve_metadata(name.as_str(), folder, tag);
                    proof {
                        let song = (FoundSong {
                            path: prefix@ + name@,
                            name: name@,
                            folder: fv,
                            tag: *tag,
                        });
                        assert(songs_for_entry(entries@[i as int], prefix@, fv) =~= seq![song]);
                        lemma_paths_of_append(
                            found_songs(pre, prefix@, fv),
                            songs_for_entry(entries@[i as int], prefix@, fv),
                        );
                        assert(paths_of(seq![song]) =~= seq![prefix@ + name@]);
                        assert(metas_of(seq![song]) =~= seq![
                            resolve_model(name@, fv, *tag),
                        ]);
                        assert(paths_view(paths@.push(p)) =~= paths_view(paths@).push(p@));
                        assert(metas_view(metas@.push(m)) =~= metas_view(metas@).push(m@));
                        assert(audio_count(entries@[i as int]) == 1);
                        assert(tree_for_entry(
                            entries@[i as int],
                            start as nat + audio_count_seq(pre),
                        ) =~= Seq::<NodeModel>::empty());
                        assert(spec_tree(pre, start as nat) + Seq::<NodeModel>::empty()
                            =~= spec_tree(pre, start as nat));
                    }
                    paths.push(p);
                    metas.push(m);
                    count = count + 1;
                } else {
                    proof {
                        assert(songs_for_entry(entries@[i as int], prefix@, fv)
                            =~= Seq::<FoundSong>::empty());
                        lemma_paths_of_append(
                            found_songs(pre, prefix@, fv),
                            Seq::<FoundSong>::empty(),
                        );
                        assert(paths_of(Seq::<FoundSong>::empty()) =~= Seq::<Seq<char>>::empty());
                        assert(metas_of(Seq::<FoundSong>::empty()) =~= Seq::<MetaModel>::empty());
                        assert(paths_of(found_songs(pre, prefix@, fv)) + Seq::<Seq<char>>::empty()
                            =~= paths_of(found_songs(pre, prefix@, fv)));
                        assert(metas_of(found_songs(pre, prefix@, fv)) + Seq::<MetaModel>::empty()
                            =~= metas_of(found_songs(pre, prefix@, fv)));
                        assert(audio_count(entries@[i as int]) == 0);
                        assert(tree_for_entry(
                            entries@[i as int],
                            start as nat + audio_count_seq(pre),
                        ) =~= Seq::<NodeModel>::empty());
                        assert(spec_tree(pre, start as nat) + Seq::<NodeModel>::empty()
                            =~= spec_tree(pre, start as nat));
                    }
                }
            },
            FsEntry::Dir { name, entries: sub } => {
                let current = start + count;
                let mut new_prefix = prefix.clone();
                new_prefix.append(name.as_str());
                new_prefix.append("/");
                let sub_folder = Some(name.clone());
                proof {
                    assert(audio_count(entries@[i as int]) == audio_count_seq(sub@));
                    assert(decreases_to!(entries@ => entries@[i as int]));
                    assert(decreases_to!(entries@[i as int] => *sub));
                    assert(decreases_to!(*sub => sub@));
                }
                let sub_out = scan_entries(sub, &new_prefix, &sub_folder, current);
                let ScanOutcome {
                    paths: mut sub_paths,
                    metas: mut sub_metas,
                    children: sub_children,
                    count: sub_count,
                } = sub_out;
                proof {
                    assert(songs_for_entry(entries@[i as int], prefix@, fv) == found_songs(
                        sub@,
                        prefix@ + name@ + "/"@,
                        Some(name@),
                    ));
                    assert(new_prefix@ == prefix@ + name@ + "/"@);
                    lemma_paths_of_append(
                        found_songs(pre, prefix@, fv),
                        songs_for_entry(entries@[i as int], prefix@, fv),
                    );
                    lemma_views_append(paths@, sub_paths@, metas@, sub_metas@);
                }
                if sub_count > 0 {
                    let node = FolderNode {
                        label: name.clone(),
                        count: sub_count,
                        start: current,
                        children: sub_children,
                    };
                    proof {
                        lemma_nodes_view_snoc(children@, node);
                        assert(node_view(node) == (NodeModel {
                            label: name@,
                            count: sub_count as nat,
                            start: current as nat,
                            children: nodes_view(node.children@),
                        }));
                        assert(tree_for_entry(entries@[i as int], start as nat + audio_count_seq(pre))
                            =~= seq![node_view(node)]);
                        assert(spec_tree(pre, start as nat).push(node_view(node)) =~= spec_tree(
                            pre,
                            start as nat,
                        ) + seq![node_view(node)]);
                    }
                    children.push(node);
                } else {
                    proof {
                        assert(tree_for_entry(entries@[i as int], start as nat + audio_count_seq(pre))
                            =~= Seq::<NodeModel>::empty());
                        assert(spec_tree(pre, start as nat) + Seq::<NodeModel>::empty()
                            =~= spec_tree(pre, start as nat));
                    }
                }
                paths.append(&mut sub_paths);
                metas.append(&mut sub_metas);
                count = count + sub_count;
            },
        }
        i += 1;
    }
    proof {
        assert(entries@.subrange(0, n as int) =~= entries@);
    }
    ScanOutcome { paths, metas, children, count }
}

/// Concatenating node lists adds their count sums.
proof fn lemma_sum_counts_append(a: Seq<NodeModel>, b: Seq<NodeModel>)
    ensures
        sum_counts(a + b) == sum_counts(a) + sum_counts(b),
    decreases b,
{
    if b.len() == 0 {
        assert(a + b =~= a);
    } else {
        lemma_sum_counts_append(a, b.drop_last());
        assert((a + b).drop_last() =~= a + b.drop_last());
        assert((a + b).last() == b.last());
    }
}

/// The law behind the count annotations: for any list of entries, the
/// audio files it holds are exactly those lying directly in it plus the
/// counts of the folder nodes built for it.
///
/// At the scan root this says the top-level node counts plus the files
/// directly in the root add up to the total count.  And since the node
/// built for a directory carries `audio_count_seq` of its entries as
/// count and `spec_tree` of its entries as children, the same equation
/// instantiated at that directory says every node's count equals the
/// sum over its children plus the audio files directly inside it.
pub proof fn lemma_count_decomposition(s: Seq<FsEntry>, start: nat)
    ensures
        audio_count_seq(s) == direct_audio_count(s) + sum_counts(spec_tree(s, start)),
    decreases s,
{
    if s.len() == 0 {
    } else {
        let t = s.drop_last();
        lemma_count_decomposition(t, start);
        let offset = start + audio_count_seq(t);
        let piece = tree_for_entry(s.last(), offset);
        lemma_sum_counts_append(spec_tree(t, start), piece);
        assert(audio_count_seq(s) == audio_count_seq(t) + audio_count(s.last()));
        assert(spec_tree(s, start) == spec_tree(t, start) + piece);
        match s.last() {
            FsEntry::File { .. } => {
                assert(piece =~= Seq::<NodeModel>::empty());
                assert(sum_counts(piece) == 0);
                assert(direct_audio_count(s) == direct_audio_count(t) + audio_count(s.last()));
            },
            FsEntry::Dir { entries, .. } => {
                if audio_count_seq(entries@) > 0 {
                    assert(piece.drop_last() =~= Seq::<NodeModel>::empty());
                    assert(sum_counts(Seq::<NodeModel>::empty()) == 0);
                    assert(piece.last().count == audio_count_seq(entries@));
                    assert(sum_counts(piece) == audio_count_seq(entries@));
                } else {
                    assert(sum_counts(piece) == 0);
                }
                assert(direct_audio_count(s) == direct_audio_count(t));
                assert(audio_count(s.last()) == audio_count_seq(entries@));
            },
        }
    }
}

/// The entries of a directory entry; empty for a file.
pub open spec fn dir_entries(e: FsEntry) -> Seq<FsEntry> {
    match e {
        FsEntry::File { .. } => Seq::empty(),
        FsEntry::Dir { entries, .. } => entries@,
    }
}

/// The count law at one directory: the folder node built for a
/// directory with songs below it is unique, and its count equals the
/// audio files lying directly in that directory plus the sum of its
/// children's counts.  Every node of the tree arises this way from the
/// directory it was built for, at every depth.
pub proof fn lemma_folder_node_consistency(e: FsEntry, offset: nat)
    requires
        e is Dir,
        audio_count(e) > 0,
    ensures
        tree_for_entry(e, offset).len() == 1,
        tree_for_entry(e, offset)[0].count == direct_audio_count(dir_entries(e)) + sum_counts(
            tree_for_entry(e, offset)[0].children,
        ),
        tree_for_entry(e, offset)[0].children == spec_tree(dir_entries(e), offset),
        tree_for_entry(e, offset)[0].count == audio_count(e),
        tree_for_entry(e, offset)[0].start == offset,
{
    lemma_count_decomposition(dir_entries(e), offset);
}

/// A node with a positive count, all the way down.
pub open spec fn node_positive(n: NodeModel) -> bool
    decreases n,
{
    n.count > 0 && nodes_positive(n.children)
}

/// Every node of the list has a positive count, all the way down.
pub open spec fn nodes_positive(s: Seq<NodeModel>) -> bool
    decreases s,
{
    if s.len() == 0 {
        true
    } else {
        nodes_positive(s.drop_last()) && node_positive(s.last())
    }
}

proof fn lemma_nodes_positive_append(a: Seq<NodeModel>, b: Seq<NodeModel>)
    ensures
        nodes_positive(a + b) <==> nodes_positive(a) && nodes_positive(b),
    decreases b,
{
    if b.len() == 0 {
        assert(a + b =~= a);
    } else {
        lemma_nodes_positive_append(a, b.drop_last());
        assert((a + b).drop_last() =~= a + b.drop_last());
        assert((a + b).last() == b.last());
    }
}

proof fn lemma_entry_tree_positive(e: FsEntry, offset: nat)
    ensures
        nodes_positive(tree_for_entry(e, offset)),
    decreases e,
{
    assert(nodes_positive(Seq::<NodeModel>::empty()));
    match e {
        FsEntry::File { .. } => {
            assert(tree_for_entry(e, offset) =~= Seq::<NodeModel>::empty());
        },
        FsEntry::Dir { entries, .. } => {
            if audio_count_seq(entries@) > 0 {
                lemma_tree_positive(entries@, offset);
                let piece = tree_for_entry(e, offset);
                assert(piece.drop_last() =~= Seq::<NodeModel>::empty());
                assert(node_positive(piece.last()));
            } else {
                assert(tree_for_entry(e, offset) =~= Seq::<NodeModel>::empty());
            }
        },
    }
}

/// Songless subtrees are pruned: no folder node anywhere in the built
/// tree carries a zero count.
pub proof fn lemma_tree_positive(s: Seq<FsEntry>, start: nat)
    ensures
        nodes_positive(spec_tree(s, start)),
    decreases s,
{
    if s.len() == 0 {
    } else {
        let t = s.drop_last();
        lemma_tree_positive(t, start);
        let offset = start + audio_count_seq(t);
        lemma_entry_tree_positive(s.last(), offset);
        lemma_nodes_positive_append(spec_tree(t, start), tree_for_entry(s.last(), offset));
    }
}

proof fn lemma_found_count_entry(e: FsEntry, prefix: Seq<char>, folder: Option<Seq<char>>)
    ensures
        songs_for_entry(e, prefix, folder).len() == audio_count(e),
    decreases e,
{
    match e {
        FsEntry::File { .. } => {
        },
        FsEntry::Dir { name, entries } => {
            lemma_found_count(entries@, prefix + name@ + "/"@, Some(name@));
        },
    }
}

/// The scan discovers exactly as many songs as the tree holds.
pub proof fn lemma_found_count(s: Seq<FsEntry>, prefix: Seq<char>, folder: Option<Seq<char>>)
    ensures
        found_songs(s, prefix, folder).len() == audio_count_seq(s),
    decreases s,
{
    if s.len() == 0 {
    } else {
        lemma_found_count(s.drop_last(), prefix, folder);
        lemma_found_count_entry(s.last(), prefix, folder);
    }
}

/// The path list and the metadata table are parallel arrays: both are
/// as long as the total count, and for every valid index the path and
/// the metadata at that index come from one and the same discovered
/// song.
pub proof fn lemma_parallel_arrays(s: Seq<FsEntry>, prefix: Seq<char>, folder: Option<Seq<char>>)
    ensures
        paths_of(found_songs(s, prefix, folder)).len() == audio_count_seq(s),
        metas_of(found_songs(s, prefix, folder)).len() == audio_count_seq(s),
        forall|i: int|
            0 <= i < audio_count_seq(s) ==> paths_of(found_songs(s, prefix, folder))[i]
                == found_songs(s, prefix, folder)[i].path,
        forall|i: int|
            0 <= i < audio_count_seq(s) ==> metas_of(found_songs(s, prefix, folder))[i]
                == resolve_model(
                found_songs(s, prefix, folder)[i].name,
                found_songs(s, prefix, folder)[i].folder,
                found_songs(s, prefix, folder)[i].tag,
            ),
{
    lemma_found_count(s, prefix, folder);
}

} // verus!
