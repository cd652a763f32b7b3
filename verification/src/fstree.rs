//! A pure picture of the directory tree handed to the scanner.
//!
//! The host program enumerates the real file system once, in whatever
//! order it reports entries, and builds this tree; an unreadable
//! directory becomes one with no entries, which the scanner then prunes.

use vstd::prelude::*;
use crate::metadata::{TagOutcome, is_audio_name};

verus! {

/// One directory entry: a file with the outcome of its tag read, or a
/// sub-directory with its own entries in enumeration order.
pub enum FsEntry {
    File { name: String, tag: TagOutcome },
    Dir { name: String, entries: Vec<FsEntry> },
}

/// How many audio files the subtree of one entry holds.
pub open spec fn audio_count(e: FsEntry) -> nat
    decreases e,
{
    match e {
        FsEntry::File { name, .. } => if is_audio_name(name@) {
            1nat
        } else {
            0nat
        },
        FsEntry::Dir { entries, .. } => audio_count_seq(entries@),
    }
}

/// How many audio files a list of entries holds, subtrees included.
pub open spec fn audio_count_seq(s: Seq<FsEntry>) -> nat
    decreases s,
{
    if s.len() == 0 {
        0nat
    } else {
        audio_count_seq(s.drop_last()) + audio_count(s.last())
    }
}

/// How many audio files lie directly in a list of entries, subtrees
/// excluded.
pub open spec fn direct_audio_count(s: Seq<FsEntry>) -> nat
    decreases s,
{
    if s.len() == 0 {
        0nat
    } else {
        direct_audio_count(s.drop_last()) + match s.last() {
            FsEntry::File { name, .. } => if is_audio_name(name@) {
                1nat
            } else {
                0nat
            },
            FsEntry::Dir { .. } => 0nat,
        }
    }
}

/// The audio count of a list splits at any cut point.
pub proof fn lemma_audio_count_seq_split(s: Seq<FsEntry>, i: int)
    requires
        0 <= i <= s.len(),
    ensures
        audio_count_seq(s) == audio_count_seq(s.subrange(0, i)) + audio_count_seq(
            s.subrange(i, s.len() as int),
        ),
    decreases s.len() - i,
{
    if i == s.len() {
        assert(s.subrange(0, i) =~= s);
        assert(audio_count_seq(s.subrange(i, s.len() as int)) == 0);
    } else {
        let t = s.subrange(0, s.len() - 1);
        if i == s.len() - 1 {
            assert(s.subrange(0, i) =~= s.drop_last());
            let last_piece = s.subrange(i, s.len() as int);
            assert(last_piece.drop_last() =~= Seq::<FsEntry>::empty());
            assert(audio_count_seq(Seq::<FsEntry>::empty()) == 0);
            assert(last_piece.last() == s.last());
            assert(audio_count_seq(last_piece) == audio_count(s.last()));
        } else {
            lemma_audio_count_seq_split(s, i + 1);
            let a = s.subrange(0, i + 1);
            assert(a.drop_last() =~= s.subrange(0, i));
            assert(a.last() == s[i]);
            let b = s.subrange(i, s.len() as int);
            let c = s.subrange(i + 1, s.len() as int);
            lemma_audio_count_cons(b);
            assert(b.subrange(1, b.len() as int) =~= c);
            assert(b[0] == s[i]);
        }
    }
}

/// Peeling the first entry off a non-empty list splits its audio count.
pub proof fn lemma_audio_count_cons(s: Seq<FsEntry>)
    requires
        s.len() > 0,
    ensures
        audio_count_seq(s) == audio_count(s[0]) + audio_count_seq(
            s.subrange(1, s.len() as int),
        ),
    decreases s.len(),
{
    if s.len() == 1 {
        assert(s.drop_last() =~= Seq::<FsEntry>::empty());
        assert(s.subrange(1, 1) =~= Seq::<FsEntry>::empty());
        assert(s.last() == s[0]);
    } else {
        let t = s.drop_last();
        lemma_audio_count_cons(t);
        assert(t[0] == s[0]);
        let u = s.subrange(1, s.len() as int);
        assert(u.drop_last() =~= t.subrange(1, t.len() as int));
        assert(u.last() == s.last());
    }
}

} // verus!
