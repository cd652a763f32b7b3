//! Per-song metadata and the fallback policy that fills in fields the
//! audio tag does not provide.

use vstd::prelude::*;
use vstd::string::StrSliceExecFns;
use vstd::string::StringExecFns;

verus! {

/// The fields of an audio tag, each present or absent on its own.
pub struct TagData {
    pub title: Option<String>,
    pub artist: Option<String>,
    pub album: Option<String>,
    pub track: Option<u32>,
    pub disc: Option<u32>,
    pub year: Option<i32>,
}

/// What reading the tag of one file yielded: the fields, or a failure
/// (corrupt header, unsupported format, I/O error).  A failure never
/// aborts a scan; the resolver substitutes the full fallback set.
pub enum TagOutcome {
    Read(TagData),
    Failed,
}

/// The year recorded when the tag carries none: a sentinel for "unknown".
pub const UNKNOWN_YEAR: i32 = 2077;

/// Final metadata of one catalogued song, immutable once resolved.
pub struct SongMetadata {
    pub title: String,
    pub artist: String,
    pub album: String,
    pub track: Option<u32>,
    pub disc: Option<u32>,
    pub year: i32,
}

/// Mathematical image of a `SongMetadata`.
pub ghost struct MetaModel {
    pub title: Seq<char>,
    pub artist: Seq<char>,
    pub album: Seq<char>,
    pub track: Option<u32>,
    pub disc: Option<u32>,
    pub year: int,
}

impl View for SongMetadata {
    type V = MetaModel;

    open spec fn view(&self) -> MetaModel {
        MetaModel {
            title: self.title@,
            artist: self.artist@,
            album: self.album@,
            track: self.track,
            disc: self.disc,
            year: self.year as int,
        }
    }
}

/// Whether some character of `s` is a dot.
pub open spec fn contains_dot(s: Seq<char>) -> bool {
    exists|i: int| 0 <= i < s.len() && s[i] == '.'
}

/// `s` with everything from its last dot on removed; `s` itself when it
/// has no dot.
pub open spec fn strip_ext(s: Seq<char>) -> Seq<char>
    decreases s.len(),
{
    if !contains_dot(s) {
        s
    } else if s.last() == '.' {
        s.drop_last()
    } else {
        strip_ext(s.drop_last())
    }
}

/// A name the scanner treats as an audio file: it ends in `.mp3` with a
/// non-empty stem.
pub open spec fn is_audio_name(s: Seq<char>) -> bool {
    &&& s.len() >= 5
    &&& s[s.len() - 4] == '.'
    &&& s[s.len() - 3] == 'm'
    &&& s[s.len() - 2] == 'p'
    &&& s[s.len() - 1] == '3'
}

/// The album used when the tag names none: the folder holding the file,
/// or `"unknown"` when no folder name is available.
pub open spec fn fallback_album(folder: Option<Seq<char>>) -> Seq<char> {
    match folder {
        Some(f) => f,
        None => "unknown"@,
    }
}

/// View of an optional owned string.
pub open spec fn opt_view(o: Option<String>) -> Option<Seq<char>> {
    match o {
        Some(s) => Some(s@),
        None => None,
    }
}

/// The fallback policy, field by field: what the resolved metadata of a
/// file named `name`, lying in `folder`, with tag outcome `tag` must be.
pub open spec fn resolve_model(name: Seq<char>, folder: Option<Seq<char>>, tag: TagOutcome) -> MetaModel {
    match tag {
        TagOutcome::Read(td) => MetaModel {
            title: match td.title {
                Some(t) => if t@.len() > 0 {
                    t@
                } else {
                    strip_ext(name)
                },
                None => strip_ext(name),
            },
            artist: match td.artist {
                Some(a) => a@,
                None => "anonymous"@,
            },
            album: match td.album {
                Some(al) => al@,
                None => fallback_album(folder),
            },
            track: td.track,
            disc: td.disc,
            year: match td.year {
                Some(y) => y as int,
                None => UNKNOWN_YEAR as int,
            },
        },
        TagOutcome::Failed => MetaModel {
            title: strip_ext(name),
            artist: "anonymous"@,
            album: fallback_album(folder),
            track: None,
            disc: None,
            year: UNKNOWN_YEAR as int,
        },
    }
}

/// Stripping at the last dot of `s` yields exactly the prefix before it.
proof fn lemma_strip_ext_at(s: Seq<char>, j: int)
    requires
        0 <= j < s.len(),
        s[j] == '.',
        forall|k: int| j < k < s.len() ==> s[k] != '.',
    ensures
        strip_ext(s) == s.subrange(0, j),
    decreases s.len(),
{
    assert(contains_dot(s));
    if j == s.len() - 1 {
        assert(s.last() == '.');
        assert(s.drop_last() =~= s.subrange(0, j));
    } else {
        assert(s.last() != '.');
        let t = s.drop_last();
        assert(forall|k: int| j < k < t.len() ==> t[k] != '.');
        lemma_strip_ext_at(t, j);
        assert(t.subrange(0, j) =~= s.subrange(0, j));
    }
}

/// `str::remove_extension` of the scanner: the name up to its last dot.
pub fn remove_extension(name: &str) -> (r: String)
    ensures
        r@ == strip_ext(name@),
{
    let n = name.unicode_len();
    let mut i: usize = 0;
    let mut has_dot: bool = false;
    let mut dot: usize = 0;
    while i < n
        invariant
            i <= n,
            n == name@.len(),
            has_dot ==> dot < i && name@[dot as int] == '.' && forall|k: int|
                dot < k < i ==> name@[k] != '.',
            !has_dot ==> forall|k: int| 0 <= k < i ==> name@[k] != '.',
        decreases n - i,
    {
        if name.get_char(i) == '.' {
            has_dot = true;
            dot = i;
        }
        i += 1;
    }
    if has_dot {
        proof {
            lemma_strip_ext_at(name@, dot as int);
        }
        let stem = name.substring_char(0, dot);
        stem.to_owned()
    } else {
        proof {
            assert(!contains_dot(name@));
        }
        name.to_owned()
    }
}

/// Whether the scanner catalogs a file of this name.
pub fn is_audio_file(name: &str) -> (r: bool)
    ensures
        r == is_audio_name(name@),
{
    let n = name.unicode_len();
    if n < 5 {
        return false;
    }
    name.get_char(n - 4) == '.' && name.get_char(n - 3) == 'm' && name.get_char(n - 2) == 'p'
        && name.get_char(n - 1) == '3'
}

/// The Metadata Resolver: applies the fallback policy to one file.
///
/// Every field of the result is pinned down by [`resolve_model`]; in
/// particular a failed tag read yields `artist == "anonymous"`, the
/// sentinel year, and the file name without its extension as title.
pub fn resolve_metadata(name: &str, folder: &Option<String>, tag: &TagOutcome) -> (m: SongMetadata)
    ensures
        m@ == resolve_model(name@, opt_view(*folder), *tag),
{
    match tag {
        TagOutcome::Read(td) => {
            let title = match &td.title {
                Some(t) => if !t.as_str().is_empty() {
                    t.clone()
                } else {
                    remove_extension(name)
                },
                None => remove_extension(name),
            };
            let artist = match &td.artist {
                Some(a) => a.clone(),
                None => String::from_str("anonymous"),
            };
            let album = match &td.album {
                Some(al) => al.clone(),
                None => resolve_fallback_album(folder),
            };
            let year = match &td.year {
                Some(y) => *y,
                None => UNKNOWN_YEAR,
            };
            SongMetadata { title, artist, album, track: td.track, disc: td.disc, year }
        },
        TagOutcome::Failed => SongMetadata {
            title: remove_extension(name),
            artist: String::from_str("anonymous"),
            album: resolve_fallback_album(folder),
            track: None,
            disc: None,
            year: UNKNOWN_YEAR,
        },
    }
}

/// The album fallback as executable code.
fn resolve_fallback_album(folder: &Option<String>) -> (r: String)
    ensures
        r@ == fallback_album(opt_view(*folder)),
{
    match folder {
        Some(f) => f.clone(),
        None => String::from_str("unknown"),
    }
}

} // verus!
