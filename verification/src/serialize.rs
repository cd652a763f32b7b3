//! The persisted artifacts, as text: the song list (one root-relative
//! path per line), the folder tree as a JSON array of
//! `{label, count, start, children}` objects, and the metadata table as
//! a JSON object of four parallel arrays (`title`, `artist`, `album`,
//! `year`).  Track and disc numbers, optional per entry, are not part
//! of the serialized table.
//!
//! Every emitter's output equals a spec-level rendering, character for
//! character.

use vstd::prelude::*;
use crate::metadata::{MetaModel, SongMetadata};
use crate::scan::{FolderNode, NodeModel, metas_view, node_view, nodes_view, paths_view};
use vstd::string::StrSliceExecFns;
use vstd::string::StringExecFns;

verus! {

/// Relies on `String::push`: appends exactly the one given character.
#[verifier::external_body]
fn push_char(out: &mut String, c: char)
    ensures
        final(out)@ == old(out)@.push(c),
{
    out.push(c);
}

/// The decimal digit characters.
pub open spec fn digit_char(d: int) -> char {
    if d == 0 {
        '0'
    } else if d == 1 {
        '1'
    } else if d == 2 {
        '2'
    } else if d == 3 {
        '3'
    } else if d == 4 {
        '4'
    } else if d == 5 {
        '5'
    } else if d == 6 {
        '6'
    } else if d == 7 {
        '7'
    } else if d == 8 {
        '8'
    } else {
        '9'
    }
}

/// The lower-case hexadecimal digit characters.
pub open spec fn hex_char(d: int) -> char {
    if d < 10 {
        digit_char(d)
    } else if d == 10 {
        'a'
    } else if d == 11 {
        'b'
    } else if d == 12 {
        'c'
    } else if d == 13 {
        'd'
    } else if d == 14 {
        'e'
    } else {
        'f'
    }
}

/// The usual decimal rendering of a natural number, no leading zeros.
pub open spec fn spec_dec(n: nat) -> Seq<char>
    decreases n,
{
    if n < 10 {
        seq![digit_char(n as int)]
    } else {
        spec_dec(n / 10).push(digit_char((n % 10) as int))
    }
}

/// Decimal rendering of an integer: a minus sign for negative values.
pub open spec fn spec_int_dec(y: int) -> Seq<char> {
    if y >= 0 {
        spec_dec(y as nat)
    } else {
        seq!['-'] + spec_dec((-y) as nat)
    }
}

/// How one character appears inside a JSON string literal.
pub open spec fn escape_char(c: char) -> Seq<char> {
    if c == '"' {
        "\\\""@
    } else if c == '\\' {
        "\\\\"@
    } else if c == '\n' {
        "\\n"@
    } else if c == '\r' {
        "\\r"@
    } else if c == '\t' {
        "\\t"@
    } else if (c as u32) < 32 {
        "\\u00"@ + seq![hex_char(c as u32 as int / 16), hex_char(c as u32 as int % 16)]
    } else {
        seq![c]
    }
}

/// A whole character sequence escaped for JSON.
pub open spec fn json_escape(s: Seq<char>) -> Seq<char>
    decreases s.len(),
{
    if s.len() == 0 {
        Seq::empty()
    } else {
        json_escape(s.drop_last()) + escape_char(s.last())
    }
}

/// A JSON string literal: quotes around the escaped contents.
pub open spec fn json_string(s: Seq<char>) -> Seq<char> {
    seq!['"'] + json_escape(s) + seq!['"']
}

/// One folder node as a JSON object.
pub open spec fn json_of_node(n: NodeModel) -> Seq<char>
    decreases n, 0int,
{
    "{\"label\":"@ + json_string(n.label) + ",\"count\":"@ + spec_dec(n.count) + ",\"start\":"@
        + spec_dec(n.start) + ",\"children\":"@ + json_of_nodes(n.children) + "}"@
}

/// A list of folder nodes as a JSON array.
pub open spec fn json_of_nodes(s: Seq<NodeModel>) -> Seq<char>
    decreases s, 2int,
{
    "["@ + json_of_list(s) + "]"@
}

/// The comma-separated members of a folder-node array.
pub open spec fn json_of_list(s: Seq<NodeModel>) -> Seq<char>
    decreases s, 1int,
{
    if s.len() == 0 {
        Seq::empty()
    } else if s.len() == 1 {
        json_of_node(s.last())
    } else {
        json_of_list(s.drop_last()) + ","@ + json_of_node(s.last())
    }
}

/// The comma-separated title column.
pub open spec fn title_list(s: Seq<MetaModel>) -> Seq<char>
    decreases s,
{
    if s.len() == 0 {
        Seq::empty()
    } else if s.len() == 1 {
        json_string(s.last().title)
    } else {
        title_list(s.drop_last()) + ","@ + json_string(s.last().title)
    }
}

/// The comma-separated artist column.
pub open spec fn artist_list(s: Seq<MetaModel>) -> Seq<char>
    decreases s,
{
    if s.len() == 0 {
        Seq::empty()
    } else if s.len() == 1 {
        json_string(s.last().artist)
    } else {
        artist_list(s.drop_last()) + ","@ + json_string(s.last().artist)
    }
}

/// The comma-separated album column.
pub open spec fn album_list(s: Seq<MetaModel>) -> Seq<char>
    decreases s,
{
    if s.len() == 0 {
        Seq::empty()
    } else if s.len() == 1 {
        json_string(s.last().album)
    } else {
        album_list(s.drop_last()) + ","@ + json_string(s.last().album)
    }
}

/// The comma-separated year column.
pub open spec fn year_list(s: Seq<MetaModel>) -> Seq<char>
    decreases s,
{
    if s.len() == 0 {
        Seq::empty()
    } else if s.len() == 1 {
        spec_int_dec(s.last().year)
    } else {
        year_list(s.drop_last()) + ","@ + spec_int_dec(s.last().year)
    }
}

/// The whole metadata table as one JSON object of parallel arrays.
pub open spec fn json_of_tag_table(s: Seq<MetaModel>) -> Seq<char> {
    "{\"title\":["@ + title_list(s) + "],\"artist\":["@ + artist_list(s) + "],\"album\":["@
        + album_list(s) + "],\"year\":["@ + year_list(s) + "]}"@
}

/// The song list: the paths joined by single newlines.
pub open spec fn join_lines(s: Seq<Seq<char>>) -> Seq<char>
    decreases s.len(),
{
    if s.len() == 0 {
        Seq::empty()
    } else if s.len() == 1 {
        s.last()
    } else {
        join_lines(s.drop_last()) + "\n"@ + s.last()
    }
}

fn digit_char_exec(d: u64) -> (c: char)
    requires
        d < 10,
    ensures
        c == digit_char(d as int),
{
    match d {
        0 => '0',
        1 => '1',
        2 => '2',
        3 => '3',
        4 => '4',
        5 => '5',
        6 => '6',
        7 => '7',
        8 => '8',
        _ => '9',
    }
}

fn hex_char_exec(d: u32) -> (c: char)
    requires
        d < 16,
    ensures
        c == hex_char(d as int),
{
    match d {
        0 => '0',
        1 => '1',
        2 => '2',
        3 => '3',
        4 => '4',
        5 => '5',
        6 => '6',
        7 => '7',
        8 => '8',
        9 => '9',
        10 => 'a',
        11 => 'b',
        12 => 'c',
        13 => 'd',
        14 => 'e',
        _ => 'f',
    }
}

/// Appends the decimal rendering of `n`.
fn push_decimal(out: &mut String, n: u64)
    ensures
        final(out)@ == old(out)@ + spec_dec(n as nat),
    decreases n,
{
    if n < 10 {
        push_char(out, digit_char_exec(n));
        proof {
            assert(out@ =~= old(out)@ + spec_dec(n as nat));
        }
    } else {
        push_decimal(out, n / 10);
        push_char(out, digit_char_exec(n % 10));
        proof {
            assert(out@ =~= old(out)@ + spec_dec(n as nat));
        }
    }
}

/// Appends the decimal rendering of a year, sign included.
fn push_int_decimal(out: &mut String, y: i32)
    ensures
        final(out)@ == old(out)@ + spec_int_dec(y as int),
{
    if y >= 0 {
        push_decimal(out, y as u64);
    } else {
        push_char(out, '-');
        let wide: i64 = y as i64;
        let mag: u64 = (-wide) as u64;
        proof {
            assert(mag as nat == (-(y as int)) as nat);
        }
        push_decimal(out, mag);
        proof {
            assert(out@ =~= old(out)@ + spec_int_dec(y as int));
        }
    }
}

/// Appends `s` escaped for the inside of a JSON string literal.
fn push_escaped(out: &mut String, s: &str)
    ensures
        final(out)@ == old(out)@ + json_escape(s@),
{
    let n = s.unicode_len();
    let mut i: usize = 0;
    while i < n
        invariant
            i <= n,
            n == s@.len(),
            out@ == old(out)@ + json_escape(s@.subrange(0, i as int)),
        decreases n - i,
    {
        let ghost done = s@.subrange(0, i as int);
        proof {
            assert(s@.subrange(0, i as int + 1).drop_last() =~= done);
            assert(s@.subrange(0, i as int + 1).last() == s@[i as int]);
        }
        let c = s.get_char(i);
        if c == '"' {
            out.append("\\\"");
        } else if c == '\\' {
            out.append("\\\\");
        } else if c == '\n' {
            out.append("\\n");
        } else if c == '\r' {
            out.append("\\r");
        } else if c == '\t' {
            out.append("\\t");
        } else if (c as u32) < 32 {
            out.append("\\u00");
            push_char(out, hex_char_exec((c as u32) / 16));
            push_char(out, hex_char_exec((c as u32) % 16));
        } else {
            push_char(out, c);
        }
        proof {
            assert(out@ =~= old(out)@ + json_escape(s@.subrange(0, i as int + 1)));
        }
        i += 1;
    }
    proof {
        assert(s@.subrange(0, n as int) =~= s@);
    }
}

/// Appends `s` as a JSON string literal.
fn push_json_string(out: &mut String, s: &str)
    ensures
        final(out)@ == old(out)@ + json_string(s@),
{
    push_char(out, '"');
    push_escaped(out, s);
    push_char(out, '"');
    proof {
        assert(out@ =~= old(out)@ + json_string(s@));
    }
}

/// Appends one folder node as a JSON object.
fn push_node(out: &mut String, n: &FolderNode)
    ensures
        final(out)@ == old(out)@ + json_of_node(node_view(*n)),
    decreases *n, 0int,
{
    out.append("{\"label\":");
    push_json_string(out, n.label.as_str());
    out.append(",\"count\":");
    push_decimal(out, n.count as u64);
    out.append(",\"start\":");
    push_decimal(out, n.start as u64);
    out.append(",\"children\":");
    push_nodes(out, &n.children);
    out.append("}");
    proof {
        assert(out@ =~= old(out)@ + json_of_node(node_view(*n)));
    }
}

proof fn lemma_nodes_view_len(s: Seq<FolderNode>)
    ensures
        nodes_view(s).len() == s.len(),
    decreases s,
{
    if s.len() > 0 {
        lemma_nodes_view_len(s.drop_last());
    }
}

proof fn lemma_nodes_view_take_snoc(s: Seq<FolderNode>, i: int)
    requires
        0 <= i < s.len(),
    ensures
        nodes_view(s.subrange(0, i + 1)) == nodes_view(s.subrange(0, i)).push(node_view(s[i])),
{
    let post = s.subrange(0, i + 1);
    assert(post.drop_last() =~= s.subrange(0, i));
    assert(post.last() == s[i]);
}

proof fn lemma_json_list_snoc(t: Seq<NodeModel>, x: NodeModel)
    ensures
        t.len() == 0 ==> json_of_list(t.push(x)) == json_of_node(x),
        t.len() > 0 ==> json_of_list(t.push(x)) == json_of_list(t) + ","@ + json_of_node(x),
{
    assert(t.push(x).drop_last() =~= t);
    assert(t.push(x).last() == x);
}

/// Appends a list of folder nodes as a JSON array.
#[verifier::loop_isolation(false)]
fn push_nodes(out: &mut String, nodes: &Vec<FolderNode>)
    ensures
        final(out)@ == old(out)@ + json_of_nodes(nodes_view(nodes@)),
    decreases nodes@, 1int,
{
    out.append("[");
    let n = nodes.len();
    let mut i: usize = 0;
    while i < n
        invariant
            i <= n,
            out@ == old(out)@ + "["@ + json_of_list(nodes_view(nodes@.subrange(0, i as int))),
        decreases n - i,
    {
        proof {
            lemma_nodes_view_len(nodes@.subrange(0, i as int));
            lemma_nodes_view_take_snoc(nodes@, i as int);
            lemma_json_list_snoc(
                nodes_view(nodes@.subrange(0, i as int)),
                node_view(nodes@[i as int]),
            );
        }
        if i > 0 {
            out.append(",");
        }
        push_node(out, &nodes[i]);
        proof {
            assert(out@ =~= old(out)@ + "["@ + json_of_list(
                nodes_view(nodes@.subrange(0, i as int + 1)),
            ));
        }
        i += 1;
    }
    out.append("]");
    proof {
        assert(nodes@.subrange(0, n as int) =~= nodes@);
        assert(out@ =~= old(out)@ + json_of_nodes(nodes_view(nodes@)));
    }
}

/// The folder tree artifact: the top-level nodes as one JSON array.
pub fn folder_tree_json(nodes: &Vec<FolderNode>) -> (r: String)
    ensures
        r@ == json_of_nodes(nodes_view(nodes@)),
{
    let mut out = String::new();
    push_nodes(&mut out, nodes);
    proof {
        assert(out@ =~= json_of_nodes(nodes_view(nodes@)));
    }
    out
}

proof fn lemma_metas_view_take_snoc(s: Seq<SongMetadata>, i: int)
    requires
        0 <= i < s.len(),
    ensures
        metas_view(s.subrange(0, i + 1)) == metas_view(s.subrange(0, i)).push(s[i]@),
        metas_view(s.subrange(0, i)).len() == i,
{
    assert(metas_view(s.subrange(0, i + 1)) =~= metas_view(s.subrange(0, i)).push(s[i]@));
}

/// The metadata table artifact: four parallel JSON arrays.
pub fn tag_table_json(metas: &Vec<SongMetadata>) -> (r: String)
    ensures
        r@ == json_of_tag_table(metas_view(metas@)),
{
    let mut out = String::new();
    out.append("{\"title\":[");
    push_title_list(&mut out, metas);
    out.append("],\"artist\":[");
    push_artist_list(&mut out, metas);
    out.append("],\"album\":[");
    push_album_list(&mut out, metas);
    out.append("],\"year\":[");
    push_year_list(&mut out, metas);
    out.append("]}");
    proof {
        assert(out@ =~= json_of_tag_table(metas_view(metas@)));
    }
    out
}

fn push_title_list(out: &mut String, metas: &Vec<SongMetadata>)
    ensures
        final(out)@ == old(out)@ + title_list(metas_view(metas@)),
{
    let n = metas.len();
    let mut i: usize = 0;
    while i < n
        invariant
            i <= n,
            n == metas@.len(),
            out@ == old(out)@ + title_list(metas_view(metas@.subrange(0, i as int))),
        decreases n - i,
    {
        proof {
            lemma_metas_view_take_snoc(metas@, i as int);
            let t = metas_view(metas@.subrange(0, i as int));
            let x = metas@[i as int]@;
            assert(t.push(x).drop_last() =~= t);
            assert(t.push(x).last() == x);
        }
        if i > 0 {
            out.append(",");
        }
        push_json_string(out, metas[i].title.as_str());
        proof {
            assert(out@ =~= old(out)@ + title_list(metas_view(metas@.subrange(0, i as int + 1))));
        }
        i += 1;
    }
    proof {
        assert(metas@.subrange(0, n as int) =~= metas@);
    }
}

fn push_artist_list(out: &mut String, metas: &Vec<SongMetadata>)
    ensures
        final(out)@ == old(out)@ + artist_list(metas_view(metas@)),
{
    let n = metas.len();
    let mut i: usize = 0;
    while i < n
        invariant
            i <= n,
            n == metas@.len(),
            out@ == old(out)@ + artist_list(metas_view(metas@.subrange(0, i as int))),
        decreases n - i,
    {
        proof {
            lemma_metas_view_take_snoc(metas@, i as int);
            let t = metas_view(metas@.subrange(0, i as int));
            let x = metas@[i as int]@;
            assert(t.push(x).drop_last() =~= t);
            assert(t.push(x).last() == x);
        }
        if i > 0 {
            out.append(",");
        }
        push_json_string(out, metas[i].artist.as_str());
        proof {
            assert(out@ =~= old(out)@ + artist_list(metas_view(metas@.subrange(0, i as int + 1))));
        }
        i += 1;
    }
    proof {
        assert(metas@.subrange(0, n as int) =~= metas@);
    }
}

fn push_album_list(out: &mut String, metas: &Vec<SongMetadata>)
    ensures
        final(out)@ == old(out)@ + album_list(metas_view(metas@)),
{
    let n = metas.len();
    let mut i: usize = 0;
    while i < n
        invariant
            i <= n,
            n == metas@.len(),
            out@ == old(out)@ + album_list(metas_view(metas@.subrange(0, i as int))),
        decreases n - i,
    {
        proof {
            lemma_metas_view_take_snoc(metas@, i as int);
            let t = metas_view(metas@.subrange(0, i as int));
            let x = metas@[i as int]@;
            assert(t.push(x).drop_last() =~= t);
            assert(t.push(x).last() == x);
        }
        if i > 0 {
            out.append(",");
        }
        push_json_string(out, metas[i].album.as_str());
        proof {
            assert(out@ =~= old(out)@ + album_list(metas_view(metas@.subrange(0, i as int + 1))));
        }
        i += 1;
    }
    proof {
        assert(metas@.subrange(0, n as int) =~= metas@);
    }
}

fn push_year_list(out: &mut String, metas: &Vec<SongMetadata>)
    ensures
        final(out)@ == old(out)@ + year_list(metas_view(metas@)),
{
    let n = metas.len();
    let mut i: usize = 0;
    while i < n
        invariant
            i <= n,
            n == metas@.len(),
            out@ == old(out)@ + year_list(metas_view(metas@.subrange(0, i as int))),
        decreases n - i,
    {
        proof {
            lemma_metas_view_take_snoc(metas@, i as int);
            let t = metas_view(metas@.subrange(0, i as int));
            let x = metas@[i as int]@;
            assert(t.push(x).drop_last() =~= t);
            assert(t.push(x).last() == x);
        }
        if i > 0 {
            out.append(",");
        }
        push_int_decimal(out, metas[i].year);
        proof {
            assert(out@ =~= old(out)@ + year_list(metas_view(metas@.subrange(0, i as int + 1))));
        }
        i += 1;
    }
    proof {
        assert(metas@.subrange(0, n as int) =~= metas@);
    }
}

/// The song list artifact: one root-relative path per line.
pub fn song_list_text(paths: &Vec<String>) -> (r: String)
    ensures
        r@ == join_lines(paths_view(paths@)),
{
    let mut out = String::new();
    let n = paths.len();
    let mut i: usize = 0;
    while i < n
        invariant
            i <= n,
            n == paths@.len(),
            out@ == join_lines(paths_view(paths@.subrange(0, i as int))),
        decreases n - i,
    {
        proof {
            assert(paths_view(paths@.subrange(0, i as int + 1)) =~= paths_view(
                paths@.subrange(0, i as int),
            ).push(paths@[i as int]@));
            let t = paths_view(paths@.subrange(0, i as int));
            let x = paths@[i as int]@;
            assert(t.push(x).drop_last() =~= t);
            assert(t.push(x).last() == x);
        }
        if i > 0 {
            out.append("\n");
        }
        out.append(paths[i].as_str());
        proof {
            assert(out@ =~= join_lines(paths_view(paths@.subrange(0, i as int + 1))));
        }
        i += 1;
    }
    proof {
        assert(paths@.subrange(0, n as int) =~= paths@);
    }
    out
}

} // verus!
