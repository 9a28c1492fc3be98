//! Where the animation and its companion files go.
use vstd::prelude::*;
use vstd::string::{StrSliceExecFns, StringExecFns};
use crate::sidecar::{append_frame_label, frame_label_spec};

verus! {

/// `s` with each backslash turned into a slash.
pub open spec fn normalized(s: Seq<char>) -> Seq<char> {
    s.map_values(|c: char| if c == '\\' { '/' } else { c })
}

/// The part of `s` up to and including its last slash; empty where there is
/// no slash.
pub open spec fn dir_part(s: Seq<char>) -> Seq<char>
    decreases s.len(),
{
    if s.len() == 0 {
        s
    } else if s.last() == '/' {
        s
    } else {
        dir_part(s.drop_last())
    }
}

/// The file that an animation asked for as `s` is written to: `s` with
/// slashes for backslashes, and `output.gif` inside it where it names a
/// directory (ends with a slash).
pub open spec fn output_path_spec(s: Seq<char>) -> Seq<char> {
    let n = normalized(s);
    if n.len() > 0 && n.last() == '/' {
        n + "output.gif"@
    } else {
        n
    }
}

/// A run without backslashes is its own normal form.
proof fn lemma_normalized_plain(s: Seq<char>)
    requires
        forall|k: int| 0 <= k < s.len() ==> s[k] != '\\',
    ensures
        normalized(s) == s,
{
    assert(normalized(s) =~= s);
}

proof fn lemma_normalized_split(s: Seq<char>, from: int, mid: int, to: int)
    requires
        0 <= from <= mid <= to <= s.len(),
    ensures
        normalized(s.subrange(from, to)) == normalized(s.subrange(from, mid)) + normalized(
            s.subrange(mid, to),
        ),
{
    assert(normalized(s.subrange(from, to)) =~= normalized(s.subrange(from, mid)) + normalized(
        s.subrange(mid, to),
    ));
}

/// Appends to `out` the characters of `s` from `from` to `to`, each backslash
/// turned into a slash.
fn append_normalized(out: &mut String, s: &str, from: usize, to: usize)
    requires
        from <= to <= s@.len(),
    ensures
        final(out)@ == old(out)@ + normalized(s@.subrange(from as int, to as int)),
{
    let ghost start = out@;
    let mut piece: usize = from;
    let mut i: usize = from;
    while i < to
        invariant
            from <= piece <= i <= to <= s@.len(),
            out@ == start + normalized(s@.subrange(from as int, piece as int)),
            forall|k: int| piece <= k < i ==> s@[k] != '\\',
        decreases to - i,
    {
        let c = s.get_char(i);
        if c == '\\' {
            let part = s.substring_char(piece, i);
            out.append(part);
            proof {
                reveal_strlit("/");
                lemma_normalized_plain(s@.subrange(piece as int, i as int));
                lemma_normalized_split(s@, from as int, piece as int, i as int);
                lemma_normalized_split(s@, from as int, i as int, i + 1);
                assert(normalized(s@.subrange(i as int, i + 1)) =~= seq!['/']);
            }
            out.append("/");
            piece = i + 1;
            assert(out@ =~= start + normalized(s@.subrange(from as int, piece as int)));
        }
        i = i + 1;
    }
    let part = s.substring_char(piece, to);
    out.append(part);
    proof {
        assert forall|k: int| 0 <= k < s@.subrange(piece as int, to as int).len() implies s@.subrange(
            piece as int,
            to as int,
        )[k] != '\\' by {
            assert(s@.subrange(piece as int, to as int)[k] == s@[piece + k]);
        }
        lemma_normalized_plain(s@.subrange(piece as int, to as int));
        lemma_normalized_split(s@, from as int, piece as int, to as int);
    }
    assert(out@ =~= start + normalized(s@.subrange(from as int, to as int)));
}

/// The file that an animation asked for as `output` is written to, and the
/// directory that it and the companion files (frames, sidecar) go in:
/// backslashes become slashes; a path that ends with a slash names the
/// directory, and the animation is `output.gif` in it; otherwise the
/// directory is the path up to its last slash, empty where there is none.
pub fn output_location(output: &str) -> (r: (String, String))
    ensures
        r.0@ == output_path_spec(output@),
        r.1@ == dir_part(normalized(output@)),
{
    let len = output.unicode_len();
    let mut path = String::new();
    append_normalized(&mut path, output, 0, len);
    assert(output@.subrange(0, len as int) =~= output@);
    let ghost n = normalized(output@);
    assert(n.subrange(0, len as int) =~= n);
    let mut end: usize = len;
    while end > 0 && output.get_char(end - 1) != '/' && output.get_char(end - 1) != '\\'
        invariant
            end <= len == output@.len(),
            n == normalized(output@),
            dir_part(n) == dir_part(n.subrange(0, end as int)),
        decreases end,
    {
        assert(n.subrange(0, end as int).drop_last() =~= n.subrange(0, end - 1));
        end = end - 1;
    }
    if end > 0 {
        assert(n.subrange(0, end as int).last() == '/');
    } else {
        assert(n.subrange(0, end as int).len() == 0);
    }
    let mut dir = String::new();
    append_normalized(&mut dir, output, 0, end);
    assert(normalized(output@.subrange(0, end as int)) =~= n.subrange(0, end as int));
    if len > 0 && (output.get_char(len - 1) == '/' || output.get_char(len - 1) == '\\') {
        path.append("output.gif");
    }
    (path, dir)
}

/// The file that the frame at position `index` is saved to in `dir`: its
/// label and `.png`.
pub fn frame_file_name(dir: &str, index: u64) -> (r: String)
    ensures
        r@ == dir@ + frame_label_spec(index as nat) + ".png"@,
{
    let mut name = String::from_str(dir);
    append_frame_label(&mut name, index);
    name.append(".png");
    name
}

/// The file that the timing sidecar is saved to in `dir`.
pub fn sidecar_file_name(dir: &str) -> (r: String)
    ensures
        r@ == dir@ + "animation.json"@,
{
    let mut name = String::from_str(dir);
    name.append("animation.json");
    name
}

/// `s` without its stars.
pub open spec fn without_stars(s: Seq<char>) -> Seq<char>
    decreases s.len(),
{
    if s.len() == 0 {
        s
    } else if s.last() == '*' {
        without_stars(s.drop_last())
    } else {
        without_stars(s.drop_last()).push(s.last())
    }
}

/// `name` ends with `suffix`.
pub open spec fn ends_with(name: Seq<char>, suffix: Seq<char>) -> bool {
    suffix.len() <= name.len() && name.subrange(name.len() - suffix.len(), name.len() as int)
        == suffix
}

/// Whether the file `name` is one that `pattern` asks for: `name` ends with
/// what `pattern` holds once its stars are taken out (`*.png` takes
/// `a.png`).
pub fn matches_pattern(name: &str, pattern: &str) -> (r: bool)
    ensures
        r == ends_with(name@, without_stars(pattern@)),
{
    let plen = pattern.unicode_len();
    let mut wanted: Vec<char> = Vec::new();
    let mut i: usize = 0;
    while i < plen
        invariant
            plen == pattern@.len(),
            i <= plen,
            wanted@ == without_stars(pattern@.subrange(0, i as int)),
        decreases plen - i,
    {
        let c = pattern.get_char(i);
        if c != '*' {
            wanted.push(c);
        }
        assert(pattern@.subrange(0, i + 1).drop_last() =~= pattern@.subrange(0, i as int));
        i = i + 1;
    }
    assert(pattern@.subrange(0, plen as int) =~= pattern@);
    let nlen = name.unicode_len();
    let k = wanted.len();
    if k > nlen {
        return false;
    }
    let start: usize = nlen - k;
    let mut t: usize = 0;
    while t < k
        invariant
            k == wanted@.len(),
            wanted@ == without_stars(pattern@),
            nlen == name@.len(),
            start == nlen - k,
            t <= k,
            forall|u: int| 0 <= u < t ==> name@[start + u] == wanted@[u],
        decreases k - t,
    {
        if name.get_char(start + t) != wanted[t] {
            assert(name@.subrange(start as int, nlen as int)[t as int] != wanted@[t as int]);
            return false;
        }
        t = t + 1;
    }
    assert(name@.subrange(start as int, nlen as int) =~= wanted@);
    true
}

} // verus!
