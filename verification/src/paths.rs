//! Byte-string path model: extension extraction, the discovery whitelist,
//! and mirrored destination paths.
//!
//! A path is a byte string whose components are separated by `/`. A file
//! name's extension is what follows the last `.` of the last component,
//! provided that dot is not the component's first byte.

use vstd::prelude::*;
use crate::config::OutputFormat;
use crate::config::spec_extension_for;
use crate::config::extension_for;

verus! {

/// The path-component separator, `/`.
pub const SLASH: u8 = 47;

/// The extension separator, `.`.
pub const DOT: u8 = 46;

/// Index of the last occurrence of `b` in `s`, or `-1` when `s` has none.
pub open spec fn spec_last_pos(s: Seq<u8>, b: u8) -> int
    decreases s.len(),
{
    if s.len() == 0 {
        -1
    } else if s[s.len() - 1] == b {
        s.len() - 1
    } else {
        spec_last_pos(s.drop_last(), b)
    }
}

/// `spec_last_pos` points at an occurrence of `b`, and nothing after it is one.
pub proof fn lemma_last_pos(s: Seq<u8>, b: u8)
    ensures
        -1 <= spec_last_pos(s, b) < s.len(),
        spec_last_pos(s, b) >= 0 ==> s[spec_last_pos(s, b)] == b,
        forall|j: int| spec_last_pos(s, b) < j < s.len() ==> s[j] != b,
    decreases s.len(),
{
    if s.len() == 0 {
    } else if s[s.len() - 1] == b {
    } else {
        lemma_last_pos(s.drop_last(), b);
        assert(forall|j: int| 0 <= j < s.len() - 1 ==> s.drop_last()[j] == s[j]);
    }
}

/// ASCII lower-casing of one byte.
pub open spec fn spec_lower_byte(b: u8) -> u8 {
    if 65 <= b && b <= 90 {
        (b + 32) as u8
    } else {
        b
    }
}

/// ASCII lower-casing of a byte string.
pub open spec fn spec_lower(s: Seq<u8>) -> Seq<u8> {
    s.map_values(|b: u8| spec_lower_byte(b))
}

/// ASCII lower-casing of one byte.
pub fn lower_byte(b: u8) -> (r: u8)
    ensures
        r == spec_lower_byte(b),
{
    if 65 <= b && b <= 90 {
        b + 32
    } else {
        b
    }
}

/// ASCII lower-casing of a byte string.
pub fn lower_bytes(s: &Vec<u8>) -> (r: Vec<u8>)
    ensures
        r@ == spec_lower(s@),
{
    let mut r: Vec<u8> = Vec::new();
    let mut i: usize = 0;
    while i < s.len()
        invariant
            i <= s@.len(),
            r@.len() == i,
            forall|j: int| 0 <= j < i ==> r@[j] == spec_lower_byte(s@[j]),
        decreases s@.len() - i,
    {
        r.push(lower_byte(s[i]));
        i = i + 1;
    }
    proof {
        assert(r@ =~= spec_lower(s@));
    }
    r
}

/// The extension whitelist of discovery, lower case: `png`, `jpg`, `jpeg`,
/// `webp`, `bmp`, `tiff`.
pub open spec fn spec_is_whitelisted_ext(e: Seq<u8>) -> bool {
    let l = spec_lower(e);
    ||| l == seq![112u8, 110u8, 103u8]  // png
    ||| l == seq![106u8, 112u8, 103u8]  // jpg
    ||| l == seq![106u8, 112u8, 101u8, 103u8]  // jpeg
    ||| l == seq![119u8, 101u8, 98u8, 112u8]  // webp
    ||| l == seq![98u8, 109u8, 112u8]  // bmp
    ||| l == seq![116u8, 105u8, 102u8, 102u8]  // tiff
}

/// Index of the dot that starts `p`'s extension, or `-1` when `p` has no
/// extension: the last dot of the last component, provided it is not that
/// component's first byte.
pub open spec fn spec_extension_pos(p: Seq<u8>) -> int {
    let d = spec_last_pos(p, DOT);
    let s = spec_last_pos(p, SLASH);
    if d > s + 1 {
        d
    } else {
        -1
    }
}

/// The extension of `p`, without its dot, or `None` when `p` has none.
pub open spec fn spec_extension_of(p: Seq<u8>) -> Option<Seq<u8>> {
    let d = spec_extension_pos(p);
    if d >= 0 {
        Some(p.subrange(d + 1, p.len() as int))
    } else {
        None
    }
}

/// Whether discovery keeps the file at `p`: it has an extension and that
/// extension, lower-cased, is whitelisted.
pub open spec fn spec_is_image_path(p: Seq<u8>) -> bool {
    match spec_extension_of(p) {
        Some(e) => spec_is_whitelisted_ext(e),
        None => false,
    }
}

/// Index of the last occurrence of `b` in `s`, or `None` when `s` has none.
pub fn find_last(s: &Vec<u8>, b: u8) -> (r: Option<usize>)
    ensures
        match r {
            Some(i) => i < s@.len() && spec_last_pos(s@, b) == i as int,
            None => spec_last_pos(s@, b) == -1,
        },
{
    proof {
        lemma_last_pos(s@, b);
    }
    let mut i: usize = s.len();
    while i > 0
        invariant
            i <= s@.len(),
            forall|j: int| i <= j < s@.len() ==> s@[j] != b,
        decreases i,
    {
        i = i - 1;
        if s[i] == b {
            proof {
                lemma_last_pos(s@, b);
            }
            return Some(i);
        }
    }
    proof {
        lemma_last_pos(s@, b);
    }
    None
}

/// Copies `s[a..b]` into a fresh byte string.
pub fn subrange_vec(s: &Vec<u8>, a: usize, b: usize) -> (r: Vec<u8>)
    requires
        a <= b <= s@.len(),
    ensures
        r@ == s@.subrange(a as int, b as int),
{
    let mut r: Vec<u8> = Vec::new();
    let mut i: usize = a;
    while i < b
        invariant
            a <= i <= b <= s@.len(),
            r@ == s@.subrange(a as int, i as int),
        decreases b - i,
    {
        r.push(s[i]);
        proof {
            assert(r@ =~= s@.subrange(a as int, i + 1));
        }
        i = i + 1;
    }
    r
}

/// The extension of `p`, without its dot, or `None` when `p` has none.
pub fn extension_of(p: &Vec<u8>) -> (r: Option<Vec<u8>>)
    ensures
        r is Some <==> spec_extension_of(p@) is Some,
        r matches Some(v) ==> spec_extension_of(p@) matches Some(e) && v@ == e,
{
    let d = match find_last(p, DOT) {
        Some(d) => d,
        None => {
            return None;
        },
    };
    // The dot starts an extension only when it sits inside the last
    // component and is not that component's first byte.
    let starts_extension = match find_last(p, SLASH) {
        Some(s) => d >= 2 && s <= d - 2,
        None => d >= 1,
    };
    if starts_extension {
        let n = p.len();
        Some(subrange_vec(p, d + 1, n))
    } else {
        None
    }
}

/// Whether discovery keeps the file at `p`.
pub fn is_image_path(p: &Vec<u8>) -> (r: bool)
    ensures
        r == spec_is_image_path(p@),
{
    match extension_of(p) {
        Some(e) => is_whitelisted_ext(&e),
        None => false,
    }
}

/// Compares a three-byte string to three given bytes.
fn eq3(l: &Vec<u8>, a: u8, b: u8, c: u8) -> (r: bool)
    ensures
        r == (l@ == seq![a, b, c]),
{
    let r = l.len() == 3 && l[0] == a && l[1] == b && l[2] == c;
    proof {
        if r {
            assert(l@ =~= seq![a, b, c]);
        }
    }
    r
}

/// Compares a four-byte string to four given bytes.
fn eq4(l: &Vec<u8>, a: u8, b: u8, c: u8, d: u8) -> (r: bool)
    ensures
        r == (l@ == seq![a, b, c, d]),
{
    let r = l.len() == 4 && l[0] == a && l[1] == b && l[2] == c && l[3] == d;
    proof {
        if r {
            assert(l@ =~= seq![a, b, c, d]);
        }
    }
    r
}

/// Whether `e`, lower-cased, is one of the whitelisted image extensions.
pub fn is_whitelisted_ext(e: &Vec<u8>) -> (r: bool)
    ensures
        r == spec_is_whitelisted_ext(e@),
{
    let l = lower_bytes(e);
    let r = eq3(&l, 112, 110, 103)  // png
         || eq3(&l, 106, 112, 103)  // jpg
         || eq4(&l, 106, 112, 101, 103)  // jpeg
         || eq4(&l, 119, 101, 98, 112)  // webp
         || eq3(&l, 98, 109, 112)  // bmp
         || eq4(&l, 116, 105, 102, 102);  // tiff
    r
}

/// Keeps exactly the paths that discovery's whitelist admits, in order.
pub fn filter_image_paths(paths: &Vec<Vec<u8>>) -> (r: Vec<Vec<u8>>)
    ensures
        r.deep_view() == spec_discovered(paths.deep_view()),
{
    let mut r: Vec<Vec<u8>> = Vec::new();
    let mut i: usize = 0;
    while i < paths.len()
        invariant
            i <= paths@.len(),
            r.deep_view() == paths.deep_view().take(i as int).filter(
                |p: Seq<u8>| spec_is_image_path(p),
            ),
        decreases paths@.len() - i,
    {
        let ghost prefix = paths.deep_view().take(i as int);
        let ghost next = paths.deep_view().take(i + 1);
        proof {
            assert(next.drop_last() =~= prefix);
            assert(next.last() == paths.deep_view()[i as int]);
            assert(paths.deep_view()[i as int] == paths@[i as int]@);
        }
        if is_image_path(&paths[i]) {
            let copy = subrange_vec(&paths[i], 0, paths[i].len());
            proof {
                assert(copy@ =~= paths.deep_view()[i as int]);
            }
            r.push(copy);
            proof {
                reveal(Seq::filter);
                assert(r.deep_view() =~= next.filter(|p: Seq<u8>| spec_is_image_path(p)));
            }
        } else {
            proof {
                reveal(Seq::filter);
                assert(r.deep_view() =~= next.filter(|p: Seq<u8>| spec_is_image_path(p)));
            }
        }
        i = i + 1;
    }
    proof {
        assert(paths.deep_view().take(paths@.len() as int) =~= paths.deep_view());
    }
    r
}

/// Lower-casing a byte twice is the same as lower-casing it once, so the
/// whitelist cannot tell a mixed-case extension from its lower-case form:
/// discovery is case-insensitive.
pub proof fn lemma_whitelist_case_insensitive(e: Seq<u8>)
    ensures
        spec_is_whitelisted_ext(e) == spec_is_whitelisted_ext(spec_lower(e)),
{
    assert(spec_lower(spec_lower(e)) =~= spec_lower(e));
}

/// What discovery hands on from an enumerated sequence of paths: exactly
/// the whitelisted ones, in order.
pub open spec fn spec_discovered(paths: Seq<Seq<u8>>) -> Seq<Seq<u8>> {
    paths.filter(|p: Seq<u8>| spec_is_image_path(p))
}

/// The discovery filter is exact: everything it keeps is a whitelisted
/// member of the input, and every whitelisted member of the input is kept.
pub proof fn lemma_discovery_filter_exact(paths: Seq<Seq<u8>>)
    ensures
        forall|i: int|
            0 <= i < spec_discovered(paths).len() ==> spec_is_image_path(
                #[trigger] spec_discovered(paths)[i],
            ) && paths.contains(spec_discovered(paths)[i]),
        forall|i: int|
            0 <= i < paths.len() && spec_is_image_path(#[trigger] paths[i]) ==> spec_discovered(
                paths,
            ).contains(paths[i]),
{
    let pred = |p: Seq<u8>| spec_is_image_path(p);
    broadcast use vstd::seq_lib::group_filter_ensures;

    assert forall|i: int| 0 <= i < spec_discovered(paths).len() implies spec_is_image_path(
        #[trigger] spec_discovered(paths)[i],
    ) && paths.contains(spec_discovered(paths)[i]) by {
        let elem = paths.filter(pred)[i];
        assert(paths.filter(pred).contains(elem));
        paths.lemma_filter_contains_rev(pred, elem);
    }
}

/// The path of `src` relative to the directory `root`, or `None` when `src`
/// does not lie under `root`.
pub open spec fn spec_rel_path(src: Seq<u8>, root: Seq<u8>) -> Option<Seq<u8>> {
    if src.len() > root.len() && src.subrange(0, root.len() as int) == root {
        if root.len() == 0 {
            Some(src)
        } else if root[root.len() - 1] == SLASH {
            Some(src.subrange(root.len() as int, src.len() as int))
        } else if src[root.len() as int] == SLASH {
            Some(src.subrange(root.len() as int + 1, src.len() as int))
        } else {
            None
        }
    } else {
        None
    }
}

/// `rel` with its extension replaced by `ext`; when `rel` has no extension,
/// a dot and `ext` are appended.
pub open spec fn spec_with_extension(rel: Seq<u8>, ext: Seq<u8>) -> Seq<u8> {
    let d = spec_extension_pos(rel);
    if d >= 0 {
        rel.subrange(0, d + 1) + ext
    } else {
        rel + seq![DOT] + ext
    }
}

/// `root` and `rel` joined with a single separator.
pub open spec fn spec_join(root: Seq<u8>, rel: Seq<u8>) -> Seq<u8> {
    if root.len() == 0 {
        rel
    } else if root[root.len() - 1] == SLASH {
        root + rel
    } else {
        root + seq![SLASH] + rel
    }
}

/// Where the thumbnail of `src` is written: `src` relative to `in_root`,
/// joined onto `out_root`, with the extension the format implies.
pub open spec fn spec_dest_path(
    src: Seq<u8>,
    in_root: Seq<u8>,
    out_root: Seq<u8>,
    f: OutputFormat,
) -> Option<Seq<u8>> {
    match spec_rel_path(src, in_root) {
        Some(rel) => Some(spec_join(out_root, spec_with_extension(rel, spec_extension_for(f)))),
        None => None,
    }
}

/// The mirrored destination's shape: for a source under the input root, the
/// destination starts with the output root and ends with a dot and the
/// extension the format implies.
pub proof fn lemma_dest_path_shape(src: Seq<u8>, in_root: Seq<u8>, out_root: Seq<u8>, f: OutputFormat)
    requires
        spec_rel_path(src, in_root) is Some,
    ensures
        spec_dest_path(src, in_root, out_root, f) matches Some(d) && {
            let ext = spec_extension_for(f);
            &&& d.len() >= ext.len() + 1
            &&& d.subrange(d.len() - ext.len(), d.len() as int) == ext
            &&& d[d.len() - ext.len() - 1] == DOT
            &&& out_root.len() > 0 ==> d.subrange(0, out_root.len() as int) == out_root
        },
{
    let rel = spec_rel_path(src, in_root)->Some_0;
    let ext = spec_extension_for(f);
    let w = spec_with_extension(rel, ext);
    let dp = spec_extension_pos(rel);
    if dp >= 0 {
        lemma_last_pos(rel, DOT);
        assert(rel[dp] == DOT);
        assert(w =~= rel.subrange(0, dp + 1) + ext);
        assert(w[w.len() - ext.len() - 1] == rel[dp]);
        assert(w.subrange(w.len() - ext.len(), w.len() as int) =~= ext);
    } else {
        assert(w =~= rel + seq![DOT] + ext);
        assert(w[w.len() - ext.len() - 1] == DOT);
        assert(w.subrange(w.len() - ext.len(), w.len() as int) =~= ext);
    }
    let d = spec_join(out_root, w);
    if out_root.len() == 0 {
        assert(d == w);
    } else if out_root[out_root.len() - 1] == SLASH {
        assert(d =~= out_root + w);
        assert(d.subrange(0, out_root.len() as int) =~= out_root);
        assert(d.subrange(d.len() - ext.len(), d.len() as int) =~= ext);
    } else {
        assert(d =~= out_root + seq![SLASH] + w);
        assert(d.subrange(0, out_root.len() as int) =~= out_root);
        assert(d.subrange(d.len() - ext.len(), d.len() as int) =~= ext);
    }
}

/// Appends `src[a..b]` onto `dst`.
pub(crate) fn push_range(dst: &mut Vec<u8>, src: &Vec<u8>, a: usize, b: usize)
    requires
        a <= b <= src@.len(),
    ensures
        final(dst)@ == old(dst)@ + src@.subrange(a as int, b as int),
{
    let mut i: usize = a;
    while i < b
        invariant
            a <= i <= b <= src@.len(),
            dst@ == old(dst)@ + src@.subrange(a as int, i as int),
        decreases b - i,
    {
        dst.push(src[i]);
        proof {
            assert(dst@ =~= old(dst)@ + src@.subrange(a as int, i + 1));
        }
        i = i + 1;
    }
}

/// The path of `src` relative to the directory `root`, or `None` when `src`
/// does not lie under `root`.
pub fn rel_path(src: &Vec<u8>, root: &Vec<u8>) -> (r: Option<Vec<u8>>)
    ensures
        r is Some <==> spec_rel_path(src@, root@) is Some,
        r matches Some(v) ==> spec_rel_path(src@, root@) matches Some(rel) && v@ == rel,
{
    if src.len() <= root.len() {
        return None;
    }
    let mut i: usize = 0;
    while i < root.len()
        invariant
            i <= root@.len() < src@.len(),
            forall|j: int| 0 <= j < i ==> src@[j] == root@[j],
        decreases root@.len() - i,
    {
        if src[i] != root[i] {
            proof {
                assert(src@.subrange(0, root@.len() as int)[i as int] != root@[i as int]);
            }
            return None;
        }
        i = i + 1;
    }
    proof {
        assert(src@.subrange(0, root@.len() as int) =~= root@);
    }
    if root.len() == 0 {
        let mut v: Vec<u8> = Vec::new();
        push_range(&mut v, src, 0, src.len());
        proof {
            assert(v@ =~= src@);
        }
        Some(v)
    } else if root[root.len() - 1] == SLASH {
        Some(subrange_vec(src, root.len(), src.len()))
    } else if src[root.len()] == SLASH {
        Some(subrange_vec(src, root.len() + 1, src.len()))
    } else {
        None
    }
}

/// Where the thumbnail of `src` is written, or `None` when `src` does not
/// lie under `in_root`.
pub fn dest_path(src: &Vec<u8>, in_root: &Vec<u8>, out_root: &Vec<u8>, format: OutputFormat) -> (r:
    Option<Vec<u8>>)
    ensures
        r is Some <==> spec_rel_path(src@, in_root@) is Some,
        r matches Some(v) ==> spec_dest_path(src@, in_root@, out_root@, format) matches Some(d)
            && v@ == d,
{
    let rel = match rel_path(src, in_root) {
        Some(rel) => rel,
        None => {
            return None;
        },
    };
    let ext = extension_for(format);
    let mut out: Vec<u8> = Vec::new();
    push_range(&mut out, out_root, 0, out_root.len());
    proof {
        assert(out@ =~= out_root@);
    }
    if out_root.len() > 0 && out_root[out_root.len() - 1] != SLASH {
        out.push(SLASH);
    }
    let ghost joined_root = out@;
    let rel_len = rel.len();
    let d = match find_last(&rel, DOT) {
        Some(d) => {
            let starts_extension = match find_last(&rel, SLASH) {
                Some(s) => d >= 2 && s <= d - 2,
                None => d >= 1,
            };
            if starts_extension {
                Some(d)
            } else {
                None
            }
        },
        None => None,
    };
    match d {
        Some(d) => {
            push_range(&mut out, &rel, 0, d + 1);
        },
        None => {
            push_range(&mut out, &rel, 0, rel_len);
            out.push(DOT);
        },
    }
    push_range(&mut out, &ext, 0, ext.len());
    proof {
        assert(ext@.subrange(0, ext@.len() as int) =~= ext@);
        let ghost rel_view = spec_rel_path(src@, in_root@)->Some_0;
        assert(out@ =~= joined_root + spec_with_extension(rel_view, spec_extension_for(format)));
        assert(out@ =~= spec_join(out_root@, spec_with_extension(rel_view, spec_extension_for(
            format,
        ))));
    }
    Some(out)
}

} // verus!
