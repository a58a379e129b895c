//! File discovery: filtering directory entries down to recognized image
//! files by a fixed, case-insensitive extension allow-list. Directory
//! traversal itself is I/O and stays with the caller; the selection rule
//! lives here.
use vstd::prelude::*;

verus! {

/// One entry met while walking a directory tree: its path and whether it is
/// itself a directory.
#[derive(Clone, Debug)]
pub struct FileEntry {
    /// The path of the entry.
    pub path: String,
    /// Whether the entry is a directory.
    pub is_dir: bool,
}

/// The characters after the last occurrence of `c`; the whole sequence when
/// `c` does not occur.
pub open spec fn after_last(p: Seq<char>, c: char) -> Seq<char>
    decreases p.len(),
{
    if p.len() == 0 {
        p
    } else if p.last() == c {
        Seq::empty()
    } else {
        after_last(p.drop_last(), c).push(p.last())
    }
}

/// Whether a file name carries an extension: a dot somewhere after its first
/// character. A name that starts with its only dot (a hidden file) has none.
pub open spec fn has_extension(f: Seq<char>) -> bool {
    exists|i: int| 1 <= i < f.len() && f[i] == '.'
}

/// Case-insensitive match of one character against a lowercase reference
/// character: equal as they stand, or equal after mapping an ASCII capital
/// down by the alphabet offset.
pub open spec fn spec_char_ci(a: char, b: char) -> bool {
    a == b || ('A' <= a && a <= 'Z' && a as int + 32 == b as int)
}

/// Case-insensitive equality of a sequence against a lowercase reference.
pub open spec fn ci_eq(a: Seq<char>, b: Seq<char>) -> bool {
    a.len() == b.len() && forall|i: int| 0 <= i < a.len() ==> spec_char_ci(a[i], b[i])
}

/// The fixed allow-list of recognized image file extensions, matched without
/// regard to ASCII case.
pub open spec fn is_allowed_ext(e: Seq<char>) -> bool {
    ||| ci_eq(e, "jpg"@)
    ||| ci_eq(e, "jpeg"@)
    ||| ci_eq(e, "png"@)
    ||| ci_eq(e, "gif"@)
    ||| ci_eq(e, "webp"@)
    ||| ci_eq(e, "tif"@)
    ||| ci_eq(e, "tiff"@)
    ||| ci_eq(e, "tga"@)
    ||| ci_eq(e, "bmp"@)
    ||| ci_eq(e, "ico"@)
    ||| ci_eq(e, "hdr"@)
    ||| ci_eq(e, "pbm"@)
    ||| ci_eq(e, "pam"@)
    ||| ci_eq(e, "pgm"@)
    ||| ci_eq(e, "ppm"@)
}

/// Whether a path names a recognized image file: its file name (the part
/// after the last slash) has an extension whose lowercase form is in the
/// allow-list.
pub open spec fn spec_is_image_path(p: Seq<char>) -> bool {
    let f = after_last(p, '/');
    has_extension(f) && is_allowed_ext(after_last(f, '.'))
}

/// Which entries discovery keeps: files, never directories, whose path names
/// a recognized image.
pub open spec fn spec_keep_entry(e: FileEntry) -> bool {
    !e.is_dir && spec_is_image_path(e.path@)
}

/// The paths (as character sequences) that discovery yields for a sequence
/// of directory entries, in their order of appearance.
pub open spec fn spec_discovered(entries: Seq<FileEntry>) -> Seq<Seq<char>>
    decreases entries.len(),
{
    if entries.len() == 0 {
        Seq::empty()
    } else {
        spec_discovered(entries.drop_last()) + (if spec_keep_entry(entries.last()) {
            seq![entries.last().path@]
        } else {
            Seq::empty()
        })
    }
}

proof fn lemma_after_last_absent(p: Seq<char>, c: char)
    requires
        forall|k: int| 0 <= k < p.len() ==> p[k] != c,
    ensures
        after_last(p, c) == p,
    decreases p.len(),
{
    if p.len() > 0 {
        lemma_after_last_absent(p.drop_last(), c);
        assert(after_last(p, c) =~= p);
    } else {
        assert(after_last(p, c) =~= p);
    }
}

proof fn lemma_after_last_found(p: Seq<char>, c: char, i: int)
    requires
        0 <= i < p.len(),
        p[i] == c,
        forall|k: int| i < k < p.len() ==> p[k] != c,
    ensures
        after_last(p, c) == p.skip(i + 1),
    decreases p.len(),
{
    if i == p.len() - 1 {
        assert(after_last(p, c) =~= p.skip(i + 1));
    } else {
        lemma_after_last_found(p.drop_last(), c, i);
        assert(after_last(p, c) =~= p.skip(i + 1));
    }
}

/// The index (in character positions) of the last occurrence of `c`.
fn last_index_of(s: &str, c: char) -> (r: Option<usize>)
    ensures
        (match r {
            Some(i) => i < s@.len() && s@[i as int] == c && forall|k: int|
                i < k < s@.len() ==> s@[k] != c,
            None => forall|k: int| 0 <= k < s@.len() ==> s@[k] != c,
        }),
{
    let n = s.unicode_len();
    let mut i = n;
    while i > 0
        invariant
            i <= n,
            n == s@.len(),
            forall|k: int| i <= k < n ==> s@[k] != c,
        decreases i,
    {
        let j = i - 1;
        if s.get_char(j) == c {
            return Some(j);
        }
        i = j;
    }
    None
}

/// Case-insensitive comparison of the tail of `s` starting at `from` against
/// a lowercase reference string.
fn tail_matches_ci(s: &str, from: usize, lit: &str) -> (r: bool)
    requires
        from <= s@.len(),
    ensures
        r == ci_eq(s@.skip(from as int), lit@),
{
    let n = s.unicode_len();
    let m = lit.unicode_len();
    if n - from != m {
        return false;
    }
    let mut k: usize = 0;
    while k < m
        invariant
            k <= m,
            n == s@.len(),
            m == lit@.len(),
            from + m == n,
            forall|i: int| 0 <= i < k ==> spec_char_ci(s@.skip(from as int)[i], lit@[i]),
        decreases m - k,
    {
        let ca = s.get_char(from + k);
        let cb = lit.get_char(k);
        let ci_here = ca == cb || ('A' <= ca && ca <= 'Z' && (ca as u32) + 32 == (cb as u32));
        if !ci_here {
            assert(s@.skip(from as int)[k as int] == ca);
            assert(!spec_char_ci(ca, cb));
            return false;
        }
        assert(s@.skip(from as int)[k as int] == ca);
        k += 1;
    }
    true
}

/// Whether the path names a recognized image file, by the case-insensitive
/// extension allow-list.
pub fn is_image_path(path: &str) -> (r: bool)
    ensures
        r == spec_is_image_path(path@),
{
    let ghost p = path@;
    let n = path.unicode_len();
    let fstart: usize = match last_index_of(path, '/') {
        Some(i) => {
            proof {
                lemma_after_last_found(p, '/', i as int);
            }
            i + 1
        },
        None => {
            proof {
                lemma_after_last_absent(p, '/');
                assert(p.skip(0) =~= p);
            }
            0
        },
    };
    let ghost f = after_last(p, '/');
    assert(f == p.skip(fstart as int));
    match last_index_of(path, '.') {
        None => {
            assert(!has_extension(f)) by {
                assert(forall|i: int| 0 <= i < f.len() ==> f[i] == p[fstart + i]);
            }
            false
        },
        Some(d) => {
            if d <= fstart {
                assert(!has_extension(f)) by {
                    assert forall|i: int| 1 <= i < f.len() implies f[i] != '.' by {
                        assert(f[i] == p[fstart + i]);
                    }
                }
                false
            } else {
                proof {
                    assert(f[d - fstart] == p[d as int]);
                    assert forall|k: int| d - fstart < k < f.len() implies f[k] != '.' by {
                        assert(f[k] == p[fstart + k]);
                    }
                    lemma_after_last_found(f, '.', d - fstart);
                    assert(has_extension(f)) by {
                        assert(f[d - fstart] == '.');
                    }
                    assert(f.skip(d - fstart + 1) =~= p.skip(d + 1));
                }
                let from = d + 1;
                let r = tail_matches_ci(path, from, "jpg") || tail_matches_ci(path, from, "jpeg")
                    || tail_matches_ci(path, from, "png") || tail_matches_ci(path, from, "gif")
                    || tail_matches_ci(path, from, "webp") || tail_matches_ci(path, from, "tif")
                    || tail_matches_ci(path, from, "tiff") || tail_matches_ci(path, from, "tga")
                    || tail_matches_ci(path, from, "bmp") || tail_matches_ci(path, from, "ico")
                    || tail_matches_ci(path, from, "hdr") || tail_matches_ci(path, from, "pbm")
                    || tail_matches_ci(path, from, "pam") || tail_matches_ci(path, from, "pgm")
                    || tail_matches_ci(path, from, "ppm");
                r
            }
        },
    }
}

/// Filter directory entries down to the paths of recognized image files,
/// keeping their order: no directories, and only extensions on the
/// allow-list, matched without regard to ASCII case. Entries the walk could
/// not access never reach this function; the caller skips them.
pub fn discover_files(entries: &Vec<FileEntry>) -> (r: Vec<String>)
    ensures
        r@.map_values(|s: String| s@) == spec_discovered(entries@),
{
    let mut r: Vec<String> = Vec::new();
    let mut i: usize = 0;
    while i < entries.len()
        invariant
            i <= entries@.len(),
            r@.map_values(|s: String| s@) == spec_discovered(entries@.take(i as int)),
        decreases entries@.len() - i,
    {
        let e = &entries[i];
        let ghost prefix = entries@.take(i as int);
        assert(entries@.take(i + 1).drop_last() =~= prefix);
        assert(entries@.take(i + 1).last() == entries@[i as int]);
        if !e.is_dir && is_image_path(e.path.as_str()) {
            r.push(e.path.clone());
            assert(r@.map_values(|s: String| s@) =~= spec_discovered(entries@.take(i + 1)));
        } else {
            assert(r@.map_values(|s: String| s@) =~= spec_discovered(entries@.take(i + 1)));
        }
        i += 1;
    }
    assert(entries@.take(entries@.len() as int) =~= entries@);
    r
}

} // verus!
