//! Where things go in the output folder: the destination of a processed file,
//! the archives, and the names of the entries inside an archive.
use crate::category::Category;
use crate::path::{
    extension, file_name, is_valid_extension, join, join_chars, lemma_name_span_bounds, name_span,
    stem_length, valid_extension, with_extension, with_extension_chars,
};
use crate::text::{
    after_last, chars_of, lemma_after_last_at, lemma_after_last_bound, replace_char, replaced,
    string_of,
};
use vstd::prelude::*;

verus! {

broadcast use vstd::seq_lib::group_seq_properties;

/// The text of an optional extension.
pub open spec fn optional_text(o: Option<&str>) -> Option<Seq<char>> {
    match o {
        Some(s) => Some(s@),
        None => None,
    }
}

/// Where a file of `category` found at `relative` (relative to the input folder)
/// is written below `output`: `output/<folder>/<relative>`, with its extension
/// replaced when one is given.
pub open spec fn destination_path(
    output: Seq<char>,
    category: Category,
    relative: Seq<char>,
    ext: Option<Seq<char>>,
) -> Seq<char> {
    let p = join(join(output, category.folder_name()), relative);
    match ext {
        Some(e) => with_extension(p, e),
        None => p,
    }
}

/// Name of an entry inside an archive: the relative path with forward slashes.
pub open spec fn entry_name(relative: Seq<char>) -> Seq<char> {
    replace_char(relative, '\\', '/')
}

/// Where a file of `category` found at `relative` is written below `output`,
/// with its extension replaced by `extension` when one is given.
pub fn destination(output: &str, category: Category, relative: &str, extension: Option<&str>) -> (r:
    String)
    requires
        extension matches Some(e) ==> valid_extension(e@),
    ensures
        r@ == destination_path(output@, category, relative@, optional_text(extension)),
{
    let out = chars_of(output);
    let folder = chars_of(category.folder());
    let rel = chars_of(relative);
    let base = join_chars(&out, &folder);
    let p = join_chars(&base, &rel);
    match extension {
        Some(e) => {
            let ext = chars_of(e);
            string_of(&with_extension_chars(&p, &ext))
        },
        None => string_of(&p),
    }
}

/// Where the archive of an archived category is written below `output`.
pub fn archive_path(output: &str, category: Category) -> (r: String)
    requires
        category.is_archived(),
    ensures
        r@ == join(output@, category.archive_file_name()),
{
    let out = chars_of(output);
    let name = chars_of(category.archive_name());
    string_of(&join_chars(&out, &name))
}

/// Name under which the file at `relative` is stored in an archive.
pub fn archive_entry_name(relative: &str) -> (r: String)
    ensures
        r@ == entry_name(relative@),
{
    let rel = chars_of(relative);
    string_of(&replaced(&rel, '\\', '/'))
}

/// Path text in the form the library reads: where a backslash also separates
/// path components (`windows`), every backslash becomes `/`; elsewhere the text
/// is kept.
pub fn portable_path(path: &str, windows: bool) -> (r: String)
    ensures
        r@ == (if windows {
            replace_char(path@, '\\', '/')
        } else {
            path@
        }),
{
    let p = chars_of(path);
    if windows {
        string_of(&replaced(&p, '\\', '/'))
    } else {
        string_of(&p)
    }
}

/// Whether `ext` can replace an extension (it holds no path separator).
pub fn extension_is_valid(ext: &str) -> (r: bool)
    ensures
        r == valid_extension(ext@),
{
    let e = chars_of(ext);
    is_valid_extension(&e)
}

/// Names under which an FFmpeg executable is looked for, the platform's own first.
pub open spec fn ffmpeg_names(windows: bool) -> Seq<Seq<char>> {
    if windows {
        seq!["ffmpeg.exe"@, "ffmpeg"@]
    } else {
        seq!["ffmpeg"@, "ffmpeg.exe"@]
    }
}

/// Every folder joined with every FFmpeg name, folder by folder.
pub open spec fn ffmpeg_candidate_paths(dirs: Seq<Seq<char>>, windows: bool) -> Seq<Seq<char>>
    decreases dirs.len(),
{
    if dirs.len() == 0 {
        Seq::empty()
    } else {
        ffmpeg_candidate_paths(dirs.drop_last(), windows) + ffmpeg_names(windows).map_values(
            |n: Seq<char>| join(dirs.last(), n),
        )
    }
}

/// The paths at which an FFmpeg executable is looked for, in order: in each of
/// `dirs`, first the platform's own name, then the other one.
pub fn ffmpeg_candidates(dirs: &Vec<String>, windows: bool) -> (r: Vec<String>)
    ensures
        r.deep_view() == ffmpeg_candidate_paths(dirs.deep_view(), windows),
{
    let names: [&str; 2] = if windows {
        ["ffmpeg.exe", "ffmpeg"]
    } else {
        ["ffmpeg", "ffmpeg.exe"]
    };
    let mut r: Vec<String> = Vec::new();
    let mut i: usize = 0;
    while i < dirs.len()
        invariant
            i <= dirs.len(),
            names@.map_values(|s: &str| s@) == ffmpeg_names(windows),
            r.deep_view() == ffmpeg_candidate_paths(dirs.deep_view().take(i as int), windows),
        decreases dirs.len() - i,
    {
        let d = chars_of(dirs[i].as_str());
        let first = chars_of(names[0]);
        let second = chars_of(names[1]);
        let a = string_of(&join_chars(&d, &first));
        let b = string_of(&join_chars(&d, &second));
        let ghost before = r.deep_view();
        r.push(a);
        r.push(b);
        proof {
            let ds = dirs.deep_view().take(i + 1);
            assert(ds.drop_last() =~= dirs.deep_view().take(i as int));
            assert(ds.last() == dirs[i as int]@);
            let added = ffmpeg_names(windows).map_values(|n: Seq<char>| join(ds.last(), n));
            assert(added =~= seq![a@, b@]);
            assert(r.deep_view() =~= before + added);
        }
        i = i + 1;
    }
    assert(dirs.deep_view().take(dirs.len() as int) =~= dirs.deep_view());
    r
}

// ---------------------------------------------------------------------------
// The destination keeps the relative path
// ---------------------------------------------------------------------------

/// A file name keeps its place when a folder prefix ending in a separator is put
/// in front of the path.
proof fn lemma_name_span_prefixed(prefix: Seq<char>, r: Seq<char>)
    requires
        prefix.len() > 0,
        prefix.last() == '/',
        name_span(r) is Some,
    ensures
        name_span(prefix + r) == (match name_span(r) {
            Some((a, b)) => Some((a + prefix.len(), b + prefix.len())),
            None => None::<(nat, nat)>,
        }),
    decreases r.len(),
{
    let p = prefix + r;
    if r.len() == 0 {
    } else if r.last() == '/' {
        assert(p.drop_last() =~= prefix + r.drop_last());
        lemma_name_span_prefixed(prefix, r.drop_last());
    } else {
        lemma_after_last_bound(r, '/');
        lemma_after_last_bound(p, '/');
        let start = after_last(r, '/');
        let pstart = after_last(p, '/');
        // The last separator of `p` is the last one of `r`, or the end of `prefix`.
        assert(pstart == start + prefix.len()) by {
            if start > 0 {
                assert(p[start + prefix.len() - 1] == r[start - 1]);
            } else {
                assert(p[prefix.len() - 1] == '/');
            }
            if pstart > start + prefix.len() {
                assert(p[pstart - 1] == r[pstart - 1 - prefix.len()]);
            }
            if pstart < start + prefix.len() {
                assert(p[start + prefix.len() - 1] == '/') by {
                    if start > 0 {
                        assert(p[start + prefix.len() - 1] == r[start - 1]);
                    }
                }
            }
        }
        assert(p.skip(pstart as int) =~= r.skip(start as int));
        let seg = r.skip(start as int);
        if seg == seq!['.'] {
            assert(start != 0);
            assert(p.take(pstart as int) =~= prefix + r.take(start as int));
            lemma_name_span_prefixed(prefix, r.take(start as int));
        }
    }
}

/// The organised copy keeps the file's place below the input folder: for a
/// relative path with a file name, the destination is the category's folder
/// below `output`, a separator, and the relative path with its extension
/// replaced; for an output folder that does not end in a separator this is
/// `output/<folder>/<relative>`.
pub proof fn law_destination_keeps_relative_path(
    output: Seq<char>,
    category: Category,
    relative: Seq<char>,
    ext: Seq<char>,
)
    requires
        relative.len() > 0,
        relative[0] != '/',
        name_span(relative) is Some,
    ensures
        destination_path(output, category, relative, Some(ext)) == join(
            output,
            category.folder_name(),
        ) + seq!['/'] + with_extension(relative, ext),
        output.len() > 0 && output.last() != '/' ==> join(output, category.folder_name())
            == output + seq!['/'] + category.folder_name(),
{
    let folder = category.folder_name();
    assert(folder.len() > 0 && folder[0] != '/' && folder.last() != '/') by {
        reveal_strlit("Images");
        reveal_strlit("Videos");
        reveal_strlit("Audio");
        reveal_strlit("Documents");
        reveal_strlit("Other");
    }
    let base = join(output, folder);
    assert(base.len() > 0 && base.last() == folder.last());
    let prefix = base + seq!['/'];
    let p = join(base, relative);
    assert(p =~= prefix + relative);
    lemma_name_span_prefixed(prefix, relative);
    lemma_name_span_bounds(relative);
    let (a, b) = name_span(relative).unwrap();
    assert(p.subrange((a + prefix.len()) as int, (b + prefix.len()) as int) =~= relative.subrange(a as int, b as int));
    let n = relative.subrange(a as int, b as int);
    assert(p.take((a + prefix.len() + stem_length(n)) as int) =~= prefix + relative.take(
        (a + stem_length(n)) as int,
    )) by {
        lemma_after_last_bound(n, '.');
    }
    assert(with_extension(p, ext) =~= prefix + with_extension(relative, ext));
}

/// Giving a path the extension it already has leaves it as it is, when its
/// file name ends the path and the extension is not empty.
#[verifier::spinoff_prover]
#[verifier::rlimit(40)]
pub proof fn lemma_same_extension(p: Seq<char>)
    requires
        name_span(p) matches Some((a, b)) && b == p.len(),
        extension(p) matches Some(e) && e.len() > 0,
    ensures
        with_extension(p, extension(p).unwrap()) == p,
{
    let (a, b) = name_span(p).unwrap();
    let n = p.subrange(a as int, b as int);
    lemma_name_span_bounds(p);
    lemma_after_last_bound(n, '.');
    let al = after_last(n, '.');
    assert(n[al - 1] == '.');
    assert(p[a + al - 1] == '.');
    let e = extension(p).unwrap();
    assert(e =~= p.skip((a + al) as int));
    assert(p.take((a + stem_length(n)) as int) + (seq!['.'] + e) =~= p);
}

/// A video that is copied instead of converted keeps its name: with the
/// extension of its own name it lands at `<output>/Videos/<relative>`.
pub proof fn law_copied_video_keeps_its_name(output: Seq<char>, relative: Seq<char>)
    requires
        relative.len() > 0,
        relative[0] != '/',
        name_span(relative) matches Some((a, b)) && b == relative.len(),
        extension(relative) matches Some(e) && e.len() > 0,
    ensures
        destination_path(output, Category::Videos, relative, extension(relative)) == join(
            output,
            "Videos"@,
        ) + seq!['/'] + relative,
{
    law_destination_keeps_relative_path(
        output,
        Category::Videos,
        relative,
        extension(relative).unwrap(),
    );
    lemma_same_extension(relative);
}

/// A new non-empty extension keeps the folder part of a path and the stem of
/// its file name: the file name of the result is the stem, a dot and the
/// extension, and it starts where the old one started.
pub proof fn lemma_with_extension_name(p: Seq<char>, e: Seq<char>)
    requires
        name_span(p) is Some,
        e.len() > 0,
        valid_extension(e),
    ensures
        ({
            let (a, b) = name_span(p).unwrap();
            let n = p.subrange(a as int, b as int);
            let q = with_extension(p, e);
            &&& name_span(q) == Some((a, q.len()))
            &&& q.take(a as int) == p.take(a as int)
            &&& file_name(q) == Some(n.take(stem_length(n) as int) + seq!['.'] + e)
        }),
{
    let (a, b) = name_span(p).unwrap();
    let n = p.subrange(a as int, b as int);
    lemma_name_span_bounds(p);
    lemma_after_last_bound(n, '.');
    let st = stem_length(n);
    let q = with_extension(p, e);
    assert(q =~= p.take((a + st) as int) + (seq!['.'] + e));
    let tail = n.take(st as int) + seq!['.'] + e;
    assert(q.skip(a as int) =~= tail);
    assert forall|j: int| a <= j < q.len() implies q[j] != '/' by {
        if j < a + st {
            assert(q[j] == p[j]);
        } else if j > a + st {
            assert(q[j] == e[j - a - st - 1]);
        }
    }
    if a > 0 {
        assert(q[a - 1] == p[a - 1]);
    }
    lemma_after_last_at(q, '/', a as int);
    assert(q.last() != '/');
    assert(tail.len() >= 3);
    assert(q.skip(a as int) != seq!['.']);
    assert(q.skip(a as int) != seq!['.', '.']);
    assert(q.subrange(a as int, q.len() as int) =~= tail);
    assert(q.take(a as int) =~= p.take(a as int));
}

/// The shape of a destination: for a relative path with a file name and a new
/// non-empty extension, the destination is the category's folder below
/// `output`, a separator, the folders of the relative path, then a file named
/// by the stem of the relative file name, a dot and the extension.
#[verifier::spinoff_prover]
#[verifier::rlimit(50)]
pub proof fn law_destination_shape(
    output: Seq<char>,
    category: Category,
    relative: Seq<char>,
    ext: Seq<char>,
)
    requires
        relative.len() > 0,
        relative[0] != '/',
        name_span(relative) is Some,
        ext.len() > 0,
        valid_extension(ext),
    ensures
        ({
            let (a, b) = name_span(relative).unwrap();
            let n = relative.subrange(a as int, b as int);
            let d = destination_path(output, category, relative, Some(ext));
            let folder = join(output, category.folder_name()) + seq!['/'];
            &&& d == folder + relative.take(a as int) + n.take(stem_length(n) as int) + seq!['.']
                + ext
            &&& file_name(d) == Some(n.take(stem_length(n) as int) + seq!['.'] + ext)
        }),
{
    law_destination_keeps_relative_path(output, category, relative, ext);
    lemma_with_extension_name(relative, ext);
    let (a, b) = name_span(relative).unwrap();
    let n = relative.subrange(a as int, b as int);
    let folder = join(output, category.folder_name()) + seq!['/'];
    let q = with_extension(relative, ext);
    let d = destination_path(output, category, relative, Some(ext));
    lemma_name_span_bounds(relative);
    lemma_after_last_bound(n, '.');
    assert(q =~= relative.take(a as int) + n.take(stem_length(n) as int) + seq!['.'] + ext);
    assert(d =~= folder + q);
    assert(folder.len() > 0 && folder.last() == '/');
    lemma_name_span_prefixed(folder, q);
    assert(name_span(q) == Some((a, q.len())));
    assert(name_span(d) == Some((a + folder.len(), q.len() + folder.len())));
    assert(d.subrange((a + folder.len()) as int, d.len() as int) =~= q.subrange(
        a as int,
        q.len() as int,
    ));
    assert(file_name(q) == Some(q.subrange(a as int, q.len() as int)));
}

} // verus!
