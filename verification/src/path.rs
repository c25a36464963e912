//! Paths as text, with the Unix semantics of `std::path`: where the file name
//! lies, what its extension is, how one path is joined onto another and how an
//! extension is replaced.
use crate::text::{
    after_last, chars_of, lemma_after_last_bound, push_chars, slice_chars,
    string_of, after_last_before,
};
use vstd::prelude::*;

verus! {

broadcast use vstd::seq_lib::group_seq_properties;

/// Start and end of the file name in `p`: the last component of `p` when it is
/// a normal one (not the root, `.` or `..`), as `Path::file_name` finds it.
pub open spec fn name_span(p: Seq<char>) -> Option<(nat, nat)>
    decreases p.len(),
{
    if p.len() == 0 {
        None
    } else if p.last() == '/' {
        name_span(p.drop_last())
    } else {
        let start = after_last(p, '/');
        let seg = p.skip(start as int);
        if seg == seq!['.'] {
            if start == 0 {
                None
            } else {
                proof {
                    lemma_after_last_bound(p, '/');
                }
                name_span(p.take(start as int))
            }
        } else if seg == seq!['.', '.'] {
            None
        } else {
            Some((start, p.len()))
        }
    }
}

/// The file name of `p` (`Path::file_name`).
pub open spec fn file_name(p: Seq<char>) -> Option<Seq<char>> {
    match name_span(p) {
        Some((a, b)) => Some(p.subrange(a as int, b as int)),
        None => None,
    }
}

/// The extension of a file name: what follows its last dot, unless that dot
/// opens the name.
pub open spec fn name_extension(n: Seq<char>) -> Option<Seq<char>> {
    if after_last(n, '.') > 1 {
        Some(n.skip(after_last(n, '.') as int))
    } else {
        None
    }
}

/// Length of the stem of a file name: the name without its extension and dot.
pub open spec fn stem_length(n: Seq<char>) -> nat {
    if after_last(n, '.') > 1 {
        (after_last(n, '.') - 1) as nat
    } else {
        n.len()
    }
}

/// The extension of `p` (`Path::extension`).
pub open spec fn extension(p: Seq<char>) -> Option<Seq<char>> {
    match file_name(p) {
        Some(n) => name_extension(n),
        None => None,
    }
}

/// What an extension adds after the stem: nothing when it is empty, else a dot
/// and the extension.
pub open spec fn dotted(e: Seq<char>) -> Seq<char> {
    if e.len() == 0 {
        Seq::empty()
    } else {
        seq!['.'] + e
    }
}

/// `p` with its extension replaced by `e` (`Path::with_extension`): the path up
/// to the end of the stem, then `e`; unchanged when `p` has no file name.
pub open spec fn with_extension(p: Seq<char>, e: Seq<char>) -> Seq<char> {
    match name_span(p) {
        Some((a, b)) => p.take((a + stem_length(p.subrange(a as int, b as int))) as int) + dotted(e),
        None => p,
    }
}

/// `b` joined onto `a` (`Path::join`): an absolute `b` replaces `a`; otherwise a
/// separator goes between them unless `a` is empty or already ends in one.
pub open spec fn join(a: Seq<char>, b: Seq<char>) -> Seq<char> {
    if b.len() > 0 && b[0] == '/' {
        b
    } else if a.len() > 0 && a.last() != '/' {
        a + seq!['/'] + b
    } else {
        a + b
    }
}

/// Whether `e` can be given to `with_extension`: std refuses an extension that
/// holds a path separator.
pub open spec fn valid_extension(e: Seq<char>) -> bool {
    !e.contains('/')
}

// ---------------------------------------------------------------------------
// Lemmas
// ---------------------------------------------------------------------------

/// The span of a file name lies inside the path and holds no separator.
pub proof fn lemma_name_span_bounds(p: Seq<char>)
    ensures
        name_span(p) matches Some((a, b)) ==> {
            &&& a < b <= p.len()
            &&& forall|k: int| a <= k < b ==> #[trigger] p[k] != '/'
            &&& (a > 0 ==> p[a - 1] == '/')
        },
    decreases p.len(),
{
    if p.len() == 0 {
    } else if p.last() == '/' {
        lemma_name_span_bounds(p.drop_last());
        if let Some((a, b)) = name_span(p.drop_last()) {
            assert forall|k: int| a <= k < b implies #[trigger] p[k] != '/' by {
                assert(p[k] == p.drop_last()[k]);
            }
            if a > 0 {
                assert(p[a - 1] == p.drop_last()[a - 1]);
            }
        }
    } else {
        lemma_after_last_bound(p, '/');
        let start = after_last(p, '/');
        let seg = p.skip(start as int);
        if seg == seq!['.'] {
            if start != 0 {
                lemma_name_span_bounds(p.take(start as int));
                if let Some((a, b)) = name_span(p.take(start as int)) {
                    assert forall|k: int| a <= k < b implies #[trigger] p[k] != '/' by {
                        assert(p[k] == p.take(start as int)[k]);
                    }
                    if a > 0 {
                        assert(p[a - 1] == p.take(start as int)[a - 1]);
                    }
                }
            }
        }
    }
}

/// The extension of a path holds no separator.
pub proof fn lemma_extension_valid(p: Seq<char>)
    ensures
        extension(p) matches Some(e) ==> valid_extension(e),
{
    lemma_name_span_bounds(p);
    if let Some((a, b)) = name_span(p) {
        let n = p.subrange(a as int, b as int);
        if let Some(e) = extension(p) {
            if e.contains('/') {
                let k = choose|k: int| 0 <= k < e.len() && e[k] == '/';
                lemma_after_last_bound(n, '.');
                assert(e[k] == p[a + after_last(n, '.') + k]);
            }
        }
    }
}

// ---------------------------------------------------------------------------
// Executable operations
// ---------------------------------------------------------------------------

/// Where the file name of `p` starts and ends.
pub fn file_name_span(p: &[char]) -> (r: Option<(usize, usize)>)
    ensures
        match r {
            Some((a, b)) => name_span(p@) == Some((a as nat, b as nat)),
            None => name_span(p@) is None,
        },
{
    let mut end = p.len();
    loop
        invariant
            end <= p.len(),
            name_span(p@) == name_span(p@.take(end as int)),
        decreases end,
    {
        if end == 0 {
            return None;
        }
        let ghost q = p@.take(end as int);
        if p[end - 1] == '/' {
            assert(q.drop_last() =~= p@.take(end - 1));
            end = end - 1;
        } else {
            let start = after_last_before(p, end, '/');
            proof {
                lemma_after_last_bound(q, '/');
            }
            assert(q.skip(start as int) =~= p@.subrange(start as int, end as int));
            if end - start == 1 && p[start] == '.' {
                assert(q.skip(start as int) =~= seq!['.']);
                if start == 0 {
                    return None;
                }
                assert(q.take(start as int) =~= p@.take(start as int));
                end = start;
            } else if end - start == 2 && p[start] == '.' && p[start + 1] == '.' {
                assert(q.skip(start as int) =~= seq!['.', '.']);
                return None;
            } else {
                assert(q.skip(start as int) != seq!['.']) by {
                    if end - start == 1 {
                        assert(q.skip(start as int)[0] != '.');
                    }
                }
                assert(q.skip(start as int) != seq!['.', '.']) by {
                    if end - start == 2 {
                        assert(q.skip(start as int)[0] != '.' || q.skip(start as int)[1] != '.');
                    }
                }
                return Some((start, end));
            }
        }
    }
}

/// Where the extension of the file name `p[a..b]` starts, when it has one.
fn extension_start(p: &[char], a: usize, b: usize) -> (r: Option<usize>)
    requires
        a <= b <= p.len(),
    ensures
        ({
            let n = p@.subrange(a as int, b as int);
            match r {
                Some(s) => {
                    &&& a + 1 < s <= b
                    &&& name_extension(n) == Some(p@.subrange(s as int, b as int))
                    &&& stem_length(n) == s - 1 - a
                },
                None => {
                    &&& name_extension(n) is None
                    &&& stem_length(n) == b - a
                },
            }
        }),
{
    let name = slice_chars(p, a, b);
    let j = after_last_before(&name, name.len(), '.');
    assert(name@.take(name@.len() as int) =~= name@);
    proof {
        lemma_after_last_bound(name@, '.');
    }
    if j > 1 {
        assert(name@.skip(j as int) =~= p@.subrange((a + j) as int, b as int));
        Some(a + j)
    } else {
        None
    }
}

/// The extension of the path `p` (`Path::extension`).
pub fn extension_chars(p: &[char]) -> (r: Option<Vec<char>>)
    ensures
        match r {
            Some(e) => extension(p@) == Some(e@),
            None => extension(p@) is None,
        },
{
    match file_name_span(p) {
        None => None,
        Some((a, b)) => {
            proof {
                lemma_name_span_bounds(p@);
            }
            match extension_start(p, a, b) {
                None => None,
                Some(s) => Some(slice_chars(p, s, b)),
            }
        },
    }
}

/// `p` with its extension replaced by `e` (`Path::with_extension`).
pub fn with_extension_chars(p: &[char], e: &[char]) -> (r: Vec<char>)
    requires
        valid_extension(e@),
    ensures
        r@ == with_extension(p@, e@),
{
    match file_name_span(p) {
        None => slice_chars(p, 0, p.len()),
        Some((a, b)) => {
            proof {
                lemma_name_span_bounds(p@);
            }
            let ghost n = p@.subrange(a as int, b as int);
            let stem_end = match extension_start(p, a, b) {
                Some(s) => s - 1,
                None => b,
            };
            let mut r = slice_chars(p, 0, stem_end);
            assert(r@ =~= p@.take((a + stem_length(n)) as int));
            if e.len() > 0 {
                r.push('.');
                push_chars(&mut r, e);
            }
            assert(r@ =~= p@.take((a + stem_length(n)) as int) + dotted(e@));
            r
        },
    }
}

/// `b` joined onto `a` (`Path::join`).
pub fn join_chars(a: &[char], b: &[char]) -> (r: Vec<char>)
    ensures
        r@ == join(a@, b@),
{
    if b.len() > 0 && b[0] == '/' {
        slice_chars(b, 0, b.len())
    } else {
        let mut r = slice_chars(a, 0, a.len());
        if a.len() > 0 && a[a.len() - 1] != '/' {
            r.push('/');
        }
        push_chars(&mut r, b);
        r
    }
}

/// Whether `e` holds no path separator.
pub fn is_valid_extension(e: &[char]) -> (r: bool)
    ensures
        r == valid_extension(e@),
{
    let mut i: usize = 0;
    while i < e.len()
        invariant
            i <= e.len(),
            forall|k: int| 0 <= k < i ==> e@[k] != '/',
        decreases e.len() - i,
    {
        if e[i] == '/' {
            assert(e@[i as int] == '/');
            return false;
        }
        i = i + 1;
    }
    assert(!e@.contains('/'));
    true
}

/// The extension of `path` (`Path::extension`).
pub fn path_extension(path: &str) -> (r: Option<String>)
    ensures
        r.deep_view() == extension(path@),
        r matches Some(e) ==> valid_extension(e@),
{
    let p = chars_of(path);
    proof {
        lemma_extension_valid(p@);
    }
    match extension_chars(&p) {
        Some(e) => Some(string_of(&e)),
        None => None,
    }
}

/// `path` with its extension replaced by `ext` (`Path::with_extension`); an empty
/// `ext` removes the extension.
pub fn path_with_extension(path: &str, ext: &str) -> (r: String)
    requires
        valid_extension(ext@),
    ensures
        r@ == with_extension(path@, ext@),
{
    let p = chars_of(path);
    let e = chars_of(ext);
    string_of(&with_extension_chars(&p, &e))
}

/// `tail` joined onto `base` (`Path::join`).
pub fn path_join(base: &str, tail: &str) -> (r: String)
    ensures
        r@ == join(base@, tail@),
{
    let a = chars_of(base);
    let b = chars_of(tail);
    string_of(&join_chars(&a, &b))
}

} // verus!
