//! Text as sequences of characters: the model every other module speaks in,
//! and the executable operations on it.
use vstd::prelude::*;

verus! {

broadcast use vstd::seq_lib::group_seq_properties;

/// Whether `c` has the Unicode `White_Space` property (what `char::is_whitespace` tests).
pub open spec fn is_whitespace(c: char) -> bool {
    ||| ('\t' <= c && c <= '\r')
    ||| c == ' '
    ||| c == '\u{85}'
    ||| c == '\u{a0}'
    ||| c == '\u{1680}'
    ||| ('\u{2000}' <= c && c <= '\u{200a}')
    ||| c == '\u{2028}'
    ||| c == '\u{2029}'
    ||| c == '\u{202f}'
    ||| c == '\u{205f}'
    ||| c == '\u{3000}'
}

/// Number of whitespace characters at the start of `s`.
pub open spec fn leading_whitespace(s: Seq<char>) -> nat
    decreases s.len(),
{
    if s.len() > 0 && is_whitespace(s[0]) {
        1 + leading_whitespace(s.drop_first())
    } else {
        0
    }
}

/// Number of whitespace characters at the end of `s`.
pub open spec fn trailing_whitespace(s: Seq<char>) -> nat
    decreases s.len(),
{
    if s.len() > 0 && is_whitespace(s.last()) {
        1 + trailing_whitespace(s.drop_last())
    } else {
        0
    }
}

/// `s` without its trailing whitespace.
pub open spec fn trim_end(s: Seq<char>) -> Seq<char> {
    s.take(s.len() - trailing_whitespace(s))
}

/// `s` without leading and trailing whitespace (what `str::trim` returns).
pub open spec fn trim(s: Seq<char>) -> Seq<char> {
    trim_end(s.skip(leading_whitespace(s) as int))
}

/// Index of the first `c` in `s`, or the length of `s` when there is none.
pub open spec fn find_char(s: Seq<char>, c: char) -> nat
    decreases s.len(),
{
    if s.len() == 0 {
        0
    } else if s[0] == c {
        0
    } else {
        1 + find_char(s.drop_first(), c)
    }
}

/// Index just past the last `c` in `s`, or 0 when there is none.
pub open spec fn after_last(s: Seq<char>, c: char) -> nat
    decreases s.len(),
{
    if s.len() == 0 {
        0
    } else if s.last() == c {
        s.len()
    } else {
        after_last(s.drop_last(), c)
    }
}

/// Whether `p` is a prefix of `s`.
pub open spec fn has_prefix(s: Seq<char>, p: Seq<char>) -> bool {
    p.len() <= s.len() && s.take(p.len() as int) == p
}

/// What `str::strip_prefix` returns.
pub open spec fn strip_prefix(s: Seq<char>, p: Seq<char>) -> Option<Seq<char>> {
    if has_prefix(s, p) {
        Some(s.skip(p.len() as int))
    } else {
        None
    }
}

/// Index of the first occurrence of the non-empty pattern `p` in `s`.
pub open spec fn find_sub(s: Seq<char>, p: Seq<char>) -> Option<nat>
    decreases s.len(),
{
    if s.len() < p.len() {
        None
    } else if has_prefix(s, p) {
        Some(0)
    } else if s.len() == 0 {
        None
    } else {
        match find_sub(s.drop_first(), p) {
            Some(i) => Some(i + 1),
            None => None,
        }
    }
}

/// The text before the first occurrence of `p`, or all of `s`.
pub open spec fn before_sub(s: Seq<char>, p: Seq<char>) -> Seq<char> {
    match find_sub(s, p) {
        Some(i) => s.take(i as int),
        None => s,
    }
}

/// The second piece of `s.split(p)`: what lies between the first and the second
/// occurrence of `p` (or the end), when `p` occurs at all.
pub open spec fn second_piece(s: Seq<char>, p: Seq<char>) -> Option<Seq<char>> {
    match find_sub(s, p) {
        Some(i) => Some(before_sub(s.skip((i + p.len()) as int), p)),
        None => None,
    }
}

/// The first piece of `s.split(c)`.
pub open spec fn before_char(s: Seq<char>, c: char) -> Seq<char> {
    s.take(find_char(s, c) as int)
}

/// What follows the first `c` in `s`, when there is one.
pub open spec fn after_char(s: Seq<char>, c: char) -> Option<Seq<char>> {
    if find_char(s, c) < s.len() {
        Some(s.skip(find_char(s, c) + 1int))
    } else {
        None
    }
}

/// `s` with every `from` replaced by `to`.
pub open spec fn replace_char(s: Seq<char>, from: char, to: char) -> Seq<char> {
    s.map_values(|x: char| if x == from { to } else { x })
}

/// The ASCII lower-case form of `c` (what `char::to_ascii_lowercase` returns).
pub open spec fn ascii_lower(c: char) -> char {
    if 'A' <= c && c <= 'Z' {
        ((c as u32) + 32) as char
    } else {
        c
    }
}

/// `s` with every ASCII upper-case letter lowered (what `str::to_ascii_lowercase` returns).
pub open spec fn ascii_lowercase(s: Seq<char>) -> Seq<char> {
    s.map_values(|x: char| ascii_lower(x))
}

/// The first word of `s.split_whitespace()`, when there is one.
pub open spec fn first_word(s: Seq<char>) -> Option<Seq<char>> {
    let rest = s.skip(leading_whitespace(s) as int);
    if rest.len() == 0 {
        None
    } else {
        Some(rest.take(word_length(rest) as int))
    }
}

/// Number of non-whitespace characters at the start of `s`.
pub open spec fn word_length(s: Seq<char>) -> nat
    decreases s.len(),
{
    if s.len() > 0 && !is_whitespace(s[0]) {
        1 + word_length(s.drop_first())
    } else {
        0
    }
}

// ---------------------------------------------------------------------------
// Lemmas
// ---------------------------------------------------------------------------

/// Unfolding `leading_whitespace` at an offset.
pub proof fn lemma_leading_step(s: Seq<char>, i: int)
    requires
        0 <= i < s.len(),
    ensures
        leading_whitespace(s.skip(i)) == if is_whitespace(s[i]) {
            1 + leading_whitespace(s.skip(i + 1))
        } else {
            0
        },
{
    assert(s.skip(i).drop_first() =~= s.skip(i + 1));
}

/// Unfolding `word_length` at an offset.
pub proof fn lemma_word_step(s: Seq<char>, i: int)
    requires
        0 <= i < s.len(),
    ensures
        word_length(s.skip(i)) == if !is_whitespace(s[i]) {
            1 + word_length(s.skip(i + 1))
        } else {
            0
        },
{
    assert(s.skip(i).drop_first() =~= s.skip(i + 1));
}

/// Unfolding `find_char` at an offset.
pub proof fn lemma_find_step(s: Seq<char>, c: char, i: int)
    requires
        0 <= i < s.len(),
    ensures
        find_char(s.skip(i), c) == if s[i] == c {
            0
        } else {
            1 + find_char(s.skip(i + 1), c)
        },
{
    assert(s.skip(i).drop_first() =~= s.skip(i + 1));
}

/// Unfolding `trailing_whitespace` on a prefix.
pub proof fn lemma_trailing_step(s: Seq<char>, j: int)
    requires
        0 < j <= s.len(),
    ensures
        trailing_whitespace(s.take(j)) == if is_whitespace(s[j - 1]) {
            1 + trailing_whitespace(s.take(j - 1))
        } else {
            0
        },
{
    assert(s.take(j).drop_last() =~= s.take(j - 1));
}

/// Unfolding `after_last` on a prefix.
pub proof fn lemma_after_last_step(s: Seq<char>, c: char, j: int)
    requires
        0 < j <= s.len(),
    ensures
        after_last(s.take(j), c) == if s[j - 1] == c {
            j as nat
        } else {
            after_last(s.take(j - 1), c)
        },
{
    assert(s.take(j).drop_last() =~= s.take(j - 1));
}

/// `find_char` never exceeds the length and finds the first occurrence.
pub proof fn lemma_find_bound(s: Seq<char>, c: char)
    ensures
        find_char(s, c) <= s.len(),
        find_char(s, c) < s.len() ==> s[find_char(s, c) as int] == c,
        forall|k: int| 0 <= k < find_char(s, c) ==> #[trigger] s[k] != c,
    decreases s.len(),
{
    if s.len() > 0 && s[0] != c {
        lemma_find_bound(s.drop_first(), c);
        assert forall|k: int| 0 <= k < find_char(s, c) implies #[trigger] s[k] != c by {
            if k > 0 {
                assert(s[k] == s.drop_first()[k - 1]);
            }
        }
    }
}

/// `after_last` never exceeds the length and marks the last occurrence.
pub proof fn lemma_after_last_bound(s: Seq<char>, c: char)
    ensures
        after_last(s, c) <= s.len(),
        after_last(s, c) > 0 ==> s[after_last(s, c) - 1] == c,
        forall|k: int| after_last(s, c) <= k < s.len() ==> #[trigger] s[k] != c,
    decreases s.len(),
{
    if s.len() > 0 && s.last() != c {
        lemma_after_last_bound(s.drop_last(), c);
        assert forall|k: int| after_last(s, c) <= k < s.len() implies #[trigger] s[k] != c by {
            if k < s.len() - 1 {
                assert(s[k] == s.drop_last()[k]);
            }
        }
    }
}

/// `find_sub` finds an occurrence within bounds.
pub proof fn lemma_find_sub_bound(s: Seq<char>, p: Seq<char>)
    ensures
        find_sub(s, p) matches Some(i) ==> i + p.len() <= s.len() && s.subrange(
            i as int,
            (i + p.len()) as int,
        ) == p,
    decreases s.len(),
{
    if s.len() < p.len() {
    } else if has_prefix(s, p) {
        assert(s.subrange(0, p.len() as int) =~= s.take(p.len() as int));
    } else if s.len() == 0 {
    } else {
        lemma_find_sub_bound(s.drop_first(), p);
        if let Some(i) = find_sub(s.drop_first(), p) {
            assert(s.subrange(i + 1int, i + 1int + p.len()) =~= s.drop_first().subrange(
                i as int,
                i + p.len() as int,
            ));
        }
    }
}

/// Text that neither starts nor ends with whitespace is its own trim.
pub proof fn lemma_trim_identity(s: Seq<char>)
    requires
        s.len() > 0,
        !is_whitespace(s[0]),
        !is_whitespace(s.last()),
    ensures
        trim(s) == s,
{
    assert(s.skip(0) =~= s);
    assert(s.take(s.len() as int) =~= s);
}

/// Trailing whitespace after text that ends in a non-whitespace character lies
/// within what follows it.
pub proof fn lemma_trailing_within(a: Seq<char>, b: Seq<char>)
    requires
        a.len() > 0,
        !is_whitespace(a.last()),
    ensures
        trailing_whitespace(a + b) <= b.len(),
    decreases b.len(),
{
    if b.len() == 0 {
        assert(a + b =~= a);
    } else {
        assert((a + b).drop_last() =~= a + b.drop_last());
        lemma_trailing_within(a, b.drop_last());
    }
}

/// `after_last` finds the last occurrence: at `k` when `c` comes just before
/// `k` (or `k` is 0) and not at `k` or after.
pub proof fn lemma_after_last_at(s: Seq<char>, c: char, k: int)
    requires
        0 <= k <= s.len(),
        k > 0 ==> s[k - 1] == c,
        forall|j: int| k <= j < s.len() ==> s[j] != c,
    ensures
        after_last(s, c) == k,
    decreases s.len(),
{
    if s.len() > k {
        assert forall|j: int| k <= j < s.drop_last().len() implies s.drop_last()[j] != c by {
            assert(s.drop_last()[j] == s[j]);
        }
        lemma_after_last_at(s.drop_last(), c, k);
    }
}

/// `find_char` stops at the first occurrence.
pub proof fn lemma_find_char_at(s: Seq<char>, c: char, i: int)
    requires
        0 <= i < s.len(),
        s[i] == c,
        forall|k: int| 0 <= k < i ==> s[k] != c,
    ensures
        find_char(s, c) == i,
    decreases i,
{
    if i > 0 {
        assert forall|k: int| 0 <= k < i - 1 implies s.drop_first()[k] != c by {
            assert(s.drop_first()[k] == s[k + 1]);
        }
        lemma_find_char_at(s.drop_first(), c, i - 1);
    }
}

/// Splitting `a + [c] + b` at its first `c`, where `a` holds no `c`.
pub proof fn lemma_split_at_char(a: Seq<char>, c: char, b: Seq<char>)
    requires
        !a.contains(c),
    ensures
        before_char(a + seq![c] + b, c) == a,
        after_char(a + seq![c] + b, c) == Some(b),
{
    let s = a + seq![c] + b;
    assert forall|k: int| 0 <= k < a.len() implies s[k] != c by {
        assert(s[k] == a[k]);
    }
    lemma_find_char_at(s, c, a.len() as int);
    assert(s.take(a.len() as int) =~= a);
    assert(s.skip(a.len() + 1int) =~= b);
}

// ---------------------------------------------------------------------------
// Executable operations
// ---------------------------------------------------------------------------

/// Appends one character to a `String` (`String::push`).
#[verifier::external_body]
pub(crate) fn push_char(s: &mut String, c: char)
    ensures
        final(s)@ == old(s)@.push(c),
{
    s.push(c);
}

/// The characters of `s`.
pub fn chars_of(s: &str) -> (v: Vec<char>)
    ensures
        v@ == s@,
{
    let mut v: Vec<char> = Vec::new();
    for c in it: s.chars()
        invariant
            v@ == it.seq().take(it.index() as int),
    {
        v.push(c);
    }
    v
}

/// A `String` holding the characters of `s`.
pub fn string_of(s: &[char]) -> (r: String)
    ensures
        r@ == s@,
{
    let mut r = String::new();
    let mut i: usize = 0;
    while i < s.len()
        invariant
            i <= s.len(),
            r@ == s@.take(i as int),
        decreases s.len() - i,
    {
        push_char(&mut r, s[i]);
        assert(s@.take(i + 1) =~= s@.take(i as int).push(s@[i as int]));
        i = i + 1;
    }
    assert(s@.take(s@.len() as int) =~= s@);
    r
}

/// Appends the characters of `t` to `v`.
pub fn push_str(v: &mut Vec<char>, t: &str)
    ensures
        final(v)@ == old(v)@ + t@,
{
    let ghost start = v@;
    for c in it: t.chars()
        invariant
            v@ == start + it.seq().take(it.index() as int),
    {
        v.push(c);
    }
}

/// Appends the characters of `t` to `v`.
pub fn push_chars(v: &mut Vec<char>, t: &[char])
    ensures
        final(v)@ == old(v)@ + t@,
{
    let ghost start = v@;
    let mut i: usize = 0;
    while i < t.len()
        invariant
            i <= t.len(),
            v@ == start + t@.take(i as int),
        decreases t.len() - i,
    {
        v.push(t[i]);
        assert(t@.take(i + 1) =~= t@.take(i as int).push(t@[i as int]));
        i = i + 1;
    }
    assert(t@.take(t@.len() as int) =~= t@);
}

/// The characters of `s` from `start` (inclusive) to `end` (exclusive).
pub fn slice_chars(s: &[char], start: usize, end: usize) -> (r: Vec<char>)
    requires
        start <= end <= s.len(),
    ensures
        r@ == s@.subrange(start as int, end as int),
{
    let mut r: Vec<char> = Vec::new();
    let mut i = start;
    while i < end
        invariant
            start <= i <= end <= s.len(),
            r@ == s@.subrange(start as int, i as int),
        decreases end - i,
    {
        r.push(s[i]);
        assert(s@.subrange(start as int, i + 1) =~= s@.subrange(start as int, i as int).push(
            s@[i as int],
        ));
        i = i + 1;
    }
    r
}

/// Whether the characters of `a` and `b` are the same.
pub fn same_chars(a: &[char], b: &str) -> (r: bool)
    ensures
        r == (a@ == b@),
{
    let n = b.unicode_len();
    if a.len() != n {
        return false;
    }
    let mut i: usize = 0;
    while i < n
        invariant
            n == a@.len() == b@.len(),
            i <= n,
            forall|k: int| 0 <= k < i ==> a@[k] == b@[k],
        decreases n - i,
    {
        if a[i] != b.get_char(i) {
            return false;
        }
        i = i + 1;
    }
    assert(a@ =~= b@);
    true
}

/// Whether `c` is whitespace (`char::is_whitespace`).
pub fn whitespace(c: char) -> (r: bool)
    ensures
        r == is_whitespace(c),
{
    ('\t' <= c && c <= '\r') || c == ' ' || c == '\u{85}' || c == '\u{a0}' || c == '\u{1680}' || (
    '\u{2000}' <= c && c <= '\u{200a}') || c == '\u{2028}' || c == '\u{2029}' || c == '\u{202f}'
        || c == '\u{205f}' || c == '\u{3000}'
}

/// `s` without leading and trailing whitespace (`str::trim`).
pub fn trimmed(s: &[char]) -> (r: Vec<char>)
    ensures
        r@ == trim(s@),
{
    let n = s.len();
    let mut i: usize = 0;
    while i < n && whitespace(s[i])
        invariant
            i <= n == s@.len(),
            leading_whitespace(s@) == i + leading_whitespace(s@.skip(i as int)),
        decreases n - i,
    {
        proof {
            lemma_leading_step(s@, i as int);
        }
        i = i + 1;
    }
    proof {
        if i < n {
            lemma_leading_step(s@, i as int);
        }
    }
    let ghost t = s@.skip(i as int);
    let mut j: usize = n;
    while j > i && whitespace(s[j - 1])
        invariant
            i <= j <= n == s@.len(),
            t == s@.skip(i as int),
            trailing_whitespace(t) == (n - j) + trailing_whitespace(t.take(j - i)),
        decreases j,
    {
        proof {
            lemma_trailing_step(t, (j - i) as int);
        }
        j = j - 1;
    }
    proof {
        if j > i {
            lemma_trailing_step(t, (j - i) as int);
        }
        assert(t.take(t.len() - trailing_whitespace(t)) =~= s@.subrange(i as int, j as int));
    }
    slice_chars(s, i, j)
}

/// Index of the first `c` in `s` at or after `from`, or the length of `s`.
pub fn find_from(s: &[char], from: usize, c: char) -> (r: usize)
    requires
        from <= s.len(),
    ensures
        r == from + find_char(s@.skip(from as int), c),
        r <= s.len(),
{
    let mut i = from;
    while i < s.len() && s[i] != c
        invariant
            from <= i <= s.len(),
            find_char(s@.skip(from as int), c) == (i - from) + find_char(s@.skip(i as int), c),
        decreases s.len() - i,
    {
        proof {
            lemma_find_step(s@, c, i as int);
        }
        i = i + 1;
    }
    proof {
        if i < s.len() {
            lemma_find_step(s@, c, i as int);
        }
    }
    i
}

/// Index just past the last `c` among the first `end` characters of `s`, or 0.
pub fn after_last_before(s: &[char], end: usize, c: char) -> (r: usize)
    requires
        end <= s.len(),
    ensures
        r == after_last(s@.take(end as int), c),
{
    let mut j = end;
    while j > 0 && s[j - 1] != c
        invariant
            j <= end <= s.len(),
            after_last(s@.take(end as int), c) == after_last(s@.take(j as int), c),
        decreases j,
    {
        proof {
            lemma_after_last_step(s@, c, j as int);
        }
        j = j - 1;
    }
    proof {
        if j > 0 {
            lemma_after_last_step(s@, c, j as int);
        }
    }
    j
}

/// Whether `p` occurs in `s` at position `at`.
pub fn occurs_at(s: &[char], at: usize, p: &str) -> (r: bool)
    requires
        at <= s.len(),
    ensures
        r == has_prefix(s@.skip(at as int), p@),
{
    let n = p.unicode_len();
    if n > s.len() - at {
        return false;
    }
    let mut k: usize = 0;
    while k < n
        invariant
            n == p@.len(),
            at + n <= s.len(),
            k <= n,
            forall|m: int| 0 <= m < k ==> s@[at + m] == p@[m],
        decreases n - k,
    {
        if s[at + k] != p.get_char(k) {
            assert(s@.skip(at as int).take(n as int)[k as int] != p@[k as int]);
            return false;
        }
        k = k + 1;
    }
    assert(s@.skip(at as int).take(n as int) =~= p@);
    true
}

/// Unfolding `find_sub` at an offset.
pub proof fn lemma_find_sub_step(s: Seq<char>, p: Seq<char>, i: int)
    requires
        0 <= i <= s.len(),
        p.len() > 0,
    ensures
        find_sub(s.skip(i), p) == if s.len() - i < p.len() {
            None
        } else if has_prefix(s.skip(i), p) {
            Some(0nat)
        } else {
            match find_sub(s.skip(i + 1), p) {
                Some(k) => Some(k + 1),
                None => None,
            }
        },
{
    if i < s.len() {
        assert(s.skip(i).drop_first() =~= s.skip(i + 1));
    }
}

/// Index of the first occurrence of `p` in `s` at or after `from`.
pub fn find_sub_from(s: &[char], from: usize, p: &str) -> (r: Option<usize>)
    requires
        from <= s.len(),
        p@.len() > 0,
    ensures
        r == (match find_sub(s@.skip(from as int), p@) {
            Some(k) => Some((from + k) as usize),
            None => None::<usize>,
        }),
{
    let mut i = from;
    while i < s.len()
        invariant
            from <= i <= s.len(),
            p@.len() > 0,
            find_sub(s@.skip(from as int), p@) == (match find_sub(s@.skip(i as int), p@) {
                Some(k) => Some((k + (i - from)) as nat),
                None => None::<nat>,
            }),
        decreases s.len() - i,
    {
        proof {
            lemma_find_sub_step(s@, p@, i as int);
        }
        if occurs_at(s, i, p) {
            return Some(i);
        }
        i = i + 1;
    }
    proof {
        lemma_find_sub_step(s@, p@, i as int);
    }
    None
}

/// The ASCII lower-case form of `c`.
pub fn lower_char(c: char) -> (r: char)
    ensures
        r == ascii_lower(c),
{
    if 'A' <= c && c <= 'Z' {
        ((c as u8) + 32) as char
    } else {
        c
    }
}

/// `s` with its ASCII upper-case letters lowered (`str::to_ascii_lowercase`).
pub fn lowercased(s: &[char]) -> (r: Vec<char>)
    ensures
        r@ == ascii_lowercase(s@),
{
    let mut r: Vec<char> = Vec::new();
    let mut i: usize = 0;
    while i < s.len()
        invariant
            i <= s.len(),
            r@ == ascii_lowercase(s@.take(i as int)),
        decreases s.len() - i,
    {
        r.push(lower_char(s[i]));
        assert(ascii_lowercase(s@.take(i + 1)) =~= ascii_lowercase(s@.take(i as int)).push(
            ascii_lower(s@[i as int]),
        ));
        i = i + 1;
    }
    assert(s@.take(s@.len() as int) =~= s@);
    r
}

/// `s` with every `from` replaced by `to` (`str::replace` with one character).
pub fn replaced(s: &[char], from: char, to: char) -> (r: Vec<char>)
    ensures
        r@ == replace_char(s@, from, to),
{
    let mut r: Vec<char> = Vec::new();
    let mut i: usize = 0;
    while i < s.len()
        invariant
            i <= s.len(),
            r@ == replace_char(s@.take(i as int), from, to),
        decreases s.len() - i,
    {
        let c = if s[i] == from {
            to
        } else {
            s[i]
        };
        r.push(c);
        assert(replace_char(s@.take(i + 1), from, to) =~= replace_char(
            s@.take(i as int),
            from,
            to,
        ).push(c));
        i = i + 1;
    }
    assert(s@.take(s@.len() as int) =~= s@);
    r
}

} // verus!
