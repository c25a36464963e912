//! Talking to FFmpeg: the arguments of a conversion, and the pieces of its
//! progress output that tell the length of a video and how far it has come.
use crate::numbers::{decimal, push_decimal};
use crate::text::{
    after_char, before_char, before_sub, chars_of, find_from, find_sub, find_sub_from,
    first_word, lemma_find_sub_bound, lemma_leading_step,
    lemma_word_step, leading_whitespace, second_piece, slice_chars, string_of, trim, trimmed,
    whitespace, word_length,
};
use vstd::prelude::*;

verus! {

broadcast use vstd::seq_lib::group_seq_properties;

/// The arguments of an FFmpeg run that converts `source` into an H.264 MP4 at
/// `destination`, overwriting it, keeping the metadata and reporting progress
/// every second.
pub open spec fn conversion_args(
    source: Seq<char>,
    destination: Seq<char>,
    bitrate: Seq<char>,
    crf: nat,
    preset: Seq<char>,
) -> Seq<Seq<char>> {
    seq![
        "-y"@,
        "-hide_banner"@,
        "-loglevel"@,
        "info"@,
        "-stats_period"@,
        "1"@,
        "-i"@,
        source,
        "-c:v"@,
        "libx264"@,
        "-b:v"@,
        bitrate,
        "-crf"@,
        decimal(crf),
        "-preset"@,
        preset,
        "-movflags"@,
        "+faststart"@,
        "-vf"@,
        "scale=iw:-1"@,
        "-map_metadata"@,
        "0"@,
        destination,
    ]
}

/// The length of the video as FFmpeg states it in a block of its output: the
/// text after the first `Duration:` up to the next comma, trimmed.
pub open spec fn duration_text(text: Seq<char>) -> Option<Seq<char>> {
    match second_piece(text, "Duration:"@) {
        Some(piece) => Some(trim(before_char(piece, ','))),
        None => None,
    }
}

/// The position FFmpeg reports in a block of its output: the first word after
/// the first `time=`.
pub open spec fn position_text(text: Seq<char>) -> Option<Seq<char>> {
    match second_piece(text, "time="@) {
        Some(piece) => first_word(piece),
        None => None,
    }
}

/// The hours, minutes and seconds of a timestamp `H:M:S`, as the first three
/// colon-separated pieces of the trimmed text; nothing when it has fewer.
pub open spec fn timestamp_parts(value: Seq<char>) -> Option<(Seq<char>, Seq<char>, Seq<char>)> {
    let t = trim(value);
    match after_char(t, ':') {
        Some(r1) => match after_char(r1, ':') {
            Some(r2) => Some((before_char(t, ':'), before_char(r1, ':'), before_char(r2, ':'))),
            None => None,
        },
        None => None,
    }
}

/// Each setting of a conversion reaches FFmpeg unchanged, right after its flag:
/// the source after `-i`, the bitrate cap after `-b:v`, the rate factor in
/// decimal after `-crf`, the speed after `-preset`; the destination comes last,
/// and the run overwrites it (`-y` first) with the H.264 encoder (`-c:v libx264`).
pub proof fn law_conversion_arguments(
    source: Seq<char>,
    destination: Seq<char>,
    bitrate: Seq<char>,
    crf: nat,
    preset: Seq<char>,
)
    ensures
        ({
            let a = conversion_args(source, destination, bitrate, crf, preset);
            &&& a.len() == 23
            &&& a[0] == "-y"@
            &&& a[6] == "-i"@
            &&& a[7] == source
            &&& a[8] == "-c:v"@
            &&& a[9] == "libx264"@
            &&& a[10] == "-b:v"@
            &&& a[11] == bitrate
            &&& a[12] == "-crf"@
            &&& a[13] == decimal(crf)
            &&& a[14] == "-preset"@
            &&& a[15] == preset
            &&& a[22] == destination
        }),
{
}

/// Appends one argument to a list of arguments.
fn push_arg(args: &mut Vec<String>, a: &str)
    ensures
        final(args).deep_view() == old(args).deep_view().push(a@),
{
    let ghost before = args.deep_view();
    args.push(string_of(&chars_of(a)));
    assert(args.deep_view() =~= before.push(a@));
}

/// The arguments of the FFmpeg run that converts `source` into `destination`.
pub fn conversion_arguments(
    source: &str,
    destination: &str,
    bitrate: &str,
    crf: u8,
    preset: &str,
) -> (r: Vec<String>)
    ensures
        r.deep_view() == conversion_args(source@, destination@, bitrate@, crf as nat, preset@),
        r.len() == 23,
        r@[7]@ == source@,
        r@[11]@ == bitrate@,
        r@[13]@ == decimal(crf as nat),
        r@[15]@ == preset@,
        r@[22]@ == destination@,
{
    let mut r: Vec<String> = Vec::new();
    push_arg(&mut r, "-y");
    push_arg(&mut r, "-hide_banner");
    push_arg(&mut r, "-loglevel");
    push_arg(&mut r, "info");
    push_arg(&mut r, "-stats_period");
    push_arg(&mut r, "1");
    push_arg(&mut r, "-i");
    push_arg(&mut r, source);
    push_arg(&mut r, "-c:v");
    push_arg(&mut r, "libx264");
    push_arg(&mut r, "-b:v");
    push_arg(&mut r, bitrate);
    push_arg(&mut r, "-crf");
    let mut digits: Vec<char> = Vec::new();
    push_decimal(&mut digits, crf as u64);
    assert(digits@ =~= decimal(crf as nat));
    let ghost before = r.deep_view();
    r.push(string_of(&digits));
    assert(r.deep_view() =~= before.push(decimal(crf as nat)));
    push_arg(&mut r, "-preset");
    push_arg(&mut r, preset);
    push_arg(&mut r, "-movflags");
    push_arg(&mut r, "+faststart");
    push_arg(&mut r, "-vf");
    push_arg(&mut r, "scale=iw:-1");
    push_arg(&mut r, "-map_metadata");
    push_arg(&mut r, "0");
    push_arg(&mut r, destination);
    assert(r.deep_view() =~= conversion_args(
        source@,
        destination@,
        bitrate@,
        crf as nat,
        preset@,
    ));
    proof {
        law_conversion_arguments(source@, destination@, bitrate@, crf as nat, preset@);
    }
    r
}

/// What lies between the first and the second occurrence of `p` in `s`.
fn second_piece_of(s: &[char], p: &str) -> (r: Option<Vec<char>>)
    requires
        p@.len() > 0,
    ensures
        match r {
            Some(v) => second_piece(s@, p@) == Some(v@),
            None => second_piece(s@, p@) is None,
        },
{
    assert(s@.skip(0) =~= s@);
    assert(find_sub(s@.skip(0), p@) == find_sub(s@, p@));
    proof {
        lemma_find_sub_bound(s@, p@);
    }
    match find_sub_from(s, 0, p) {
        None => None,
        Some(i) => {
            assert(find_sub(s@, p@) is Some);
            let ghost k = find_sub(s@, p@).unwrap();
            assert(k + p@.len() <= s@.len());
            assert(i == k);
            let n = p.unicode_len();
            let start = i + n;
            let ghost t = s@.skip(start as int);
            proof {
                lemma_find_sub_bound(t, p@);
            }
            let end = match find_sub_from(s, start, p) {
                Some(j) => j,
                None => s.len(),
            };
            let v = slice_chars(s, start, end);
            assert(v@ =~= before_sub(t, p@));
            Some(v)
        },
    }
}

/// The first word of `s` (split at whitespace), when there is one.
fn first_word_of(s: &[char]) -> (r: Option<Vec<char>>)
    ensures
        match r {
            Some(v) => first_word(s@) == Some(v@),
            None => first_word(s@) is None,
        },
{
    let n = s.len();
    let mut i: usize = 0;
    while i < n && whitespace(s[i])
        invariant
            i <= n == s@.len(),
            leading_whitespace(s@) == i + leading_whitespace(s@.skip(i as int)),
        decreases n - i,
    {
        proof {
            lemma_leading_step(s@, i as int);
        }
        i = i + 1;
    }
    proof {
        if i < n {
            lemma_leading_step(s@, i as int);
        }
    }
    if i >= n {
        return None;
    }
    let ghost rest = s@.skip(i as int);
    let mut j = i;
    while j < n && !whitespace(s[j])
        invariant
            i <= j <= n == s@.len(),
            rest == s@.skip(i as int),
            word_length(rest) == (j - i) + word_length(s@.skip(j as int)),
        decreases n - j,
    {
        proof {
            lemma_word_step(s@, j as int);
        }
        j = j + 1;
    }
    proof {
        if j < n {
            lemma_word_step(s@, j as int);
        }
    }
    let v = slice_chars(s, i, j);
    assert(v@ =~= rest.take(word_length(rest) as int));
    Some(v)
}

/// The length of the video stated in a block of FFmpeg output, when it states one.
pub fn duration_of(text: &str) -> (r: Option<String>)
    ensures
        r.deep_view() == duration_text(text@),
{
    let s = chars_of(text);
    proof {
        reveal_strlit("Duration:");
    }
    match second_piece_of(&s, "Duration:") {
        None => None,
        Some(piece) => {
            let k = find_from(&piece, 0, ',');
            assert(piece@.skip(0) =~= piece@);
            let head = slice_chars(&piece, 0, k);
            assert(head@ =~= before_char(piece@, ','));
            Some(string_of(&trimmed(&head)))
        },
    }
}

/// The position reported in a block of FFmpeg output, when it reports one.
pub fn position_of(text: &str) -> (r: Option<String>)
    ensures
        r.deep_view() == position_text(text@),
{
    let s = chars_of(text);
    proof {
        reveal_strlit("time=");
    }
    match second_piece_of(&s, "time=") {
        None => None,
        Some(piece) => match first_word_of(&piece) {
            Some(w) => Some(string_of(&w)),
            None => None,
        },
    }
}

/// The text before the first `c` in `s`, and what follows that `c`.
fn split_once(s: &[char], c: char) -> (r: (Vec<char>, Option<Vec<char>>))
    ensures
        r.0@ == before_char(s@, c),
        match r.1 {
            Some(v) => after_char(s@, c) == Some(v@),
            None => after_char(s@, c) is None,
        },
{
    let k = find_from(s, 0, c);
    assert(s@.skip(0) =~= s@);
    let head = slice_chars(s, 0, k);
    if k < s.len() {
        (head, Some(slice_chars(s, k + 1, s.len())))
    } else {
        (head, None)
    }
}

/// The hours, minutes and seconds pieces of a timestamp `H:M:S`.
pub fn timestamp_fields(value: &str) -> (r: Option<(String, String, String)>)
    ensures
        match r {
            Some((h, m, s)) => timestamp_parts(value@) == Some((h@, m@, s@)),
            None => timestamp_parts(value@) is None,
        },
{
    let chars = chars_of(value);
    let t = trimmed(&chars);
    let (h, r1) = split_once(&t, ':');
    match r1 {
        None => None,
        Some(r1) => {
            let (m, r2) = split_once(&r1, ':');
            match r2 {
                None => None,
                Some(r2) => {
                    let (s, _) = split_once(&r2, ':');
                    Some((string_of(&h), string_of(&m), string_of(&s)))
                },
            }
        },
    }
}

} // verus!
