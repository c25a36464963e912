//! The line protocol by which the command-line worker reports its progress to
//! the desktop front end: the lines the worker prints and how a received line is
//! understood.
use crate::numbers::{
    decimal, lemma_decimal_plain, lemma_parse_decimal, parse_unsigned, parse_usize, push_decimal,
};
use crate::text::{
    after_char, before_char, chars_of, find_char, find_from, is_whitespace,
    lemma_find_bound, lemma_split_at_char, lemma_trailing_within, lemma_trim_identity,
    trailing_whitespace, occurs_at, push_str, replace_char, replaced,
    slice_chars, string_of, strip_prefix, trim, trimmed,
};
use vstd::prelude::*;

verus! {

broadcast use vstd::seq_lib::group_seq_properties;

/// Prefix of the line that announces how many steps the work has.
pub open spec fn total_tag() -> Seq<char> {
    "@FOXY_TOTAL "@
}

/// Prefix of the line that reports how far a video conversion has come.
pub open spec fn video_tag() -> Seq<char> {
    "@FOXY_VIDEO "@
}

/// Prefix of the line that reports a finished step.
pub open spec fn progress_tag() -> Seq<char> {
    "@FOXY_PROGRESS "@
}

/// Prefix of the line that announces the start of an archive.
pub open spec fn stage_tag() -> Seq<char> {
    "@FOXY_STAGE "@
}

/// A received line, as the front end understands it.
pub enum Event {
    /// The number of steps of the work.
    Total(usize),
    /// A video progress report: the number as written, and the whole line.
    Video { value: String, line: String },
    /// A finished step: the counts when they read as numbers, and the status text.
    Progress { completed: Option<usize>, total: Option<usize>, status: String },
    /// The start of an archive, with what follows the tag.
    Stage(String),
    /// Any other non-blank line, trimmed.
    Line(String),
    /// A line of nothing but whitespace.
    Blank,
}

/// The model of an `Event`, with text as character sequences.
pub enum EventView {
    Total(usize),
    Video { value: Seq<char>, line: Seq<char> },
    Progress { completed: Option<usize>, total: Option<usize>, status: Seq<char> },
    Stage(Seq<char>),
    Line(Seq<char>),
    Blank,
}

impl View for Event {
    type V = EventView;

    open spec fn view(&self) -> EventView {
        match self {
            Event::Total(n) => EventView::Total(*n),
            Event::Video { value, line } => EventView::Video { value: value@, line: line@ },
            Event::Progress { completed, total, status } => EventView::Progress {
                completed: *completed,
                total: *total,
                status: status@,
            },
            Event::Stage(s) => EventView::Stage(s@),
            Event::Line(s) => EventView::Line(s@),
            Event::Blank => EventView::Blank,
        }
    }
}

/// A number read the way `str::parse::<usize>` reads it.
pub open spec fn read_usize(s: Seq<char>) -> Option<usize> {
    match parse_unsigned(s, usize::MAX as nat) {
        Some(v) => Some(v as usize),
        None => None,
    }
}

/// What a progress report says once its tag is stripped: the first two
/// space-separated pieces are the counts, the rest (with underscores shown as
/// spaces) is the status, `Processing` when there is no third piece.
pub open spec fn progress_event(rest: Seq<char>) -> EventView {
    let first = before_char(rest, ' ');
    let tail = after_char(rest, ' ');
    let second = match tail {
        Some(t) => Some(before_char(t, ' ')),
        None => None,
    };
    let third = match tail {
        Some(t) => after_char(t, ' '),
        None => None,
    };
    EventView::Progress {
        completed: read_usize(first),
        total: match second {
            Some(s) => read_usize(s),
            None => None,
        },
        status: replace_char(
            match third {
                Some(t) => t,
                None => "Processing"@,
            },
            '_',
            ' ',
        ),
    }
}

/// How a received line is understood. The line is trimmed; a total whose number
/// does not read falls through to the later tags, and so does every tag to a
/// plain line.
pub open spec fn classify_line(raw: Seq<char>) -> EventView {
    let e = trim(raw);
    if strip_prefix(e, total_tag()) is Some && read_usize(
        strip_prefix(e, total_tag()).unwrap(),
    ) is Some {
        EventView::Total(read_usize(strip_prefix(e, total_tag()).unwrap()).unwrap())
    } else if strip_prefix(e, video_tag()) is Some {
        EventView::Video { value: strip_prefix(e, video_tag()).unwrap(), line: e }
    } else if strip_prefix(e, progress_tag()) is Some {
        progress_event(strip_prefix(e, progress_tag()).unwrap())
    } else if strip_prefix(e, stage_tag()) is Some {
        EventView::Stage(strip_prefix(e, stage_tag()).unwrap())
    } else if e.len() > 0 {
        EventView::Line(e)
    } else {
        EventView::Blank
    }
}

/// The line announcing `steps` steps.
pub open spec fn total_text(steps: nat) -> Seq<char> {
    total_tag() + decimal(steps)
}

/// The line reporting that step `done` of `steps` finished, for a file of the
/// folder `folder` described by `label`.
pub open spec fn progress_text(done: nat, steps: nat, folder: Seq<char>, label: Seq<char>) -> Seq<
    char,
> {
    progress_tag() + decimal(done) + seq![' '] + decimal(steps) + seq![' '] + folder + seq![' ']
        + label
}

/// The line announcing that the archive of `folder` is being written.
pub open spec fn stage_text(folder: Seq<char>) -> Seq<char> {
    stage_tag() + folder + " 0"@
}

// ---------------------------------------------------------------------------
// What the worker prints, the front end reads back
// ---------------------------------------------------------------------------

/// The front end reads back the number of steps that the worker announces.
pub proof fn law_total_line_read_back(steps: usize)
    ensures
        classify_line(total_text(steps as nat)) == EventView::Total(steps),
{
    let line = total_text(steps as nat);
    let d = decimal(steps as nat);
    reveal_strlit("@FOXY_TOTAL ");
    lemma_decimal_plain(steps as nat);
    assert(line[0] == '@');
    assert(line.last() == d.last());
    lemma_trim_identity(line);
    assert(line.take(12) =~= total_tag());
    assert(line.skip(12) =~= d);
    lemma_parse_decimal(steps as nat, usize::MAX as nat);
}

/// The front end reads back the counts and the description of a finished step
/// that the worker reports, for a description that does not end in whitespace.
pub proof fn law_progress_line_read_back(
    done: usize,
    steps: usize,
    folder: Seq<char>,
    label: Seq<char>,
)
    requires
        label.len() > 0,
        !is_whitespace(label.last()),
    ensures
        classify_line(progress_text(done as nat, steps as nat, folder, label)) == (
        EventView::Progress {
            completed: Some(done),
            total: Some(steps),
            status: replace_char(folder + seq![' '] + label, '_', ' '),
        }),
{
    let line = progress_text(done as nat, steps as nat, folder, label);
    let dd = decimal(done as nat);
    let ds = decimal(steps as nat);
    let third = folder + seq![' '] + label;
    let rest = dd + seq![' '] + ds + seq![' '] + third;
    assert(trim(line) == line) by {
        reveal_strlit("@FOXY_PROGRESS ");
        assert(line[0] == '@');
        assert(line.last() == label.last());
        lemma_trim_identity(line);
    }
    assert(strip_prefix(line, total_tag()) is None) by {
        reveal_strlit("@FOXY_TOTAL ");
        reveal_strlit("@FOXY_PROGRESS ");
        assert(line[6] == 'P');
        assert(line.take(12)[6] != total_tag()[6]);
    }
    assert(strip_prefix(line, video_tag()) is None) by {
        reveal_strlit("@FOXY_VIDEO ");
        reveal_strlit("@FOXY_PROGRESS ");
        assert(line[6] == 'P');
        assert(line.take(12)[6] != video_tag()[6]);
    }
    assert(strip_prefix(line, progress_tag()) == Some(rest)) by {
        reveal_strlit("@FOXY_PROGRESS ");
        assert(line.take(15) =~= progress_tag());
        assert(line.skip(15) =~= rest);
    }
    lemma_progress_event(done, steps, third);
}

/// The front end reads back the counts of every finished step that the worker
/// reports, whatever the folder and the description.
pub proof fn law_progress_counts_read_back(
    done: usize,
    steps: usize,
    folder: Seq<char>,
    label: Seq<char>,
)
    ensures
        classify_line(progress_text(done as nat, steps as nat, folder, label)) matches (
        EventView::Progress { completed, total, .. }) && completed == Some(done) && total == Some(
            steps,
        ),
{
    let line = progress_text(done as nat, steps as nat, folder, label);
    let dd = decimal(done as nat);
    let ds = decimal(steps as nat);
    let head = progress_tag() + dd + seq![' '] + ds;
    let x = seq![' '] + folder + seq![' '] + label;
    assert(line =~= head + x);
    lemma_decimal_plain(done as nat);
    lemma_decimal_plain(steps as nat);
    assert(head.last() == ds.last());
    lemma_trailing_within(head, x);
    let k = (x.len() - trailing_whitespace(line)) as int;
    assert(trim(line) == head + x.take(k)) by {
        reveal_strlit("@FOXY_PROGRESS ");
        assert(!is_whitespace(line[0])) by {
            assert(line[0] == '@');
        }
        assert(line.skip(0) =~= line);
        assert(line.take(line.len() - trailing_whitespace(line)) =~= head + x.take(k));
    }
    let e = head + x.take(k);
    assert(strip_prefix(e, total_tag()) is None) by {
        reveal_strlit("@FOXY_TOTAL ");
        reveal_strlit("@FOXY_PROGRESS ");
        assert(e[6] == 'P');
        assert(e.take(12)[6] != total_tag()[6]);
    }
    assert(strip_prefix(e, video_tag()) is None) by {
        reveal_strlit("@FOXY_VIDEO ");
        reveal_strlit("@FOXY_PROGRESS ");
        assert(e[6] == 'P');
        assert(e.take(12)[6] != video_tag()[6]);
    }
    let tail = x.take(k);
    let rest = dd + seq![' '] + (ds + tail);
    assert(strip_prefix(e, progress_tag()) == Some(rest)) by {
        reveal_strlit("@FOXY_PROGRESS ");
        assert(e.take(15) =~= progress_tag());
        assert(e.skip(15) =~= rest);
    }
    lemma_split_at_char(dd, ' ', ds + tail);
    assert(before_char(ds + tail, ' ') == ds) by {
        if tail.len() == 0 {
            assert(ds + tail =~= ds);
            lemma_find_bound(ds, ' ');
            if find_char(ds, ' ') < ds.len() {
                assert(ds.contains(' '));
            }
            assert(ds.take(ds.len() as int) =~= ds);
        } else {
            assert(x[0] == ' ');
            assert(tail[0] == x[0]);
            assert(ds + tail =~= ds + seq![' '] + tail.drop_first());
            lemma_split_at_char(ds, ' ', tail.drop_first());
        }
    }
    lemma_parse_decimal(done as nat, usize::MAX as nat);
    lemma_parse_decimal(steps as nat, usize::MAX as nat);
}

/// The pieces of a progress report written by the worker.
proof fn lemma_progress_event(done: usize, steps: usize, third: Seq<char>)
    ensures
        progress_event(decimal(done as nat) + seq![' '] + decimal(steps as nat) + seq![' '] + third)
            == (EventView::Progress {
            completed: Some(done),
            total: Some(steps),
            status: replace_char(third, '_', ' '),
        }),
{
    let dd = decimal(done as nat);
    let ds = decimal(steps as nat);
    let after_first = ds + seq![' '] + third;
    let rest = dd + seq![' '] + ds + seq![' '] + third;
    lemma_decimal_plain(done as nat);
    lemma_decimal_plain(steps as nat);
    assert(rest =~= dd + seq![' '] + after_first);
    lemma_split_at_char(dd, ' ', after_first);
    lemma_split_at_char(ds, ' ', third);
    lemma_parse_decimal(done as nat, usize::MAX as nat);
    lemma_parse_decimal(steps as nat, usize::MAX as nat);
}

/// The front end reads back the archive stage that the worker announces.
pub proof fn law_stage_line_read_back(folder: Seq<char>)
    ensures
        classify_line(stage_text(folder)) == EventView::Stage(folder + " 0"@),
{
    let line = stage_text(folder);
    reveal_strlit("@FOXY_TOTAL ");
    reveal_strlit("@FOXY_VIDEO ");
    reveal_strlit("@FOXY_PROGRESS ");
    reveal_strlit("@FOXY_STAGE ");
    reveal_strlit(" 0");
    assert(line[0] == '@');
    assert(line.last() == '0');
    lemma_trim_identity(line);
    assert(line[6] == 'S');
    assert(line.take(12)[6] != total_tag()[6]);
    assert(line.take(12)[6] != video_tag()[6]);
    if line.len() >= 15 {
        assert(line.take(15)[6] != progress_tag()[6]);
    }
    assert(line.take(12) =~= stage_tag());
    assert(line.skip(12) =~= folder + " 0"@);
}

/// The text after `tag` in `e`, when `e` starts with it.
fn strip_tag(e: &[char], tag: &str) -> (r: Option<Vec<char>>)
    ensures
        match r {
            Some(v) => strip_prefix(e@, tag@) == Some(v@),
            None => strip_prefix(e@, tag@) is None,
        },
{
    if occurs_at(e, 0, tag) {
        assert(e@.skip(0) =~= e@);
        let n = tag.unicode_len();
        Some(slice_chars(e, n, e.len()))
    } else {
        assert(e@.skip(0) =~= e@);
        None
    }
}

/// Splits a progress report at its first two spaces.
#[verifier::spinoff_prover]
fn progress_of(rest: &[char]) -> (r: Event)
    ensures
        r@ == progress_event(rest@),
{
    let n = rest.len();
    let i = find_from(rest, 0, ' ');
    proof {
        lemma_find_bound(rest@, ' ');
    }
    assert(rest@.skip(0) =~= rest@);
    let first = slice_chars(rest, 0, i);
    assert(first@ =~= before_char(rest@, ' '));
    let completed = parse_usize(&first);
    if i >= n {
        assert(after_char(rest@, ' ') is None);
        let status = replaced(&chars_of("Processing"), '_', ' ');
        return Event::Progress { completed, total: None, status: string_of(&status) };
    }
    let tail = slice_chars(rest, i + 1, n);
    assert(after_char(rest@, ' ') == Some(tail@));
    let j = find_from(&tail, 0, ' ');
    proof {
        lemma_find_bound(tail@, ' ');
    }
    assert(tail@.skip(0) =~= tail@);
    let second = slice_chars(&tail, 0, j);
    assert(second@ =~= before_char(tail@, ' '));
    let total = parse_usize(&second);
    let third = if j < tail.len() {
        let t = slice_chars(&tail, j + 1, tail.len());
        assert(after_char(tail@, ' ') == Some(t@));
        t
    } else {
        assert(after_char(tail@, ' ') is None);
        chars_of("Processing")
    };
    let status = replaced(&third, '_', ' ');
    Event::Progress { completed, total, status: string_of(&status) }
}

/// How a received line is understood.
pub fn classify(raw: &str) -> (r: Event)
    ensures
        r@ == classify_line(raw@),
{
    let chars = chars_of(raw);
    let e = trimmed(&chars);
    if let Some(v) = strip_tag(&e, "@FOXY_TOTAL ") {
        if let Some(n) = parse_usize(&v) {
            return Event::Total(n);
        }
    }
    if let Some(v) = strip_tag(&e, "@FOXY_VIDEO ") {
        return Event::Video { value: string_of(&v), line: string_of(&e) };
    }
    if let Some(v) = strip_tag(&e, "@FOXY_PROGRESS ") {
        return progress_of(&v);
    }
    if let Some(v) = strip_tag(&e, "@FOXY_STAGE ") {
        return Event::Stage(string_of(&v));
    }
    if e.len() > 0 {
        Event::Line(string_of(&e))
    } else {
        Event::Blank
    }
}

/// The line announcing `steps` steps.
pub fn total_line(steps: usize) -> (r: String)
    ensures
        r@ == total_text(steps as nat),
{
    let mut v: Vec<char> = Vec::new();
    push_str(&mut v, "@FOXY_TOTAL ");
    push_decimal(&mut v, steps as u64);
    string_of(&v)
}

/// The line reporting that step `done` of `steps` finished.
pub fn progress_line(done: usize, steps: usize, folder: &str, label: &str) -> (r: String)
    ensures
        r@ == progress_text(done as nat, steps as nat, folder@, label@),
{
    let mut v: Vec<char> = Vec::new();
    push_str(&mut v, "@FOXY_PROGRESS ");
    push_decimal(&mut v, done as u64);
    v.push(' ');
    push_decimal(&mut v, steps as u64);
    v.push(' ');
    push_str(&mut v, folder);
    v.push(' ');
    push_str(&mut v, label);
    string_of(&v)
}

/// The line announcing that the archive of `folder` is being written.
pub fn stage_line(folder: &str) -> (r: String)
    ensures
        r@ == stage_text(folder@),
{
    let mut v: Vec<char> = Vec::new();
    push_str(&mut v, "@FOXY_STAGE ");
    push_str(&mut v, folder);
    push_str(&mut v, " 0");
    string_of(&v)
}

} // verus!
