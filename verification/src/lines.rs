//! Cutting a byte stream that arrives in pieces into lines: a carriage return
//! or a line feed ends a line, and empty lines are dropped.
use vstd::prelude::*;

verus! {

broadcast use vstd::seq_lib::group_seq_properties;

/// Whether `b` ends a line (carriage return or line feed).
pub open spec fn is_break(b: u8) -> bool {
    b == 13 || b == 10
}

/// The unfinished last line of `s`: the bytes after its last line break.
pub open spec fn pending(s: Seq<u8>) -> Seq<u8>
    decreases s.len(),
{
    if s.len() == 0 {
        Seq::empty()
    } else if is_break(s.last()) {
        Seq::empty()
    } else {
        pending(s.drop_last()).push(s.last())
    }
}

/// The non-empty lines of `s` that a line break has ended, in order.
pub open spec fn complete_lines(s: Seq<u8>) -> Seq<Seq<u8>>
    decreases s.len(),
{
    if s.len() == 0 {
        Seq::empty()
    } else if is_break(s.last()) {
        if pending(s.drop_last()).len() > 0 {
            complete_lines(s.drop_last()).push(pending(s.drop_last()))
        } else {
            complete_lines(s.drop_last())
        }
    } else {
        complete_lines(s.drop_last())
    }
}

/// The contents of byte buffers.
pub open spec fn views(v: Seq<Vec<u8>>) -> Seq<Seq<u8>> {
    v.map_values(|l: Vec<u8>| l@)
}

/// Whether `s` holds no line break.
pub open spec fn unbroken(s: Seq<u8>) -> bool {
    forall|i: int| 0 <= i < s.len() ==> !is_break(#[trigger] s[i])
}

/// Text without line breaks is all pending and ends no line.
pub proof fn lemma_unbroken(s: Seq<u8>)
    requires
        unbroken(s),
    ensures
        pending(s) == s,
        complete_lines(s) == Seq::<Seq<u8>>::empty(),
    decreases s.len(),
{
    if s.len() > 0 {
        assert(unbroken(s.drop_last())) by {
            assert forall|i: int| 0 <= i < s.drop_last().len() implies !is_break(
                #[trigger] s.drop_last()[i],
            ) by {
                assert(s.drop_last()[i] == s[i]);
            }
        }
        lemma_unbroken(s.drop_last());
        assert(!is_break(s[s.len() - 1]));
        assert(s.drop_last().push(s.last()) =~= s);
    }
}

/// The unfinished line holds no line break.
pub proof fn lemma_pending_unbroken(s: Seq<u8>)
    ensures
        unbroken(pending(s)),
    decreases s.len(),
{
    if s.len() > 0 && !is_break(s.last()) {
        lemma_pending_unbroken(s.drop_last());
        let p = pending(s.drop_last());
        assert forall|i: int| 0 <= i < p.push(s.last()).len() implies !is_break(
            #[trigger] p.push(s.last())[i],
        ) by {
            if i < p.len() {
                assert(p.push(s.last())[i] == p[i]);
            }
        }
    }
}

/// Lines do not depend on how the stream was cut into pieces: the lines ended
/// in `a`, then those ended when `b` follows what `a` left unfinished, are the
/// lines ended in `a + b`; and both leave the same line unfinished.
pub proof fn law_lines_independent_of_pieces(a: Seq<u8>, b: Seq<u8>)
    ensures
        complete_lines(a) + complete_lines(pending(a) + b) == complete_lines(a + b),
        pending(pending(a) + b) == pending(a + b),
    decreases b.len(),
{
    if b.len() == 0 {
        lemma_pending_unbroken(a);
        lemma_unbroken(pending(a));
        assert(pending(a) + b =~= pending(a));
        assert(a + b =~= a);
        assert(complete_lines(a) + Seq::<Seq<u8>>::empty() =~= complete_lines(a));
    } else {
        let b0 = b.drop_last();
        let x = b.last();
        law_lines_independent_of_pieces(a, b0);
        assert((a + b).drop_last() =~= a + b0);
        assert((pending(a) + b).drop_last() =~= pending(a) + b0);
        assert((a + b).last() == x);
        assert((pending(a) + b).last() == x);
        if is_break(x) {
            if pending(a + b0).len() > 0 {
                assert(complete_lines(a) + complete_lines(pending(a) + b0).push(pending(a + b0))
                    =~= (complete_lines(a) + complete_lines(pending(a) + b0)).push(
                    pending(a + b0),
                ));
            }
        }
    }
}

/// The bytes of all `pieces`, one after the other.
pub open spec fn joined(pieces: Seq<Seq<u8>>) -> Seq<u8>
    decreases pieces.len(),
{
    if pieces.len() == 0 {
        Seq::empty()
    } else {
        joined(pieces.drop_last()) + pieces.last()
    }
}

/// Every non-empty line of the stream `s`: the ended ones, then the unfinished
/// last one when it is not empty.
pub open spec fn all_lines(s: Seq<u8>) -> Seq<Seq<u8>> {
    if pending(s).len() > 0 {
        complete_lines(s).push(pending(s))
    } else {
        complete_lines(s)
    }
}

/// The lines sent on from a stream read in `pieces`: every non-empty line of
/// the whole stream, in order, however it was cut into pieces.
pub fn forward_events(pieces: &Vec<Vec<u8>>) -> (lines: Vec<Vec<u8>>)
    ensures
        views(lines@) == all_lines(joined(views(pieces@))),
{
    let mut splitter = LineSplitter::new();
    let mut lines: Vec<Vec<u8>> = Vec::new();
    let mut i: usize = 0;
    assert(views(pieces@).take(0) =~= Seq::<Seq<u8>>::empty());
    assert(views(lines@) =~= Seq::<Seq<u8>>::empty());
    assert(pending(Seq::<u8>::empty()) =~= Seq::<u8>::empty());
    while i < pieces.len()
        invariant
            i <= pieces.len(),
            views(lines@) == complete_lines(joined(views(pieces@).take(i as int))),
            splitter@ == pending(joined(views(pieces@).take(i as int))),
        decreases pieces.len() - i,
    {
        let ghost before = joined(views(pieces@).take(i as int));
        let ghost old_lines = lines@;
        let mut ended = splitter.feed(pieces[i].as_slice());
        proof {
            law_lines_independent_of_pieces(before, pieces@[i as int]@);
            assert(views(pieces@).take(i + 1).drop_last() =~= views(pieces@).take(i as int));
            assert(views(pieces@).take(i + 1).last() == pieces@[i as int]@);
        }
        let ghost added = ended@;
        lines.append(&mut ended);
        assert(views(lines@) =~= views(old_lines) + views(added));
        i = i + 1;
    }
    assert(views(pieces@).take(pieces.len() as int) =~= views(pieces@));
    let ghost stream = joined(views(pieces@));
    let ghost before_last = lines@;
    if let Some(last) = splitter.finish() {
        lines.push(last);
        assert(views(lines@) =~= views(before_last).push(pending(stream)));
    }
    lines
}

/// Cuts arriving bytes into lines, keeping the unfinished last line between pieces.
pub struct LineSplitter {
    current: Vec<u8>,
}

impl View for LineSplitter {
    type V = Seq<u8>;

    /// The bytes of the unfinished line.
    closed spec fn view(&self) -> Seq<u8> {
        self.current@
    }
}

impl LineSplitter {
    #[verifier::type_invariant]
    spec fn holds_no_break(self) -> bool {
        unbroken(self.current@)
    }

    /// A splitter that has seen nothing.
    pub fn new() -> (r: LineSplitter)
        ensures
            r@.len() == 0,
    {
        LineSplitter { current: Vec::new() }
    }

    /// Takes in the next piece of the stream and returns the lines it ends.
    pub fn feed(&mut self, chunk: &[u8]) -> (lines: Vec<Vec<u8>>)
        ensures
            views(lines@) == complete_lines(old(self)@ + chunk@),
            final(self)@ == pending(old(self)@ + chunk@),
    {
        proof {
            use_type_invariant(&*self);
        }
        let mut cur: Vec<u8> = Vec::new();
        std::mem::swap(&mut cur, &mut self.current);
        let ghost start = cur@;
        proof {
            lemma_unbroken(start);
        }
        assert(start + chunk@.take(0) =~= start);
        let mut lines: Vec<Vec<u8>> = Vec::new();
        assert(views(lines@) =~= Seq::<Seq<u8>>::empty());
        let mut i: usize = 0;
        while i < chunk.len()
            invariant
                i <= chunk.len(),
                views(lines@) == complete_lines(start + chunk@.take(i as int)),
                cur@ == pending(start + chunk@.take(i as int)),
            decreases chunk.len() - i,
        {
            let byte = chunk[i];
            let ghost s = start + chunk@.take(i as int);
            assert((start + chunk@.take(i + 1)).drop_last() =~= s);
            assert((start + chunk@.take(i + 1)).last() == byte);
            if byte == 13 || byte == 10 {
                if cur.len() > 0 {
                    let mut line: Vec<u8> = Vec::new();
                    std::mem::swap(&mut line, &mut cur);
                    let ghost before = lines@;
                    lines.push(line);
                    assert(views(lines@) =~= views(before).push(pending(s)));
                } else {
                    cur = Vec::new();
                }
                assert(cur@ =~= Seq::<u8>::empty());
            } else {
                cur.push(byte);
            }
            i = i + 1;
        }
        assert(chunk@.take(chunk.len() as int) =~= chunk@);
        proof {
            lemma_pending_unbroken(start + chunk@);
        }
        self.current = cur;
        lines
    }

    /// The end of the stream: the unfinished line, when it is not empty.
    pub fn finish(self) -> (r: Option<Vec<u8>>)
        ensures
            match r {
                Some(line) => line@ == self@ && self@.len() > 0 && unbroken(line@),
                None => self@.len() == 0,
            },
    {
        proof {
            use_type_invariant(&self);
        }
        let LineSplitter { current } = self;
        if current.len() > 0 {
            Some(current)
        } else {
            None
        }
    }
}

} // verus!
