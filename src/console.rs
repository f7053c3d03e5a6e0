//! Console: the text history and its completed lines, assembled from the
//! chunks that the device sends.
use vstd::prelude::*;

verus! {

/// The newline byte.
pub const NEWLINE: u8 = 10;

/// The completed lines of `s` and the unfinished text after the last
/// newline.
pub open spec fn split_lines(s: Seq<u8>) -> (Seq<Seq<u8>>, Seq<u8>)
    decreases s.len(),
{
    if s.len() == 0 {
        (Seq::empty(), Seq::empty())
    } else {
        let prev = split_lines(s.drop_last());
        if s.last() == 10 {
            (prev.0.push(prev.1), Seq::empty())
        } else {
            (prev.0, prev.1.push(s.last()))
        }
    }
}

/// The view of a list of lines.
pub open spec fn lines_view(v: Seq<Vec<u8>>) -> Seq<Seq<u8>> {
    v.map_values(|l: Vec<u8>| l@)
}

/// Everything the console printed, and its lines.
pub struct Console {
    history: Vec<u8>,
    lines: Vec<Vec<u8>>,
    pending: Vec<u8>,
}

impl Console {
    /// All text received so far.
    pub closed spec fn history_spec(&self) -> Seq<u8> {
        self.history@
    }

    /// The completed lines so far.
    pub closed spec fn lines_spec(&self) -> Seq<Seq<u8>> {
        lines_view(self.lines@)
    }

    /// Lines and unfinished text are those of the history.
    pub closed spec fn wf(&self) -> bool {
        (lines_view(self.lines@), self.pending@) == split_lines(self.history@)
    }

    /// No text yet.
    pub fn new() -> (r: Console)
        ensures
            r.wf(),
            r.history_spec().len() == 0,
            r.lines_spec().len() == 0,
    {
        let r = Console { history: Vec::new(), lines: Vec::new(), pending: Vec::new() };
        assert(lines_view(r.lines@) =~= Seq::<Seq<u8>>::empty());
        r
    }

    /// Takes a chunk of text: it is added to the history, and the lines that
    /// it completes are returned, in order.
    pub fn push_chunk(&mut self, chunk: &[u8]) -> (r: Vec<Vec<u8>>)
        requires
            old(self).wf(),
        ensures
            final(self).wf(),
            final(self).history_spec() == old(self).history_spec() + chunk@,
            final(self).lines_spec() == split_lines(old(self).history_spec() + chunk@).0,
            final(self).lines_spec() == old(self).lines_spec() + lines_view(r@),
    {
        let mut out: Vec<Vec<u8>> = Vec::new();
        let mut i: usize = 0;
        let ghost h0 = self.history@;
        let ghost l0 = lines_view(self.lines@);
        while i < chunk.len()
            invariant
                i <= chunk@.len(),
                self.history@ == h0 + chunk@.subrange(0, i as int),
                (lines_view(self.lines@), self.pending@) == split_lines(self.history@),
                lines_view(self.lines@) == l0 + lines_view(out@),
            decreases chunk@.len() - i,
        {
            let c = chunk[i];
            let ghost before = self.history@;
            self.history.push(c);
            proof {
                assert(self.history@.drop_last() =~= before);
            }
            if c == NEWLINE {
                let line = crate::bytes::slice_range(self.pending.as_slice(), 0, self.pending.len());
                let copy = crate::bytes::slice_range(self.pending.as_slice(), 0, self.pending.len());
                assert(line@ =~= self.pending@);
                self.pending = Vec::new();
                self.lines.push(line);
                out.push(copy);
                proof {
                    assert(lines_view(self.lines@) =~= split_lines(self.history@).0);
                    assert(lines_view(self.lines@) =~= l0 + lines_view(out@));
                }
            } else {
                self.pending.push(c);
            }
            proof {
                assert(self.pending@ =~= split_lines(self.history@).1);
            }
            i = i + 1;
            assert(self.history@ =~= h0 + chunk@.subrange(0, i as int));
        }
        assert(chunk@.subrange(0, chunk@.len() as int) =~= chunk@);
        out
    }

    /// All text received so far.
    pub fn history(&self) -> (r: &[u8])
        ensures
            r@ == self.history_spec(),
    {
        self.history.as_slice()
    }

    /// The completed lines so far.
    pub fn line_count(&self) -> (r: usize)
        ensures
            r == self.lines_spec().len(),
    {
        self.lines.len()
    }

    /// Completed line `i`.
    pub fn line(&self, i: usize) -> (r: &[u8])
        requires
            i < self.lines_spec().len(),
        ensures
            r@ == self.lines_spec()[i as int],
    {
        self.lines[i].as_slice()
    }
}

} // verus!
