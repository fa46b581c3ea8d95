//! Splitting a child's byte stream into text lines.
use vstd::prelude::*;

verus! {

pub const NEWLINE: u8 = 10;

pub const CARRIAGE_RETURN: u8 = 13;

/// A line without its terminator: one trailing carriage return is dropped.
pub open spec fn strip_cr(line: Seq<u8>) -> Seq<u8> {
    if line.len() > 0 && line.last() == CARRIAGE_RETURN {
        line.drop_last()
    } else {
        line
    }
}

/// The complete lines of `s` (each stripped of its terminator) and what
/// follows the last newline.
pub open spec fn split_lines(s: Seq<u8>) -> (Seq<Seq<u8>>, Seq<u8>)
    decreases s.len(),
{
    if s.len() == 0 {
        (Seq::empty(), Seq::empty())
    } else {
        let prev = split_lines(s.drop_last());
        if s.last() == NEWLINE {
            (prev.0.push(strip_cr(prev.1)), Seq::empty())
        } else {
            (prev.0, prev.1.push(s.last()))
        }
    }
}

pub open spec fn has_newline(s: Seq<u8>) -> bool {
    exists|i: int| 0 <= i < s.len() && s[i] == NEWLINE
}

/// Bytes without a newline hold no complete line and are kept whole.
pub proof fn lemma_no_newline(s: Seq<u8>)
    requires
        !has_newline(s),
    ensures
        split_lines(s) == (Seq::<Seq<u8>>::empty(), s),
    decreases s.len(),
{
    if s.len() > 0 {
        assert(!has_newline(s.drop_last())) by {
            if has_newline(s.drop_last()) {
                let i = choose|i: int| 0 <= i < s.drop_last().len() && s.drop_last()[i] == NEWLINE;
                assert(s[i] == NEWLINE);
            }
        }
        lemma_no_newline(s.drop_last());
        assert(s.last() != NEWLINE) by {
            assert(s[s.len() - 1] == s.last());
        }
        assert(s.drop_last().push(s.last()) =~= s);
    }
}

/// What follows the last newline never holds a newline.
pub proof fn lemma_rest_has_no_newline(s: Seq<u8>)
    ensures
        !has_newline(split_lines(s).1),
    decreases s.len(),
{
    if s.len() > 0 {
        lemma_rest_has_no_newline(s.drop_last());
        let prev = split_lines(s.drop_last());
        if s.last() != NEWLINE {
            let r = prev.1.push(s.last());
            assert forall|i: int| 0 <= i < r.len() implies r[i] != NEWLINE by {
                if i < prev.1.len() {
                    assert(r[i] == prev.1[i]);
                }
            }
        }
    }
}

/// Splitting in two chunks gives what splitting the whole gives: the lines
/// of the first chunk, then those of its remainder followed by the second.
pub proof fn lemma_split_chunks(a: Seq<u8>, b: Seq<u8>)
    ensures
        split_lines(a + b).0 == split_lines(a).0 + split_lines(split_lines(a).1 + b).0,
        split_lines(a + b).1 == split_lines(split_lines(a).1 + b).1,
    decreases b.len(),
{
    let ra = split_lines(a);
    if b.len() == 0 {
        assert(a + b =~= a);
        assert(ra.1 + b =~= ra.1);
        lemma_rest_has_no_newline(a);
        lemma_no_newline(ra.1);
        assert(ra.0 + Seq::<Seq<u8>>::empty() =~= ra.0);
    } else {
        lemma_split_chunks(a, b.drop_last());
        assert((a + b).drop_last() =~= a + b.drop_last());
        assert((ra.1 + b).drop_last() =~= ra.1 + b.drop_last());
        assert((a + b).last() == b.last());
        assert((ra.1 + b).last() == b.last());
        let inner = split_lines(ra.1 + b.drop_last());
        if b.last() == NEWLINE {
            assert(ra.0 + inner.0.push(strip_cr(inner.1)) =~= (ra.0 + inner.0).push(
                strip_cr(inner.1),
            ));
        }
    }
}

/// Bytes that arrive before a newline, after a pending partial line, form
/// the next line together with it, stripped of its terminator.
pub proof fn lemma_next_line(pending: Seq<u8>, before: Seq<u8>, after: Seq<u8>)
    requires
        !has_newline(pending),
        !has_newline(before),
    ensures
        split_lines(pending + (before.push(NEWLINE) + after)).0.len() >= 1,
        split_lines(pending + (before.push(NEWLINE) + after)).0[0] == strip_cr(pending + before),
{
    let head = (pending + before).push(NEWLINE);
    assert(pending + (before.push(NEWLINE) + after) =~= head + after);
    assert(!has_newline(pending + before)) by {
        if has_newline(pending + before) {
            let i = choose|i: int|
                0 <= i < (pending + before).len() && (pending + before)[i] == NEWLINE;
            if i < pending.len() {
                assert(pending[i] == NEWLINE);
            } else {
                assert(before[i - pending.len()] == NEWLINE);
            }
        }
    }
    lemma_no_newline(pending + before);
    assert(head.drop_last() =~= pending + before);
    lemma_split_chunks(head, after);
    assert(split_lines(head).0 =~= seq![strip_cr(pending + before)]);
}

/// The partial line of one output pipe, waiting for its newline.
pub struct LineBuffer {
    pending: Vec<u8>,
}

impl LineBuffer {
    pub closed spec fn view(&self) -> Seq<u8> {
        self.pending@
    }

    pub open spec fn wf(&self) -> bool {
        !has_newline(self.view())
    }

    pub fn new() -> (r: LineBuffer)
        ensures
            r.view() == Seq::<u8>::empty(),
            r.wf(),
    {
        LineBuffer { pending: Vec::new() }
    }

    /// Appends `data` and returns the lines it completes, in order.
    pub fn push_bytes(&mut self, data: &[u8]) -> (lines: Vec<Vec<u8>>)
        requires
            old(self).wf(),
        ensures
            final(self).wf(),
            lines@.map_values(|l: Vec<u8>| l@) == split_lines(old(self).view() + data@).0,
            final(self).view() == split_lines(old(self).view() + data@).1,
    {
        let ghost start = self.pending@;
        proof {
            lemma_no_newline(start);
        }
        let mut lines: Vec<Vec<u8>> = Vec::new();
        let mut i: usize = 0;
        while i < data.len()
            invariant
                i <= data@.len(),
                lines@.map_values(|l: Vec<u8>| l@) == split_lines(start + data@.take(i as int)).0,
                self.pending@ == split_lines(start + data@.take(i as int)).1,
            decreases data@.len() - i,
        {
            let b = data[i];
            let ghost prefix = start + data@.take(i as int);
            assert((start + data@.take(i as int + 1)).drop_last() =~= prefix);
            assert((start + data@.take(i as int + 1)).last() == b);
            if b == NEWLINE {
                let mut line: Vec<u8> = Vec::new();
                std::mem::swap(&mut line, &mut self.pending);
                if line.len() > 0 && line[line.len() - 1] == CARRIAGE_RETURN {
                    line.pop();
                }
                assert(line@ == strip_cr(split_lines(prefix).1));
                lines.push(line);
                assert(lines@.map_values(|l: Vec<u8>| l@) =~= split_lines(prefix).0.push(
                    strip_cr(split_lines(prefix).1),
                ));
            } else {
                self.pending.push(b);
            }
            i = i + 1;
        }
        assert(data@.take(data@.len() as int) =~= data@);
        proof {
            lemma_rest_has_no_newline(start + data@);
        }
        lines
    }

    /// Hands out what is left at end of stream, if anything is.
    pub fn finish(&mut self) -> (last: Option<Vec<u8>>)
        ensures
            final(self).view() == Seq::<u8>::empty(),
            final(self).wf(),
            last matches Some(l) ==> l@ == old(self).view() && l@.len() > 0,
            last is None <==> old(self).view().len() == 0,
    {
        let mut rest: Vec<u8> = Vec::new();
        std::mem::swap(&mut rest, &mut self.pending);
        if rest.len() == 0 {
            None
        } else {
            Some(rest)
        }
    }
}

} // verus!
