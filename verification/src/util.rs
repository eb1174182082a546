//! Line-buffered reading of a child process's output: bytes arrive in
//! arbitrary chunks, and the registered callback must see exactly the
//! newline-terminated lines, each stripped of its newline, with any partial
//! trailing line retained until more bytes arrive.

use vstd::prelude::*;

verus! {

/// The byte that terminates a line.
pub const NEWLINE: u8 = 10;

/// The complete lines joined back together, a newline after each.
pub open spec fn join_lines(ls: Seq<Seq<u8>>) -> Seq<u8>
    decreases ls.len(),
{
    if ls.len() == 0 {
        Seq::empty()
    } else {
        (ls[0] + seq![NEWLINE]) + join_lines(ls.skip(1))
    }
}

pub proof fn lemma_join_lines_push(ls: Seq<Seq<u8>>, l: Seq<u8>)
    ensures
        join_lines(ls.push(l)) == join_lines(ls) + (l + seq![NEWLINE]),
    decreases ls.len(),
{
    if ls.len() == 0 {
        assert(ls =~= Seq::<Seq<u8>>::empty());
        assert(join_lines(Seq::<Seq<u8>>::empty()) == Seq::<u8>::empty());
        assert(ls.push(l)[0] == l);
        assert(ls.push(l).skip(1) =~= Seq::<Seq<u8>>::empty());
        assert((l + seq![NEWLINE]) + Seq::<u8>::empty() =~= l + seq![NEWLINE]);
        assert(Seq::<u8>::empty() + (l + seq![NEWLINE]) =~= l + seq![NEWLINE]);
    } else {
        assert(ls.push(l).skip(1) =~= ls.skip(1).push(l));
        assert(ls.push(l)[0] == ls[0]);
        lemma_join_lines_push(ls.skip(1), l);
        assert((ls[0] + seq![NEWLINE]) + (join_lines(ls.skip(1)) + (l + seq![NEWLINE])) =~= ((
        ls[0] + seq![NEWLINE]) + join_lines(ls.skip(1))) + (l + seq![NEWLINE]));
    }
}

/// A line-buffered reader bound to one stashed callback: the partial line
/// carried between readiness notifications, and the callback handle the
/// complete lines go to.
pub struct ReadLineCb {
    pub buf: Vec<u8>,
    pub cb: u64,
}

impl ReadLineCb {
    /// The retained partial line never holds a newline.
    pub open spec fn wf(self) -> bool {
        forall|i: int| 0 <= i < self.buf@.len() ==> self.buf@[i] != NEWLINE
    }

    /// A fresh reader for the given callback.
    pub fn new(cb: u64) -> (r: ReadLineCb)
        ensures
            r.wf(),
            r.buf@.len() == 0,
            r.cb == cb,
    {
        ReadLineCb { buf: Vec::new(), cb }
    }

    /// Feeds one chunk of bytes and returns the complete lines it finishes,
    /// in order, each without its terminating newline. What was buffered
    /// plus what arrived is exactly the returned lines, a newline after
    /// each, followed by the retained partial line.
    pub fn feed(&mut self, data: &Vec<u8>) -> (lines: Vec<Vec<u8>>)
        requires
            old(self).wf(),
        ensures
            final(self).wf(),
            final(self).cb == old(self).cb,
            old(self).buf@ + data@ == join_lines(lines@.map_values(|l: Vec<u8>| l@))
                + final(self).buf@,
            forall|i: int, j: int|
                0 <= i < lines@.len() && 0 <= j < lines@[i]@.len() ==> lines@[i]@[j] != NEWLINE,
    {
        let ghost input = old(self).buf@ + data@;
        let mut combined: Vec<u8> = Vec::new();
        core::mem::swap(&mut combined, &mut self.buf);
        let mut k: usize = 0;
        while k < data.len()
            invariant
                0 <= k <= data@.len(),
                combined@ == old(self).buf@ + data@.take(k as int),
            decreases data@.len() - k,
        {
            combined.push(data[k]);
            proof {
                assert(old(self).buf@ + data@.take(k + 1) =~= (old(self).buf@ + data@.take(
                    k as int,
                )).push(data@[k as int]));
            }
            k += 1;
        }
        proof {
            assert(data@.take(data@.len() as int) =~= data@);
        }
        let mut lines: Vec<Vec<u8>> = Vec::new();
        let mut cur: Vec<u8> = Vec::new();
        let n = combined.len();
        let mut i: usize = 0;
        proof {
            assert(lines@.map_values(|l: Vec<u8>| l@) =~= Seq::<Seq<u8>>::empty());
            assert(join_lines(Seq::<Seq<u8>>::empty()) + cur@ =~= input.take(0));
        }
        while i < n
            invariant
                n == combined@.len(),
                combined@ == input,
                0 <= i <= n,
                join_lines(lines@.map_values(|l: Vec<u8>| l@)) + cur@ == input.take(i as int),
                forall|j: int| 0 <= j < cur@.len() ==> cur@[j] != NEWLINE,
                forall|p: int, q: int|
                    0 <= p < lines@.len() && 0 <= q < lines@[p]@.len() ==> lines@[p]@[q] != NEWLINE,
            decreases n - i,
        {
            let b = combined[i];
            proof {
                assert(input.take(i + 1) =~= input.take(i as int).push(input[i as int]));
            }
            if b == NEWLINE {
                let ghost prev = lines@.map_values(|l: Vec<u8>| l@);
                let ghost done = cur@;
                lines.push(cur);
                cur = Vec::new();
                proof {
                    assert(lines@.map_values(|l: Vec<u8>| l@) =~= prev.push(done));
                    lemma_join_lines_push(prev, done);
                    assert(join_lines(prev.push(done)) + cur@ =~= (join_lines(prev) + done).push(
                        NEWLINE,
                    ));
                }
            } else {
                cur.push(b);
                proof {
                    assert(join_lines(lines@.map_values(|l: Vec<u8>| l@)) + cur@ =~= input.take(
                        i + 1,
                    ));
                }
            }
            i += 1;
        }
        proof {
            assert(input.take(n as int) =~= input);
        }
        self.buf = cur;
        lines
    }
}

} // verus!
