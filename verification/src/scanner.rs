//! A scanner over a byte line: bytes can be removed from either end, and
//! the longest front run satisfying a predicate can be taken off in one
//! step. Counts that exceed the remaining length are clamped, never a
//! panic. The view of a scanner is the byte sequence still in front of it.

use vstd::prelude::*;

verus! {

/// A one-byte test: either "equals this byte" or "differs from this byte".
/// These two shapes are all the protocol's grammar needs: runs of spaces,
/// and runs up to a delimiter.
#[derive(Clone, Copy)]
pub enum BytePred {
    Eq(u8),
    Ne(u8),
}

impl BytePred {
    /// What the predicate says of one byte.
    pub open spec fn holds(self, b: u8) -> bool {
        match self {
            BytePred::Eq(x) => b == x,
            BytePred::Ne(x) => b != x,
        }
    }

    /// Tests one byte.
    pub fn test(&self, b: u8) -> (r: bool)
        ensures
            r == self.holds(b),
    {
        match self {
            BytePred::Eq(x) => b == *x,
            BytePred::Ne(x) => b != *x,
        }
    }
}

/// The length of the longest prefix of `s` whose bytes all satisfy `p`.
pub open spec fn prefix_len(s: Seq<u8>, p: BytePred) -> nat
    decreases s.len(),
{
    if s.len() == 0 || !p.holds(s[0]) {
        0
    } else {
        (1 + prefix_len(s.subrange(1, s.len() as int), p)) as nat
    }
}

/// The prefix counted by `prefix_len` satisfies `p` throughout and is
/// maximal: the byte after it, if any, fails `p`.
pub proof fn lemma_prefix_len_facts(s: Seq<u8>, p: BytePred)
    ensures
        prefix_len(s, p) <= s.len(),
        forall|i: int| 0 <= i < prefix_len(s, p) ==> p.holds(s[i]),
        prefix_len(s, p) < s.len() ==> !p.holds(s[prefix_len(s, p) as int]),
    decreases s.len(),
{
    if s.len() == 0 || !p.holds(s[0]) {
    } else {
        let rest = s.subrange(1, s.len() as int);
        lemma_prefix_len_facts(rest, p);
        assert forall|i: int| 0 <= i < prefix_len(s, p) implies p.holds(s[i]) by {
            if i > 0 {
                assert(p.holds(rest[i - 1]));
            }
        }
        if prefix_len(s, p) < s.len() {
            assert(!p.holds(rest[prefix_len(s, p) - 1]));
        }
    }
}

/// Any count with those two properties is `prefix_len`: the longest
/// satisfying prefix is unique.
pub proof fn lemma_prefix_len_unique(s: Seq<u8>, p: BytePred, n: int)
    requires
        0 <= n <= s.len(),
        forall|i: int| 0 <= i < n ==> p.holds(s[i]),
        n < s.len() ==> !p.holds(s[n]),
    ensures
        n == prefix_len(s, p),
    decreases s.len(),
{
    if n == 0 {
    } else {
        let rest = s.subrange(1, s.len() as int);
        assert forall|i: int| 0 <= i < n - 1 implies p.holds(rest[i]) by {
            assert(rest[i] == s[i + 1]);
        }
        if n - 1 < rest.len() {
            assert(rest[n - 1] == s[n]);
        }
        lemma_prefix_len_unique(rest, p, n - 1);
    }
}

/// A view over part of a byte line. `start` and `end` delimit the bytes
/// not yet consumed; removing from an end only moves a bound.
pub struct SliceScanner {
    data: Vec<u8>,
    start: usize,
    end: usize,
}

impl View for SliceScanner {
    type V = Seq<u8>;

    closed spec fn view(&self) -> Seq<u8> {
        self.data@.subrange(self.start as int, self.end as int)
    }
}

impl SliceScanner {
    /// The bounds delimit a range of the underlying bytes.
    pub closed spec fn wf(&self) -> bool {
        self.start <= self.end <= self.data@.len()
    }

    /// A scanner over the whole of `data`.
    pub fn new(data: &[u8]) -> (s: SliceScanner)
        ensures
            s.wf(),
            s@ == data@,
    {
        let v = vstd::slice::slice_to_vec(data);
        let n = v.len();
        let s = SliceScanner { data: v, start: 0, end: n };
        proof {
            assert(s@ =~= data@);
        }
        s
    }

    /// How many bytes remain.
    pub fn len(&self) -> (n: usize)
        requires
            self.wf(),
        ensures
            n == self@.len(),
    {
        self.end - self.start
    }

    /// Whether no bytes remain.
    pub fn is_empty(&self) -> (b: bool)
        requires
            self.wf(),
        ensures
            b == (self@.len() == 0),
    {
        self.len() == 0
    }

    /// The remaining bytes, copied out.
    pub fn data(&self) -> (v: Vec<u8>)
        requires
            self.wf(),
        ensures
            v@ == self@,
    {
        let s = vstd::slice::slice_subrange(self.data.as_slice(), self.start, self.end);
        vstd::slice::slice_to_vec(s)
    }

    /// Removes `n` bytes (no more than remain) from the front and returns
    /// them; a count over the remaining length is clamped to it.
    pub fn pop_front(&mut self, n: usize) -> (r: Vec<u8>)
        requires
            old(self).wf(),
        ensures
            final(self).wf(),
            n <= old(self)@.len() ==> r@ == old(self)@.take(n as int)
                && final(self)@ == old(self)@.skip(n as int),
            n > old(self)@.len() ==> r@ == old(self)@ && final(self)@ == Seq::<u8>::empty(),
    {
        let remaining = self.end - self.start;
        let k = if n > remaining {
            remaining
        } else {
            n
        };
        let s = vstd::slice::slice_subrange(self.data.as_slice(), self.start, self.start + k);
        let r = vstd::slice::slice_to_vec(s);
        self.start = self.start + k;
        proof {
            if n > old(self)@.len() {
                assert(self@ =~= Seq::<u8>::empty());
            } else {
                assert(r@ =~= old(self)@.take(n as int));
                assert(self@ =~= old(self)@.skip(n as int));
            }
        }
        r
    }

    /// Removes `n` bytes (no more than remain) from the back and returns
    /// them; a count over the remaining length is clamped to it.
    pub fn pop_back(&mut self, n: usize) -> (r: Vec<u8>)
        requires
            old(self).wf(),
        ensures
            final(self).wf(),
            n <= old(self)@.len() ==> r@ == old(self)@.skip(old(self)@.len() - n)
                && final(self)@ == old(self)@.take(old(self)@.len() - n),
            n > old(self)@.len() ==> r@ == old(self)@ && final(self)@ == Seq::<u8>::empty(),
    {
        let remaining = self.end - self.start;
        let k = if n > remaining {
            remaining
        } else {
            n
        };
        let s = vstd::slice::slice_subrange(self.data.as_slice(), self.end - k, self.end);
        let r = vstd::slice::slice_to_vec(s);
        self.end = self.end - k;
        proof {
            if n > old(self)@.len() {
                assert(self@ =~= Seq::<u8>::empty());
                assert(r@ =~= old(self)@);
            } else {
                assert(r@ =~= old(self)@.skip(old(self)@.len() - n));
                assert(self@ =~= old(self)@.take(old(self)@.len() - n));
            }
        }
        r
    }

    /// The first `n` bytes (no more than remain), copied out without
    /// consuming them.
    pub fn ref_front(&self, n: usize) -> (r: Vec<u8>)
        requires
            self.wf(),
        ensures
            n <= self@.len() ==> r@ == self@.take(n as int),
            n > self@.len() ==> r@ == self@,
    {
        let remaining = self.end - self.start;
        let k = if n > remaining {
            remaining
        } else {
            n
        };
        let s = vstd::slice::slice_subrange(self.data.as_slice(), self.start, self.start + k);
        let r = vstd::slice::slice_to_vec(s);
        proof {
            if n <= self@.len() {
                assert(r@ =~= self@.take(n as int));
            } else {
                assert(r@ =~= self@);
            }
        }
        r
    }

    /// How long the front run of bytes satisfying `pred` is.
    pub fn count_while(&self, pred: BytePred) -> (n: usize)
        requires
            self.wf(),
        ensures
            n == prefix_len(self@, pred),
    {
        let mut i: usize = 0;
        let remaining = self.end - self.start;
        while i < remaining
            invariant
                self.wf(),
                0 <= i <= remaining,
                remaining == self@.len(),
                forall|j: int| 0 <= j < i ==> pred.holds(self@[j]),
            decreases remaining - i,
        {
            let b = self.data[self.start + i];
            assert(b == self@[i as int]);
            if !pred.test(b) {
                proof {
                    lemma_prefix_len_unique(self@, pred, i as int);
                }
                return i;
            }
            i = i + 1;
        }
        proof {
            lemma_prefix_len_unique(self@, pred, i as int);
        }
        i
    }

    /// Removes the longest front run of bytes satisfying `pred` and
    /// returns it; empty if the first byte already fails `pred`.
    pub fn pop_while(&mut self, pred: BytePred) -> (r: Vec<u8>)
        requires
            old(self).wf(),
        ensures
            final(self).wf(),
            r@ == old(self)@.take(prefix_len(old(self)@, pred) as int),
            final(self)@ == old(self)@.skip(prefix_len(old(self)@, pred) as int),
    {
        let n = self.count_while(pred);
        proof {
            lemma_prefix_len_facts(self@, pred);
        }
        self.pop_front(n)
    }

    /// Both halves of the remaining bytes around position `pos`, copied
    /// out without consuming them.
    pub fn split_at(&self, pos: usize) -> (r: (Vec<u8>, Vec<u8>))
        requires
            self.wf(),
            pos <= self@.len(),
        ensures
            r.0@ == self@.take(pos as int),
            r.1@ == self@.skip(pos as int),
    {
        let front = vstd::slice::slice_subrange(self.data.as_slice(), self.start, self.start + pos);
        let back = vstd::slice::slice_subrange(self.data.as_slice(), self.start + pos, self.end);
        let r = (vstd::slice::slice_to_vec(front), vstd::slice::slice_to_vec(back));
        proof {
            assert(r.0@ =~= self@.take(pos as int));
            assert(r.1@ =~= self@.skip(pos as int));
        }
        r
    }
}

} // verus!
