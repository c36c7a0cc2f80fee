//! The segments of a vectored buffer, as handed to vectored system calls,
//! and how a partial transfer is accounted for.
use vstd::prelude::*;

verus! {

/// One segment: its start address and its length in bytes.
#[derive(Clone, Copy, PartialEq, Eq, Structural, Debug)]
pub struct IoVec {
    pub base: usize,
    pub len: usize,
}

/// The total length of segments `from` up to `to` (excluded).
pub open spec fn sum_lens(s: Seq<IoVec>, from: int, to: int) -> int
    decreases to - from,
{
    if to <= from {
        0
    } else {
        sum_lens(s, from, to - 1) + s[to - 1].len
    }
}

pub proof fn lemma_sum_split(s: Seq<IoVec>, a: int, b: int, c: int)
    requires
        a <= b <= c,
    ensures
        sum_lens(s, a, c) == sum_lens(s, a, b) + sum_lens(s, b, c),
    decreases c - b,
{
    if b < c {
        lemma_sum_split(s, a, b, c - 1);
    }
}

pub proof fn lemma_sum_nonneg(s: Seq<IoVec>, a: int, b: int)
    ensures
        sum_lens(s, a, b) >= 0,
    decreases b - a,
{
    if a < b {
        lemma_sum_nonneg(s, a, b - 1);
    }
}

proof fn lemma_sum_same(s: Seq<IoVec>, t: Seq<IoVec>, a: int, b: int)
    requires
        forall|i: int| a <= i < b ==> s[i].len == t[i].len,
    ensures
        sum_lens(s, a, b) == sum_lens(t, a, b),
    decreases b - a,
{
    if a < b {
        lemma_sum_same(s, t, a, b - 1);
    }
}

/// The segments of a vectored buffer, of which those before `offset` have
/// been transferred.
pub struct IoVecMeta {
    data: Vec<IoVec>,
    offset: usize,
    len: usize,
}

impl IoVecMeta {
    pub closed spec fn spec_data(&self) -> Seq<IoVec> {
        self.data@
    }

    pub closed spec fn spec_offset(&self) -> nat {
        self.offset as nat
    }

    pub closed spec fn spec_len(&self) -> int {
        self.len as int
    }

    /// The transferred segments are a prefix of the segments.
    pub open spec fn wf(&self) -> bool {
        self.spec_offset() <= self.spec_data().len()
    }

    /// Bytes not transferred yet: the lengths of the segments from `offset` on.
    pub open spec fn remaining(&self) -> int {
        sum_lens(self.spec_data(), self.spec_offset() as int, self.spec_data().len() as int)
    }

    /// The segments of a buffer; its length is the sum of theirs.
    pub fn from_iovecs(data: Vec<IoVec>) -> (r: Self)
        requires
            sum_lens(data@, 0, data.len() as int) <= usize::MAX,
        ensures
            r.wf(),
            r.spec_data() == data@,
            r.spec_offset() == 0,
            r.spec_len() == sum_lens(data@, 0, data.len() as int),
    {
        let mut len: usize = 0;
        let mut i: usize = 0;
        while i < data.len()
            invariant
                i <= data.len(),
                len == sum_lens(data@, 0, i as int),
                sum_lens(data@, 0, data.len() as int) <= usize::MAX,
            decreases data.len() - i,
        {
            proof {
                lemma_sum_split(data@, 0, i as int + 1, data.len() as int);
                lemma_sum_nonneg(data@, i as int + 1, data.len() as int);
            }
            len = len + data[i].len;
            i = i + 1;
        }
        IoVecMeta { data, offset: 0, len }
    }

    /// A single segment made of a whole buffer. Its recorded length is the
    /// number of segments, 1.
    pub fn from_buffer(base: usize, len: usize) -> (r: Self)
        ensures
            r.wf(),
            r.spec_data() == seq![IoVec { base, len }],
            r.spec_offset() == 0,
            r.spec_len() == 1,
    {
        let mut data: Vec<IoVec> = Vec::new();
        data.push(IoVec { base, len });
        IoVecMeta { data, offset: 0, len: 1 }
    }

    pub fn len(&self) -> (r: usize)
        ensures
            r == self.spec_len(),
    {
        self.len
    }

    /// Number of segments, transferred ones included.
    pub fn iovec_len(&self) -> (r: usize)
        ensures
            r == self.spec_data().len(),
    {
        self.data.len()
    }

    /// The first segment not transferred yet.
    pub fn offset(&self) -> (r: usize)
        ensures
            r == self.spec_offset(),
    {
        self.offset
    }

    /// Segment `i`.
    pub fn iovec(&self, i: usize) -> (r: IoVec)
        requires
            i < self.spec_data().len(),
        ensures
            r == self.spec_data()[i as int],
    {
        self.data[i]
    }

    /// Accounts for `amt` more bytes transferred: whole segments are passed,
    /// and a segment transferred in part is shortened by what was transferred
    /// of it (its start address is left as it is).
    pub fn consume(&mut self, amt: usize)
        requires
            old(self).wf(),
            amt <= old(self).remaining(),
        ensures
            final(self).wf(),
            final(self).spec_len() == old(self).spec_len(),
            final(self).remaining() == old(self).remaining() - amt,
            final(self).spec_data().len() == old(self).spec_data().len(),
            amt == 0 ==> *final(self) == *old(self),
            amt > 0 ==> exists|j: int|
                #![trigger old(self).spec_data()[j]]
                old(self).spec_offset() <= j < old(self).spec_data().len() && sum_lens(
                    old(self).spec_data(),
                    old(self).spec_offset() as int,
                    j,
                ) < amt <= sum_lens(old(self).spec_data(), old(self).spec_offset() as int, j + 1) && if amt
                    == sum_lens(old(self).spec_data(), old(self).spec_offset() as int, j + 1) {
                    final(self).spec_offset() == j + 1 && final(self).spec_data() == old(
                        self,
                    ).spec_data()
                } else {
                    final(self).spec_offset() == j && final(self).spec_data() == old(
                        self,
                    ).spec_data().update(
                        j,
                        IoVec {
                            base: old(self).spec_data()[j].base,
                            len: (sum_lens(old(self).spec_data(), old(self).spec_offset() as int, j + 1)
                                - amt) as usize,
                        },
                    )
                },
    {
        if amt == 0 {
            return;
        }
        let ghost s = self.data@;
        let ghost o = self.offset as int;
        let mut left = amt;
        let mut offset = self.offset;
        while offset < self.data.len()
            invariant
                self.data@ == s,
                s == old(self).data@,
                o == old(self).offset,
                self.offset == o,
                o <= offset <= s.len(),
                left == amt - sum_lens(s, o, offset as int),
                left > 0,
                amt > 0,
                amt <= sum_lens(s, o, s.len() as int),
                self.len == old(self).len,
            decreases s.len() - offset,
        {
            let iovec = self.data[offset];
            if iovec.len < left {
                left = left - iovec.len;
                offset = offset + 1;
            } else if iovec.len == left {
                offset = offset + 1;
                self.offset = offset;
                proof {
                    lemma_sum_split(s, o, offset as int, s.len() as int);
                    assert(sum_lens(s, o, offset - 1) < amt);
                }
                return;
            } else {
                self.data.set(offset, IoVec { base: iovec.base, len: iovec.len - left });
                self.offset = offset;
                proof {
                    let j = offset as int;
                    let t = self.data@;
                    lemma_sum_split(s, o, j + 1, s.len() as int);
                    lemma_sum_split(t, j, j + 1, s.len() as int);
                    lemma_sum_same(s, t, j + 1, s.len() as int);
                    reveal_with_fuel(sum_lens, 2);
                    assert(sum_lens(t, j, j + 1) == iovec.len - left);
                    assert(sum_lens(s, o, j) < amt);
                }
                return;
            }
        }
        proof {
            assert(false);
        }
        vstd::pervasive::unreached()
    }
}

} // verus!
