//! The per-frame queue of sound effects a game asks for, with caps that keep
//! a burst of identical sounds from drowning the mix.
use crate::types::Sfx;
use vstd::prelude::*;

verus! {

/// Number of occurrences of `s` in `items`.
pub open spec fn count_of(items: Seq<Sfx>, s: Sfx) -> nat
    decreases items.len(),
{
    if items.len() == 0 {
        0
    } else {
        count_of(items.drop_last(), s) + if items.last() == s {
            1nat
        } else {
            0
        }
    }
}

/// `items` after asking for `s`: it is queued unless `max_same` copies of it
/// or `max_len` effects already wait.
pub open spec fn pushed(items: Seq<Sfx>, s: Sfx, max_same: usize, max_len: usize) -> Seq<Sfx> {
    if count_of(items, s) < max_same && items.len() < max_len {
        items.push(s)
    } else {
        items
    }
}

/// Asking for a sound keeps every waiting sound in place and adds at most
/// this one, at the end; it is added exactly when fewer than `max_same` copies
/// and fewer than `max_len` sounds wait, so both caps always hold afterwards,
/// and the count of every other sound is unchanged.
pub proof fn lemma_push_respects_caps(items: Seq<Sfx>, s: Sfx, other: Sfx, max_same: usize, max_len: usize)
    requires
        count_of(items, s) <= max_same,
        items.len() <= max_len,
        other != s,
    ensures
        ({
            let out = pushed(items, s, max_same, max_len);
            let added = count_of(items, s) < max_same && items.len() < max_len;
            &&& out.len() == items.len() + if added {
                1int
            } else {
                0
            }
            &&& forall|i: int| 0 <= i < items.len() ==> #[trigger] out[i] == items[i]
            &&& added ==> out.last() == s
            &&& count_of(out, s) == count_of(items, s) + if added {
                1int
            } else {
                0
            }
            &&& count_of(out, s) <= max_same
            &&& out.len() <= max_len
            &&& count_of(out, other) == count_of(items, other)
        }),
{
    let out = pushed(items, s, max_same, max_len);
    if count_of(items, s) < max_same && items.len() < max_len {
        assert(out.drop_last() =~= items);
    }
}

/// Sound effects waiting for the audio backend.
pub struct SfxQueue {
    pub items: Vec<Sfx>,
    /// At most this many copies of one effect wait at a time.
    pub max_same: usize,
    /// At most this many effects wait at a time.
    pub max_len: usize,
}

impl SfxQueue {
    /// The caps hold.
    pub open spec fn wf(&self) -> bool {
        &&& self.items@.len() <= self.max_len
        &&& forall|s: Sfx| #[trigger] count_of(self.items@, s) <= self.max_same
    }

    /// An empty queue with the given caps.
    pub fn new(max_same: usize, max_len: usize) -> (q: SfxQueue)
        ensures
            q.wf(),
            q.items@ == Seq::<Sfx>::empty(),
            q.max_same == max_same,
            q.max_len == max_len,
    {
        SfxQueue { items: Vec::new(), max_same, max_len }
    }

    /// Number of waiting copies of `s`.
    pub fn count(&self, s: Sfx) -> (n: usize)
        ensures
            n == count_of(self.items@, s),
    {
        let mut n: usize = 0;
        let mut i: usize = 0;
        while i < self.items.len()
            invariant
                i <= self.items@.len(),
                n == count_of(self.items@.take(i as int), s),
                n <= i,
            decreases self.items@.len() - i,
        {
            proof {
                assert(self.items@.take(i + 1).drop_last() =~= self.items@.take(i as int));
            }
            if self.items[i] == s {
                n = n + 1;
            }
            i = i + 1;
        }
        proof {
            assert(self.items@.take(self.items@.len() as int) =~= self.items@);
        }
        n
    }

    /// Queues `s` unless `max_same` copies of it or `max_len` effects already wait.
    pub fn push(&mut self, s: Sfx)
        requires
            old(self).wf(),
        ensures
            final(self).wf(),
            final(self).max_same == old(self).max_same,
            final(self).max_len == old(self).max_len,
            final(self).items@ == pushed(old(self).items@, s, old(self).max_same, old(self).max_len),
    {
        let same = self.count(s);
        if same < self.max_same && self.items.len() < self.max_len {
            let ghost before = self.items@;
            self.items.push(s);
            proof {
                assert(self.items@.drop_last() =~= before);
                assert forall|t: Sfx| #[trigger] count_of(self.items@, t) <= self.max_same by {
                    assert(count_of(before, t) <= self.max_same);
                }
            }
        }
    }

    /// Hands out every waiting effect in order and empties the queue.
    pub fn drain(&mut self) -> (out: Vec<Sfx>)
        requires
            old(self).wf(),
        ensures
            final(self).wf(),
            out@ == old(self).items@,
            final(self).items@ == Seq::<Sfx>::empty(),
            final(self).max_same == old(self).max_same,
            final(self).max_len == old(self).max_len,
    {
        let mut out: Vec<Sfx> = Vec::new();
        std::mem::swap(&mut out, &mut self.items);
        out
    }
}

} // verus!
