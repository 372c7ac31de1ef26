//! Slot bookkeeping of the particle systems.
//!
//! Arkanoid emits particles into fixed GPU rings: each new particle takes the
//! next slot of its ring, overwriting the oldest, and the frame's uploads are
//! written in runs of consecutive slots. The tank demo keeps its particles on
//! the CPU in a pool of bounded size. The particle data itself is opaque here.
use vstd::prelude::*;
use vstd::wrapping::u32_specs::wrapping_add;

verus! {

/// A particle bound for slot `index` of its GPU ring.
pub struct Upload<P> {
    pub index: u32,
    pub particle: P,
}

/// A GPU ring of `cap` slots and the uploads of the current frame.
pub struct SlotRing<P> {
    /// Uploads not yet written to the GPU, in emission order.
    pub pending: Vec<Upload<P>>,
    /// Count of emitted particles since the last clear, modulo 2^32.
    pub cursor: u32,
    /// Number of slots that hold a particle (at most `cap`).
    pub filled: u32,
    /// Number of slots of the ring.
    pub cap: u32,
}

impl<P> SlotRing<P> {
    /// The fill count never exceeds the ring.
    pub open spec fn wf(&self) -> bool {
        &&& self.cap > 0
        &&& self.filled <= self.cap
    }

    /// An empty ring of `cap` slots.
    pub fn new(cap: u32) -> (r: SlotRing<P>)
        requires
            cap > 0,
        ensures
            r.wf(),
            r.pending@.len() == 0,
            r.cursor == 0,
            r.filled == 0,
            r.cap == cap,
    {
        SlotRing { pending: Vec::new(), cursor: 0, filled: 0, cap }
    }

    /// Forgets every particle: the next one goes to slot 0.
    pub fn clear(&mut self)
        requires
            old(self).wf(),
        ensures
            final(self).wf(),
            final(self).pending@.len() == 0,
            final(self).cursor == 0,
            final(self).filled == 0,
            final(self).cap == old(self).cap,
    {
        self.pending.clear();
        self.cursor = 0;
        self.filled = 0;
    }

    /// Emits a particle into the next slot, overwriting the oldest when the ring is full.
    pub fn push(&mut self, particle: P) -> (slot: u32)
        requires
            old(self).wf(),
        ensures
            final(self).wf(),
            slot == old(self).cursor % old(self).cap,
            slot < old(self).cap,
            final(self).cursor == wrapping_add(old(self).cursor, 1),
            final(self).filled == if old(self).filled < old(self).cap {
                old(self).filled + 1
            } else {
                old(self).cap as int
            },
            final(self).cap == old(self).cap,
            final(self).pending@.len() == old(self).pending@.len() + 1,
            forall|i: int|
                0 <= i < old(self).pending@.len() ==> #[trigger] final(self).pending@[i]
                    == old(self).pending@[i],
            final(self).pending@.last().index == slot,
            final(self).pending@.last().particle == particle,
    {
        let i = self.cursor % self.cap;
        self.cursor = self.cursor.wrapping_add(1);
        let f = self.filled.saturating_add(1);
        self.filled = if f < self.cap {
            f
        } else {
            self.cap
        };
        self.pending.push(Upload { index: i, particle });
        i
    }

    /// Takes the frame's uploads; the ring keeps its slots.
    pub fn drain(&mut self) -> (uploads: Vec<Upload<P>>)
        requires
            old(self).wf(),
        ensures
            final(self).wf(),
            uploads@ == old(self).pending@,
            final(self).pending@.len() == 0,
            final(self).cursor == old(self).cursor,
            final(self).filled == old(self).filled,
            final(self).cap == old(self).cap,
    {
        let mut out: Vec<Upload<P>> = Vec::new();
        std::mem::swap(&mut out, &mut self.pending);
        out
    }
}

/// For a ring whose size divides 2^32 (such as the 65536-slot rings), the
/// `n`-th particle since a clear lands in slot `n mod cap`, even after the
/// 32-bit cursor wraps around.
pub proof fn lemma_slot_is_count_mod_cap(n: nat, cap: u32)
    requires
        cap > 0,
        0x1_0000_0000int % (cap as int) == 0,
    ensures
        ((n % 0x1_0000_0000nat) as u32) % cap == (n as int) % (cap as int),
{
    let m: int = 0x1_0000_0000;
    let c = cap as int;
    let q = m / c;
    vstd::arithmetic::div_mod::lemma_fundamental_div_mod(m, c);
    assert(m == c * q);
    assert(q > 0) by (nonlinear_arith)
        requires
            m == c * q,
            c > 0,
            m > 0,
    ;
    vstd::arithmetic::div_mod::lemma_mod_mod(n as int, c, q);
    assert((n as int) % (c * q) == n % 0x1_0000_0000nat);
}

/// The slots of uploads `from..to` count up by one (wrapping).
pub open spec fn consecutive(idx: Seq<u32>, from: int, to: int) -> bool {
    forall|k: int| from <= k && k + 1 < to ==> #[trigger] idx[k + 1] == wrapping_add(idx[k], 1)
}

/// Runs of consecutive slots: `runs[r] = (from, to)` covers uploads
/// `from..to`, whose slots count up by one (wrapping); consecutive runs
/// break where the next slot does not follow.
pub open spec fn is_run_split(idx: Seq<u32>, runs: Seq<(usize, usize)>) -> bool {
    &&& idx.len() == 0 ==> runs.len() == 0
    &&& idx.len() > 0 ==> runs.len() > 0 && runs[0].0 == 0 && runs.last().1 == idx.len()
    &&& forall|r: int| 0 <= r < runs.len() ==> #[trigger] runs[r].0 < runs[r].1
    &&& forall|r: int| 0 <= r < runs.len() - 1 ==> #[trigger] runs[r].1 == runs[r + 1].0
    &&& forall|r: int|
        0 <= r < runs.len() ==> consecutive(idx, (#[trigger] runs[r]).0 as int, runs[r].1 as int)
    &&& forall|r: int|
        0 <= r < runs.len() - 1 ==> idx[#[trigger] runs[r].1 as int] != wrapping_add(
            idx[runs[r].1 - 1],
            1,
        )
}

/// Splits the slots of a frame's uploads into maximal runs of consecutive slots,
/// each written to the GPU with one buffer write.
pub fn upload_runs(idx: &Vec<u32>) -> (runs: Vec<(usize, usize)>)
    ensures
        is_run_split(idx@, runs@),
{
    let mut runs: Vec<(usize, usize)> = Vec::new();
    let n = idx.len();
    let mut i: usize = 0;
    while i < n
        invariant
            n == idx@.len(),
            i <= n,
            i == 0 ==> runs@.len() == 0,
            i > 0 ==> runs@.len() > 0 && runs@[0].0 == 0 && runs@.last().1 == i,
            forall|r: int| 0 <= r < runs@.len() ==> #[trigger] runs@[r].0 < runs@[r].1,
            forall|r: int| 0 <= r < runs@.len() - 1 ==> #[trigger] runs@[r].1 == runs@[r + 1].0,
            forall|r: int|
                0 <= r < runs@.len() ==> consecutive(
                    idx@,
                    (#[trigger] runs@[r]).0 as int,
                    runs@[r].1 as int,
                ),
            forall|r: int|
                0 <= r < runs@.len() - 1 ==> idx@[#[trigger] runs@[r].1 as int] != wrapping_add(
                    idx@[runs@[r].1 - 1],
                    1,
                ),
            i < n && i > 0 ==> idx@[i as int] != wrapping_add(idx@[i - 1], 1),
        decreases n - i,
    {
        let start = i;
        let mut expected: u32 = idx[i].wrapping_add(1);
        i = i + 1;
        while i < n && idx[i] == expected
            invariant
                n == idx@.len(),
                start < i <= n,
                expected == wrapping_add(idx@[i - 1], 1),
                forall|k: int| start <= k && k + 1 < i ==> #[trigger] idx@[k + 1] == wrapping_add(
                    idx@[k],
                    1,
                ),
            decreases n - i,
        {
            expected = expected.wrapping_add(1);
            i = i + 1;
        }
        let ghost before = runs@;
        runs.push((start, i));
        proof {
            assert(consecutive(idx@, start as int, i as int));
            assert forall|r: int|
                0 <= r < runs@.len() implies consecutive(
                idx@,
                (#[trigger] runs@[r]).0 as int,
                runs@[r].1 as int,
            ) by {
                if r < before.len() {
                    assert(runs@[r] == before[r]);
                }
            }
        }
    }
    runs
}

/// A CPU particle pool of at most `cap` particles.
pub struct CappedPool<P> {
    pub items: Vec<P>,
    pub cap: usize,
}

impl<P> CappedPool<P> {
    pub open spec fn wf(&self) -> bool {
        &&& self.cap > 0
        &&& self.items@.len() <= self.cap
    }

    /// An empty pool.
    pub fn new(cap: usize) -> (p: CappedPool<P>)
        requires
            cap > 0,
        ensures
            p.wf(),
            p.items@.len() == 0,
            p.cap == cap,
    {
        CappedPool { items: Vec::new(), cap }
    }

    /// Adds a particle; a full pool replaces the particle at `seed % len` instead.
    pub fn spawn(&mut self, particle: P, seed: u32)
        requires
            old(self).wf(),
        ensures
            final(self).wf(),
            final(self).cap == old(self).cap,
            old(self).items@.len() < old(self).cap ==> final(self).items@ == old(self).items@.push(
                particle,
            ),
            old(self).items@.len() >= old(self).cap ==> final(self).items@ == old(
                self,
            ).items@.update((seed as int) % (old(self).items@.len() as int), particle),
    {
        let len = self.items.len();
        if len >= self.cap {
            let i: usize = (seed as usize) % len;
            self.items[i] = particle;
        } else {
            self.items.push(particle);
        }
    }
}

} // verus!
