use vstd::prelude::*;

verus! {

/// How many recent audio levels the ring keeps.
pub const BUFFER_SIZE: usize = 3;

/// The ring of the most recent audio levels: a fixed number of slots and the
/// slot that the next level is written to.
pub struct LevelRing<T> {
    slots: Vec<T>,
    cursor: usize,
}

impl<T> LevelRing<T> {
    /// Every ring has `BUFFER_SIZE` slots and its cursor names one of them.
    #[verifier::type_invariant]
    spec fn slots_and_cursor_in_range(self) -> bool {
        self.slots.len() == BUFFER_SIZE && self.cursor < BUFFER_SIZE
    }
}

/// A ring's abstract state: the slot contents and the slot to write next.
pub struct RingState<T> {
    pub slots: Seq<T>,
    pub cursor: nat,
}

/// A ring state is well formed when it has `BUFFER_SIZE` slots and the
/// cursor names one of them.
pub open spec fn ring_wf<T>(r: RingState<T>) -> bool {
    r.slots.len() == BUFFER_SIZE && r.cursor < BUFFER_SIZE
}

/// The slot after `i`, wrapping to the first after the last.
pub open spec fn next_slot(i: nat) -> nat {
    if i < BUFFER_SIZE - 1 {
        (i + 1) as nat
    } else {
        0
    }
}

/// Writing a level: it goes into the cursor's slot and the cursor moves on.
pub open spec fn ring_push<T>(r: RingState<T>, x: T) -> RingState<T> {
    RingState { slots: r.slots.update(r.cursor as int, x), cursor: next_slot(r.cursor) }
}

/// Writing the levels `xs` one after another, first to last.
pub open spec fn ring_push_all<T>(r: RingState<T>, xs: Seq<T>) -> RingState<T>
    decreases xs.len(),
{
    if xs.len() == 0 {
        r
    } else {
        ring_push(ring_push_all(r, xs.drop_last()), xs.last())
    }
}

impl<T> View for LevelRing<T> {
    type V = RingState<T>;

    closed spec fn view(&self) -> RingState<T> {
        RingState { slots: self.slots@, cursor: self.cursor as nat }
    }
}

impl<T: Copy> LevelRing<T> {
    /// A ring whose slots all hold `fill`, writing to the first slot next.
    pub fn new(fill: T) -> (r: LevelRing<T>)
        ensures
            ring_wf(r@),
            r@.slots == Seq::new(BUFFER_SIZE as nat, |i: int| fill),
            r@.cursor == 0,
    {
        let mut slots: Vec<T> = Vec::new();
        let mut i: usize = 0;
        while i < BUFFER_SIZE
            invariant
                i <= BUFFER_SIZE,
                slots@ == Seq::new(i as nat, |j: int| fill),
            decreases BUFFER_SIZE - i,
        {
            slots.push(fill);
            i = i + 1;
        }
        LevelRing { slots, cursor: 0 }
    }

    /// Writes a level into the ring, overwriting the oldest one.
    pub fn push(&mut self, x: T)
        ensures
            ring_wf(old(self)@),
            ring_wf(final(self)@),
            final(self)@ == ring_push(old(self)@, x),
        no_unwind
    {
        proof {
            use_type_invariant(&*self);
        }
        let c = self.cursor;
        self.slots[c] = x;
        if self.cursor < BUFFER_SIZE - 1 {
            self.cursor = self.cursor + 1;
        } else {
            self.cursor = 0;
        }
    }

    /// The levels in the ring, slot by slot.
    pub fn values(&self) -> (v: &Vec<T>)
        ensures
            ring_wf(self@),
            v@ == self@.slots,
    {
        proof {
            use_type_invariant(self);
        }
        &self.slots
    }
}

/// After a run of writes, the cursor has moved on by the number of writes,
/// and each of the last `BUFFER_SIZE` levels sits in the slot it was written
/// to: the ring holds exactly the most recent levels.
pub proof fn lemma_ring_keeps_latest<T>(r: RingState<T>, xs: Seq<T>)
    requires
        ring_wf(r),
    ensures
        ring_wf(ring_push_all(r, xs)),
        ring_push_all(r, xs).cursor == (r.cursor + xs.len()) as int % (BUFFER_SIZE as int),
        forall|k: int|
            0 <= k < xs.len() && xs.len() <= k + BUFFER_SIZE ==> ring_push_all(r, xs).slots[(r.cursor + k)
                % (BUFFER_SIZE as int)] == #[trigger] xs[k],
    decreases xs.len(),
{
    if xs.len() > 0 {
        let ys = xs.drop_last();
        lemma_ring_keeps_latest(r, ys);
        let s = ring_push_all(r, ys);
        let n = xs.len() - 1;
        assert forall|k: int|
            0 <= k < xs.len() && xs.len() <= k + BUFFER_SIZE implies ring_push_all(r, xs).slots[(r.cursor + k)
                % (BUFFER_SIZE as int)] == #[trigger] xs[k] by {
            if k < n {
                assert(ys[k] == xs[k]);
                assert((r.cursor + k) % 3 != (r.cursor + n) % 3);
            }
        }
    }
}

} // verus!
