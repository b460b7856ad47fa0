//! Fixed-capacity histories of per-tick frequency entries.
use vstd::prelude::*;

verus! {

/// Number of ticks a frequency history holds.
pub const HISTORY_CAPACITY: usize = 500;

/// Position in the ring of the `i`-th oldest entry when the oldest sits at
/// `oldest`.
pub open spec fn ring_index(oldest: int, i: int) -> int {
    if oldest + i < HISTORY_CAPACITY {
        oldest + i
    } else {
        oldest + i - HISTORY_CAPACITY
    }
}

/// One entry per analysis tick: a frequency in millihertz, or `None` where no
/// pitch was found. Always exactly `HISTORY_CAPACITY` entries, kept in a ring
/// whose write cursor `oldest` marks both the oldest entry and the slot that
/// the next entry overwrites.
pub struct FrequencyHistory {
    slots: Vec<Option<u32>>,
    oldest: usize,
}

impl View for FrequencyHistory {
    type V = Seq<Option<u32>>;

    /// The entries, oldest first.
    closed spec fn view(&self) -> Seq<Option<u32>> {
        Seq::new(HISTORY_CAPACITY as nat, |i: int| self.slots@[ring_index(self.oldest as int, i)])
    }
}

impl FrequencyHistory {
    /// Every history holds exactly `HISTORY_CAPACITY` entries.
    pub proof fn lemma_full(&self)
        ensures
            self@.len() == HISTORY_CAPACITY,
    {
    }

    #[verifier::type_invariant]
    spec fn full(&self) -> bool {
        &&& self.slots@.len() == HISTORY_CAPACITY
        &&& self.oldest < HISTORY_CAPACITY
    }

    /// A history of `HISTORY_CAPACITY` absent entries.
    pub fn new() -> (h: Self)
        ensures
            h@ == Seq::new(HISTORY_CAPACITY as nat, |i: int| None::<u32>),
    {
        let mut slots: Vec<Option<u32>> = Vec::with_capacity(HISTORY_CAPACITY);
        let mut i: usize = 0;
        while i < HISTORY_CAPACITY
            invariant
                i <= HISTORY_CAPACITY,
                forall|j: int| 0 <= j < slots@.len() ==> slots@[j] is None,
                slots@.len() == i,
            decreases HISTORY_CAPACITY - i,
        {
            slots.push(None);
            i = i + 1;
        }
        let h = FrequencyHistory { slots, oldest: 0 };
        proof {
            assert(h@ =~= Seq::new(HISTORY_CAPACITY as nat, |i: int| None::<u32>));
        }
        h
    }

    /// Number of entries; always `HISTORY_CAPACITY`.
    pub fn len(&self) -> (n: usize)
        ensures
            n == self@.len(),
            n == HISTORY_CAPACITY,
    {
        HISTORY_CAPACITY
    }

    /// Appends `entry` as the newest and drops the oldest.
    pub fn push(&mut self, entry: Option<u32>)
        ensures
            final(self)@ == old(self)@.drop_first().push(entry),
            final(self)@.len() == HISTORY_CAPACITY,
    {
        proof {
            use_type_invariant(&*self);
        }
        let ghost before = self@;
        let at = self.oldest;
        self.slots[at] = entry;
        self.oldest = if at + 1 == HISTORY_CAPACITY {
            0
        } else {
            at + 1
        };
        proof {
            assert forall|i: int| 0 <= i < HISTORY_CAPACITY - 1 implies self@[i] == before[i + 1] by {
                assert(ring_index(self.oldest as int, i) == ring_index(at as int, i + 1));
            }
            assert(self@ =~= before.drop_first().push(entry));
        }
    }

    /// The entry at position `i`, counting from the oldest.
    pub fn get(&self, i: usize) -> (r: Option<u32>)
        requires
            i < HISTORY_CAPACITY,
        ensures
            r == self@[i as int],
    {
        proof {
            use_type_invariant(self);
        }
        let at = if self.oldest + i < HISTORY_CAPACITY {
            self.oldest + i
        } else {
            self.oldest + i - HISTORY_CAPACITY
        };
        self.slots[at]
    }

    /// The newest `k` entries, oldest first.
    pub fn trailing(&self, k: usize) -> (r: Vec<Option<u32>>)
        requires
            k <= HISTORY_CAPACITY,
        ensures
            r@ == self@.subrange(HISTORY_CAPACITY - k, HISTORY_CAPACITY as int),
    {
        let mut out: Vec<Option<u32>> = Vec::with_capacity(k);
        let mut i: usize = HISTORY_CAPACITY - k;
        while i < HISTORY_CAPACITY
            invariant
                k <= HISTORY_CAPACITY,
                HISTORY_CAPACITY - k <= i <= HISTORY_CAPACITY,
                out@ == self@.subrange(HISTORY_CAPACITY - k, i as int),
            decreases HISTORY_CAPACITY - i,
        {
            out.push(self.get(i));
            proof {
                assert(out@ =~= self@.subrange(HISTORY_CAPACITY - k, i + 1));
            }
            i = i + 1;
        }
        out
    }

    /// A copy of every entry, oldest first.
    pub fn to_vec(&self) -> (r: Vec<Option<u32>>)
        ensures
            r@ == self@,
            r@.len() == HISTORY_CAPACITY,
    {
        let r = self.trailing(HISTORY_CAPACITY);
        proof {
            assert(self@.subrange(0, HISTORY_CAPACITY as int) =~= self@);
        }
        r
    }
}

} // verus!
