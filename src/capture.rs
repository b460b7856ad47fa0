//! The capture buffer: a bounded FIFO of raw audio samples.
use std::collections::VecDeque;
use vstd::prelude::*;

verus! {

/// Most samples the capture buffer retains.
pub const CAPTURE_CAPACITY: usize = 200000;

/// The last `n` items of `s` (all of `s` when it is shorter).
pub open spec fn keep_last<T>(s: Seq<T>, n: nat) -> Seq<T> {
    if s.len() <= n {
        s
    } else {
        s.subrange(s.len() - n, s.len() as int)
    }
}

/// However long the input, keeping the last `n` items leaves at most `n`,
/// and they are the newest ones, in the order they came in.
pub proof fn lemma_keep_last<T>(s: Seq<T>, n: nat)
    ensures
        keep_last(s, n).len() <= n,
        keep_last(s, n).len() == if s.len() <= n { s.len() } else { n },
        forall|i: int|
            0 <= i < keep_last(s, n).len() ==> keep_last(s, n)[i] == s[s.len() - keep_last(
                s,
                n,
            ).len() + i],
{
}

/// Raw audio samples in order of arrival. Once more than
/// `CAPTURE_CAPACITY` samples have arrived, the oldest are dropped.
pub struct CaptureBuffer<T> {
    samples: VecDeque<T>,
}

impl<T> View for CaptureBuffer<T> {
    type V = Seq<T>;

    closed spec fn view(&self) -> Seq<T> {
        self.samples@
    }
}

impl<T> CaptureBuffer<T> {
    #[verifier::type_invariant]
    spec fn bounded(&self) -> bool {
        self.samples@.len() <= CAPTURE_CAPACITY
    }
}

impl<T: Copy> CaptureBuffer<T> {
    /// An empty buffer.
    pub fn new() -> (b: Self)
        ensures
            b@ == Seq::<T>::empty(),
    {
        CaptureBuffer { samples: VecDeque::new() }
    }

    /// Number of samples held; never more than `CAPTURE_CAPACITY`.
    pub fn len(&self) -> (n: usize)
        ensures
            n == self@.len(),
            n <= CAPTURE_CAPACITY,
    {
        proof {
            use_type_invariant(self);
        }
        self.samples.len()
    }

    /// Appends `input` in order, then drops the oldest samples until at most
    /// `CAPTURE_CAPACITY` remain.
    pub fn append(&mut self, input: &[T])
        ensures
            final(self)@ == keep_last(old(self)@ + input@, CAPTURE_CAPACITY as nat),
            final(self)@.len() <= CAPTURE_CAPACITY,
    {
        proof {
            use_type_invariant(&*self);
        }
        let mut samples: VecDeque<T> = VecDeque::new();
        std::mem::swap(&mut samples, &mut self.samples);
        let ghost start = samples@;
        let mut i: usize = 0;
        while i < input.len()
            invariant
                0 <= i <= input@.len(),
                samples@.len() <= CAPTURE_CAPACITY,
                samples@ == keep_last(start + input@.subrange(0, i as int), CAPTURE_CAPACITY as nat),
            decreases input@.len() - i,
        {
            samples.push_back(input[i]);
            if samples.len() > CAPTURE_CAPACITY {
                samples.pop_front();
            }
            proof {
                let all = start + input@.subrange(0, i as int);
                let next = start + input@.subrange(0, i + 1);
                assert(next =~= all.push(input@[i as int]));
                assert(samples@ =~= keep_last(next, CAPTURE_CAPACITY as nat));
            }
            i = i + 1;
        }
        proof {
            assert(input@.subrange(0, input@.len() as int) =~= input@);
        }
        self.samples = samples;
    }

    /// The most recent `n` samples, oldest first, or `None` when fewer than
    /// `n` are held. The buffer is left as it is.
    pub fn snapshot_tail(&self, n: usize) -> (r: Option<Vec<T>>)
        ensures
            r is None <==> self@.len() < n,
            r matches Some(v) ==> v@ == self@.subrange(self@.len() - n, self@.len() as int),
    {
        let len = self.samples.len();
        if len < n {
            return None;
        }
        let mut out: Vec<T> = Vec::with_capacity(n);
        let mut i: usize = len - n;
        while i < len
            invariant
                len == self@.len(),
                n <= len,
                len - n <= i <= len,
                out@ == self@.subrange(len - n, i as int),
            decreases len - i,
        {
            out.push(self.samples[i]);
            proof {
                assert(out@ =~= self@.subrange(len - n, i + 1));
            }
            i = i + 1;
        }
        Some(out)
    }
}

} // verus!
