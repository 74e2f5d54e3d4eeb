//! The ring buffer of recent touch samples behind velocity estimation.
//!
//! A fling's release velocity is estimated from the most recent touch
//! samples of a drag.  The ring keeps the last `MAX_SAMPLES` samples in
//! fixed slots, overwriting the oldest one once it is full.

use vstd::prelude::*;

verus! {

/// Maximum number of recent touch samples kept for velocity estimation.
pub const MAX_SAMPLES: usize = 20;

/// The abstract state of a ring: its slots, the next slot to write, and the
/// number of samples recorded since the last reset.
pub struct RingModel<T> {
    pub slots: Seq<Option<T>>,
    pub index: nat,
    pub count: nat,
}

impl<T> RingModel<T> {
    /// A ring with every slot empty.
    pub open spec fn empty() -> RingModel<T> {
        RingModel { slots: Seq::new(MAX_SAMPLES as nat, |i: int| None::<T>), index: 0, count: 0 }
    }

    /// The ring after recording `x`: it goes into the next slot, and the
    /// next slot advances cyclically.
    pub open spec fn recorded(self, x: T) -> RingModel<T> {
        RingModel {
            slots: self.slots.update(self.index as int, Some(x)),
            index: (self.index + 1) % (MAX_SAMPLES as nat),
            count: self.count + 1,
        }
    }

    /// The ring after recording every sample of `xs`, in order.
    pub open spec fn recorded_all(self, xs: Seq<T>) -> RingModel<T>
        decreases xs.len(),
    {
        if xs.len() == 0 {
            self
        } else {
            self.recorded_all(xs.drop_last()).recorded(xs.last())
        }
    }
}

/// The samples held in a sequence of slots, in slot order.
pub open spec fn occupied<T>(slots: Seq<Option<T>>) -> Seq<T>
    decreases slots.len(),
{
    if slots.len() == 0 {
        Seq::empty()
    } else {
        let rest = occupied(slots.drop_last());
        match slots.last() {
            Some(x) => rest.push(x),
            None => rest,
        }
    }
}

/// A fixed-size ring of the most recent samples.
pub struct SampleRing<T> {
    samples: Vec<Option<T>>,
    index: usize,
    count: usize,
}

impl<T> View for SampleRing<T> {
    type V = RingModel<T>;

    closed spec fn view(&self) -> RingModel<T> {
        RingModel { slots: self.samples@, index: self.index as nat, count: self.count as nat }
    }
}

impl<T: Copy> SampleRing<T> {
    /// The ring has `MAX_SAMPLES` slots and its next slot is one of them.
    pub open spec fn wf(&self) -> bool {
        &&& self@.slots.len() == MAX_SAMPLES
        &&& self@.index < MAX_SAMPLES
    }

    /// A ring with every slot empty.
    pub fn new() -> (r: Self)
        ensures
            r.wf(),
            r@ == RingModel::<T>::empty(),
    {
        let mut samples: Vec<Option<T>> = Vec::new();
        let mut i: usize = 0;
        while i < MAX_SAMPLES
            invariant
                i <= MAX_SAMPLES,
                samples@.len() == i,
                forall|j: int| 0 <= j < i ==> samples@[j] == None::<T>,
            decreases MAX_SAMPLES - i,
        {
            samples.push(None);
            i = i + 1;
        }
        let r = SampleRing { samples, index: 0, count: 0 };
        assert(r@.slots =~= RingModel::<T>::empty().slots);
        r
    }

    /// Records a sample in the next slot, overwriting the oldest sample once
    /// every slot is in use.
    pub fn record(&mut self, x: T)
        requires
            old(self).wf(),
            old(self)@.count < usize::MAX,
        ensures
            final(self).wf(),
            final(self)@ == old(self)@.recorded(x),
    {
        self.samples.set(self.index, Some(x));
        self.index = (self.index + 1) % MAX_SAMPLES;
        self.count = self.count + 1;
    }

    /// Empties every slot, for a new gesture.
    pub fn reset(&mut self)
        requires
            old(self).wf(),
        ensures
            final(self).wf(),
            final(self)@ == RingModel::<T>::empty(),
    {
        let mut i: usize = 0;
        while i < MAX_SAMPLES
            invariant
                i <= MAX_SAMPLES,
                self.samples@.len() == MAX_SAMPLES,
                forall|j: int| 0 <= j < i ==> self.samples@[j] == None::<T>,
            decreases MAX_SAMPLES - i,
        {
            self.samples.set(i, None);
            i = i + 1;
        }
        self.index = 0;
        self.count = 0;
        assert(self@.slots =~= RingModel::<T>::empty().slots);
    }

    /// The number of samples recorded since the last reset (it may exceed
    /// the number of slots).
    pub fn count(&self) -> (r: usize)
        ensures
            r == self@.count,
    {
        self.count
    }

    /// The samples held, in slot order.
    pub fn stored(&self) -> (r: Vec<T>)
        requires
            self.wf(),
        ensures
            r@ == occupied(self@.slots),
    {
        let mut out: Vec<T> = Vec::new();
        let mut i: usize = 0;
        while i < self.samples.len()
            invariant
                i <= self.samples@.len(),
                out@ == occupied(self.samples@.take(i as int)),
            decreases self.samples@.len() - i,
        {
            proof {
                assert(self.samples@.take(i as int + 1).drop_last() =~= self.samples@.take(i as int));
            }
            match self.samples[i] {
                Some(x) => out.push(x),
                None => {},
            }
            i = i + 1;
        }
        assert(self.samples@.take(i as int) =~= self.samples@);
        out
    }
}

/// After recording the samples `xs` into an empty ring, each of the last
/// `MAX_SAMPLES` samples is held in the slot given by its position modulo
/// `MAX_SAMPLES`, the slots beyond the number of samples recorded are empty,
/// and the ring counts every sample.
pub proof fn lemma_ring_keeps_latest<T>(xs: Seq<T>)
    ensures
        ({
            let m = RingModel::<T>::empty().recorded_all(xs);
            &&& m.slots.len() == MAX_SAMPLES
            &&& m.count == xs.len()
            &&& m.index == xs.len() % (MAX_SAMPLES as nat)
            &&& forall|k: int|
                0 <= k < xs.len() && xs.len() - (MAX_SAMPLES as int) <= k ==> m.slots[k % (MAX_SAMPLES as int)]
                    == Some(#[trigger] xs[k])
            &&& forall|j: int| xs.len() <= j < MAX_SAMPLES ==> #[trigger] m.slots[j] == None::<T>
        }),
    decreases xs.len(),
{
    if xs.len() > 0 {
        let init = xs.drop_last();
        lemma_ring_keeps_latest(init);
        let m0 = RingModel::<T>::empty().recorded_all(init);
        let m = RingModel::<T>::empty().recorded_all(xs);
        let n = init.len() as int;
        assert(m == m0.recorded(xs.last()));
        assert forall|k: int| 0 <= k < xs.len() && xs.len() - (MAX_SAMPLES as int) <= k implies m.slots[k
            % (MAX_SAMPLES as int)] == Some(#[trigger] xs[k]) by {
            if k < n {
                assert(xs[k] == init[k]);
                assert(k % 20 != n % 20);
            }
        }
    }
}

} // verus!
