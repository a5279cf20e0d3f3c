//! The decoder's window: the most recent samples of a signal, oldest first,
//! never more than the number that one colour is recovered from.

use std::collections::VecDeque;
use vstd::prelude::*;

verus! {

/// What a window of the given capacity keeps of the samples pushed so far,
/// oldest first: the last `capacity` of them, or all where there are fewer.
pub open spec fn retained<T>(capacity: nat, pushed: Seq<T>) -> Seq<T> {
    if pushed.len() <= capacity {
        pushed
    } else {
        pushed.subrange(pushed.len() - capacity, pushed.len() as int)
    }
}

/// Pushing onto the window is pushing onto the history: what is kept of a
/// window with one more sample is what is kept of everything pushed so far
/// with that sample.
pub proof fn lemma_retained_push<T>(capacity: nat, pushed: Seq<T>, sample: T)
    ensures
        retained(capacity, retained(capacity, pushed).push(sample)) == retained(
            capacity,
            pushed.push(sample),
        ),
{
    assert(retained(capacity, retained(capacity, pushed).push(sample)) =~= retained(
        capacity,
        pushed.push(sample),
    ));
}

/// A window is full exactly when at least as many samples were pushed as it
/// has room for, and it never holds more.
pub proof fn lemma_retained_len<T>(capacity: nat, pushed: Seq<T>)
    ensures
        retained(capacity, pushed).len() <= capacity,
        retained(capacity, pushed).len() == capacity <==> pushed.len() >= capacity,
        retained(capacity, pushed).len() == if pushed.len() <= capacity {
            pushed.len()
        } else {
            capacity
        },
{
}

/// Keeps the last samples of a signal, each a time and an amplitude in the
/// scalar type `S`, for the demodulator to integrate.
pub struct NtscDecoder<S> {
    sample_count: usize,
    sample_queue: VecDeque<(S, S)>,
    pushed: Ghost<Seq<(S, S)>>,
}

impl<S> View for NtscDecoder<S> {
    type V = Seq<(S, S)>;

    /// The samples in the window, oldest first.
    closed spec fn view(&self) -> Seq<(S, S)> {
        self.sample_queue@
    }
}

impl<S> NtscDecoder<S> {
    #[verifier::type_invariant]
    spec fn well_formed(self) -> bool {
        &&& self.sample_count >= 1
        &&& self.sample_queue@ == retained(self.sample_count as nat, self.pushed@)
    }

    /// The number of samples that one colour is recovered from.
    pub closed spec fn capacity(&self) -> nat {
        self.sample_count as nat
    }

    /// Every sample pushed since the decoder was made, in the order of the
    /// pushes.
    pub closed spec fn history(&self) -> Seq<(S, S)> {
        self.pushed@
    }

    /// An empty window for `sample_count` samples, of which there is at least
    /// one.
    pub fn new(sample_count: usize) -> (dec: Self)
        requires
            sample_count >= 1,
        ensures
            dec.capacity() == sample_count,
            dec.history() == Seq::<(S, S)>::empty(),
            dec@ == Seq::<(S, S)>::empty(),
    {
        NtscDecoder { sample_count, sample_queue: VecDeque::new(), pushed: Ghost(Seq::empty()) }
    }

    /// The number of samples that one colour is recovered from: at least one.
    pub fn sample_count(&self) -> (n: usize)
        ensures
            n == self.capacity(),
            n >= 1,
            self@ == retained(self.capacity(), self.history()),
    {
        proof {
            use_type_invariant(self);
        }
        self.sample_count
    }

    /// Appends a sample. Where the window then holds more than its capacity,
    /// the oldest samples leave: the window is always the last `capacity`
    /// samples of the history.
    pub fn push_sample(&mut self, time: S, value: S)
        ensures
            final(self).capacity() == old(self).capacity(),
            final(self).history() == old(self).history().push((time, value)),
            final(self)@ == retained(final(self).capacity(), final(self).history()),
            final(self)@ == retained(old(self).capacity(), old(self)@.push((time, value))),
    {
        proof {
            use_type_invariant(&*self);
            lemma_retained_push(self.sample_count as nat, self.pushed@, (time, value));
        }
        let mut taken: NtscDecoder<S> = NtscDecoder::new(self.sample_count);
        std::mem::swap(self, &mut taken);
        let NtscDecoder { sample_count, sample_queue, pushed } = taken;
        let mut queue: VecDeque<(S, S)> = sample_queue;
        queue.push_back((time, value));
        let ghost longer = queue@;
        while queue.len() > sample_count
            invariant
                queue@.len() <= longer.len(),
                queue@.len() >= sample_count || queue@.len() == longer.len(),
                queue@ == longer.subrange(longer.len() - queue@.len(), longer.len() as int),
            decreases queue@.len(),
        {
            queue.pop_front();
        }
        assert(queue@ == retained(sample_count as nat, longer));
        *self = NtscDecoder {
            sample_count,
            sample_queue: queue,
            pushed: Ghost(pushed@.push((time, value))),
        };
    }

    /// Whether the window holds as many samples as one colour is recovered
    /// from: whether at least that many were ever pushed.
    pub fn is_full(&self) -> (full: bool)
        ensures
            full == (self@.len() == self.capacity()),
            full == (self.history().len() >= self.capacity()),
    {
        proof {
            use_type_invariant(self);
        }
        self.sample_queue.len() == self.sample_count
    }

    /// The samples to integrate, oldest first, once the window is full: the
    /// last `capacity` samples pushed, in the order of the pushes. Until then
    /// `None`.
    pub fn window(&self) -> (samples: Option<&VecDeque<(S, S)>>)
        ensures
            match samples {
                Some(queue) => {
                    &&& self.history().len() >= self.capacity()
                    &&& queue@.len() == self.capacity()
                    &&& queue@.len() >= 1
                    &&& queue@ == self@
                    &&& queue@ == self.history().subrange(
                        self.history().len() - self.capacity(),
                        self.history().len() as int,
                    )
                },
                None => self.history().len() < self.capacity(),
            },
    {
        proof {
            use_type_invariant(self);
        }
        if self.sample_queue.len() == self.sample_count {
            proof {
                let all = self.pushed@;
                assert(all.subrange(0, all.len() as int) =~= all);
            }
            Some(&self.sample_queue)
        } else {
            None
        }
    }
}

} // verus!
