use std::collections::VecDeque;
use vstd::prelude::*;

verus! {

/// Whether a jitter buffer is still filling up or is handing samples out.
#[derive(Clone, Copy, PartialEq, Eq, Debug, Structural)]
pub enum BufferState {
    Buffering,
    Playing,
}

/// The samples that survive a push: the buffer is capped at `max` samples by
/// dropping the oldest ones, so the newest `max` samples stay.
pub open spec fn capped<S>(samples: Seq<S>, max: nat) -> Seq<S> {
    if samples.len() > max {
        samples.skip(samples.len() - max)
    } else {
        samples
    }
}

/// The state after a push that left `len` samples in the buffer.
pub open spec fn state_after_push(state: BufferState, len: nat, target: nat) -> BufferState {
    if state == BufferState::Buffering && len >= target {
        BufferState::Playing
    } else {
        state
    }
}

/// A pop plays only silence while the buffer is buffering and still below
/// its target.
pub open spec fn pop_is_silent<S>(state: BufferState, samples: Seq<S>, target: nat) -> bool {
    state == BufferState::Buffering && samples.len() < target
}

/// How many buffered samples a pop of `n` samples hands out.
pub open spec fn pop_taken<S>(state: BufferState, samples: Seq<S>, target: nat, n: nat) -> nat {
    if pop_is_silent(state, samples, target) {
        0
    } else if samples.len() < n {
        samples.len()
    } else {
        n
    }
}

/// `n` copies of the silent sample.
pub open spec fn silence_run<S>(n: nat, silence: S) -> Seq<S> {
    Seq::new(n, |i: int| silence)
}

/// What a pop of `n` samples writes: the oldest buffered samples it takes,
/// then silence for the rest.
pub open spec fn pop_output<S>(state: BufferState, samples: Seq<S>, target: nat, n: nat, silence: S) -> Seq<S> {
    let k = pop_taken(state, samples, target, n);
    samples.take(k as int) + silence_run((n - k) as nat, silence)
}

/// The samples left in the buffer after a pop of `n` samples.
pub open spec fn pop_remaining<S>(state: BufferState, samples: Seq<S>, target: nat, n: nat) -> Seq<S> {
    if pop_is_silent(state, samples, target) {
        samples
    } else if samples.len() < n {
        Seq::empty()
    } else {
        samples.skip(n as int)
    }
}

/// The state after a pop of `n` samples: a pop that finds too few samples
/// (an underrun) goes back to buffering.
pub open spec fn state_after_pop<S>(state: BufferState, samples: Seq<S>, target: nat, n: nat) -> BufferState {
    if pop_is_silent(state, samples, target) || samples.len() < n {
        BufferState::Buffering
    } else {
        BufferState::Playing
    }
}

/// Capping a sequence after one more sample is capping it before, adding
/// the sample, and dropping the oldest sample if that goes over the cap.
proof fn lemma_capped_push<S>(samples: Seq<S>, x: S, max: nat)
    ensures
        ({
            let grown = capped(samples, max).push(x);
            capped(samples.push(x), max) == if grown.len() > max {
                grown.drop_first()
            } else {
                grown
            }
        }),
{
    let grown = capped(samples, max).push(x);
    let expected = if grown.len() > max {
        grown.drop_first()
    } else {
        grown
    };
    assert(capped(samples.push(x), max) =~= expected);
}

/// A playout buffer that absorbs network jitter: it collects `target_samples`
/// samples before it starts playing, never holds more than twice that many,
/// and plays silence while it is filling up again after an underrun.
pub struct JitterBuffer<S> {
    buffer: VecDeque<S>,
    state: BufferState,
    target_samples: usize,
    silence: S,
}

impl<S: Copy + Default> JitterBuffer<S> {
    /// The samples held, oldest first.
    pub closed spec fn buffered(&self) -> Seq<S> {
        self.buffer@
    }

    /// Whether the buffer is buffering or playing.
    pub closed spec fn phase(&self) -> BufferState {
        self.state
    }

    /// How many samples the buffer collects before it plays.
    pub closed spec fn target(&self) -> nat {
        self.target_samples as nat
    }

    /// The sample written where there is nothing to play.
    pub closed spec fn silence(&self) -> S {
        self.silence
    }

    /// An empty buffer that is buffering towards `target_samples` samples;
    /// its silent sample is `S::default()`.
    pub fn new(target_samples: usize) -> (jb: Self)
        ensures
            jb.buffered() == Seq::<S>::empty(),
            jb.phase() == BufferState::Buffering,
            jb.target() == target_samples,
            call_ensures(S::default, (), jb.silence()),
    {
        JitterBuffer {
            buffer: VecDeque::new(),
            state: BufferState::Buffering,
            target_samples,
            silence: S::default(),
        }
    }

    /// Appends `samples`, drops the oldest samples beyond twice the target,
    /// and starts playing once the target is reached.
    pub fn push(&mut self, samples: &[S])
        requires
            old(self).target() * 2 <= usize::MAX,
        ensures
            final(self).buffered() == capped(old(self).buffered() + samples@, 2 * old(self).target()),
            final(self).buffered().len() <= 2 * old(self).target(),
            final(self).phase() == state_after_push(
                old(self).phase(),
                final(self).buffered().len(),
                old(self).target(),
            ),
            final(self).target() == old(self).target(),
            final(self).silence() == old(self).silence(),
    {
        let ghost start = self.buffer@;
        let max_samples = self.target_samples * 2;
        let ghost max = max_samples as nat;
        // Samples beyond the cap cannot survive the push: drop them first,
        // so that the buffer never grows past the cap by more than one.
        let ghost mut k: int = 0;
        while self.buffer.len() > max_samples
            invariant
                0 <= k <= start.len(),
                self.buffer@ == start.skip(k),
                k > 0 ==> start.len() - k >= max,
                max_samples == max,
                max == 2 * old(self).target_samples,
                self.state == old(self).state,
                self.target_samples == old(self).target_samples,
                self.silence == old(self).silence,
                start == old(self).buffer@,
            decreases self.buffer@.len(),
        {
            self.buffer.pop_front();
            proof {
                k = k + 1;
            }
        }
        assert(self.buffer@ == capped(start, max)) by {
            if k == 0 {
                assert(start.skip(0) =~= start);
            }
        }
        let mut i: usize = 0;
        while i < samples.len()
            invariant
                i <= samples@.len(),
                self.buffer@ == capped(start + samples@.take(i as int), max),
                self.buffer@.len() <= max,
                max_samples == max,
                max == 2 * old(self).target_samples,
                self.state == old(self).state,
                self.target_samples == old(self).target_samples,
                self.silence == old(self).silence,
                start == old(self).buffer@,
            decreases samples@.len() - i,
        {
            let ghost before = start + samples@.take(i as int);
            self.buffer.push_back(samples[i]);
            if self.buffer.len() > max_samples {
                self.buffer.pop_front();
            }
            proof {
                lemma_capped_push(before, samples@[i as int], max);
                assert(start + samples@.take(i + 1) =~= before.push(samples@[i as int]));
            }
            i = i + 1;
        }
        assert(samples@.take(samples@.len() as int) == samples@);
        if self.state == BufferState::Buffering && self.buffer.len() >= self.target_samples {
            self.state = BufferState::Playing;
        }
    }

    /// Fills `out`: with silence while buffering below the target; otherwise
    /// with the oldest samples, and, where too few are left (an underrun), with
    /// what is there followed by silence, going back to buffering.
    pub fn pop(&mut self, out: &mut [S])
        ensures
            final(out)@ == pop_output(
                old(self).phase(),
                old(self).buffered(),
                old(self).target(),
                old(out)@.len(),
                old(self).silence(),
            ),
            final(self).buffered() == pop_remaining(
                old(self).phase(),
                old(self).buffered(),
                old(self).target(),
                old(out)@.len(),
            ),
            final(self).phase() == state_after_pop(
                old(self).phase(),
                old(self).buffered(),
                old(self).target(),
                old(out)@.len(),
            ),
            final(self).target() == old(self).target(),
            final(self).silence() == old(self).silence(),
    {
        let ghost start = self.buffer@;
        let ghost out_len = out@.len();
        let to_read = out.len();
        let silence = self.silence;
        if self.state == BufferState::Buffering {
            if self.buffer.len() >= self.target_samples {
                self.state = BufferState::Playing;
            } else {
                let mut i: usize = 0;
                while i < to_read
                    invariant
                        i <= to_read,
                        to_read == out@.len(),
                        forall|j: int| 0 <= j < i ==> out@[j] == silence,
                    decreases to_read - i,
                {
                    out[i] = silence;
                    i = i + 1;
                }
                assert(out@ == pop_output(
                    old(self).phase(),
                    start,
                    old(self).target(),
                    out_len,
                    silence,
                ));
                return;
            }
        }
        if self.buffer.len() < to_read {
            let available = self.buffer.len();
            let mut i: usize = 0;
            while i < available
                invariant
                    i <= available,
                    available == start.len(),
                    available < to_read,
                    to_read == out@.len(),
                    self.buffer@ == start.skip(i as int),
                    forall|j: int| 0 <= j < i ==> out@[j] == start[j],
                    self.state == BufferState::Playing,
                    self.target_samples == old(self).target_samples,
                    self.silence == silence,
                decreases available - i,
            {
                out[i] = self.buffer.pop_front().unwrap_or(silence);
                i = i + 1;
            }
            let mut i: usize = available;
            while i < to_read
                invariant
                    available <= i <= to_read,
                    to_read == out@.len(),
                    forall|j: int| 0 <= j < available ==> out@[j] == start[j],
                    forall|j: int| available <= j < i ==> out@[j] == silence,
                decreases to_read - i,
            {
                out[i] = silence;
                i = i + 1;
            }
            self.state = BufferState::Buffering;
            assert(self.buffer@ =~= Seq::<S>::empty());
            assert(out@ =~= pop_output(
                old(self).phase(),
                start,
                old(self).target(),
                out_len,
                silence,
            ));
        } else {
            let mut i: usize = 0;
            while i < to_read
                invariant
                    i <= to_read,
                    to_read <= start.len(),
                    to_read == out@.len(),
                    self.buffer@ == start.skip(i as int),
                    forall|j: int| 0 <= j < i ==> out@[j] == start[j],
                    self.state == BufferState::Playing,
                    self.target_samples == old(self).target_samples,
                    self.silence == silence,
                decreases to_read - i,
            {
                out[i] = self.buffer.pop_front().unwrap_or(silence);
                i = i + 1;
            }
            assert(out@ =~= pop_output(
                old(self).phase(),
                start,
                old(self).target(),
                out_len,
                silence,
            ));
        }
    }
}

/// Pushing never makes the buffer exceed twice its target, never drops a
/// sample while it fits, and when it must drop samples it keeps the newest
/// ones in their order.
pub proof fn lemma_push_keeps_newest<S>(samples: Seq<S>, max: nat)
    ensures
        samples.len() <= max ==> capped(samples, max) == samples,
        capped(samples, max).len() == if samples.len() > max { max } else { samples.len() },
        capped(samples, max) == samples.skip(samples.len() - capped(samples, max).len()),
{
    if samples.len() <= max {
        assert(samples.skip(0) =~= samples);
    }
}

/// First in, first out: once the buffer plays and nothing has been dropped,
/// a pop hands out exactly the oldest samples in the order they were pushed,
/// and keeps the rest for the next pop.
pub proof fn lemma_push_then_pop_in_order<S>(
    state: BufferState,
    held: Seq<S>,
    pushed: Seq<S>,
    target: nat,
    n: nat,
    silence: S,
)
    requires
        held.len() + pushed.len() <= 2 * target,
        n <= held.len() + pushed.len(),
        state == BufferState::Playing || held.len() + pushed.len() >= target,
    ensures
        ({
            let all = capped(held + pushed, 2 * target);
            let st = state_after_push(state, all.len(), target);
            &&& all == held + pushed
            &&& st == BufferState::Playing
            &&& pop_output(st, all, target, n, silence) == (held + pushed).take(n as int)
            &&& pop_remaining(st, all, target, n) == (held + pushed).skip(n as int)
            &&& state_after_pop(st, all, target, n) == BufferState::Playing
        }),
{
    let all = held + pushed;
    assert(capped(all, 2 * target) == all);
    assert(silence_run(0, silence) =~= Seq::<S>::empty());
    assert(all.take(n as int) + silence_run(0, silence) =~= all.take(n as int));
}

/// A pop neither invents nor loses a sample: it writes exactly `n` samples,
/// the ones it takes from the front of the buffer followed by silence, and
/// the taken samples followed by what is left are the samples held before.
pub proof fn lemma_pop_conserves_samples<S>(
    state: BufferState,
    samples: Seq<S>,
    target: nat,
    n: nat,
    silence: S,
)
    ensures
        ({
            let k = pop_taken(state, samples, target, n);
            let out = pop_output(state, samples, target, n, silence);
            &&& k <= n
            &&& out.len() == n
            &&& out.take(k as int) + pop_remaining(state, samples, target, n) == samples
            &&& forall|i: int| k <= i < n ==> out[i] == silence
        }),
{
    let k = pop_taken(state, samples, target, n);
    let out = pop_output(state, samples, target, n, silence);
    assert(out.take(k as int) =~= samples.take(k as int));
    if pop_is_silent(state, samples, target) {
        assert(samples.take(0) + samples =~= samples);
    } else if samples.len() < n {
        assert(samples.take(k as int) + Seq::<S>::empty() =~= samples);
    } else {
        assert(samples.take(n as int) + samples.skip(n as int) =~= samples);
    }
}

/// What every push keeps, whatever the buffer held before: it never holds
/// more than twice its target; it holds the newest samples of what it held
/// followed by what was pushed; while it is still buffering it holds fewer
/// than its target; and once playing it stays playing.
pub proof fn lemma_push_invariants<S>(state: BufferState, held: Seq<S>, pushed: Seq<S>, target: nat)
    ensures
        ({
            let all = held + pushed;
            let kept = capped(all, 2 * target);
            let st = state_after_push(state, kept.len(), target);
            &&& kept.len() <= 2 * target
            &&& exists|k: int| 0 <= k <= all.len() && kept == all.subrange(k, all.len() as int)
            &&& (st == BufferState::Buffering ==> kept.len() < target)
            &&& (state == BufferState::Playing ==> st == BufferState::Playing)
        }),
{
    let all = held + pushed;
    let kept = capped(all, 2 * target);
    if all.len() > 2 * target {
        let k = all.len() - 2 * target;
        assert(kept == all.subrange(k, all.len() as int));
    } else {
        assert(kept == all.subrange(0, all.len() as int));
    }
}

} // verus!
