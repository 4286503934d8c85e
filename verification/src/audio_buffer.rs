//! Fixed-shape multichannel sample buffers and their elementwise operations.
//!
//! A buffer is generic over its sample type. The arithmetic on samples is that
//! of the sample type's own operators, which may round and may differ between
//! runs, so every contract relates a result to its operands through the
//! operator's postcondition rather than through a formula.

use vstd::prelude::*;
use crate::interleaving::{deinterleave, interleave, lemma_flat_position};

verus! {

/// What an effect reports after processing one block.
#[derive(Clone, Copy, Debug, PartialEq, Eq, Structural)]
pub enum AudioEffectState {
    /// Reverberant energy persists: keep processing, even on silent input.
    TailRemaining,
    /// Nothing is left to play out: processing may stop.
    TailComplete,
}

/// The fixed configuration an effect is driven with.
#[derive(Clone, Copy, Debug, PartialEq, Eq, Structural)]
pub struct AudioSettings {
    pub sampling_rate: i32,
    pub frame_size: usize,
}

impl AudioSettings {
    pub fn new(sampling_rate: i32, frame_size: usize) -> (settings: Self)
        ensures
            settings.sampling_rate == sampling_rate,
            settings.frame_size == frame_size,
    {
        Self { sampling_rate, frame_size }
    }
}

impl Default for AudioSettings {
    fn default() -> (settings: Self)
        ensures
            settings.sampling_rate == 0,
            settings.frame_size == 0,
    {
        Self { sampling_rate: 0, frame_size: 0 }
    }
}

/// `sample` is a value that the sample type's `default()` may return: silence.
pub open spec fn is_silence<T: Default>(sample: T) -> bool {
    call_ensures(T::default, (), sample)
}

/// Every sample of `channels` is silence.
pub open spec fn all_silence<T: Default>(channels: Seq<Seq<T>>) -> bool {
    forall|c: int, s: int|
        0 <= c < channels.len() && 0 <= s < channels[c].len() ==> is_silence(
            #[trigger] channels[c][s],
        )
}

/// `channels` holds `n_channels` channels of `n_samples` samples each.
pub open spec fn has_shape<T>(channels: Seq<Seq<T>>, n_channels: nat, n_samples: nat) -> bool {
    &&& channels.len() == n_channels
    &&& forall|c: int| 0 <= c < n_channels ==> (#[trigger] channels[c]).len() == n_samples
}

/// The sample type's `+` accepts every pair of corresponding samples of `a` and `b`.
pub open spec fn can_mix<T: core::ops::Add<Output = T>>(a: Seq<Seq<T>>, b: Seq<Seq<T>>) -> bool {
    forall|c: int, s: int|
        0 <= c < a.len() && 0 <= s < a[c].len() ==> call_requires(
            <T as core::ops::Add>::add,
            (#[trigger] a[c][s], b[c][s]),
        )
}

/// Each sample of `mixed` is a result of `+` on the corresponding samples of `a` and `b`.
pub open spec fn is_mix<T: core::ops::Add<Output = T>>(
    a: Seq<Seq<T>>,
    b: Seq<Seq<T>>,
    mixed: Seq<Seq<T>>,
) -> bool {
    forall|c: int, s: int|
        0 <= c < a.len() && 0 <= s < a[c].len() ==> call_ensures(
            <T as core::ops::Add>::add,
            (a[c][s], b[c][s]),
            #[trigger] mixed[c][s],
        )
}

/// The sample type's `*` accepts every sample of `a` together with `gain`.
pub open spec fn can_scale<T: core::ops::Mul<Output = T>>(a: Seq<Seq<T>>, gain: T) -> bool {
    forall|c: int, s: int|
        0 <= c < a.len() && 0 <= s < a[c].len() ==> call_requires(
            <T as core::ops::Mul>::mul,
            (#[trigger] a[c][s], gain),
        )
}

/// Each sample of `scaled` is a result of `*` on the corresponding sample of `a` and `gain`.
pub open spec fn is_scaled<T: core::ops::Mul<Output = T>>(
    a: Seq<Seq<T>>,
    gain: T,
    scaled: Seq<Seq<T>>,
) -> bool {
    forall|c: int, s: int|
        0 <= c < a.len() && 0 <= s < a[c].len() ==> call_ensures(
            <T as core::ops::Mul>::mul,
            (a[c][s], gain),
            #[trigger] scaled[c][s],
        )
}

/// The samples of frame `s`, one per channel, in channel order.
pub open spec fn frame<T>(channels: Seq<Seq<T>>, s: int) -> Seq<T> {
    Seq::new(channels.len(), |c: int| channels[c][s])
}

/// `total` is a result of adding `samples` up from silence, first to last.
pub open spec fn sums_to<T: Default + core::ops::Add<Output = T>>(samples: Seq<T>, total: T) -> bool
    decreases samples.len(),
{
    if samples.len() == 0 {
        is_silence(total)
    } else {
        exists|partial: T|
            sums_to(samples.drop_last(), partial) && #[trigger] call_ensures(
                <T as core::ops::Add>::add,
                (partial, samples.last()),
                total,
            )
    }
}

/// `factor` is a result of dividing one by `count`, both taken into the sample type.
pub open spec fn is_reciprocal<T: From<u16> + core::ops::Div<Output = T>>(
    count: u16,
    factor: T,
) -> bool {
    exists|one: T, divisor: T|
        call_ensures(<T as From<u16>>::from, (1u16,), one) && call_ensures(
            <T as From<u16>>::from,
            (count,),
            divisor,
        ) && #[trigger] call_ensures(<T as core::ops::Div>::div, (one, divisor), factor)
}

/// `mean` is a result of multiplying a sum of `samples` by `factor`.
pub open spec fn is_scaled_sum<T: Default + core::ops::Add<Output = T> + core::ops::Mul<Output = T>>(
    samples: Seq<T>,
    factor: T,
    mean: T,
) -> bool {
    exists|total: T|
        sums_to(samples, total) && #[trigger] call_ensures(
            <T as core::ops::Mul>::mul,
            (total, factor),
            mean,
        )
}

/// Each sample of `mono` is a sum of the frame at its position times `factor`.
pub open spec fn is_downmix_by<
    T: Default + core::ops::Add<Output = T> + core::ops::Mul<Output = T>,
>(channels: Seq<Seq<T>>, factor: T, mono: Seq<T>) -> bool {
    forall|s: int|
        0 <= s < mono.len() ==> is_scaled_sum(frame(channels, s), factor, #[trigger] mono[s])
}

/// Each sample of `mono` is the mean of the frame at its position: a sum of
/// the frame's samples times the reciprocal of the channel count, with one
/// reciprocal for the whole buffer.
pub open spec fn is_downmix<
    T: Default + From<u16> + core::ops::Add<Output = T> + core::ops::Mul<Output = T> + core::ops::Div<
        Output = T,
    >,
>(channels: Seq<Seq<T>>, mono: Seq<T>) -> bool {
    exists|factor: T|
        #[trigger] is_reciprocal(channels.len() as u16, factor) && is_downmix_by(
            channels,
            factor,
            mono,
        )
}

/// The sample type's `+` and `*` accept every operand that summing the
/// frames of `channels` and multiplying each sum by `factor` hands them.
pub open spec fn can_downmix_by<
    T: Default + core::ops::Add<Output = T> + core::ops::Mul<Output = T>,
>(channels: Seq<Seq<T>>, n_samples: nat, factor: T) -> bool {
    &&& forall|s: int, c: int, partial: T|
        0 <= s < n_samples && 0 <= c < channels.len() && #[trigger] sums_to(
            frame(channels, s).take(c),
            partial,
        ) ==> call_requires(<T as core::ops::Add>::add, (partial, channels[c][s]))
    &&& forall|s: int, total: T|
        0 <= s < n_samples && #[trigger] sums_to(frame(channels, s), total) ==> call_requires(
            <T as core::ops::Mul>::mul,
            (total, factor),
        )
}

/// The sample type's operators accept every operand that averaging the
/// frames of `channels` hands them: the division that gives the reciprocal
/// of the channel count, and the sums and products with every value that
/// the reciprocal may have.
pub open spec fn can_downmix<
    T: Default + From<u16> + core::ops::Add<Output = T> + core::ops::Mul<Output = T> + core::ops::Div<
        Output = T,
    >,
>(channels: Seq<Seq<T>>, n_samples: nat) -> bool {
    &&& forall|one: T, divisor: T|
        call_ensures(<T as From<u16>>::from, (1u16,), one) && call_ensures(
            <T as From<u16>>::from,
            (channels.len() as u16,),
            divisor,
        ) ==> #[trigger] call_requires(<T as core::ops::Div>::div, (one, divisor))
    &&& forall|factor: T| #[trigger]
        is_reciprocal(channels.len() as u16, factor) ==> can_downmix_by(
            channels,
            n_samples,
            factor,
        )
}

/// `N_CHANNELS` channels of `N_SAMPLES` samples each.
///
/// The shape is fixed by the type: no operation changes it, and two buffers
/// of one type always agree in shape.
pub struct AudioBuffer<T, const N_CHANNELS: usize, const N_SAMPLES: usize> {
    channels: Vec<Vec<T>>,
}

impl<T: Copy, const N_CHANNELS: usize, const N_SAMPLES: usize> View for AudioBuffer<
    T,
    N_CHANNELS,
    N_SAMPLES,
> {
    type V = Seq<Seq<T>>;

    /// The samples, channel by channel: `self@[c][s]` is sample `s` of channel `c`.
    closed spec fn view(&self) -> Seq<Seq<T>> {
        Seq::new(self.channels@.len(), |c: int| self.channels@[c]@)
    }
}

impl<T: Copy + Default, const N_CHANNELS: usize, const N_SAMPLES: usize> Default for AudioBuffer<
    T,
    N_CHANNELS,
    N_SAMPLES,
> {
    /// A silent buffer.
    fn default() -> (buffer: Self)
        ensures
            buffer.wf(),
            all_silence(buffer@),
    {
        Self::new()
    }
}

impl<T: Copy, const N_CHANNELS: usize, const N_SAMPLES: usize> AudioBuffer<
    T,
    N_CHANNELS,
    N_SAMPLES,
> {
    /// The buffer has the shape that its type names.
    pub open spec fn wf(&self) -> bool {
        has_shape(self@, N_CHANNELS as nat, N_SAMPLES as nat)
    }

    /// The raw storage has the shape that the type names.
    spec fn stored(channels: Seq<Vec<T>>) -> bool {
        &&& channels.len() == N_CHANNELS
        &&& forall|c: int| 0 <= c < N_CHANNELS ==> (#[trigger] channels[c])@.len() == N_SAMPLES
    }

    proof fn lemma_stored(&self)
        ensures
            self.wf() <==> Self::stored(self.channels@),
            self@.len() == self.channels@.len(),
            forall|c: int| 0 <= c < self.channels@.len() ==> #[trigger] self@[c] == self.channels@[c]@,
    {
        if self.wf() {
            assert forall|c: int| 0 <= c < N_CHANNELS implies (#[trigger] self.channels@[c])@.len()
                == N_SAMPLES by {
                assert(self@[c].len() == N_SAMPLES);
            }
        }
    }

    /// A silent buffer.
    pub fn new() -> (buffer: Self) where T: Default
        ensures
            buffer.wf(),
            all_silence(buffer@),
    {
        let mut channels: Vec<Vec<T>> = Vec::with_capacity(N_CHANNELS);
        let mut c: usize = 0;
        while c < N_CHANNELS
            invariant
                c <= N_CHANNELS,
                channels@.len() == c,
                forall|k: int| 0 <= k < c ==> (#[trigger] channels@[k])@.len() == N_SAMPLES,
                forall|k: int, s: int|
                    0 <= k < c && 0 <= s < N_SAMPLES ==> is_silence(#[trigger] channels@[k]@[s]),
            decreases N_CHANNELS - c,
        {
            let mut samples: Vec<T> = Vec::with_capacity(N_SAMPLES);
            let mut s: usize = 0;
            while s < N_SAMPLES
                invariant
                    s <= N_SAMPLES,
                    samples@.len() == s,
                    forall|k: int| 0 <= k < s ==> is_silence(#[trigger] samples@[k]),
                decreases N_SAMPLES - s,
            {
                samples.push(T::default());
                s += 1;
            }
            channels.push(samples);
            c += 1;
        }
        let buffer = AudioBuffer { channels };
        proof {
            buffer.lemma_stored();
        }
        buffer
    }

    /// Sample `frame` of channel `channel`.
    pub fn get(&self, channel: usize, frame: usize) -> (sample: T)
        requires
            self.wf(),
            channel < N_CHANNELS,
            frame < N_SAMPLES,
        ensures
            sample == self@[channel as int][frame as int],
    {
        proof {
            self.lemma_stored();
        }
        self.channels[channel][frame]
    }

    /// Overwrites sample `frame` of channel `channel`, and nothing else.
    pub fn set(&mut self, channel: usize, frame: usize, sample: T)
        requires
            old(self).wf(),
            channel < N_CHANNELS,
            frame < N_SAMPLES,
        ensures
            final(self).wf(),
            final(self)@ == old(self)@.update(
                channel as int,
                old(self)@[channel as int].update(frame as int, sample),
            ),
    {
        proof {
            self.lemma_stored();
        }
        self.channels[channel][frame] = sample;
        proof {
            self.lemma_stored();
            assert(self@ =~= old(self)@.update(
                channel as int,
                old(self)@[channel as int].update(frame as int, sample),
            ));
        }
    }

    /// Overwrites every sample with silence.
    pub fn make_silent(&mut self) where T: Default
        requires
            old(self).wf(),
        ensures
            final(self).wf(),
            all_silence(final(self)@),
    {
        proof {
            self.lemma_stored();
        }
        let mut c: usize = 0;
        while c < N_CHANNELS
            invariant
                c <= N_CHANNELS,
                Self::stored(self.channels@),
                forall|k: int, s: int|
                    0 <= k < c && 0 <= s < N_SAMPLES ==> is_silence(
                        #[trigger] self.channels@[k]@[s],
                    ),
            decreases N_CHANNELS - c,
        {
            let mut s: usize = 0;
            while s < N_SAMPLES
                invariant
                    c < N_CHANNELS,
                    s <= N_SAMPLES,
                    Self::stored(self.channels@),
                    forall|k: int, s: int|
                        0 <= k < c && 0 <= s < N_SAMPLES ==> is_silence(
                            #[trigger] self.channels@[k]@[s],
                        ),
                    forall|k: int| 0 <= k < s ==> is_silence(#[trigger] self.channels@[c as int]@[k]),
                decreases N_SAMPLES - s,
            {
                self.channels[c][s] = T::default();
                s += 1;
            }
            c += 1;
        }
        proof {
            self.lemma_stored();
        }
    }

    /// Adds `other` into this buffer, sample by sample.
    pub fn mix(&mut self, other: &AudioBuffer<T, N_CHANNELS, N_SAMPLES>) where
        T: core::ops::Add<Output = T>,

        requires
            old(self).wf(),
            other.wf(),
            can_mix(old(self)@, other@),
        ensures
            final(self).wf(),
            is_mix(old(self)@, other@, final(self)@),
    {
        proof {
            self.lemma_stored();
            other.lemma_stored();
        }
        let mut c: usize = 0;
        while c < N_CHANNELS
            invariant
                c <= N_CHANNELS,
                Self::stored(self.channels@),
                Self::stored(other.channels@),
                old(self).wf(),
                other.wf(),
                can_mix(old(self)@, other@),
                forall|k: int, s: int|
                    0 <= k < c && 0 <= s < N_SAMPLES ==> call_ensures(
                        <T as core::ops::Add>::add,
                        (old(self)@[k][s], other@[k][s]),
                        #[trigger] self.channels@[k]@[s],
                    ),
                forall|k: int| c <= k < N_CHANNELS ==> #[trigger] self.channels@[k]@ == old(self)@[k],
            decreases N_CHANNELS - c,
        {
            let mut s: usize = 0;
            while s < N_SAMPLES
                invariant
                    c < N_CHANNELS,
                    s <= N_SAMPLES,
                    Self::stored(self.channels@),
                    Self::stored(other.channels@),
                    old(self).wf(),
                    other.wf(),
                    can_mix(old(self)@, other@),
                    forall|k: int, s: int|
                        0 <= k < c && 0 <= s < N_SAMPLES ==> call_ensures(
                            <T as core::ops::Add>::add,
                            (old(self)@[k][s], other@[k][s]),
                            #[trigger] self.channels@[k]@[s],
                        ),
                    forall|k: int|
                        c < k < N_CHANNELS ==> #[trigger] self.channels@[k]@ == old(self)@[k],
                    forall|k: int|
                        0 <= k < s ==> call_ensures(
                            <T as core::ops::Add>::add,
                            (old(self)@[c as int][k], other@[c as int][k]),
                            #[trigger] self.channels@[c as int]@[k],
                        ),
                    forall|k: int|
                        s <= k < N_SAMPLES ==> #[trigger] self.channels@[c as int]@[k] == old(
                            self,
                        )@[c as int][k],
                decreases N_SAMPLES - s,
            {
                proof {
                    other.lemma_stored();
                    assert(self.channels@[c as int]@[s as int] == old(self)@[c as int][s as int]);
                }
                let sum = self.channels[c][s] + other.channels[c][s];
                self.channels[c][s] = sum;
                s += 1;
            }
            c += 1;
        }
        proof {
            self.lemma_stored();
        }
    }

    /// Multiplies every sample by `volume`.
    pub fn scale(&mut self, volume: T) where T: core::ops::Mul<Output = T>
        requires
            old(self).wf(),
            can_scale(old(self)@, volume),
        ensures
            final(self).wf(),
            is_scaled(old(self)@, volume, final(self)@),
    {
        proof {
            self.lemma_stored();
        }
        let mut c: usize = 0;
        while c < N_CHANNELS
            invariant
                c <= N_CHANNELS,
                Self::stored(self.channels@),
                old(self).wf(),
                can_scale(old(self)@, volume),
                forall|k: int, s: int|
                    0 <= k < c && 0 <= s < N_SAMPLES ==> call_ensures(
                        <T as core::ops::Mul>::mul,
                        (old(self)@[k][s], volume),
                        #[trigger] self.channels@[k]@[s],
                    ),
                forall|k: int| c <= k < N_CHANNELS ==> #[trigger] self.channels@[k]@ == old(self)@[k],
            decreases N_CHANNELS - c,
        {
            let mut s: usize = 0;
            while s < N_SAMPLES
                invariant
                    c < N_CHANNELS,
                    s <= N_SAMPLES,
                    Self::stored(self.channels@),
                    old(self).wf(),
                    can_scale(old(self)@, volume),
                    forall|k: int, s: int|
                        0 <= k < c && 0 <= s < N_SAMPLES ==> call_ensures(
                            <T as core::ops::Mul>::mul,
                            (old(self)@[k][s], volume),
                            #[trigger] self.channels@[k]@[s],
                        ),
                    forall|k: int|
                        c < k < N_CHANNELS ==> #[trigger] self.channels@[k]@ == old(self)@[k],
                    forall|k: int|
                        0 <= k < s ==> call_ensures(
                            <T as core::ops::Mul>::mul,
                            (old(self)@[c as int][k], volume),
                            #[trigger] self.channels@[c as int]@[k],
                        ),
                    forall|k: int|
                        s <= k < N_SAMPLES ==> #[trigger] self.channels@[c as int]@[k] == old(
                            self,
                        )@[c as int][k],
                decreases N_SAMPLES - s,
            {
                proof {
                    assert(self.channels@[c as int]@[s as int] == old(self)@[c as int][s as int]);
                }
                let scaled = self.channels[c][s] * volume;
                self.channels[c][s] = scaled;
                s += 1;
            }
            c += 1;
        }
        proof {
            self.lemma_stored();
        }
    }

    /// Channel `channel`, as a whole.
    pub fn channel(&self, channel: usize) -> (samples: &[T])
        requires
            self.wf(),
            channel < N_CHANNELS,
        ensures
            samples@ == self@[channel as int],
    {
        proof {
            self.lemma_stored();
        }
        self.channels[channel].as_slice()
    }

    /// Sums the channels into the single channel of `other`, frame by frame,
    /// and multiplies each sum by `factor`. With the reciprocal of the
    /// channel count for `factor`, each result is the mean of its frame.
    ///
    /// The sum of a frame starts from silence and takes the channels in
    /// their order.
    pub fn downmix_by(&self, other: &mut AudioBuffer<T, 1, N_SAMPLES>, factor: T) where
        T: Default + core::ops::Add<Output = T> + core::ops::Mul<Output = T>,

        requires
            self.wf(),
            old(other).wf(),
            can_downmix_by(self@, N_SAMPLES as nat, factor),
        ensures
            final(other).wf(),
            is_downmix_by(self@, factor, final(other)@[0]),
    {
        proof {
            self.lemma_stored();
            other.lemma_stored();
        }
        let mut s: usize = 0;
        while s < N_SAMPLES
            invariant
                s <= N_SAMPLES,
                self.wf(),
                Self::stored(self.channels@),
                AudioBuffer::<T, 1, N_SAMPLES>::stored(other.channels@),
                can_downmix_by(self@, N_SAMPLES as nat, factor),
                forall|k: int|
                    0 <= k < s ==> is_scaled_sum(
                        frame(self@, k),
                        factor,
                        #[trigger] other.channels@[0]@[k],
                    ),
            decreases N_SAMPLES - s,
        {
            let ghost column = frame(self@, s as int);
            let mut sum = T::default();
            let mut c: usize = 0;
            proof {
                assert(column.take(0).len() == 0);
            }
            while c < N_CHANNELS
                invariant
                    c <= N_CHANNELS,
                    s < N_SAMPLES,
                    self.wf(),
                    Self::stored(self.channels@),
                    can_downmix_by(self@, N_SAMPLES as nat, factor),
                    column == frame(self@, s as int),
                    sums_to(column.take(c as int), sum),
                decreases N_CHANNELS - c,
            {
                let ghost partial = sum;
                let ghost next = column.take(c + 1);
                proof {
                    self.lemma_stored();
                    assert(next.drop_last() =~= column.take(c as int));
                    assert(next.last() == self@[c as int][s as int]);
                }
                let sample = self.channels[c][s];
                sum = sum + sample;
                proof {
                    assert(sample == next.last());
                    assert(next.len() > 0);
                    assert(sums_to(next.drop_last(), partial));
                    assert(call_ensures(<T as core::ops::Add>::add, (partial, next.last()), sum));
                    assert(sums_to(next, sum));
                }
                c += 1;
            }
            proof {
                assert(column.take(N_CHANNELS as int) =~= column);
            }
            let mean = sum * factor;
            other.channels[0][s] = mean;
            s += 1;
        }
        proof {
            other.lemma_stored();
            assert(other@[0] == other.channels@[0]@);
        }
    }

    /// Averages the channels into the single channel of `other`, frame by frame.
    ///
    /// Without channels there is nothing to average and nothing to divide
    /// by: `other` then becomes silent. The channel count reaches the sample
    /// type as a 16-bit number, which bounds it; a caller that can turn a
    /// larger count into a sample calls `downmix_by` with the reciprocal.
    pub fn downmix(&self, other: &mut AudioBuffer<T, 1, N_SAMPLES>) where
        T: Default + From<u16> + core::ops::Add<Output = T> + core::ops::Mul<Output = T>
            + core::ops::Div<Output = T>,

        requires
            self.wf(),
            old(other).wf(),
            N_CHANNELS <= u16::MAX,
            N_CHANNELS > 0 ==> can_downmix(self@, N_SAMPLES as nat),
        ensures
            final(other).wf(),
            N_CHANNELS > 0 ==> is_downmix(self@, final(other)@[0]),
            N_CHANNELS == 0 ==> all_silence(final(other)@),
    {
        if N_CHANNELS == 0 {
            other.make_silent();
            return ;
        }
        let one = T::from(1u16);
        let divisor = T::from(N_CHANNELS as u16);
        let factor = one / divisor;
        proof {
            assert(is_reciprocal(self@.len() as u16, factor));
        }
        self.downmix_by(other, factor);
    }

    /// Fills the buffer from a flat, sample-major array: sample `s` of channel
    /// `c` is taken from position `s * N_CHANNELS + c`.
    pub fn write(&mut self, other: &[T])
        requires
            old(self).wf(),
            other@.len() == N_CHANNELS * N_SAMPLES,
        ensures
            final(self).wf(),
            final(self)@ == deinterleave(other@, N_CHANNELS as nat, N_SAMPLES as nat),
    {
        proof {
            self.lemma_stored();
        }
        let mut index: usize = 0;
        let mut i: usize = 0;
        while i < N_SAMPLES
            invariant
                i <= N_SAMPLES,
                index == i * N_CHANNELS,
                other@.len() == N_CHANNELS * N_SAMPLES,
                Self::stored(self.channels@),
                forall|c: int, s: int|
                    0 <= c < N_CHANNELS && 0 <= s < i ==> #[trigger] self.channels@[c]@[s]
                        == other@[s * N_CHANNELS + c],
            decreases N_SAMPLES - i,
        {
            let mut j: usize = 0;
            while j < N_CHANNELS
                invariant
                    i < N_SAMPLES,
                    j <= N_CHANNELS,
                    index == i * N_CHANNELS + j,
                    other@.len() == N_CHANNELS * N_SAMPLES,
                    Self::stored(self.channels@),
                    forall|c: int, s: int|
                        0 <= c < N_CHANNELS && 0 <= s < i ==> #[trigger] self.channels@[c]@[s]
                            == other@[s * N_CHANNELS + c],
                    forall|c: int|
                        0 <= c < j ==> #[trigger] self.channels@[c]@[i as int] == other@[i
                            * N_CHANNELS + c],
                decreases N_CHANNELS - j,
            {
                proof {
                    lemma_flat_position(j as int, i as int, N_CHANNELS as nat, N_SAMPLES as nat);
                }
                self.channels[j][i] = other[index];
                index += 1;
                j += 1;
            }
            proof {
                assert((i + 1) * N_CHANNELS == i * N_CHANNELS + N_CHANNELS) by (nonlinear_arith);
            }
            i += 1;
        }
        proof {
            self.lemma_stored();
            let wanted = deinterleave(other@, N_CHANNELS as nat, N_SAMPLES as nat);
            assert forall|c: int| 0 <= c < N_CHANNELS implies #[trigger] self@[c] == wanted[c] by {
                assert(self@[c] =~= wanted[c]);
            }
            assert(self@ =~= wanted);
        }
    }

    /// Copies the buffer into a flat, sample-major array: position
    /// `s * N_CHANNELS + c` receives sample `s` of channel `c`.
    pub fn read(&self, other: &mut [T])
        requires
            self.wf(),
            old(other)@.len() == N_CHANNELS * N_SAMPLES,
        ensures
            final(other)@ == interleave(self@, N_CHANNELS as nat, N_SAMPLES as nat),
    {
        proof {
            self.lemma_stored();
        }
        let mut index: usize = 0;
        let mut i: usize = 0;
        while i < N_SAMPLES
            invariant
                i <= N_SAMPLES,
                index == i * N_CHANNELS,
                other@.len() == N_CHANNELS * N_SAMPLES,
                self.wf(),
                Self::stored(self.channels@),
                forall|k: int|
                    0 <= k < index ==> #[trigger] other@[k] == self@[k % (N_CHANNELS as int)][k / (
                    N_CHANNELS as int)],
            decreases N_SAMPLES - i,
        {
            let mut j: usize = 0;
            while j < N_CHANNELS
                invariant
                    i < N_SAMPLES,
                    j <= N_CHANNELS,
                    index == i * N_CHANNELS + j,
                    other@.len() == N_CHANNELS * N_SAMPLES,
                    self.wf(),
                    Self::stored(self.channels@),
                    forall|k: int|
                        0 <= k < index ==> #[trigger] other@[k] == self@[k % (N_CHANNELS as int)][k
                            / (N_CHANNELS as int)],
                decreases N_CHANNELS - j,
            {
                proof {
                    self.lemma_stored();
                    lemma_flat_position(j as int, i as int, N_CHANNELS as nat, N_SAMPLES as nat);
                }
                other[index] = self.channels[j][i];
                index += 1;
                j += 1;
            }
            proof {
                assert((i + 1) * N_CHANNELS == i * N_CHANNELS + N_CHANNELS) by (nonlinear_arith);
            }
            i += 1;
        }
        proof {
            assert(index == N_CHANNELS * N_SAMPLES) by (nonlinear_arith)
                requires
                    index == i * N_CHANNELS,
                    i == N_SAMPLES,
            ;
            assert(other@ =~= interleave(self@, N_CHANNELS as nat, N_SAMPLES as nat));
        }
    }
}

} // verus!
