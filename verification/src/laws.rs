//! What the buffer operations inherit from the sample type's arithmetic.
//!
//! A sample type that rounds need not add associatively, and a sample may be
//! a value that silence does not leave alone. Each law therefore names, as a
//! hypothesis, the property of single samples that it lifts to whole buffers.

use vstd::prelude::*;
use crate::audio_buffer::{
    all_silence,
    frame,
    has_shape,
    is_downmix,
    is_downmix_by,
    is_mix,
    is_reciprocal,
    is_scaled,
    is_scaled_sum,
    is_silence,
};

verus! {

/// Adding silence to a sample gives back that sample.
pub open spec fn silence_is_neutral<T: Default + core::ops::Add<Output = T>>() -> bool {
    forall|x: T, zero: T, sum: T|
        is_silence(zero) && #[trigger] call_ensures(<T as core::ops::Add>::add, (x, zero), sum)
            ==> sum == x
}

/// `x + y` and `y + x` give the same.
pub open spec fn addition_commutes<T: core::ops::Add<Output = T>>() -> bool {
    forall|x: T, y: T, xy: T, yx: T|
        #[trigger] call_ensures(<T as core::ops::Add>::add, (x, y), xy) && #[trigger] call_ensures(
            <T as core::ops::Add>::add,
            (y, x),
            yx,
        ) ==> xy == yx
}

/// `(x + y) + z` and `x + (y + z)` give the same.
pub open spec fn addition_associates<T: core::ops::Add<Output = T>>() -> bool {
    forall|x: T, y: T, z: T, xy: T, yz: T, left: T, right: T|
        #[trigger] call_ensures(<T as core::ops::Add>::add, (x, y), xy) && #[trigger] call_ensures(
            <T as core::ops::Add>::add,
            (xy, z),
            left,
        ) && #[trigger] call_ensures(<T as core::ops::Add>::add, (y, z), yz)
            && #[trigger] call_ensures(<T as core::ops::Add>::add, (x, yz), right) ==> left
            == right
}

/// Multiplying a sample by `gain` gives back that sample.
pub open spec fn gain_is_neutral<T: core::ops::Mul<Output = T>>(gain: T) -> bool {
    forall|x: T, product: T| #[trigger]
        call_ensures(<T as core::ops::Mul>::mul, (x, gain), product) ==> product == x
}

/// Multiplying a sample by `gain` gives silence, and silence is one value.
pub open spec fn gain_silences<T: Default + core::ops::Mul<Output = T>>(gain: T) -> bool {
    forall|x: T, product: T, zero: T|
        #[trigger] is_silence(zero) && #[trigger] call_ensures(
            <T as core::ops::Mul>::mul,
            (x, gain),
            product,
        ) ==> product == zero
}

/// Every sample of `samples` is the first one.
pub open spec fn all_equal<T>(samples: Seq<T>) -> bool {
    forall|i: int| 0 <= i < samples.len() ==> #[trigger] samples[i] == samples[0]
}

/// The mean of `count` equal samples is that sample.
pub open spec fn mean_of_equals_is_exact<
    T: Default + From<u16> + core::ops::Add<Output = T> + core::ops::Mul<Output = T> + core::ops::Div<
        Output = T,
    >,
>(count: nat) -> bool {
    forall|samples: Seq<T>, factor: T, mean: T|
        samples.len() == count && all_equal(samples) && is_reciprocal(count as u16, factor)
            && #[trigger] is_scaled_sum(samples, factor, mean) ==> mean == samples[0]
}

/// Samples of 32-bit integers meet these hypotheses: silence is zero and is
/// neutral, addition commutes, one is the neutral gain and zero the
/// silencing one.
pub proof fn lemma_integer_samples_are_exact()
    ensures
        silence_is_neutral::<i32>(),
        addition_commutes::<i32>(),
        gain_is_neutral(1i32),
        gain_silences(0i32),
{
}

/// Mixing silence into a buffer leaves the buffer as it was, provided that
/// adding silence to a sample gives back that sample.
pub proof fn lemma_mix_silence<T: Default + core::ops::Add<Output = T>>(
    a: Seq<Seq<T>>,
    silence: Seq<Seq<T>>,
    mixed: Seq<Seq<T>>,
    n_channels: nat,
    n_samples: nat,
)
    requires
        has_shape(a, n_channels, n_samples),
        has_shape(silence, n_channels, n_samples),
        has_shape(mixed, n_channels, n_samples),
        all_silence(silence),
        is_mix(a, silence, mixed),
        silence_is_neutral::<T>(),
    ensures
        mixed == a,
{
    assert forall|c: int| 0 <= c < n_channels implies #[trigger] mixed[c] == a[c] by {
        assert forall|s: int| 0 <= s < n_samples implies mixed[c][s] == a[c][s] by {
            assert(is_silence(silence[c][s]));
            assert(call_ensures(
                <T as core::ops::Add>::add,
                (a[c][s], silence[c][s]),
                mixed[c][s],
            ));
        }
        assert(mixed[c] =~= a[c]);
    }
    assert(mixed =~= a);
}

/// Mixing is commutative, provided that the addition of samples is: mixing
/// `b` into `a` gives what mixing `a` into `b` gives.
pub proof fn lemma_mix_commutes<T: core::ops::Add<Output = T>>(
    a: Seq<Seq<T>>,
    b: Seq<Seq<T>>,
    ab: Seq<Seq<T>>,
    ba: Seq<Seq<T>>,
    n_channels: nat,
    n_samples: nat,
)
    requires
        has_shape(a, n_channels, n_samples),
        has_shape(b, n_channels, n_samples),
        has_shape(ab, n_channels, n_samples),
        has_shape(ba, n_channels, n_samples),
        is_mix(a, b, ab),
        is_mix(b, a, ba),
        addition_commutes::<T>(),
    ensures
        ab == ba,
{
    assert forall|c: int| 0 <= c < n_channels implies #[trigger] ab[c] == ba[c] by {
        assert(a[c].len() == n_samples);
        assert(b[c].len() == n_samples);
        assert forall|s: int| 0 <= s < n_samples implies ab[c][s] == ba[c][s] by {
            assert(call_ensures(<T as core::ops::Add>::add, (a[c][s], b[c][s]), ab[c][s]));
            assert(call_ensures(<T as core::ops::Add>::add, (b[c][s], a[c][s]), ba[c][s]));
        }
        assert(ab[c] =~= ba[c]);
    }
    assert(ab =~= ba);
}

/// Mixing is associative, provided that the addition of samples is: mixing
/// `c` into the mix of `a` and `b` gives what mixing the mix of `b` and `c`
/// into `a` gives.
pub proof fn lemma_mix_associates<T: core::ops::Add<Output = T>>(
    a: Seq<Seq<T>>,
    b: Seq<Seq<T>>,
    c: Seq<Seq<T>>,
    ab: Seq<Seq<T>>,
    bc: Seq<Seq<T>>,
    left: Seq<Seq<T>>,
    right: Seq<Seq<T>>,
    n_channels: nat,
    n_samples: nat,
)
    requires
        has_shape(a, n_channels, n_samples),
        has_shape(b, n_channels, n_samples),
        has_shape(ab, n_channels, n_samples),
        has_shape(left, n_channels, n_samples),
        has_shape(right, n_channels, n_samples),
        is_mix(a, b, ab),
        is_mix(ab, c, left),
        is_mix(b, c, bc),
        is_mix(a, bc, right),
        addition_associates::<T>(),
    ensures
        left == right,
{
    assert forall|k: int| 0 <= k < n_channels implies #[trigger] left[k] == right[k] by {
        assert(a[k].len() == n_samples);
        assert(b[k].len() == n_samples);
        assert(ab[k].len() == n_samples);
        assert forall|s: int| 0 <= s < n_samples implies left[k][s] == right[k][s] by {
            assert(call_ensures(<T as core::ops::Add>::add, (a[k][s], b[k][s]), ab[k][s]));
            assert(call_ensures(<T as core::ops::Add>::add, (ab[k][s], c[k][s]), left[k][s]));
            assert(call_ensures(<T as core::ops::Add>::add, (b[k][s], c[k][s]), bc[k][s]));
            assert(call_ensures(<T as core::ops::Add>::add, (a[k][s], bc[k][s]), right[k][s]));
        }
        assert(left[k] =~= right[k]);
    }
    assert(left =~= right);
}

/// Scaling by `gain` leaves a buffer as it was, provided that multiplying a
/// sample by `gain` gives back that sample.
pub proof fn lemma_scale_by_identity<T: core::ops::Mul<Output = T>>(
    a: Seq<Seq<T>>,
    gain: T,
    scaled: Seq<Seq<T>>,
    n_channels: nat,
    n_samples: nat,
)
    requires
        has_shape(a, n_channels, n_samples),
        has_shape(scaled, n_channels, n_samples),
        is_scaled(a, gain, scaled),
        gain_is_neutral(gain),
    ensures
        scaled == a,
{
    assert forall|c: int| 0 <= c < n_channels implies #[trigger] scaled[c] == a[c] by {
        assert forall|s: int| 0 <= s < n_samples implies scaled[c][s] == a[c][s] by {
            assert(call_ensures(<T as core::ops::Mul>::mul, (a[c][s], gain), scaled[c][s]));
        }
        assert(scaled[c] =~= a[c]);
    }
    assert(scaled =~= a);
}

/// Scaling by `gain` yields the silent buffer, provided that multiplying a
/// sample by `gain` gives silence.
pub proof fn lemma_scale_to_silence<T: Default + core::ops::Mul<Output = T>>(
    a: Seq<Seq<T>>,
    gain: T,
    scaled: Seq<Seq<T>>,
    silence: Seq<Seq<T>>,
    n_channels: nat,
    n_samples: nat,
)
    requires
        has_shape(a, n_channels, n_samples),
        has_shape(scaled, n_channels, n_samples),
        has_shape(silence, n_channels, n_samples),
        all_silence(silence),
        is_scaled(a, gain, scaled),
        gain_silences(gain),
    ensures
        scaled == silence,
{
    assert forall|c: int| 0 <= c < n_channels implies #[trigger] scaled[c] == silence[c] by {
        assert(a[c].len() == n_samples);
        assert forall|s: int| 0 <= s < n_samples implies scaled[c][s] == silence[c][s] by {
            assert(is_silence(silence[c][s]));
            assert(call_ensures(<T as core::ops::Mul>::mul, (a[c][s], gain), scaled[c][s]));
        }
        assert(scaled[c] =~= silence[c]);
    }
    assert(scaled =~= silence);
}

/// Downmixing channels that all hold the same samples returns those samples,
/// provided that the mean of equal samples is that sample.
pub proof fn lemma_downmix_of_equal_channels<
    T: Default + From<u16> + core::ops::Add<Output = T> + core::ops::Mul<Output = T> + core::ops::Div<
        Output = T,
    >,
>(channels: Seq<Seq<T>>, mono: Seq<T>, n_channels: nat, n_samples: nat)
    requires
        n_channels > 0,
        has_shape(channels, n_channels, n_samples),
        mono.len() == n_samples,
        forall|c: int| 0 <= c < n_channels ==> #[trigger] channels[c] == channels[0],
        is_downmix(channels, mono),
        mean_of_equals_is_exact::<T>(n_channels),
    ensures
        mono == channels[0],
{
    let factor = choose|factor: T|
        #[trigger] is_reciprocal(channels.len() as u16, factor) && is_downmix_by(
            channels,
            factor,
            mono,
        );
    assert forall|s: int| 0 <= s < n_samples implies mono[s] == channels[0][s] by {
        assert(all_equal(frame(channels, s)));
        assert(is_scaled_sum(frame(channels, s), factor, mono[s]));
    }
    assert(mono =~= channels[0]);
}

} // verus!
