//! The flat, sample-major layout that hosts exchange with a buffer: the
//! samples of frame 0 for every channel, then those of frame 1, and so on.

use vstd::prelude::*;
use vstd::arithmetic::div_mod::{
    lemma_div_pos_is_pos,
    lemma_fundamental_div_mod,
    lemma_fundamental_div_mod_converse,
    lemma_mod_bound,
};

verus! {

/// The flat layout of `channels`: position `s * n_channels + c` holds sample
/// `s` of channel `c`.
pub open spec fn interleave<T>(channels: Seq<Seq<T>>, n_channels: nat, n_samples: nat) -> Seq<T> {
    Seq::new(
        n_channels * n_samples,
        |i: int| channels[i % (n_channels as int)][i / (n_channels as int)],
    )
}

/// The channels that the flat layout `flat` describes: sample `s` of channel
/// `c` is `flat[s * n_channels + c]`.
pub open spec fn deinterleave<T>(flat: Seq<T>, n_channels: nat, n_samples: nat) -> Seq<Seq<T>> {
    Seq::new(n_channels, |c: int| Seq::new(n_samples, |s: int| flat[s * n_channels + c]))
}

/// Where sample `s` of channel `c` lies in the flat layout, and that the
/// position determines `c` and `s`.
pub proof fn lemma_flat_position(c: int, s: int, n_channels: nat, n_samples: nat)
    requires
        0 <= c < n_channels,
        0 <= s < n_samples,
    ensures
        0 <= s * n_channels + c < n_channels * n_samples,
        (s * n_channels + c) % (n_channels as int) == c,
        (s * n_channels + c) / (n_channels as int) == s,
{
    assert(0 <= s * n_channels + c < n_channels * n_samples) by (nonlinear_arith)
        requires
            0 <= c < n_channels,
            0 <= s < n_samples,
    ;
    lemma_fundamental_div_mod_converse(s * n_channels + c, n_channels as int, s, c);
}

/// Which channel and frame a position of the flat layout belongs to.
pub proof fn lemma_channel_and_frame(i: int, n_channels: nat, n_samples: nat)
    requires
        0 <= i < n_channels * n_samples,
    ensures
        0 <= i % (n_channels as int) < n_channels,
        0 <= i / (n_channels as int) < n_samples,
        i == (i / (n_channels as int)) * n_channels + i % (n_channels as int),
{
    let d = n_channels as int;
    assert(d > 0) by (nonlinear_arith)
        requires
            0 <= i < d * n_samples,
            d >= 0,
    ;
    lemma_mod_bound(i, d);
    lemma_div_pos_is_pos(i, d);
    lemma_fundamental_div_mod(i, d);
    let q = i / d;
    let r = i % d;
    assert(q < n_samples) by (nonlinear_arith)
        requires
            i == d * q + r,
            0 <= r,
            i < d * n_samples,
            d > 0,
    ;
    assert(d * q == q * d) by (nonlinear_arith);
}

/// The flat layout has one position per sample.
pub proof fn lemma_interleave_at<T>(
    channels: Seq<Seq<T>>,
    n_channels: nat,
    n_samples: nat,
    c: int,
    s: int,
)
    requires
        0 <= c < n_channels,
        0 <= s < n_samples,
    ensures
        interleave(channels, n_channels, n_samples).len() == n_channels * n_samples,
        0 <= s * n_channels + c < n_channels * n_samples,
        interleave(channels, n_channels, n_samples)[s * n_channels + c] == channels[c][s],
{
    lemma_flat_position(c, s, n_channels, n_samples);
}

/// Writing a flat array into a buffer and reading the buffer back gives the
/// same flat array, whatever its contents.
pub proof fn lemma_read_after_write<T>(flat: Seq<T>, n_channels: nat, n_samples: nat)
    requires
        flat.len() == n_channels * n_samples,
    ensures
        interleave(deinterleave(flat, n_channels, n_samples), n_channels, n_samples) == flat,
{
    let channels = deinterleave(flat, n_channels, n_samples);
    let back = interleave(channels, n_channels, n_samples);
    assert forall|i: int| 0 <= i < flat.len() implies back[i] == flat[i] by {
        lemma_channel_and_frame(i, n_channels, n_samples);
    }
    assert(back =~= flat);
}

/// Reading a buffer into a flat array and writing that array back gives the
/// same buffer.
pub proof fn lemma_write_after_read<T>(channels: Seq<Seq<T>>, n_channels: nat, n_samples: nat)
    requires
        channels.len() == n_channels,
        forall|c: int| 0 <= c < n_channels ==> (#[trigger] channels[c]).len() == n_samples,
    ensures
        deinterleave(interleave(channels, n_channels, n_samples), n_channels, n_samples)
            == channels,
{
    let flat = interleave(channels, n_channels, n_samples);
    let back = deinterleave(flat, n_channels, n_samples);
    assert forall|c: int| 0 <= c < n_channels implies #[trigger] back[c] == channels[c] by {
        assert forall|s: int| 0 <= s < n_samples implies back[c][s] == channels[c][s] by {
            lemma_flat_position(c, s, n_channels, n_samples);
        }
        assert(back[c] =~= channels[c]);
    }
    assert(back =~= channels);
}

} // verus!
