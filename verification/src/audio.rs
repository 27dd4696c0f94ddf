//! Mono reduction of interleaved multi-channel sample buffers.

use vstd::prelude::*;

verus! {

/// Number of sample frames in an interleaved buffer of `len` samples with
/// `channels` samples to the frame; a trailing incomplete frame counts.
pub open spec fn frames_in(len: nat, channels: nat) -> nat
    recommends
        channels > 0,
{
    ((len + channels - 1) / channels as int) as nat
}

/// The first channel's sample of every frame of an interleaved buffer.
pub open spec fn first_channel_of<T>(interleaved: Seq<T>, channels: nat) -> Seq<T>
    recommends
        channels > 0,
{
    Seq::new(frames_in(interleaved.len(), channels), |k: int| interleaved[k * channels])
}

proof fn lemma_frames_in(len: int, channels: int, count: int)
    by (nonlinear_arith)
    requires
        channels > 0,
        len >= 0,
        count >= 0,
        count * channels >= len,
        count > 0 ==> (count - 1) * channels < len,
    ensures
        (len + channels - 1) / channels == count,
{
}

/// Reduces an interleaved buffer to one channel by keeping the first sample
/// of every frame, in order. A trailing frame that is cut short still gives
/// its first sample.
pub fn first_channel<T: Copy>(interleaved: &[T], channels: usize) -> (mono: Vec<T>)
    requires
        channels > 0,
    ensures
        mono@ == first_channel_of(interleaved@, channels as nat),
{
    let len = interleaved.len();
    let mut mono: Vec<T> = Vec::new();
    let mut pos: usize = 0;
    proof {
        assert(0 * channels == 0);
    }
    while pos < len
        invariant
            channels > 0,
            len == interleaved@.len(),
            pos <= len,
            pos < len ==> pos == mono@.len() * channels,
            pos == len ==> mono@.len() * channels >= len,
            mono@.len() > 0 ==> (mono@.len() - 1) * channels < len,
            forall|k: int|
                0 <= k < mono@.len() ==> 0 <= k * channels < len && #[trigger] mono@[k]
                    == interleaved@[k * channels],
        decreases len - pos,
    {
        let ghost taken = mono@.len() as int;
        let ghost before = mono@;
        mono.push(interleaved[pos]);
        proof {
            assert((taken + 1) * channels == taken * channels + channels) by (nonlinear_arith);
            assert((taken + 1 - 1) * channels == pos);
            assert forall|k: int| 0 <= k < mono@.len() implies 0 <= k * channels < len
                && #[trigger] mono@[k] == interleaved@[k * channels] by {
                if k < taken {
                    assert(mono@[k] == before[k]);
                }
            }
        }
        pos = if channels < len - pos {
            pos + channels
        } else {
            len
        };
    }
    proof {
        lemma_frames_in(len as int, channels as int, mono@.len() as int);
    }
    mono
}

} // verus!
