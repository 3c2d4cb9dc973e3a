use vstd::prelude::*;

use crate::error::PlayerError;
use vstd::arithmetic::power2::{lemma2_to64, lemma_pow2_strictly_increases, lemma_pow2_unfold, pow2};

verus! {

/// The largest magnitude that a signed integer sample of `bits` bits holds:
/// dividing by it puts a sample in about [-1, 1].
pub open spec fn full_scale_for_bits(bits: nat) -> int {
    pow2((bits - 1) as nat) - 1
}

/// A decoded track: integer samples interleaved by channel, with the
/// divisor that maps them onto [-1, 1].
///
/// The normalized value of sample `i` is `samples[i] / full_scale`.
#[derive(Debug, Clone, PartialEq, Eq)]
pub struct DecodedAudio {
    pub samples: Vec<i32>,
    pub full_scale: i32,
    pub sample_rate: u32,
    pub channels: u16,
}

impl DecodedAudio {
    /// At least one channel, a positive scale, and whole frames only.
    pub open spec fn wf(&self) -> bool {
        &&& self.channels >= 1
        &&& self.full_scale >= 1
        &&& (self.samples.len() as int) % (self.channels as int) == 0
    }

    /// The number of frames, one sample per channel each.
    pub open spec fn frame_count(&self) -> int {
        (self.samples.len() as int) / (self.channels as int)
    }

    /// The number of frames in the buffer.
    pub fn frames(&self) -> (r: usize)
        requires
            self.wf(),
        ensures
            r == self.frame_count(),
    {
        self.samples.len() / self.channels as usize
    }
}

/// Reads one file format into a [`DecodedAudio`].
pub trait AudioFileLoader {
    /// Decodes the bytes of a whole file.
    fn load_samples(&self, bytes: &Vec<u8>) -> (r: Result<DecodedAudio, PlayerError>)
        ensures
            r matches Ok(a) ==> a.wf(),
            r matches Err(e) ==> e is Decode,
    ;
}

/// The divisor for signed integer samples of `bits` bits (1 to 32).
pub fn full_scale(bits: u16) -> (r: i32)
    requires
        1 <= bits <= 32,
    ensures
        r == full_scale_for_bits(bits as nat),
        r >= 0,
        bits >= 2 ==> r >= 1,
{
    let mut scale: u32 = 1;
    let mut k: u16 = 1;
    proof {
        lemma2_to64();
    }
    while k < bits
        invariant
            1 <= k <= bits <= 32,
            scale == pow2((k - 1) as nat),
        decreases bits - k,
    {
        proof {
            lemma_pow2_unfold(k as nat);
            if k < 31 {
                lemma_pow2_strictly_increases(k as nat, 31);
            }
            lemma2_to64();
        }
        scale = scale * 2;
        k = k + 1;
    }
    proof {
        if k > 1 {
            lemma_pow2_strictly_increases(0, (k - 1) as nat);
        }
        if k < 32 {
            lemma_pow2_strictly_increases((k - 1) as nat, 31);
        }
    }
    (scale - 1) as i32
}

/// A one-channel sequence spread over two interleaved channels.
pub open spec fn upmixed<T>(s: Seq<T>) -> Seq<T> {
    Seq::new(2 * s.len(), |i: int| s[i / 2])
}

/// Spreads a one-channel buffer over two interleaved channels: each sample
/// appears twice in a row, first for the left channel, then for the right.
pub fn upmix_mono<T: Copy>(samples: &Vec<T>) -> (r: Vec<T>)
    ensures
        r@ == upmixed(samples@),
        r.len() == 2 * samples.len(),
        forall|i: int| 0 <= i < samples.len() ==> r[2 * i] == samples[i],
        forall|i: int| 0 <= i < samples.len() ==> #[trigger] r[2 * i + 1] == r[2 * i],
{
    let mut out: Vec<T> = Vec::new();
    let mut i: usize = 0;
    while i < samples.len()
        invariant
            i <= samples.len(),
            out.len() == 2 * i,
            forall|j: int| 0 <= j < 2 * i ==> out[j] == samples[j / 2],
            forall|j: int| 0 <= j < i ==> out[2 * j] == samples[j],
            forall|j: int| 0 <= j < i ==> #[trigger] out[2 * j + 1] == out[2 * j],
        decreases samples.len() - i,
    {
        let s = samples[i];
        out.push(s);
        out.push(s);
        assert forall|j: int| 0 <= j < 2 * (i + 1) implies #[trigger] out[j] == samples[j / 2] by {
            if j >= 2 * i {
                assert(j / 2 == i);
            }
        }
        i = i + 1;
    }
    assert(out@ =~= upmixed(samples@));
    out
}

} // verus!
