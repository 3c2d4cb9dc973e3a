use vstd::prelude::*;

use crate::audio::DecodedAudio;
use crate::error::{DeviceError, PlayerError};
use vstd::arithmetic::div_mod::{
    lemma_div_is_ordered, lemma_div_pos_is_pos, lemma_fundamental_div_mod, lemma_fundamental_div_mod_converse,
    lemma_mod_bound,
};
use vstd::arithmetic::mul::{lemma_mul_inequality, lemma_mul_is_distributive_add_other_way};

verus! {

/// The sample formats an output device may ask for, as far as playback
/// tells them apart.
#[derive(Debug, Clone, Copy, PartialEq, Eq)]
pub enum DeviceSampleFormat {
    /// 32-bit floating point: the one format streams are built for.
    F32,
    Other,
}

/// What an output device reports as its default configuration.
#[derive(Debug, Clone, Copy, PartialEq, Eq)]
pub struct DeviceConfig {
    pub sample_rate: u32,
    pub channels: u16,
    pub sample_format: DeviceSampleFormat,
}

/// How a stream lays a buffer out on the device: source frames of
/// `source_channels` samples become device frames of `output_channels` slots.
#[derive(Debug, Clone, Copy, PartialEq, Eq)]
pub struct StreamPlan {
    pub source_channels: u16,
    pub output_channels: u16,
}

/// Agrees on a stream layout between a device and a decoded buffer. A rate
/// mismatch is refused rather than played at the wrong speed.
pub fn negotiate(device: DeviceConfig, audio: &DecodedAudio) -> (r: Result<StreamPlan, PlayerError>)
    requires
        audio.wf(),
    ensures
        device.sample_rate != audio.sample_rate ==> r == Err::<StreamPlan, PlayerError>(
            PlayerError::Device(
                DeviceError::SampleRateMismatch {
                    device_rate: device.sample_rate,
                    file_rate: audio.sample_rate,
                },
            ),
        ),
        device.sample_rate == audio.sample_rate && device.sample_format != DeviceSampleFormat::F32
            ==> r == Err::<StreamPlan, PlayerError>(
            PlayerError::Device(DeviceError::UnsupportedSampleFormat),
        ),
        device.sample_rate == audio.sample_rate && device.sample_format == DeviceSampleFormat::F32
            && device.channels == 0 ==> r == Err::<StreamPlan, PlayerError>(
            PlayerError::Device(DeviceError::NoChannels),
        ),
        device.sample_rate == audio.sample_rate && device.sample_format == DeviceSampleFormat::F32
            && device.channels > 0 ==> r == Ok::<StreamPlan, PlayerError>(
            StreamPlan { source_channels: audio.channels, output_channels: device.channels },
        ),
{
    if device.sample_rate != audio.sample_rate {
        return Err(
            PlayerError::Device(
                DeviceError::SampleRateMismatch {
                    device_rate: device.sample_rate,
                    file_rate: audio.sample_rate,
                },
            ),
        );
    }
    match device.sample_format {
        DeviceSampleFormat::F32 => {},
        DeviceSampleFormat::Other => {
            return Err(PlayerError::Device(DeviceError::UnsupportedSampleFormat));
        },
    }
    if device.channels == 0 {
        return Err(PlayerError::Device(DeviceError::NoChannels));
    }
    Ok(StreamPlan { source_channels: audio.channels, output_channels: device.channels })
}

/// The number of device frames in a block of `m` slots, the last one
/// possibly partial.
pub open spec fn block_frames(m: int, oc: int) -> int {
    (m + oc - 1) / oc
}

/// The number of whole source frames left from `pos` on.
pub open spec fn frames_left(len: int, pos: int, sc: int) -> int {
    (len - pos) / sc
}

/// What a fill writes to slot `j` of the block: slot `k` of device frame `f`
/// takes channel `k mod sc` of the `f`-th source frame left, while source
/// frames last; silence after.
pub open spec fn filled_slot<T>(samples: Seq<T>, pos: int, sc: int, oc: int, silence: T, j: int) -> T {
    if j / oc < frames_left(samples.len() as int, pos, sc) {
        samples[pos + (j / oc) * sc + (j % oc) % sc]
    } else {
        silence
    }
}

/// How far a fill of `m` slots moves the read position: one source frame
/// for each device frame it fills from the buffer.
pub open spec fn fill_advance(len: int, pos: int, sc: int, oc: int, m: int) -> int {
    let played = if block_frames(m, oc) < frames_left(len, pos, sc) {
        block_frames(m, oc)
    } else {
        frames_left(len, pos, sc)
    };
    played * sc
}

/// The read side of a playback session: a decoded buffer, the layout agreed
/// with the device, and the position of the next source frame to play.
pub struct SampleStream<T> {
    pub samples: Vec<T>,
    pub source_channels: usize,
    pub output_channels: usize,
    /// The index of the first sample not played yet.
    pub position: usize,
}

proof fn lemma_frame_fits(len: int, pos: int, sc: int, f: int)
    requires
        sc >= 1,
        0 <= pos <= len,
        f >= 0,
    ensures
        pos + (f + 1) * sc <= len <==> f < frames_left(len, pos, sc),
{
    let l = len - pos;
    lemma_fundamental_div_mod(l, sc);
    lemma_mod_bound(l, sc);
    if f < l / sc {
        lemma_mul_inequality(f + 1, l / sc, sc);
        assert((f + 1) * sc == sc * (f + 1)) by (nonlinear_arith);
        assert((l / sc) * sc == sc * (l / sc)) by (nonlinear_arith);
    } else {
        lemma_mul_inequality(l / sc + 1, f + 1, sc);
        assert((l / sc + 1) * sc == sc * (l / sc) + sc) by (nonlinear_arith);
    }
}

proof fn lemma_slot_coords(j: int, f: int, oc: int, k: int)
    requires
        oc >= 1,
        0 <= k < oc,
        j == f * oc + k,
    ensures
        j / oc == f,
        j % oc == k,
{
    lemma_fundamental_div_mod_converse(j, oc, f, k);
}

impl<T: Copy> SampleStream<T> {
    /// At least one channel on each side, and the position inside the buffer.
    pub open spec fn wf(&self) -> bool {
        &&& self.source_channels >= 1
        &&& self.output_channels >= 1
        &&& self.position <= self.samples.len()
    }

    /// Opens the read side of a session at the start of `samples`.
    pub fn new(samples: Vec<T>, plan: StreamPlan) -> (r: Self)
        requires
            plan.source_channels >= 1,
            plan.output_channels >= 1,
        ensures
            r.wf(),
            r.samples@ == samples@,
            r.source_channels == plan.source_channels,
            r.output_channels == plan.output_channels,
            r.position == 0,
    {
        SampleStream {
            samples,
            source_channels: plan.source_channels as usize,
            output_channels: plan.output_channels as usize,
            position: 0,
        }
    }

    /// Whether every whole source frame has been played.
    pub fn is_finished(&self) -> (r: bool)
        requires
            self.wf(),
        ensures
            r == (frames_left(self.samples.len() as int, self.position as int, self.source_channels as int) == 0),
    {
        proof {
            lemma_frame_fits(self.samples.len() as int, self.position as int, self.source_channels as int, 0);
        }
        self.samples.len() - self.position < self.source_channels
    }

    /// Fills a block that the device asks for, frame by frame: while whole
    /// source frames are left, each device frame takes the next one (slot `k`
    /// takes channel `k mod source_channels`) and the position moves past
    /// it; every slot after that is `silence`. No slot is left unwritten.
    pub fn fill(&mut self, out: &mut [T], silence: T)
        requires
            old(self).wf(),
        ensures
            final(self).wf(),
            final(self).samples@ == old(self).samples@,
            final(self).source_channels == old(self).source_channels,
            final(self).output_channels == old(self).output_channels,
            final(self).position == old(self).position + fill_advance(
                old(self).samples.len() as int,
                old(self).position as int,
                old(self).source_channels as int,
                old(self).output_channels as int,
                old(out)@.len() as int,
            ),
            final(out)@.len() == old(out)@.len(),
            forall|j: int|
                0 <= j < old(out)@.len() ==> #[trigger] final(out)@[j] == filled_slot(
                    old(self).samples@,
                    old(self).position as int,
                    old(self).source_channels as int,
                    old(self).output_channels as int,
                    silence,
                    j,
                ),
    {
        let ghost pos0 = self.position as int;
        let ghost out0 = out@;
        let sc = self.source_channels;
        let oc = self.output_channels;
        let len = self.samples.len();
        let ghost rem = frames_left(len as int, pos0, sc as int);
        let m = out.len();
        let mut j: usize = 0;
        let mut k: usize = 0;
        let ghost mut f: int = 0;
        let mut live = false;
        let mut base: usize = self.position;
        proof {
            lemma_div_pos_is_pos(len - pos0, sc as int);
        }
        while j < m
            invariant
                sc == self.source_channels,
                oc == self.output_channels,
                sc >= 1,
                oc >= 1,
                len == self.samples.len(),
                self.samples@ == old(self).samples@,
                self.source_channels == old(self).source_channels,
                self.output_channels == old(self).output_channels,
                pos0 == old(self).position,
                pos0 <= len,
                rem == frames_left(len as int, pos0, sc as int),
                rem >= 0,
                m == out@.len(),
                out@.len() == out0.len(),
                out0 == old(out)@,
                j <= m,
                0 <= k < oc,
                f >= 0,
                j == f * oc + k,
                k == 0 ==> self.position == pos0 + (if f < rem { f } else { rem }) * sc,
                k > 0 ==> self.position == pos0 + (if f + 1 < rem { f + 1 } else { rem }) * sc,
                k > 0 ==> (live <==> f < rem),
                k > 0 && live ==> base == pos0 + f * sc && base + sc <= len,
                self.position <= len,
                forall|i: int|
                    0 <= i < j ==> #[trigger] out@[i] == filled_slot(
                        self.samples@,
                        pos0,
                        sc as int,
                        oc as int,
                        silence,
                        i,
                    ),
            decreases m - j,
        {
            if k == 0 {
                proof {
                    lemma_frame_fits(len as int, pos0, sc as int, f);
                    if f >= rem {
                        lemma_frame_fits(len as int, pos0, sc as int, rem);
                        lemma_mul_is_distributive_add_other_way(sc as int, rem, 1);
                    }
                    lemma_mul_is_distributive_add_other_way(sc as int, f, 1);
                }
                if sc <= len - self.position {
                    live = true;
                    base = self.position;
                    self.position = self.position + sc;
                    assert(f < rem);
                    assert(self.position == pos0 + (f + 1) * sc);
                } else {
                    live = false;
                    assert(f >= rem);
                }
            }
            let ghost before = out@;
            proof {
                lemma_slot_coords(j as int, f, oc as int, k as int);
                lemma_mod_bound(k as int, sc as int);
            }
            if live {
                out[j] = self.samples[base + k % sc];
            } else {
                out[j] = silence;
            }
            assert(forall|i: int| 0 <= i < j ==> out@[i] == before[i]);
            k = k + 1;
            j = j + 1;
            if k == oc {
                k = 0;
                proof {
                    lemma_mul_is_distributive_add_other_way(oc as int, f, 1);
                    f = f + 1;
                }
            }
        }
        proof {
            let total = block_frames(m as int, oc as int);
            if k == 0 {
                lemma_fundamental_div_mod_converse(m + oc - 1, oc as int, f, oc - 1);
                assert(total == f);
            } else {
                lemma_mul_is_distributive_add_other_way(oc as int, f, 1);
                lemma_fundamental_div_mod_converse(m + oc - 1, oc as int, f + 1, k - 1);
                assert(total == f + 1);
            }
        }
    }
}

/// Filling whole frames from a buffer with whole frames left, with as many
/// channels on the device as in the buffer: a block of `m` samples gets the
/// next `min(m, r)` samples of the buffer, `r` being how many are left,
/// followed by `max(0, m - r)` samples of silence, and the position moves by
/// exactly `min(m, r)`.
pub proof fn lemma_whole_frame_fill<T>(samples: Seq<T>, pos: int, c: int, m: int, silence: T)
    requires
        c >= 1,
        0 <= pos <= samples.len(),
        m >= 0,
        m % c == 0,
        (samples.len() - pos) % c == 0,
    ensures
        ({
            let r = samples.len() - pos;
            let copied = if m < r {
                m
            } else {
                r
            };
            &&& fill_advance(samples.len() as int, pos, c, c, m) == copied
            &&& forall|j: int|
                0 <= j < m ==> #[trigger] filled_slot(samples, pos, c, c, silence, j) == if j
                    < copied {
                    samples[pos + j]
                } else {
                    silence
                }
        }),
{
    let r = samples.len() - pos;
    lemma_fundamental_div_mod(r, c);
    lemma_fundamental_div_mod(m, c);
    lemma_fundamental_div_mod_converse(m + c - 1, c, m / c, c - 1);
    assert(m == c * (m / c) && r == c * (r / c));
    assert(r / c * c == r && m / c * c == m) by (nonlinear_arith)
        requires
            m == c * (m / c),
            r == c * (r / c),
    ;
    if m / c < r / c {
        lemma_mul_inequality(m / c, r / c, c);
    } else {
        lemma_mul_inequality(r / c, m / c, c);
    }
    let copied = if m < r {
        m
    } else {
        r
    };
    assert forall|j: int| 0 <= j < m implies #[trigger] filled_slot(samples, pos, c, c, silence, j)
        == if j < copied {
        samples[pos + j]
    } else {
        silence
    } by {
        lemma_fundamental_div_mod(j, c);
        lemma_mod_bound(j, c);
        lemma_fundamental_div_mod_converse(j % c, c, 0, j % c);
        assert((j / c) * c == c * (j / c)) by (nonlinear_arith);
        if j < r {
            if j / c >= r / c {
                lemma_mul_inequality(r / c, j / c, c);
            }
            assert(j / c < r / c);
        } else {
            lemma_div_is_ordered(r, j, c);
        }
    }
}

} // verus!
