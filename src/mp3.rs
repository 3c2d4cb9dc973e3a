use vstd::prelude::*;

use crate::audio::{upmix_mono, upmixed, AudioFileLoader, DecodedAudio};
use crate::error::{DecodeError, PlayerError};
use symphonia::default::codecs::MpaDecoder;

verus! {

#[verifier::external_type_specification]
#[verifier::external_body]
pub struct ExProbeResult(symphonia::core::probe::ProbeResult);

#[verifier::external_type_specification]
#[verifier::external_body]
pub struct ExPacket(symphonia::core::formats::Packet);

#[verifier::external_type_specification]
#[verifier::external_body]
pub struct ExMpaDecoder(MpaDecoder);

#[verifier::external_type_specification]
#[verifier::external_body]
pub struct ExSymphoniaError(symphonia::core::errors::Error);

/// What the player reads of one track of a container.
#[derive(Debug, Clone, Copy, PartialEq, Eq)]
pub struct TrackInfo {
    pub id: u32,
    /// The track's codec is symphonia's null codec (no audio codec known).
    pub null_codec: bool,
    pub sample_rate: Option<u32>,
    /// The number of channels in the track's channel mask.
    pub channels: Option<usize>,
}

/// A track as plain values: id, null codec, sample rate, channel count.
pub open spec fn track_tuple(t: TrackInfo) -> (u32, bool, Option<u32>, Option<usize>) {
    (t.id, t.null_codec, t.sample_rate, t.channels)
}

/// Whether symphonia's MPEG audio probe finds a stream in the bytes.
pub uninterp spec fn symphonia_probe_accepts(bytes: Seq<u8>) -> bool;

/// The tracks that the probed MPEG audio reader lists for the bytes.
pub uninterp spec fn mp3_tracks(bytes: Seq<u8>) -> Seq<(u32, bool, Option<u32>, Option<usize>)>;

/// Whether `MpaDecoder` accepts the codec parameters of a listed track.
pub uninterp spec fn mp3_decoder_accepts(bytes: Seq<u8>, track: int) -> bool;

/// The track ids of the packets that the reader returns, in order, before
/// its first error.
pub uninterp spec fn mp3_packet_tracks(bytes: Seq<u8>) -> Seq<u32>;

/// What decoding packet `packet` gives, with the decoder for track `track`
/// that has decoded every earlier packet of that track, in order: channel
/// count and interleaved full-range samples, or `None` where it fails.
pub uninterp spec fn mp3_decoded(bytes: Seq<u8>, track: int, packet: int) -> Option<(usize, Seq<i32>)>;

/// A probed MPEG audio stream and how far it has been read.
pub struct Mp3Source {
    probed: symphonia::core::probe::ProbeResult,
    bytes: Ghost<Seq<u8>>,
    /// The packets read so far; one more once reading has failed.
    read: Ghost<nat>,
}

/// A packet read from an [`Mp3Source`], with its place in the stream.
pub struct Mp3Packet {
    packet: symphonia::core::formats::Packet,
    bytes: Ghost<Seq<u8>>,
    index: Ghost<int>,
}

/// The decoder of one track of an [`Mp3Source`], with the index just past
/// the last packet it decoded.
pub struct Mp3Decoder {
    decoder: MpaDecoder,
    bytes: Ghost<Seq<u8>>,
    track: Ghost<int>,
    track_id: Ghost<u32>,
    next: Ghost<int>,
}

/// Relies on symphonia's `Probe::format`, with only `MpaReader` registered:
/// it finds an MPEG audio stream in the bytes, or fails.
#[verifier::external_body]
fn probe_mp3(bytes: Vec<u8>) -> (r: Result<Mp3Source, symphonia::core::errors::Error>)
    ensures
        r is Ok <==> symphonia_probe_accepts(bytes@),
        r matches Ok(s) ==> s.bytes@ == bytes@ && s.read@ == 0,
{
    let seen = Ghost(bytes@);
    let source = symphonia::core::io::MediaSourceStream::new(
        Box::new(std::io::Cursor::new(bytes)),
        Default::default(),
    );
    let mut probe = symphonia::core::probe::Probe::default();
    probe.register_all::<symphonia::default::formats::MpaReader>();
    let hint = symphonia::core::probe::Hint::new();
    let probed = probe.format(&hint, source, &Default::default(), &Default::default())?;
    Ok(Mp3Source { probed, bytes: seen, read: Ghost(0) })
}

/// Relies on symphonia's `FormatReader::tracks` and `Channels::count`: each
/// track of the probed stream, in its order.
#[verifier::external_body]
fn track_list(source: &Mp3Source) -> (r: Vec<TrackInfo>)
    ensures
        r.len() == mp3_tracks(source.bytes@).len(),
        forall|i: int| 0 <= i < r.len() ==> track_tuple(#[trigger] r[i]) == mp3_tracks(source.bytes@)[i],
{
    source.probed.format.tracks().iter().map(
        |t| TrackInfo {
            id: t.id,
            null_codec: t.codec_params.codec == symphonia::core::codecs::CODEC_TYPE_NULL,
            sample_rate: t.codec_params.sample_rate,
            channels: t.codec_params.channels.map(|c| c.count()),
        },
    ).collect()
}

/// Relies on `MpaDecoder::try_new`: a decoder for the listed track's codec
/// parameters, or an error where they are not MPEG audio.
#[verifier::external_body]
fn make_decoder(source: &Mp3Source, track: usize) -> (r: Result<Mp3Decoder, symphonia::core::errors::Error>)
    requires
        track < mp3_tracks(source.bytes@).len(),
    ensures
        r is Ok <==> mp3_decoder_accepts(source.bytes@, track as int),
        r matches Ok(d) ==> d.bytes@ == source.bytes@ && d.track@ == track && d.track_id@
            == mp3_tracks(source.bytes@)[track as int].0 && d.next@ == 0,
{
    let params = &source.probed.format.tracks()[track].codec_params;
    let decoder = <MpaDecoder as symphonia::core::codecs::Decoder>::try_new(params, &Default::default())?;
    let id = Ghost(mp3_tracks(source.bytes@)[track as int].0);
    Ok(Mp3Decoder { decoder, bytes: Ghost(source.bytes@), track: Ghost(track as int), track_id: id, next: Ghost(0) })
}

/// Relies on symphonia's `FormatReader::next_packet`: the next packet of the
/// stream, or an error at its end or where it cannot be read on.
#[verifier::external_body]
fn next_packet(source: &mut Mp3Source) -> (r: Result<Mp3Packet, symphonia::core::errors::Error>)
    requires
        old(source).read@ <= mp3_packet_tracks(old(source).bytes@).len(),
    ensures
        final(source).bytes@ == old(source).bytes@,
        final(source).read@ == old(source).read@ + 1,
        r is Ok <==> old(source).read@ < mp3_packet_tracks(old(source).bytes@).len(),
        r matches Ok(p) ==> p.bytes@ == old(source).bytes@ && p.index@ == old(source).read@,
{
    let index = Ghost(source.read@ as int);
    source.read = Ghost(source.read@ + 1);
    let packet = source.probed.format.next_packet()?;
    Ok(Mp3Packet { packet, bytes: Ghost(source.bytes@), index })
}

/// Relies on `Packet::track_id`: the id of the track the packet belongs to.
#[verifier::external_body]
fn packet_track(packet: &Mp3Packet) -> (r: u32)
    requires
        0 <= packet.index@ < mp3_packet_tracks(packet.bytes@).len(),
    ensures
        r == mp3_packet_tracks(packet.bytes@)[packet.index@],
{
    packet.packet.track_id()
}

/// The samples of one decoded packet, interleaved by channel.
#[derive(Debug, Clone, PartialEq, Eq)]
pub struct PacketSamples {
    pub channels: usize,
    pub samples: Vec<i32>,
}

/// Relies on `MpaDecoder::decode` and `SampleBuffer::<i32>::copy_interleaved_ref`:
/// the next packet of the decoder's track decoded and converted to
/// full-range 32-bit integers, or the decoder's error for a packet it cannot
/// decode. MPEG audio has one or two channels, so the sample buffer is never
/// sized for none.
#[verifier::external_body]
fn decode_packet(decoder: &mut Mp3Decoder, packet: &Mp3Packet) -> (r: Result<PacketSamples, symphonia::core::errors::Error>)
    requires
        old(decoder).bytes@ == packet.bytes@,
        old(decoder).next@ <= packet.index@ < mp3_packet_tracks(packet.bytes@).len(),
        mp3_packet_tracks(packet.bytes@)[packet.index@] == old(decoder).track_id@,
        forall|j: int| old(decoder).next@ <= j < packet.index@ ==> #[trigger] mp3_packet_tracks(packet.bytes@)[j] != old(decoder).track_id@,
    ensures
        final(decoder).bytes@ == old(decoder).bytes@,
        final(decoder).track@ == old(decoder).track@,
        final(decoder).track_id@ == old(decoder).track_id@,
        final(decoder).next@ == packet.index@ + 1,
        match r {
            Ok(p) => mp3_decoded(packet.bytes@, old(decoder).track@, packet.index@) == Some((p.channels, p.samples@)),
            Err(_) => mp3_decoded(packet.bytes@, old(decoder).track@, packet.index@) is None,
        },
{
    decoder.next = Ghost(packet.index@ + 1);
    let decoded = symphonia::core::codecs::Decoder::decode(&mut decoder.decoder, &packet.packet)?;
    let spec = *decoded.spec();
    let mut buffer = symphonia::core::audio::SampleBuffer::<i32>::new(decoded.capacity() as u64, spec);
    buffer.copy_interleaved_ref(decoded);
    Ok(PacketSamples { channels: spec.channels.count(), samples: buffer.samples().to_vec() })
}

/// The first track whose codec is known, in a track list.
pub open spec fn is_first_known(tracks: Seq<(u32, bool, Option<u32>, Option<usize>)>, i: int) -> bool {
    &&& 0 <= i < tracks.len()
    &&& !tracks[i].1
    &&& forall|j: int| 0 <= j < i ==> #[trigger] tracks[j].1
}

/// The index of the first track whose codec is known, if any.
pub fn select_track(tracks: &Vec<TrackInfo>) -> (r: Option<usize>)
    ensures
        match r {
            Some(i) => i < tracks.len() && !tracks[i as int].null_codec && forall|j: int|
                0 <= j < i ==> #[trigger] tracks[j].null_codec,
            None => forall|j: int| 0 <= j < tracks.len() ==> #[trigger] tracks[j].null_codec,
        },
{
    let mut i: usize = 0;
    while i < tracks.len()
        invariant
            i <= tracks.len(),
            forall|j: int| 0 <= j < i ==> #[trigger] tracks[j].null_codec,
        decreases tracks.len() - i,
    {
        if !tracks[i].null_codec {
            return Some(i);
        }
        i = i + 1;
    }
    None
}

/// What a decoded packet of `channels` channels adds to the buffer: a mono
/// packet spread over two channels, any other packet as it is.
pub open spec fn contribution_of(channels: usize, samples: Seq<i32>) -> Seq<i32> {
    if channels == 1 {
        upmixed(samples)
    } else {
        samples
    }
}

/// What a decoded packet adds to the buffer.
pub open spec fn packet_contribution(p: PacketSamples) -> Seq<i32> {
    contribution_of(p.channels, p.samples@)
}

/// Adds one packet's outcome to the buffer: a packet that failed to decode
/// (`None`) is skipped and leaves the buffer as it was.
pub fn append_packet(samples: &mut Vec<i32>, decoded: Option<PacketSamples>)
    ensures
        match decoded {
            Some(p) => final(samples)@ == old(samples)@ + packet_contribution(p),
            None => final(samples)@ == old(samples)@,
        },
{
    match decoded {
        Some(p) => {
            let mut more = if p.channels == 1 {
                upmix_mono(&p.samples)
            } else {
                p.samples
            };
            samples.append(&mut more);
        },
        None => {},
    }
}

/// What the first `n` packets of the stream add to the buffer: those of
/// track `id` that decode, in order; the others add nothing.
pub open spec fn mp3_collected(bytes: Seq<u8>, track: int, id: u32, n: nat) -> Seq<i32>
    decreases n,
{
    if n == 0 {
        Seq::empty()
    } else {
        let before = mp3_collected(bytes, track, id, (n - 1) as nat);
        if mp3_packet_tracks(bytes)[n - 1] == id {
            match mp3_decoded(bytes, track, n - 1) {
                Some((channels, samples)) => before + contribution_of(channels, samples),
                None => before,
            }
        } else {
            before
        }
    }
}

/// The channel count of the buffer built from a track of `track_channels`
/// channels: mono tracks are spread over two channels.
pub open spec fn output_channels(track_channels: int) -> int {
    if track_channels == 1 {
        2
    } else {
        track_channels
    }
}

/// The longest prefix of `s` made of whole frames of `channels` samples.
pub open spec fn whole_frames(s: Seq<i32>, channels: int) -> Seq<i32> {
    s.subrange(0, s.len() - (s.len() as int) % channels)
}

/// What decoding the bytes as MPEG audio gives: the rate, the channel count
/// and the samples of the first track with a known codec, or the error.
/// At most one packet per byte is read.
pub open spec fn mp3_outcome(bytes: Seq<u8>) -> Result<(u32, u16, Seq<i32>), DecodeError> {
    let tracks = mp3_tracks(bytes);
    if !symphonia_probe_accepts(bytes) {
        Err(DecodeError::Malformed)
    } else if forall|j: int| 0 <= j < tracks.len() ==> #[trigger] tracks[j].1 {
        Err(DecodeError::NoAudioTrack)
    } else {
        let i = choose|i: int| is_first_known(tracks, i);
        match tracks[i].2 {
            None => Err(DecodeError::MissingSampleRate),
            Some(rate) => match tracks[i].3 {
                None => Err(DecodeError::MissingChannels),
                Some(c) => if c == 0 || c > 0xffff {
                    Err(DecodeError::MissingChannels)
                } else if !mp3_decoder_accepts(bytes, i) {
                    Err(DecodeError::UnsupportedEncoding)
                } else {
                    let out = output_channels(c as int);
                    let packets = mp3_packet_tracks(bytes).len();
                    let n = if packets < bytes.len() {
                        packets
                    } else {
                        bytes.len()
                    };
                    Ok((rate, out as u16, whole_frames(mp3_collected(bytes, i, tracks[i].0, n), out)))
                },
            },
        }
    }
}

/// `r` is what [`mp3_outcome`] says of `bytes`.
pub open spec fn mp3_result_matches(bytes: Seq<u8>, r: Result<DecodedAudio, PlayerError>) -> bool {
    match mp3_outcome(bytes) {
        Ok((rate, channels, samples)) => r matches Ok(a) && a.sample_rate == rate && a.channels
            == channels && a.samples@ == samples && a.full_scale == i32::MAX,
        Err(e) => r == Err::<DecodedAudio, PlayerError>(PlayerError::Decode(e)),
    }
}

proof fn lemma_first_known_unique(tracks: Seq<(u32, bool, Option<u32>, Option<usize>)>, i: int, k: int)
    requires
        is_first_known(tracks, i),
        is_first_known(tracks, k),
    ensures
        i == k,
{
    if i < k {
        assert(tracks[i].1);
    } else if k < i {
        assert(tracks[k].1);
    }
}

/// Decodes MPEG audio.
pub struct Mp3Loader;

impl AudioFileLoader for Mp3Loader {
    /// Probes the stream, takes the first track with a known codec, and
    /// decodes its packets in order. A packet that fails to decode is
    /// skipped; reading stops at the first packet that cannot be read, and
    /// reads no more packets than there are bytes (each packet takes at least
    /// one). A trailing partial frame is dropped.
    fn load_samples(&self, bytes: &Vec<u8>) -> (r: Result<DecodedAudio, PlayerError>)
        ensures
            mp3_result_matches(bytes@, r),
    {
        let mut source = match probe_mp3(bytes.clone()) {
            Ok(s) => s,
            Err(_) => return Err(PlayerError::Decode(DecodeError::Malformed)),
        };
        let tracks = track_list(&source);
        let ghost listed = mp3_tracks(bytes@);
        assert(tracks@.map_values(|t: TrackInfo| track_tuple(t)) =~= listed);
        let index = match select_track(&tracks) {
            Some(i) => i,
            None => {
                assert forall|j: int| 0 <= j < listed.len() implies #[trigger] listed[j].1 by {
                    assert(track_tuple(tracks[j]) == listed[j]);
                }
                return Err(PlayerError::Decode(DecodeError::NoAudioTrack));
            },
        };
        proof {
            assert(track_tuple(tracks[index as int]) == listed[index as int]);
            assert forall|j: int| 0 <= j < index implies #[trigger] listed[j].1 by {
                assert(track_tuple(tracks[j]) == listed[j]);
            }
            assert(is_first_known(listed, index as int));
            let c = choose|i: int| is_first_known(listed, i);
            lemma_first_known_unique(listed, index as int, c);
        }
        let track = tracks[index];
        let sample_rate = match track.sample_rate {
            Some(rate) => rate,
            None => return Err(PlayerError::Decode(DecodeError::MissingSampleRate)),
        };
        let track_channels: u16 = match track.channels {
            Some(c) => {
                if c == 0 || c > 0xffff {
                    return Err(PlayerError::Decode(DecodeError::MissingChannels));
                }
                c as u16
            },
            None => return Err(PlayerError::Decode(DecodeError::MissingChannels)),
        };
        let channels: u16 = if track_channels == 1 {
            2
        } else {
            track_channels
        };
        let mut decoder = match make_decoder(&source, index) {
            Ok(d) => d,
            Err(_) => return Err(PlayerError::Decode(DecodeError::UnsupportedEncoding)),
        };
        let id = track.id;
        let ghost packets = mp3_packet_tracks(bytes@);
        let mut samples: Vec<i32> = Vec::new();
        let mut budget: usize = bytes.len();
        while budget > 0
            invariant_except_break
                source.read@ <= packets.len(),
                source.read@ + budget == bytes.len(),
                decoder.next@ <= source.read@,
                forall|j: int| decoder.next@ <= j < source.read@ ==> #[trigger] packets[j] != id,
                samples@ == mp3_collected(bytes@, index as int, id, source.read@),
            invariant
                source.bytes@ == bytes@,
                decoder.bytes@ == bytes@,
                decoder.track@ == index,
                decoder.track_id@ == id,
                packets == mp3_packet_tracks(bytes@),
            ensures
                samples@ == mp3_collected(
                    bytes@,
                    index as int,
                    id,
                    if packets.len() < bytes.len() { packets.len() } else { bytes.len() as nat },
                ),
            decreases budget,
        {
            budget = budget - 1;
            let ghost k = source.read@;
            let packet = match next_packet(&mut source) {
                Ok(p) => p,
                Err(_) => {
                    assert(k == packets.len() && k < bytes.len());
                    break;
                },
            };
            if packet_track(&packet) == id {
                let decoded = match decode_packet(&mut decoder, &packet) {
                    Ok(p) => Some(p),
                    Err(_) => None,
                };
                append_packet(&mut samples, decoded);
            }
        }
        let c = channels as usize;
        let len = samples.len();
        proof {
            vstd::arithmetic::div_mod::lemma_fundamental_div_mod(len as int, c as int);
            vstd::arithmetic::div_mod::lemma_mod_bound(len as int, c as int);
            vstd::arithmetic::div_mod::lemma_mod_multiples_basic(len as int / c as int, c as int);
            vstd::arithmetic::mul::lemma_mul_is_commutative(len as int / c as int, c as int);
        }
        let whole = len - len % c;
        samples.truncate(whole);
        Ok(DecodedAudio { samples, full_scale: 0x7fff_ffff, sample_rate, channels })
    }
}

} // verus!
