use audio_player::audio::{full_scale, upmix_mono, AudioFileLoader};
use audio_player::error::{DecodeError, PlayerError};
use audio_player::format::DynamicAudioLoader;
use audio_player::mp3::{append_packet, select_track, Mp3Loader, PacketSamples, TrackInfo};
use audio_player::wav::{WavHeader, WavLoader};

fn wav_bytes(channels: u16, bits: u16, samples: &[i32]) -> Vec<u8> {
    let spec = hound::WavSpec {
        channels,
        sample_rate: 44100,
        bits_per_sample: bits,
        sample_format: hound::SampleFormat::Int,
    };
    let mut cursor = std::io::Cursor::new(Vec::new());
    {
        let mut writer = hound::WavWriter::new(&mut cursor, spec).unwrap();
        for s in samples {
            writer.write_sample(*s).unwrap();
        }
        writer.finalize().unwrap();
    }
    cursor.into_inner()
}

#[test]
fn full_scale_matches_bit_depth() {
    assert_eq!(full_scale(8), 127);
    assert_eq!(full_scale(16), 32767);
    assert_eq!(full_scale(24), 8_388_607);
    assert_eq!(full_scale(32), i32::MAX);
}

#[test]
fn silent_wav_decodes_to_silent_frames() {
    let frames = 5;
    let bytes = wav_bytes(2, 16, &vec![0; frames * 2]);
    let audio = WavLoader.load_samples(&bytes).unwrap();
    assert_eq!(audio.channels, 2);
    assert_eq!(audio.sample_rate, 44100);
    assert_eq!(audio.frames(), frames);
    assert_eq!(audio.samples.len(), frames * 2);
    assert!(audio.samples.iter().all(|s| *s == 0));
    assert!(audio
        .samples
        .iter()
        .all(|s| *s as f32 / audio.full_scale as f32 == 0.0));
}

#[test]
fn wav_samples_keep_values_and_order() {
    let bytes = wav_bytes(1, 16, &[0, 1000, -32768, 32767]);
    let audio = WavLoader.load_samples(&bytes).unwrap();
    assert_eq!(audio.samples, vec![0, 1000, -32768, 32767]);
    assert_eq!(audio.full_scale, 32767);
    assert_eq!(audio.channels, 1);
    assert_eq!(audio.frames(), 4);
}

#[test]
fn eight_bit_wav_uses_its_own_scale() {
    let bytes = wav_bytes(1, 8, &[-128, 0, 127]);
    let audio = WavLoader.load_samples(&bytes).unwrap();
    assert_eq!(audio.samples, vec![-128, 0, 127]);
    assert_eq!(audio.full_scale, 127);
}

#[test]
fn truncated_wav_is_refused() {
    let mut bytes = wav_bytes(1, 16, &[1, 2, 3, 4]);
    bytes.pop();
    assert_eq!(
        WavLoader.load_samples(&bytes),
        Err(PlayerError::Decode(DecodeError::Truncated))
    );
}

#[test]
fn non_wav_bytes_are_refused() {
    let bytes = b"this is not a RIFF file at all".to_vec();
    assert!(matches!(WavLoader.load_samples(&bytes), Err(PlayerError::Decode(_))));
}

#[test]
fn from_pcm_checks_the_header() {
    let ok = WavLoader::from_pcm(
        WavHeader { channels: 2, sample_rate: 8000, bits_per_sample: 24 },
        vec![1, 2, 3, 4],
    )
    .unwrap();
    assert_eq!(ok.samples, vec![1, 2, 3, 4]);
    assert_eq!(ok.full_scale, 8_388_607);
    assert_eq!(ok.sample_rate, 8000);
    assert_eq!(
        WavLoader::from_pcm(
            WavHeader { channels: 2, sample_rate: 8000, bits_per_sample: 16 },
            vec![1, 2, 3],
        ),
        Err(PlayerError::Decode(DecodeError::Malformed))
    );
    assert_eq!(
        WavLoader::from_pcm(WavHeader { channels: 0, sample_rate: 8000, bits_per_sample: 16 }, vec![]),
        Err(PlayerError::Decode(DecodeError::Malformed))
    );
}

#[test]
fn zero_sample_rate_is_refused() {
    assert_eq!(
        WavLoader::from_pcm(WavHeader { channels: 1, sample_rate: 0, bits_per_sample: 16 }, vec![0, 0]),
        Err(PlayerError::Decode(DecodeError::Malformed))
    );
    let mut bytes = wav_bytes(1, 16, &[5, 6]);
    // The sample rate and byte rate fields of the fmt chunk.
    for b in &mut bytes[24..32] {
        *b = 0;
    }
    assert_eq!(
        WavLoader.load_samples(&bytes),
        Err(PlayerError::Decode(DecodeError::Malformed))
    );
}

#[test]
fn wav_cut_inside_its_header_is_truncated() {
    let bytes = wav_bytes(1, 16, &[1, 2]);
    assert_eq!(
        WavLoader.load_samples(&bytes[..20].to_vec()),
        Err(PlayerError::Decode(DecodeError::Truncated))
    );
}

#[test]
fn float_wav_is_refused() {
    let spec = hound::WavSpec {
        channels: 1,
        sample_rate: 8000,
        bits_per_sample: 32,
        sample_format: hound::SampleFormat::Float,
    };
    let mut cursor = std::io::Cursor::new(Vec::new());
    {
        let mut writer = hound::WavWriter::new(&mut cursor, spec).unwrap();
        writer.write_sample(0.5f32).unwrap();
        writer.finalize().unwrap();
    }
    assert_eq!(
        WavLoader.load_samples(&cursor.into_inner()),
        Err(PlayerError::Decode(DecodeError::UnsupportedEncoding))
    );
}

#[test]
fn mono_upmix_doubles_each_sample() {
    let mono = vec![0.5f32, -0.25, 1.0];
    let stereo = upmix_mono(&mono);
    assert_eq!(stereo, vec![0.5, 0.5, -0.25, -0.25, 1.0, 1.0]);
    for i in 0..mono.len() {
        assert_eq!(stereo[2 * i], stereo[2 * i + 1]);
    }
    assert!(upmix_mono::<i32>(&Vec::new()).is_empty());
}

#[test]
fn corrupt_packet_in_the_middle_is_skipped() {
    let mut samples = Vec::new();
    append_packet(&mut samples, Some(PacketSamples { channels: 2, samples: vec![1, 2, 3, 4] }));
    append_packet(&mut samples, None);
    append_packet(&mut samples, Some(PacketSamples { channels: 2, samples: vec![5, 6] }));
    append_packet(&mut samples, Some(PacketSamples { channels: 2, samples: vec![7, 8] }));
    assert_eq!(samples, vec![1, 2, 3, 4, 5, 6, 7, 8]);
}

#[test]
fn mono_packet_is_spread_over_two_channels() {
    let mut samples = vec![9];
    append_packet(&mut samples, Some(PacketSamples { channels: 1, samples: vec![1, 2] }));
    assert_eq!(samples, vec![9, 1, 1, 2, 2]);
}

fn track(id: u32, null_codec: bool) -> TrackInfo {
    TrackInfo {
        id,
        null_codec,
        sample_rate: Some(44100),
        channels: Some(2),
    }
}

#[test]
fn first_track_with_a_codec_is_selected() {
    assert_eq!(select_track(&vec![track(1, true), track(2, false), track(3, false)]), Some(1));
    assert_eq!(select_track(&vec![track(1, false)]), Some(0));
    assert_eq!(select_track(&vec![track(1, true)]), None);
    assert_eq!(select_track(&Vec::new()), None);
}

#[test]
fn unreadable_mp3_is_malformed() {
    let bytes = vec![0u8; 64];
    assert_eq!(
        Mp3Loader.load_samples(&bytes),
        Err(PlayerError::Decode(DecodeError::Malformed))
    );
}

#[test]
fn decode_dispatches_on_extension() {
    let loader = DynamicAudioLoader;
    let bytes = wav_bytes(1, 16, &[3, -3]);
    assert_eq!(loader.decode("x.WAV", &bytes).unwrap().samples, vec![3, -3]);
    assert_eq!(
        loader.decode("x.flac", &bytes),
        Err(PlayerError::UnsupportedFormat("flac".to_string()))
    );
    assert!(matches!(loader.decode("x.mp3", &vec![0u8; 16]), Err(PlayerError::Decode(_))));
}

fn silent_mp3(frames: usize) -> Vec<u8> {
    let mut bytes = Vec::new();
    for _ in 0..frames {
        let mut frame = vec![0u8; 417];
        frame[..4].copy_from_slice(&[0xff, 0xfb, 0x90, 0x64]);
        bytes.extend_from_slice(&frame);
    }
    bytes
}

#[test]
fn silent_mp3_frames_decode_to_silence() {
    let audio = Mp3Loader.load_samples(&silent_mp3(6)).unwrap();
    assert_eq!(audio.sample_rate, 44100);
    assert_eq!(audio.channels, 2);
    assert_eq!(audio.full_scale, i32::MAX);
    assert!(!audio.samples.is_empty());
    assert_eq!(audio.samples.len() % 2, 0);
    assert!(audio.samples.iter().all(|s| *s == 0));
}

#[test]
fn corrupt_mp3_frame_in_the_middle_is_skipped() {
    let clean = Mp3Loader.load_samples(&silent_mp3(4)).unwrap();
    let mut bytes = silent_mp3(4);
    // The second frame's side information is all ones: its first granule
    // claims more than 288 big values, which the decoder refuses.
    for b in &mut bytes[417 + 4..417 + 36] {
        *b = 0xff;
    }
    let damaged = Mp3Loader.load_samples(&bytes).unwrap();
    assert_eq!(damaged.samples.len() * 4, clean.samples.len() * 3);
    assert!(damaged.samples.iter().all(|s| *s == 0));
}
