use vstd::prelude::*;

use crate::audio::{AudioFileLoader, DecodedAudio};
use crate::error::{DecodeError, PlayerError};
use crate::mp3::{mp3_result_matches, Mp3Loader};
use crate::wav::{hound_wav_contents, pcm_accepted, pcm_buffer, wav_failure, WavHeader, WavLoader};

verus! {

/// The index of the last `c` in `s`, or -1 where `s` holds none.
pub open spec fn last_index_of(s: Seq<char>, c: char) -> int
    decreases s.len(),
{
    if s.len() == 0 {
        -1
    } else if s.last() == c {
        s.len() - 1
    } else {
        last_index_of(s.drop_last(), c)
    }
}

/// The extension of a path: what follows the last `.` of its last
/// component, where that `.` is not the component's first character.
pub open spec fn extension_of(path: Seq<char>) -> Option<Seq<char>> {
    let name_start = last_index_of(path, '/') + 1;
    let dot = last_index_of(path, '.');
    if dot > name_start {
        Some(path.subrange(dot + 1, path.len() as int))
    } else {
        None
    }
}

/// `c` equals the lower-case ASCII character `lower`, ignoring ASCII case.
pub open spec fn char_matches_folded(c: char, lower: char) -> bool {
    ||| c == lower
    ||| ('a' <= lower <= 'z' && c as u32 + 32 == lower as u32)
}

/// `s` spells `lower` (lower-case ASCII), ignoring ASCII case.
pub open spec fn matches_folded(s: Seq<char>, lower: Seq<char>) -> bool {
    &&& s.len() == lower.len()
    &&& forall|i: int| 0 <= i < s.len() ==> char_matches_folded(#[trigger] s[i], lower[i])
}

/// A format that a decoder is registered for.
#[derive(Debug, Clone, Copy, PartialEq, Eq)]
pub enum AudioFormat {
    /// Raw PCM in a RIFF/WAVE container.
    Wav,
    /// MPEG audio layer III.
    Mp3,
}

/// The format registered for an extension, whatever its ASCII case.
pub open spec fn format_for_extension(ext: Seq<char>) -> Option<AudioFormat> {
    if matches_folded(ext, seq!['w', 'a', 'v']) {
        Some(AudioFormat::Wav)
    } else if matches_folded(ext, seq!['m', 'p', '3']) {
        Some(AudioFormat::Mp3)
    } else {
        None
    }
}

/// The format registered for a path's extension.
pub open spec fn format_of_path(path: Seq<char>) -> Option<AudioFormat> {
    match extension_of(path) {
        Some(ext) => format_for_extension(ext),
        None => None,
    }
}

proof fn lemma_last_index_step(s: Seq<char>, i: int, c: char)
    requires
        0 <= i < s.len(),
    ensures
        last_index_of(s.subrange(0, i + 1), c) == if s[i] == c {
            i
        } else {
            last_index_of(s.subrange(0, i), c)
        },
{
    assert(s.subrange(0, i + 1).drop_last() =~= s.subrange(0, i));
}

proof fn lemma_last_index_bounds(s: Seq<char>, c: char)
    ensures
        -1 <= last_index_of(s, c) < s.len(),
        last_index_of(s, c) >= 0 ==> s[last_index_of(s, c)] == c,
    decreases s.len(),
{
    if s.len() > 0 && s.last() != c {
        lemma_last_index_bounds(s.drop_last(), c);
    }
}

/// Where the extension of `path` starts (just past its dot), if it has one.
fn extension_start(path: &str) -> (r: Option<usize>)
    ensures
        match extension_of(path@) {
            Some(ext) => r matches Some(start) && start <= path@.len() && ext == path@.subrange(
                start as int,
                path@.len() as int,
            ),
            None => r is None,
        },
{
    let n = path.unicode_len();
    let mut name_start: usize = 0;
    let mut dot: Option<usize> = None;
    let mut i: usize = 0;
    while i < n
        invariant
            n == path@.len(),
            i <= n,
            name_start as int == last_index_of(path@.subrange(0, i as int), '/') + 1,
            match dot {
                Some(d) => d as int == last_index_of(path@.subrange(0, i as int), '.') && d < i,
                None => last_index_of(path@.subrange(0, i as int), '.') == -1,
            },
        decreases n - i,
    {
        let c = path.get_char(i);
        proof {
            lemma_last_index_step(path@, i as int, '/');
            lemma_last_index_step(path@, i as int, '.');
        }
        if c == '/' {
            name_start = i + 1;
        }
        if c == '.' {
            dot = Some(i);
        }
        i = i + 1;
    }
    assert(path@.subrange(0, n as int) =~= path@);
    proof {
        lemma_last_index_bounds(path@, '/');
    }
    match dot {
        Some(d) => {
            if d > name_start {
                Some(d + 1)
            } else {
                None
            }
        },
        None => None,
    }
}

fn char_matches(c: char, lower: char) -> (r: bool)
    ensures
        r == char_matches_folded(c, lower),
{
    c == lower || ('a' <= lower && lower <= 'z' && c as u32 + 32 == lower as u32)
}

/// Whether `path@[start..]` spells the three lower-case characters `a b c`,
/// ignoring ASCII case.
fn tail_matches(path: &str, start: usize, a: char, b: char, c: char) -> (r: bool)
    requires
        start <= path@.len(),
    ensures
        r == matches_folded(path@.subrange(start as int, path@.len() as int), seq![a, b, c]),
{
    let n = path.unicode_len();
    if n - start != 3 {
        return false;
    }
    let r = char_matches(path.get_char(start), a) && char_matches(path.get_char(start + 1), b)
        && char_matches(path.get_char(start + 2), c);
    let ghost tail = path@.subrange(start as int, path@.len() as int);
    assert(tail[0] == path@[start as int] && tail[1] == path@[start + 1] && tail[2]
        == path@[start + 2]);
    let ghost want = seq![a, b, c];
    if r {
        assert forall|i: int| 0 <= i < tail.len() implies char_matches_folded(
            #[trigger] tail[i],
            want[i],
        ) by {
            if i == 0 {
            } else if i == 1 {
            } else {
            }
        }
    } else {
        if !char_matches(path.get_char(start), a) {
            assert(!char_matches_folded(tail[0], want[0]));
        } else if !char_matches(path.get_char(start + 1), b) {
            assert(!char_matches_folded(tail[1], want[1]));
        } else {
            assert(!char_matches_folded(tail[2], want[2]));
        }
    }
    r
}

/// The format registered for the extension of `path`, if any.
pub fn format_of(path: &str) -> (r: Option<AudioFormat>)
    ensures
        r == format_of_path(path@),
{
    match extension_start(path) {
        Some(start) => {
            if tail_matches(path, start, 'w', 'a', 'v') {
                Some(AudioFormat::Wav)
            } else if tail_matches(path, start, 'm', 'p', '3') {
                Some(AudioFormat::Mp3)
            } else {
                None
            }
        },
        None => None,
    }
}

/// Picks the decoder for a file by its extension.
pub struct DynamicAudioLoader;

impl DynamicAudioLoader {
    /// The format registered for `path`'s extension (ASCII case ignored);
    /// else `UnsupportedFormat` naming the extension as written (empty where
    /// the path has none).
    pub fn select_format(&self, path: &str) -> (r: Result<AudioFormat, PlayerError>)
        ensures
            format_of_path(path@) matches Some(f) ==> r == Ok::<AudioFormat, PlayerError>(f),
            format_of_path(path@) is None ==> (r matches Err(PlayerError::UnsupportedFormat(e))
                && e@ == match extension_of(path@) {
                Some(ext) => ext,
                None => Seq::<char>::empty(),
            }),
    {
        match extension_start(path) {
            Some(start) => {
                if tail_matches(path, start, 'w', 'a', 'v') {
                    Ok(AudioFormat::Wav)
                } else if tail_matches(path, start, 'm', 'p', '3') {
                    Ok(AudioFormat::Mp3)
                } else {
                    let ext = path.substring_char(start, path.unicode_len());
                    Err(PlayerError::UnsupportedFormat(String::from_str(ext)))
                }
            },
            None => Err(PlayerError::UnsupportedFormat(String::new())),
        }
    }

    /// Decodes a file's bytes with the decoder that its extension selects;
    /// an unknown extension fails as [`DynamicAudioLoader::select_format`]
    /// says.
    pub fn decode(&self, path: &str, bytes: &Vec<u8>) -> (r: Result<DecodedAudio, PlayerError>)
        ensures
            r matches Ok(a) ==> a.wf(),
            format_of_path(path@) is None ==> r matches Err(PlayerError::UnsupportedFormat(_)),
            format_of_path(path@) == Some(AudioFormat::Wav) ==> match hound_wav_contents(bytes@) {
                Ok((channels, rate, bits, samples)) => {
                    let header = WavHeader { channels, sample_rate: rate, bits_per_sample: bits };
                    &&& pcm_accepted(header, samples) <==> r is Ok
                    &&& r matches Ok(a) ==> pcm_buffer(header, samples, a)
                    &&& r matches Err(e) ==> e == PlayerError::Decode(DecodeError::Malformed)
                },
                Err(e) => r == Err::<DecodedAudio, PlayerError>(PlayerError::Decode(wav_failure(e))),
            },
            format_of_path(path@) == Some(AudioFormat::Mp3) ==> mp3_result_matches(bytes@, r),
    {
        match self.select_format(path) {
            Ok(AudioFormat::Wav) => WavLoader.load_samples(bytes),
            Ok(AudioFormat::Mp3) => Mp3Loader.load_samples(bytes),
            Err(e) => Err(e),
        }
    }
}

/// Keeps, in order, the paths that a decoder is registered for.
pub open spec fn audio_paths(paths: Seq<Seq<char>>) -> Seq<Seq<char>>
    decreases paths.len(),
{
    if paths.len() == 0 {
        Seq::empty()
    } else {
        let rest = audio_paths(paths.drop_last());
        if format_of_path(paths.last()) is Some {
            rest.push(paths.last())
        } else {
            rest
        }
    }
}

/// The views of a list of strings.
pub open spec fn views(v: Seq<String>) -> Seq<Seq<char>> {
    v.map_values(|s: String| s@)
}

/// Picks the playable files out of a directory listing.
pub struct AudioFolderService;

impl AudioFolderService {
    /// The entries whose extension a decoder is registered for, in the
    /// listing's order.
    pub fn load_audio_files(&self, entries: &Vec<String>) -> (r: Vec<String>)
        ensures
            views(r@) == audio_paths(views(entries@)),
    {
        let mut files: Vec<String> = Vec::new();
        let mut i: usize = 0;
        while i < entries.len()
            invariant
                i <= entries.len(),
                views(files@) == audio_paths(views(entries@.subrange(0, i as int))),
            decreases entries.len() - i,
        {
            let entry = &entries[i];
            assert(views(entries@.subrange(0, i + 1)).drop_last() =~= views(
                entries@.subrange(0, i as int),
            ));
            if format_of(entry.as_str()).is_some() {
                files.push(entry.clone());
                assert(views(files@) =~= audio_paths(views(entries@.subrange(0, i as int))).push(
                    entry@,
                ));
            }
            i = i + 1;
        }
        assert(entries@.subrange(0, entries.len() as int) =~= entries@);
        files
    }
}

} // verus!
