use vstd::prelude::*;

verus! {

/// Why a file could not be turned into samples.
#[derive(Debug, Clone, Copy, PartialEq, Eq)]
pub enum DecodeError {
    /// The file's bytes could not be read.
    Unreadable,
    /// The byte stream ended inside the sample data.
    Truncated,
    /// The container or its header is ill-formed.
    Malformed,
    /// The encoding is valid but not one that can be decoded.
    UnsupportedEncoding,
    /// The container holds no track with a known codec.
    NoAudioTrack,
    /// The selected track does not state its sample rate.
    MissingSampleRate,
    /// The selected track does not state its channel layout, or states none.
    MissingChannels,
}

/// Why an output device could not play a decoded buffer.
#[derive(Debug, Clone, Copy, PartialEq, Eq)]
pub enum DeviceError {
    NoOutputDevice,
    /// The device's default configuration could not be read.
    Config,
    /// The device does not report any output channel.
    NoChannels,
    /// The device's sample format is not 32-bit float.
    UnsupportedSampleFormat,
    /// The device runs at another rate than the track.
    SampleRateMismatch { device_rate: u32, file_rate: u32 },
    BuildStream,
    PlayStream,
    PauseStream,
}

/// Every failure the player reports.
#[derive(Debug, Clone, PartialEq, Eq)]
pub enum PlayerError {
    /// A navigator was asked for with no track at all.
    EmptyCatalog,
    /// No decoder is registered for this extension (the extension as written).
    UnsupportedFormat(String),
    Decode(DecodeError),
    Device(DeviceError),
}

} // verus!
