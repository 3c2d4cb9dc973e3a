use audio_player::error::PlayerError;
use audio_player::format::{format_of, AudioFolderService, AudioFormat, DynamicAudioLoader};

#[test]
fn known_extensions_select_their_decoder() {
    let loader = DynamicAudioLoader;
    assert_eq!(loader.select_format("a.wav"), Ok(AudioFormat::Wav));
    assert_eq!(loader.select_format("/music/b.mp3"), Ok(AudioFormat::Mp3));
}

#[test]
fn extension_case_is_ignored() {
    let loader = DynamicAudioLoader;
    assert_eq!(loader.select_format("LOUD.WAV"), Ok(AudioFormat::Wav));
    assert_eq!(loader.select_format("mixed.Mp3"), Ok(AudioFormat::Mp3));
}

#[test]
fn unknown_extension_is_named_in_the_error() {
    let loader = DynamicAudioLoader;
    assert_eq!(
        loader.select_format("c.flac"),
        Err(PlayerError::UnsupportedFormat("flac".to_string()))
    );
    assert_eq!(
        loader.select_format("d.Ogg"),
        Err(PlayerError::UnsupportedFormat("Ogg".to_string()))
    );
}

#[test]
fn path_without_extension_is_unsupported() {
    let loader = DynamicAudioLoader;
    let empty = Err(PlayerError::UnsupportedFormat(String::new()));
    assert_eq!(loader.select_format("noext"), empty);
    assert_eq!(loader.select_format("/music/.wav"), empty);
    assert_eq!(loader.select_format("/music.wav/track"), empty);
}

#[test]
fn extension_is_what_follows_the_last_dot() {
    assert_eq!(format_of("a.tar.wav"), Some(AudioFormat::Wav));
    assert_eq!(format_of("a.wav.bak"), None);
    assert_eq!(format_of("a.wav "), None);
    assert_eq!(format_of("a.mp"), None);
}

#[test]
fn folder_listing_is_filtered_in_order() {
    let entries: Vec<String> = ["z.mp3", "a.txt", "b.wav", "c", "d.WAV"]
        .iter()
        .map(|s| s.to_string())
        .collect();
    let files = AudioFolderService.load_audio_files(&entries);
    assert_eq!(files, vec!["z.mp3".to_string(), "b.wav".to_string(), "d.WAV".to_string()]);
}

#[test]
fn empty_listing_gives_no_files() {
    assert!(AudioFolderService.load_audio_files(&Vec::new()).is_empty());
}
