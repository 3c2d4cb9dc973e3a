use audio_player::cli::{CliCommand, CliView};
use audio_player::controller::{PlayerAction, PlayerController};
use audio_player::error::PlayerError;
use audio_player::format::DynamicAudioLoader;
use audio_player::navigator::AudioFolderModel;

fn controller(names: &[&str]) -> PlayerController {
    let files = names.iter().map(|s| s.to_string()).collect();
    PlayerController::new(AudioFolderModel::new(files).unwrap())
}

#[test]
fn next_and_prev_wrap_and_reload() {
    let mut c = controller(&["a.wav", "b.mp3"]);
    assert_eq!(c.load_current(), PlayerAction::Load("a.wav".to_string()));
    assert_eq!(c.next(), PlayerAction::Load("b.mp3".to_string()));
    assert_eq!(c.audio_model.current_index, 1);
    assert_eq!(c.stream_loaded(Ok(())), PlayerAction::Play);
    assert!(c.has_stream);
    assert_eq!(c.prev(), PlayerAction::Load("a.wav".to_string()));
    assert_eq!(c.audio_model.current_index, 0);
    assert_eq!(c.prev(), PlayerAction::Load("b.mp3".to_string()));
    assert_eq!(c.audio_model.current_index, 1);
}

#[test]
fn failed_load_keeps_previous_session() {
    let mut c = controller(&["a.wav", "c.flac"]);
    assert_eq!(c.stream_loaded(Ok(())), PlayerAction::Play);
    c.stream_started();
    assert!(c.is_playing);
    let path = match c.next() {
        PlayerAction::Load(p) => p,
        other => panic!("unexpected action {:?}", other),
    };
    let err = DynamicAudioLoader.select_format(&path).unwrap_err();
    assert_eq!(err, PlayerError::UnsupportedFormat("flac".to_string()));
    assert_eq!(c.stream_loaded(Err(err)), PlayerAction::Nothing);
    assert!(c.has_stream);
    assert!(c.is_playing);
    assert_eq!(c.toggle_play(), PlayerAction::Pause);
}

#[test]
fn toggle_follows_playing_state() {
    let mut c = controller(&["a.wav"]);
    assert_eq!(c.toggle_play(), PlayerAction::Nothing);
    c.stream_started();
    assert!(!c.is_playing);
    c.stream_loaded(Ok(()));
    assert_eq!(c.toggle_play(), PlayerAction::Play);
    c.stream_started();
    assert_eq!(c.toggle_play(), PlayerAction::Pause);
    c.stream_paused();
    assert!(!c.is_playing);
    assert_eq!(c.toggle_play(), PlayerAction::Play);
}

#[test]
fn new_session_starts_paused() {
    let mut c = controller(&["a.wav", "b.wav"]);
    c.stream_loaded(Ok(()));
    c.stream_started();
    c.next();
    assert_eq!(c.stream_loaded(Ok(())), PlayerAction::Play);
    assert!(!c.is_playing);
}

#[test]
fn commands_are_parsed_after_trimming() {
    assert_eq!(CliView::parse_command("p\n"), CliCommand::TogglePlay);
    assert_eq!(CliView::parse_command("  j "), CliCommand::Prev);
    assert_eq!(CliView::parse_command("k"), CliCommand::Next);
    assert_eq!(CliView::parse_command("q\r\n"), CliCommand::Quit);
    assert_eq!(CliView::parse_command("x"), CliCommand::Invalid);
    assert_eq!(CliView::parse_command("pp"), CliCommand::Invalid);
    assert_eq!(CliView::parse_command(""), CliCommand::Invalid);
    assert_eq!(CliView::command_from_token(" p"), CliCommand::Invalid);
}
