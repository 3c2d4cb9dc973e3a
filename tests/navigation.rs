use audio_player::error::PlayerError;
use audio_player::navigator::{AudioFolderModel, AudioModel};

fn paths(names: &[&str]) -> Vec<String> {
    names.iter().map(|s| s.to_string()).collect()
}

#[test]
fn empty_catalog_is_refused() {
    assert!(matches!(AudioFolderModel::new(Vec::new()), Err(PlayerError::EmptyCatalog)));
}

#[test]
fn new_catalog_starts_at_first_track() {
    let m = AudioFolderModel::new(paths(&["a.wav", "b.mp3"])).unwrap();
    assert_eq!(m.current_index, 0);
    assert_eq!(m.get_current_file(), "a.wav");
}

#[test]
fn next_wraps_to_first() {
    let mut m = AudioFolderModel::new(paths(&["a.wav", "b.mp3", "c.wav"])).unwrap();
    m.next_track();
    assert_eq!(m.current_index, 1);
    m.next_track();
    assert_eq!(m.current_index, 2);
    m.next_track();
    assert_eq!(m.current_index, 0);
}

#[test]
fn prev_wraps_to_last() {
    let mut m = AudioFolderModel::new(paths(&["a.wav", "b.mp3", "c.wav"])).unwrap();
    m.prev_track();
    assert_eq!(m.current_index, 2);
    assert_eq!(m.get_current_file(), "c.wav");
    m.prev_track();
    assert_eq!(m.current_index, 1);
}

#[test]
fn full_cycle_returns_to_start() {
    let names = paths(&["a.wav", "b.mp3", "c.wav", "d.mp3"]);
    for start in 0..names.len() {
        let mut m = AudioFolderModel::new(names.clone()).unwrap();
        for _ in 0..start {
            m.next_track();
        }
        for _ in 0..names.len() {
            m.next_track();
        }
        assert_eq!(m.current_index, start);
        for _ in 0..names.len() {
            m.prev_track();
        }
        assert_eq!(m.current_index, start);
    }
}

#[test]
fn single_track_steps_stay() {
    let mut m = AudioFolderModel::new(paths(&["only.wav"])).unwrap();
    m.next_track();
    assert_eq!(m.current_index, 0);
    m.prev_track();
    assert_eq!(m.current_index, 0);
}

#[test]
fn audio_model_keeps_playable_entries() {
    let entries = paths(&["/m/a.wav", "/m/notes.txt", "/m/b.MP3", "/m/c.flac", "/m/.wav"]);
    let mut m = AudioModel::new(&entries).unwrap();
    assert_eq!(m.files, paths(&["/m/a.wav", "/m/b.MP3"]));
    assert_eq!(m.get_current_file(), "/m/a.wav");
    m.next_track();
    assert_eq!(m.get_current_file(), "/m/b.MP3");
    m.next_track();
    assert_eq!(m.current_index, 0);
    m.prev_track();
    assert_eq!(m.current_index, 1);
}

#[test]
fn audio_model_without_playable_entries_is_refused() {
    let entries = paths(&["/m/readme.md", "/m/c.flac"]);
    assert!(matches!(AudioModel::new(&entries), Err(PlayerError::EmptyCatalog)));
}
