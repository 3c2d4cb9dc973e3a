use vstd::prelude::*;

use crate::error::PlayerError;
use crate::navigator::{next_index, prev_index, AudioFolderModel};

verus! {

/// What the transport asks its runner to do with the output device.
#[derive(Debug, Clone, PartialEq, Eq)]
pub enum PlayerAction {
    /// Decode this file and open a new session on it; report the outcome
    /// with [`PlayerController::stream_loaded`].
    Load(String),
    /// Start the current session; on success call
    /// [`PlayerController::stream_started`].
    Play,
    /// Pause the current session; on success call
    /// [`PlayerController::stream_paused`].
    Pause,
    Nothing,
}

/// The transport: the catalog, whether a session is open, and whether it
/// plays. Device work is left to a runner, which performs each returned
/// [`PlayerAction`] and reports back.
pub struct PlayerController {
    pub audio_model: AudioFolderModel,
    pub has_stream: bool,
    pub is_playing: bool,
}

/// The path of the current track of a catalog.
pub open spec fn current_path(m: AudioFolderModel) -> Seq<char> {
    m.files@[m.current_index as int]@
}

impl PlayerController {
    /// The catalog is well formed and only an open session can play.
    pub open spec fn wf(&self) -> bool {
        &&& self.audio_model.wf()
        &&& self.is_playing ==> self.has_stream
    }

    /// A transport over a catalog, with no session open yet.
    pub fn new(audio_model: AudioFolderModel) -> (r: Self)
        requires
            audio_model.wf(),
        ensures
            r.wf(),
            r.audio_model == audio_model,
            !r.has_stream,
            !r.is_playing,
    {
        PlayerController { audio_model, has_stream: false, is_playing: false }
    }

    /// Asks for the current track to be loaded.
    pub fn load_current(&self) -> (r: PlayerAction)
        requires
            self.wf(),
        ensures
            r matches PlayerAction::Load(p) && p@ == current_path(self.audio_model),
    {
        PlayerAction::Load(self.audio_model.get_current_file().clone())
    }

    /// Takes the outcome of a load. A new session replaces the old one,
    /// paused, and is to be started; a failed load leaves the transport as it
    /// was, with the previous session, if any, untouched.
    pub fn stream_loaded(&mut self, result: Result<(), PlayerError>) -> (r: PlayerAction)
        requires
            old(self).wf(),
        ensures
            final(self).wf(),
            final(self).audio_model == old(self).audio_model,
            result is Ok ==> final(self).has_stream && !final(self).is_playing && r
                == PlayerAction::Play,
            result is Err ==> *final(self) == *old(self) && r == PlayerAction::Nothing,
    {
        match result {
            Ok(()) => {
                self.has_stream = true;
                self.is_playing = false;
                PlayerAction::Play
            },
            Err(_) => PlayerAction::Nothing,
        }
    }

    /// Pause while playing, play while paused; nothing without a session.
    pub fn toggle_play(&self) -> (r: PlayerAction)
        requires
            self.wf(),
        ensures
            self.is_playing ==> r == PlayerAction::Pause,
            !self.is_playing && self.has_stream ==> r == PlayerAction::Play,
            !self.has_stream ==> r == PlayerAction::Nothing,
    {
        if self.is_playing {
            PlayerAction::Pause
        } else if self.has_stream {
            PlayerAction::Play
        } else {
            PlayerAction::Nothing
        }
    }

    /// Records that the session started; without a session nothing plays.
    pub fn stream_started(&mut self)
        requires
            old(self).wf(),
        ensures
            final(self).wf(),
            final(self).audio_model == old(self).audio_model,
            final(self).has_stream == old(self).has_stream,
            final(self).is_playing == old(self).has_stream,
    {
        self.is_playing = self.has_stream;
    }

    /// Records that the session paused.
    pub fn stream_paused(&mut self)
        requires
            old(self).wf(),
        ensures
            final(self).wf(),
            final(self).audio_model == old(self).audio_model,
            final(self).has_stream == old(self).has_stream,
            !final(self).is_playing,
    {
        self.is_playing = false;
    }

    /// Moves to the next track, from the last to the first, and asks for it
    /// to be loaded.
    pub fn next(&mut self) -> (r: PlayerAction)
        requires
            old(self).wf(),
        ensures
            final(self).wf(),
            final(self).audio_model.files@ == old(self).audio_model.files@,
            final(self).audio_model.current_index == next_index(
                old(self).audio_model.current_index as int,
                old(self).audio_model.files.len() as int,
            ),
            final(self).has_stream == old(self).has_stream,
            final(self).is_playing == old(self).is_playing,
            r matches PlayerAction::Load(p) && p@ == current_path(final(self).audio_model),
    {
        self.audio_model.next_track();
        self.load_current()
    }

    /// Moves to the previous track, from the first to the last, and asks for
    /// it to be loaded.
    pub fn prev(&mut self) -> (r: PlayerAction)
        requires
            old(self).wf(),
        ensures
            final(self).wf(),
            final(self).audio_model.files@ == old(self).audio_model.files@,
            final(self).audio_model.current_index == prev_index(
                old(self).audio_model.current_index as int,
                old(self).audio_model.files.len() as int,
            ),
            final(self).has_stream == old(self).has_stream,
            final(self).is_playing == old(self).is_playing,
            r matches PlayerAction::Load(p) && p@ == current_path(final(self).audio_model),
    {
        self.audio_model.prev_track();
        self.load_current()
    }
}

} // verus!
