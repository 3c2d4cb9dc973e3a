use vstd::prelude::*;

use crate::error::PlayerError;
use crate::format::{audio_paths, views, AudioFolderService};
use vstd::arithmetic::div_mod::{
    lemma_add_mod_noop, lemma_add_mod_noop_right, lemma_mod_add_multiples_vanish,
    lemma_mod_sub_multiples_vanish, lemma_small_mod,
};

verus! {

/// The cursor after one step forward in a catalog of `len` tracks.
pub open spec fn next_index(cursor: int, len: int) -> int {
    (cursor + 1) % len
}

/// The cursor after one step back in a catalog of `len` tracks.
pub open spec fn prev_index(cursor: int, len: int) -> int {
    if cursor == 0 {
        len - 1
    } else {
        cursor - 1
    }
}

/// The cursor after `k` steps forward.
pub open spec fn next_times(cursor: int, len: int, k: nat) -> int
    decreases k,
{
    if k == 0 {
        cursor
    } else {
        next_index(next_times(cursor, len, (k - 1) as nat), len)
    }
}

/// The cursor after `k` steps back.
pub open spec fn prev_times(cursor: int, len: int, k: nat) -> int
    decreases k,
{
    if k == 0 {
        cursor
    } else {
        prev_index(prev_times(cursor, len, (k - 1) as nat), len)
    }
}

proof fn lemma_next_times_closed(cursor: int, len: int, k: nat)
    requires
        0 <= cursor < len,
    ensures
        next_times(cursor, len, k) == (cursor + k) % len,
    decreases k,
{
    if k == 0 {
        lemma_small_mod(cursor as nat, len as nat);
    } else {
        lemma_next_times_closed(cursor, len, (k - 1) as nat);
        lemma_add_mod_noop_right(1, cursor + k - 1, len);
    }
}

proof fn lemma_prev_times_closed(cursor: int, len: int, k: nat)
    requires
        0 <= cursor < len,
    ensures
        prev_times(cursor, len, k) == (cursor - k) % len,
    decreases k,
{
    if k == 0 {
        lemma_small_mod(cursor as nat, len as nat);
    } else {
        lemma_prev_times_closed(cursor, len, (k - 1) as nat);
        let p = (cursor - k + 1) % len;
        lemma_add_mod_noop(cursor - k + 1, -1, len);
        lemma_mod_sub_multiples_vanish(len - 1, len);
        lemma_small_mod((len - 1) as nat, len as nat);
        if p > 0 {
            lemma_mod_add_multiples_vanish(p - 1, len);
            lemma_small_mod((p - 1) as nat, len as nat);
        }
    }
}

/// In a catalog of `len` tracks, `len` steps forward come back to the
/// starting track, and so do `len` steps back.
pub proof fn lemma_full_cycle_returns(cursor: int, len: int)
    requires
        0 <= cursor < len,
    ensures
        next_times(cursor, len, len as nat) == cursor,
        prev_times(cursor, len, len as nat) == cursor,
{
    lemma_next_times_closed(cursor, len, len as nat);
    lemma_prev_times_closed(cursor, len, len as nat);
    lemma_mod_add_multiples_vanish(cursor, len);
    lemma_mod_sub_multiples_vanish(cursor, len);
    lemma_small_mod(cursor as nat, len as nat);
}

/// In a catalog of one track, a step forward and a step back both leave
/// the cursor where it was.
pub proof fn lemma_single_track_steps_stay(cursor: int)
    requires
        0 <= cursor < 1,
    ensures
        next_index(cursor, 1) == cursor,
        prev_index(cursor, 1) == cursor,
{
}

/// An ordered catalog of track paths with a cursor on the current one.
pub struct AudioFolderModel {
    /// The track paths, in scan order.
    pub files: Vec<String>,
    /// The index of the current track.
    pub current_index: usize,
}

impl AudioFolderModel {
    /// The catalog is non-empty and the cursor points into it.
    pub open spec fn wf(&self) -> bool {
        &&& self.files.len() > 0
        &&& self.current_index < self.files.len()
    }

    /// Builds a catalog over `files` with the cursor on the first track;
    /// an empty list is refused.
    pub fn new(files: Vec<String>) -> (r: Result<Self, PlayerError>)
        ensures
            files.len() == 0 <==> r is Err,
            r matches Err(e) ==> e == PlayerError::EmptyCatalog,
            r matches Ok(m) ==> m.wf() && m.files@ == files@ && m.current_index == 0,
    {
        if files.len() == 0 {
            return Err(PlayerError::EmptyCatalog);
        }
        Ok(AudioFolderModel { files, current_index: 0 })
    }

    /// The path of the current track.
    pub fn get_current_file(&self) -> (r: &String)
        requires
            self.wf(),
        ensures
            r == self.files@[self.current_index as int],
    {
        &self.files[self.current_index]
    }

    /// Moves the cursor one track forward, from the last track to the first.
    pub fn next_track(&mut self)
        requires
            old(self).wf(),
        ensures
            final(self).wf(),
            final(self).files@ == old(self).files@,
            final(self).current_index == next_index(
                old(self).current_index as int,
                old(self).files.len() as int,
            ),
    {
        self.current_index = (self.current_index + 1) % self.files.len();
    }

    /// Moves the cursor one track back, from the first track to the last.
    pub fn prev_track(&mut self)
        requires
            old(self).wf(),
        ensures
            final(self).wf(),
            final(self).files@ == old(self).files@,
            final(self).current_index == prev_index(
                old(self).current_index as int,
                old(self).files.len() as int,
            ),
    {
        if self.current_index == 0 {
            self.current_index = self.files.len() - 1;
        } else {
            self.current_index -= 1;
        }
    }
}


/// A catalog built straight from a directory listing: the playable entries,
/// in listing order, with a cursor on the current one.
pub struct AudioModel {
    pub files: Vec<String>,
    pub current_index: usize,
}

impl AudioModel {
    /// The catalog is non-empty and the cursor points into it.
    pub open spec fn wf(&self) -> bool {
        &&& self.files.len() > 0
        &&& self.current_index < self.files.len()
    }

    /// Keeps the entries that a decoder is registered for and puts the cursor
    /// on the first; a listing with none is refused.
    pub fn new(entries: &Vec<String>) -> (r: Result<Self, PlayerError>)
        ensures
            audio_paths(views(entries@)).len() == 0 <==> r is Err,
            r matches Err(e) ==> e == PlayerError::EmptyCatalog,
            r matches Ok(m) ==> m.wf() && views(m.files@) == audio_paths(views(entries@))
                && m.current_index == 0,
    {
        let files = AudioFolderService.load_audio_files(entries);
        if files.len() == 0 {
            assert(views(files@).len() == 0);
            return Err(PlayerError::EmptyCatalog);
        }
        assert(views(files@).len() > 0);
        Ok(AudioModel { files, current_index: 0 })
    }

    /// The path of the current track.
    pub fn get_current_file(&self) -> (r: &String)
        requires
            self.wf(),
        ensures
            r == self.files@[self.current_index as int],
    {
        &self.files[self.current_index]
    }

    /// Moves the cursor one track forward, from the last track to the first.
    pub fn next_track(&mut self)
        requires
            old(self).wf(),
        ensures
            final(self).wf(),
            final(self).files@ == old(self).files@,
            final(self).current_index == next_index(
                old(self).current_index as int,
                old(self).files.len() as int,
            ),
    {
        self.current_index = (self.current_index + 1) % self.files.len();
    }

    /// Moves the cursor one track back, from the first track to the last.
    pub fn prev_track(&mut self)
        requires
            old(self).wf(),
        ensures
            final(self).wf(),
            final(self).files@ == old(self).files@,
            final(self).current_index == prev_index(
                old(self).current_index as int,
                old(self).files.len() as int,
            ),
    {
        if self.current_index == 0 {
            self.current_index = self.files.len() - 1;
        } else {
            self.current_index -= 1;
        }
    }
}

} // verus!
