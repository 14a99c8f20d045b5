use crate::chance::random_below;
use crate::settings::MAX_VOLUME;
use vstd::prelude::*;

verus! {

/// The volume and mute state of music and sound effects; the mixer applies it.
#[derive(Clone, Copy, Debug, PartialEq, Eq, Structural)]
pub struct SoundLevels {
    pub music_volume: i32,
    pub sfx_volume: i32,
    pub music_muted: bool,
    pub sfx_muted: bool,
    /// Whether music was started and should go on from song to song.
    pub music_should_play: bool,
}

pub open spec fn clamp_volume(v: int) -> int {
    if v < 0 {
        0
    } else if v > MAX_VOLUME {
        MAX_VOLUME as int
    } else {
        v
    }
}

impl SoundLevels {
    pub open spec fn wf(&self) -> bool {
        0 <= self.music_volume <= MAX_VOLUME && 0 <= self.sfx_volume <= MAX_VOLUME
    }

    /// Half volume, nothing muted, no music yet.
    pub fn new() -> (s: SoundLevels)
        ensures
            s.wf(),
            s == (SoundLevels {
                music_volume: 64,
                sfx_volume: 64,
                music_muted: false,
                sfx_muted: false,
                music_should_play: false,
            }),
    {
        SoundLevels {
            music_volume: 64,
            sfx_volume: 64,
            music_muted: false,
            sfx_muted: false,
            music_should_play: false,
        }
    }

    /// The volume the music is played at: silent while muted.
    pub fn effective_music_volume(&self) -> (v: i32)
        ensures
            v == if self.music_muted { 0 } else { self.music_volume },
    {
        if self.music_muted { 0 } else { self.music_volume }
    }

    /// The volume sound effects are played at: silent while muted.
    pub fn effective_sfx_volume(&self) -> (v: i32)
        ensures
            v == if self.sfx_muted { 0 } else { self.sfx_volume },
    {
        if self.sfx_muted { 0 } else { self.sfx_volume }
    }

    /// Whether a sound effect is to be played at all.
    pub fn sfx_audible(&self) -> (r: bool)
        ensures
            r == !self.sfx_muted,
    {
        !self.sfx_muted
    }

    /// Sets the music volume, clamped to 0..=`MAX_VOLUME`.
    pub fn set_music_volume(&mut self, volume: i32)
        ensures
            final(self).wf() == (0 <= old(self).sfx_volume <= MAX_VOLUME),
            *final(self) == (SoundLevels {
                music_volume: clamp_volume(volume as int) as i32,
                ..*old(self)
            }),
    {
        self.music_volume = if volume < 0 { 0 } else if volume > MAX_VOLUME { MAX_VOLUME } else { volume };
    }

    pub fn get_music_volume(&self) -> (v: i32)
        ensures
            v == self.music_volume,
    {
        self.music_volume
    }

    /// Sets the sound-effect volume, clamped to 0..=`MAX_VOLUME`.
    pub fn set_sfx_volume(&mut self, volume: i32)
        ensures
            final(self).wf() == (0 <= old(self).music_volume <= MAX_VOLUME),
            *final(self) == (SoundLevels {
                sfx_volume: clamp_volume(volume as int) as i32,
                ..*old(self)
            }),
    {
        self.sfx_volume = if volume < 0 { 0 } else if volume > MAX_VOLUME { MAX_VOLUME } else { volume };
    }

    pub fn get_sfx_volume(&self) -> (v: i32)
        ensures
            v == self.sfx_volume,
    {
        self.sfx_volume
    }

    /// Mutes or unmutes the music; returns whether paused music is to resume
    /// (it was muted and no longer is).
    pub fn set_music_muted(&mut self, muted: bool) -> (resume: bool)
        ensures
            resume == (old(self).music_muted && !muted),
            *final(self) == (SoundLevels { music_muted: muted, ..*old(self) }),
    {
        let was_muted = self.music_muted;
        self.music_muted = muted;
        was_muted && !muted
    }

    pub fn is_music_muted(&self) -> (r: bool)
        ensures
            r == self.music_muted,
    {
        self.music_muted
    }

    pub fn toggle_music_mute(&mut self) -> (resume: bool)
        ensures
            resume == old(self).music_muted,
            *final(self) == (SoundLevels { music_muted: !old(self).music_muted, ..*old(self) }),
    {
        let m = !self.music_muted;
        self.set_music_muted(m)
    }

    pub fn set_sfx_muted(&mut self, muted: bool)
        ensures
            *final(self) == (SoundLevels { sfx_muted: muted, ..*old(self) }),
    {
        self.sfx_muted = muted;
    }

    pub fn is_sfx_muted(&self) -> (r: bool)
        ensures
            r == self.sfx_muted,
    {
        self.sfx_muted
    }

    pub fn toggle_sfx_mute(&mut self)
        ensures
            *final(self) == (SoundLevels { sfx_muted: !old(self).sfx_muted, ..*old(self) }),
    {
        self.sfx_muted = !self.sfx_muted;
    }

    /// Whether music is to be started now: there are songs and music is not muted.
    /// Starting it makes it go on from song to song.
    pub fn start_music(&mut self, songs: usize) -> (start: bool)
        ensures
            start == (songs > 0 && !old(self).music_muted),
            *final(self) == (SoundLevels {
                music_should_play: old(self).music_should_play || start,
                ..*old(self)
            }),
    {
        if songs == 0 || self.music_muted {
            return false;
        }
        self.music_should_play = true;
        true
    }

    pub fn stop_music(&mut self)
        ensures
            *final(self) == (SoundLevels { music_should_play: false, ..*old(self) }),
    {
        self.music_should_play = false;
    }

    /// The song to play next when the last one has ended, picked at random, or
    /// `None` while music is off, muted, still playing, or there are no songs.
    pub fn next_song(&self, songs: usize, playing: bool) -> (pick: Option<usize>)
        ensures
            pick.is_some() == (!self.music_muted && self.music_should_play && songs > 0
                && !playing),
            pick matches Some(i) ==> i < songs,
    {
        if !self.music_muted && self.music_should_play && songs > 0 && !playing {
            let bound: u32 = if songs > u32::MAX as usize { u32::MAX } else { songs as u32 };
            Some(random_below(bound) as usize)
        } else {
            None
        }
    }
}

/// The song the playlist starts with: a random one, or 0 when there are none.
pub fn first_song(songs: usize) -> (i: usize)
    ensures
        songs > 0 ==> i < songs,
        songs == 0 ==> i == 0,
{
    if songs == 0 {
        0
    } else {
        let bound: u32 = if songs > u32::MAX as usize { u32::MAX } else { songs as u32 };
        random_below(bound) as usize
    }
}

} // verus!
