//! Animation clip attachment and playback state machine.
//!
//! One player moves between four shapes: idle (no clips), stopped
//! (a clip selected, time zero), playing, and paused.  Clip time and
//! playback speed are fixed-point values (see `fixed`).

use vstd::prelude::*;

use crate::fixed::{fx_add, fx_in_range, fx_mul, spec_fx_add, spec_fx_mul};

verus! {

/// One animation clip: a name and a non-negative duration in fixed-point seconds.
#[derive(Debug)]
pub struct Clip {
    pub name: String,
    pub duration: i64,
}

/// Mathematical image of a clip.
pub struct ClipI {
    pub name: Seq<char>,
    pub duration: int,
}

impl View for Clip {
    type V = ClipI;

    open spec fn view(&self) -> ClipI {
        ClipI { name: self.name@, duration: self.duration as int }
    }
}

/// A clip image is well formed: the duration is non-negative and representable.
pub open spec fn clip_ok(c: ClipI) -> bool {
    0 <= c.duration && fx_in_range(c.duration)
}

/// A player image is well formed: every clip is well formed, the selected
/// index is in bounds, and time and speed are representable.
pub open spec fn player_ok(p: PlayerI) -> bool {
    &&& forall|i: int| 0 <= i < p.clips.len() ==> clip_ok(#[trigger] p.clips[i])
    &&& match p.current_clip {
        Some(i) => 0 <= i < p.clips.len(),
        None => true,
    }
    &&& 0 <= p.time && fx_in_range(p.time)
    &&& fx_in_range(p.speed)
}

impl Clip {
    pub open spec fn wf(&self) -> bool {
        clip_ok(self@)
    }

    pub fn new(name: String, duration: i64) -> (r: Clip)
        requires
            0 <= duration,
            fx_in_range(duration as int),
        ensures
            r@.name == name@,
            r@.duration == duration as int,
            r.wf(),
    {
        Clip { name, duration }
    }
}

/// Playback state for the clips attached to one model entity.
#[derive(Debug)]
pub struct AnimationPlayer {
    pub clips: Vec<Clip>,
    pub current_clip: Option<usize>,
    pub time: i64,
    pub speed: i64,
    pub looping: bool,
    pub playing: bool,
}

/// Mathematical image of a player.
pub struct PlayerI {
    pub clips: Seq<ClipI>,
    pub current_clip: Option<int>,
    pub time: int,
    pub speed: int,
    pub looping: bool,
    pub playing: bool,
}

impl View for AnimationPlayer {
    type V = PlayerI;

    open spec fn view(&self) -> PlayerI {
        PlayerI {
            clips: self.clips@.map_values(|c: Clip| c@),
            current_clip: match self.current_clip {
                Some(i) => Some(i as int),
                None => None,
            },
            time: self.time as int,
            speed: self.speed as int,
            looping: self.looping,
            playing: self.playing,
        }
    }
}

impl AnimationPlayer {
    pub open spec fn wf(&self) -> bool {
        player_ok(self@)
    }

    /// A fresh idle player: no clips, nothing selected, stopped at time zero,
    /// unit speed, looping enabled.
    pub fn new() -> (r: AnimationPlayer)
        ensures
            r@.clips.len() == 0,
            r@.current_clip is None,
            r@.time == 0,
            r@.speed == crate::fixed::FX_ONE as int,
            r@.looping,
            !r@.playing,
            r.wf(),
    {
        AnimationPlayer {
            clips: Vec::new(),
            current_clip: None,
            time: 0,
            speed: crate::fixed::FX_ONE,
            looping: true,
            playing: false,
        }
    }

    /// Select the clip at `index` and start playing it from time zero.
    pub fn play(&mut self, index: usize)
        requires
            index < old(self).clips@.len(),
    ensures
            final(self)@.clips == old(self)@.clips,
            final(self)@.current_clip == Some(index as int),
            final(self)@.time == 0,
            final(self)@.playing,
            final(self)@.speed == old(self)@.speed,
            final(self)@.looping == old(self)@.looping,
            old(self).wf() ==> final(self).wf(),
    {
        self.current_clip = Some(index);
        self.time = 0;
        self.playing = true;
    }

    /// Resume playback without changing the selected clip or the time.
    pub fn resume(&mut self)
        ensures
            final(self)@ == (PlayerI { playing: true, ..old(self)@ }),
            old(self).wf() ==> final(self).wf(),
    {
        self.playing = true;
    }

    /// Pause playback, keeping the current time.
    pub fn pause(&mut self)
        ensures
            final(self)@ == (PlayerI { playing: false, ..old(self)@ }),
            old(self).wf() ==> final(self).wf(),
    {
        self.playing = false;
    }

    /// Stop playback and rewind to time zero.
    pub fn stop(&mut self)
        ensures
            final(self)@ == (PlayerI { playing: false, time: 0, ..old(self)@ }),
            old(self).wf() ==> final(self).wf(),
    {
        self.playing = false;
        self.time = 0;
    }

    /// Append clips.  If no clip was selected and any clip is now present,
    /// the first clip in the list is selected and playback begins.
    pub fn add_clips(&mut self, new_clips: Vec<Clip>)
        ensures
            final(self)@.clips == old(self)@.clips + new_clips@.map_values(|c: Clip| c@),
            final(self)@.speed == old(self)@.speed,
            final(self)@.looping == old(self)@.looping,
            old(self)@.current_clip is None && final(self)@.clips.len() > 0 ==> {
                &&& final(self)@.current_clip == Some(0int)
                &&& final(self)@.time == 0
                &&& final(self)@.playing
            },
            old(self)@.current_clip is None && final(self)@.clips.len() == 0 ==> final(self)@
                == old(self)@,
            old(self)@.current_clip is Some ==> {
                &&& final(self)@.current_clip == old(self)@.current_clip
                &&& final(self)@.time == old(self)@.time
                &&& final(self)@.playing == old(self)@.playing
            },
            old(self).wf() && (forall|i: int|
                0 <= i < new_clips@.len() ==> (#[trigger] new_clips@[i]).wf()) ==> final(self).wf(),
    {
        let mut incoming = new_clips;
        let was_unselected = self.current_clip.is_none();
        self.clips.append(&mut incoming);
        if was_unselected && self.clips.len() > 0 {
            self.play(0);
        }
        proof {
            assert(final(self)@.clips =~= old(self)@.clips + new_clips@.map_values(|c: Clip| c@));
        }
    }

    /// Remove every clip and return to the idle state.
    pub fn clear(&mut self)
        ensures
            final(self)@.clips.len() == 0,
            final(self)@.current_clip is None,
            final(self)@.time == 0,
            !final(self)@.playing,
            final(self)@.speed == old(self)@.speed,
            final(self)@.looping == old(self)@.looping,
            old(self).wf() ==> final(self).wf(),
    {
        self.clips.clear();
        self.current_clip = None;
        self.playing = false;
        self.time = 0;
    }

    /// Scrub to a given time, clamped to the selected clip's duration.
    /// Without a selected clip the time is left at zero.
    pub fn set_time(&mut self, t: i64)
        requires
            old(self).wf(),
            0 <= t,
            fx_in_range(t as int),
        ensures
            final(self)@.clips == old(self)@.clips,
            final(self)@.current_clip == old(self)@.current_clip,
            final(self)@.playing == old(self)@.playing,
            final(self)@.speed == old(self)@.speed,
            final(self)@.looping == old(self)@.looping,
            match old(self)@.current_clip {
                Some(i) => final(self)@.time == crate::fixed::spec_min(
                    t as int,
                    old(self)@.clips[i].duration,
                ),
                None => final(self)@.time == old(self)@.time,
            },
            final(self).wf(),
    {
        match self.current_clip {
            Some(i) => {
                proof {
                    assert(clip_ok(old(self)@.clips[i as int]));
                }
                let d = self.clips[i].duration;
                self.time = if t <= d {
                    t
                } else {
                    d
                };
            },
            None => {},
        }
    }

    /// One frame of playback: advance the clip time by `speed × elapsed`
    /// seconds.  On reaching the clip's duration the time wraps to zero
    /// when looping, otherwise it clamps there and playback stops; a move
    /// below zero clamps to zero.  A player that is not playing, or has no
    /// selected clip, is unchanged.
    pub fn advance(&mut self, elapsed: i64)
        requires
            old(self).wf(),
            0 <= elapsed,
            fx_in_range(elapsed as int),
        ensures
            final(self)@.clips == old(self)@.clips,
            final(self)@.current_clip == old(self)@.current_clip,
            final(self)@.speed == old(self)@.speed,
            final(self)@.looping == old(self)@.looping,
            match old(self)@.current_clip {
                Some(i) => {
                    if old(self)@.playing {
                        {
                            let moved = spec_fx_add(
                                old(self)@.time,
                                spec_fx_mul(old(self)@.speed, elapsed as int),
                            );
                            let d = old(self)@.clips[i].duration;
                            if moved >= d {
                                if old(self)@.looping {
                                    final(self)@.time == 0 && final(self)@.playing
                                } else {
                                    final(self)@.time == d && !final(self)@.playing
                                }
                            } else if moved < 0 {
                                final(self)@.time == 0 && final(self)@.playing
                            } else {
                                final(self)@.time == moved && final(self)@.playing
                            }
                        }
                    } else {
                        final(self)@ == old(self)@
                    }
                },
                None => final(self)@ == old(self)@,
            },
            final(self).wf(),
    {
        if !self.playing {
            return ;
        }
        match self.current_clip {
            Some(i) => {
                proof {
                    assert(clip_ok(old(self)@.clips[i as int]));
                }
                let step = fx_mul(self.speed, elapsed);
                let moved = fx_add(self.time, step);
                let d = self.clips[i].duration;
                if moved >= d {
                    if self.looping {
                        self.time = 0;
                    } else {
                        self.time = d;
                        self.playing = false;
                    }
                } else if moved < 0 {
                    self.time = 0;
                } else {
                    self.time = moved;
                }
            },
            None => {},
        }
    }
}

} // verus!
