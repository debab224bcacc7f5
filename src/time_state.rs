use vstd::prelude::*;

use crate::clock::unix_millis;
use crate::keyed::Keyed;
use crate::timecode::{Framerate, Timecode};

verus! {

/// A state is alive while its last update is younger than this.
pub const ALIVE_WINDOW_MS: u64 = 5000;

/// Full progress, in hundredths of a percent.
pub const FULL_PROGRESS: u64 = 10000;

/// Run status of a time-based source. `Cueing` and `Error` are reserved for
/// pre-roll and fault handling: no transition here produces them.
#[derive(Debug, Clone, Copy, PartialEq, Eq, Structural)]
pub enum RunState {
    Stopped,
    Playing,
    Paused,
    Cueing,
    Error,
}

#[derive(Debug, Clone, Copy, PartialEq, Eq, Structural)]
pub enum DurationType {
    Finite { duration_ms: u64 },
    Indefinite,
}

#[derive(Debug, Clone, Copy, PartialEq, Eq, Structural)]
pub enum SourceType {
    VideoPlayback,
    AudioPlayback,
    NdiStream,
    ArtNetInput,
    SacnInput,
    DmxOutput,
    CueList,
    Executor,
}

/// One key/value pair of a state's metadata.
#[derive(Debug, Clone)]
pub struct MetadataEntry {
    pub key: String,
    pub value: String,
}

impl Keyed for MetadataEntry {
    open spec fn spec_key(&self) -> Seq<char> {
        self.key@
    }

    fn key(&self) -> (r: &String) {
        &self.key
    }
}

/// Run status and position of one time-based source.
#[derive(Debug, Clone)]
pub struct TimeState {
    pub id: String,
    pub name: String,
    pub source_type: SourceType,
    pub run_state: RunState,
    pub duration_type: DurationType,
    /// Wall-clock start in Unix milliseconds.
    pub start_time: Option<u64>,
    pub elapsed_ms: u64,
    pub timecode: Option<Timecode>,
    /// Progress of a finite source in hundredths of a percent, 0 to
    /// `FULL_PROGRESS`.
    pub progress_basis_points: u64,
    /// Unix milliseconds of the last change or tick.
    pub last_update: u64,
    pub frame_count: u64,
    pub dropped_frames: u64,
    pub latency_micros: u64,
    /// Entries with distinct keys.
    pub metadata: Vec<MetadataEntry>,
}

impl Keyed for TimeState {
    open spec fn spec_key(&self) -> Seq<char> {
        self.id@
    }

    fn key(&self) -> (r: &String) {
        &self.id
    }
}

/// `min(FULL_PROGRESS, elapsed / duration * FULL_PROGRESS)`, rounded down.
pub open spec fn spec_progress(elapsed: u64, duration_ms: u64) -> u64
    recommends
        duration_ms > 0,
{
    if elapsed as nat * 10000 / duration_ms as nat >= 10000 {
        FULL_PROGRESS
    } else {
        (elapsed as nat * 10000 / duration_ms as nat) as u64
    }
}

/// `n + 1`, or `n` at the top of the range.
pub open spec fn saturating_inc(n: u64) -> u64 {
    if n == u64::MAX {
        n
    } else {
        (n + 1) as u64
    }
}

/// Milliseconds from `from` to `to`, zero when `to` is earlier.
pub open spec fn spec_since(to: u64, from: u64) -> u64 {
    if to >= from {
        (to - from) as u64
    } else {
        0
    }
}

impl TimeState {
    /// A stopped state with nothing elapsed, no metadata, created at `now`.
    pub open spec fn is_fresh(
        self,
        id: String,
        name: String,
        source_type: SourceType,
        duration_type: DurationType,
        now: u64,
    ) -> bool {
        &&& self.id == id
        &&& self.name == name
        &&& self.source_type == source_type
        &&& self.run_state == RunState::Stopped
        &&& self.duration_type == duration_type
        &&& self.start_time is None
        &&& self.elapsed_ms == 0
        &&& self.timecode is None
        &&& self.progress_basis_points == 0
        &&& self.last_update == now
        &&& self.frame_count == 0
        &&& self.dropped_frames == 0
        &&& self.latency_micros == 0
        &&& self.metadata@.len() == 0
    }

    /// Start is taken only from `Stopped` or `Paused`; in any other state it
    /// changes nothing.
    pub open spec fn spec_start(self, framerate: Option<Framerate>, now: u64) -> TimeState {
        if self.run_state != RunState::Stopped && self.run_state != RunState::Paused {
            self
        } else {
            TimeState {
            start_time: Some(now),
            run_state: RunState::Playing,
            last_update: now,
            timecode: match framerate {
                Some(fr) => Some(Timecode::spec_zero(fr)),
                None => self.timecode,
            },
            ..self
            }
        }
    }

    pub open spec fn spec_pause(self, now: u64) -> TimeState {
        TimeState { run_state: RunState::Paused, last_update: now, ..self }
    }

    pub open spec fn spec_stop(self, now: u64) -> TimeState {
        TimeState {
            run_state: RunState::Stopped,
            start_time: None,
            elapsed_ms: 0,
            progress_basis_points: 0,
            last_update: now,
            timecode: match self.timecode {
                Some(tc) => Some(Timecode::spec_zero(tc.framerate)),
                None => None,
            },
            ..self
        }
    }

    /// One tick at `now`: only a playing state with a start time advances.
    pub open spec fn spec_update(self, now: u64) -> TimeState {
        let touched = TimeState { last_update: now, ..self };
        if self.run_state == RunState::Playing && self.start_time is Some {
            let elapsed = spec_since(now, self.start_time->0);
            let advanced = TimeState {
                elapsed_ms: elapsed,
                timecode: match self.timecode {
                    Some(tc) => Some(Timecode::spec_from_millis(elapsed as nat, tc.framerate)),
                    None => None,
                },
                ..touched
            };
            match self.duration_type {
                DurationType::Finite { duration_ms } => {
                    if duration_ms > 0 {
                        let measured = TimeState {
                            progress_basis_points: spec_progress(elapsed, duration_ms),
                            ..advanced
                        };
                        if elapsed >= duration_ms {
                            measured.spec_stop(now)
                        } else {
                            measured
                        }
                    } else {
                        advanced
                    }
                },
                DurationType::Indefinite => advanced,
            }
        } else {
            touched
        }
    }

    pub open spec fn spec_frame_reported(self, dropped: bool, now: u64) -> TimeState {
        TimeState {
            frame_count: saturating_inc(self.frame_count),
            dropped_frames: if dropped {
                saturating_inc(self.dropped_frames)
            } else {
                self.dropped_frames
            },
            last_update: now,
            ..self
        }
    }

    pub open spec fn spec_remaining(self) -> Option<u64> {
        match self.duration_type {
            DurationType::Finite { duration_ms } => Some(spec_since(duration_ms, self.elapsed_ms)),
            DurationType::Indefinite => None,
        }
    }

    pub open spec fn spec_alive(self, now: u64) -> bool {
        (now as int) < self.last_update as int + ALIVE_WINDOW_MS
    }

    /// A stopped state with nothing elapsed, created at `now`.
    pub fn new_at(
        id: String,
        name: String,
        source_type: SourceType,
        duration_type: DurationType,
        now: u64,
    ) -> (r: Self)
        ensures
            r.is_fresh(id, name, source_type, duration_type, now),
    {
        TimeState {
            id,
            name,
            source_type,
            run_state: RunState::Stopped,
            duration_type,
            start_time: None,
            elapsed_ms: 0,
            timecode: None,
            progress_basis_points: 0,
            last_update: now,
            frame_count: 0,
            dropped_frames: 0,
            latency_micros: 0,
            metadata: Vec::new(),
        }
    }

    /// A stopped state created at the current wall-clock time.
    pub fn new(id: String, name: String, source_type: SourceType, duration_type: DurationType) -> (r: Self)
        ensures
            exists|now: u64| r.is_fresh(id, name, source_type, duration_type, now),
    {
        let now = unix_millis();
        Self::new_at(id, name, source_type, duration_type, now)
    }

    /// Starts playing at `now` from `Stopped` or `Paused`; a given frame
    /// rate resets the timecode to zero at that rate. A state that is
    /// playing (or cueing, or in error) is left as it is.
    pub fn start_at(&mut self, timecode_framerate: Option<Framerate>, now: u64)
        ensures
            *final(self) == old(self).spec_start(timecode_framerate, now),
    {
        if self.run_state != RunState::Stopped && self.run_state != RunState::Paused {
            return;
        }
        self.start_time = Some(now);
        self.run_state = RunState::Playing;
        self.last_update = now;
        if let Some(fps) = timecode_framerate {
            self.timecode = Some(Timecode::zero(fps));
        }
    }

    pub fn start(&mut self, timecode_framerate: Option<Framerate>)
        ensures
            exists|now: u64| *final(self) == old(self).spec_start(timecode_framerate, now),
    {
        let now = unix_millis();
        self.start_at(timecode_framerate, now);
    }

    /// Pauses at `now`. The start time is kept, so a later tick measures
    /// from the recorded start.
    pub fn pause_at(&mut self, now: u64)
        ensures
            *final(self) == old(self).spec_pause(now),
    {
        self.run_state = RunState::Paused;
        self.last_update = now;
    }

    pub fn pause(&mut self)
        ensures
            exists|now: u64| *final(self) == old(self).spec_pause(now),
    {
        let now = unix_millis();
        self.pause_at(now);
    }

    /// Stops at `now`, clearing the start and resetting elapsed time,
    /// progress and timecode to zero.
    pub fn stop_at(&mut self, now: u64)
        ensures
            *final(self) == old(self).spec_stop(now),
            final(self).elapsed_ms == 0,
            final(self).progress_basis_points == 0,
            match final(self).timecode {
                Some(tc) => tc.total_frames() == 0,
                None => true,
            },
    {
        self.run_state = RunState::Stopped;
        self.start_time = None;
        self.elapsed_ms = 0;
        self.progress_basis_points = 0;
        self.last_update = now;
        if let Some(tc) = self.timecode {
            self.timecode = Some(Timecode::zero(tc.framerate));
        }
    }

    pub fn stop(&mut self)
        ensures
            exists|now: u64| *final(self) == old(self).spec_stop(now),
            final(self).elapsed_ms == 0,
            final(self).progress_basis_points == 0,
    {
        let now = unix_millis();
        self.stop_at(now);
    }

    /// A tick at `now`. While playing, elapsed time is the wall-clock time
    /// since the recorded start, the timecode follows it, and a finite source
    /// updates its progress and stops once its duration has passed.
    pub fn update_at(&mut self, now: u64)
        ensures
            *final(self) == old(self).spec_update(now),
    {
        self.last_update = now;
        if self.run_state == RunState::Playing {
            if let Some(start) = self.start_time {
                let elapsed = if now >= start {
                    now - start
                } else {
                    0
                };
                self.elapsed_ms = elapsed;
                if let Some(tc) = self.timecode {
                    self.timecode = Some(Timecode::from_milliseconds(elapsed, tc.framerate));
                }
                if let DurationType::Finite { duration_ms } = self.duration_type {
                    if duration_ms > 0 {
                        self.progress_basis_points = progress_of(elapsed, duration_ms);
                        if elapsed >= duration_ms {
                            self.stop_at(now);
                        }
                    }
                }
            }
        }
    }

    pub fn update(&mut self)
        ensures
            exists|now: u64| *final(self) == old(self).spec_update(now),
    {
        let now = unix_millis();
        self.update_at(now);
    }

    /// Whether the last update is less than `ALIVE_WINDOW_MS` before `now`,
    /// whatever the run state.
    pub fn is_alive_at(&self, now: u64) -> (r: bool)
        ensures
            r == self.spec_alive(now),
    {
        let since = if now >= self.last_update {
            now - self.last_update
        } else {
            0
        };
        since < ALIVE_WINDOW_MS
    }

    pub fn is_alive(&self) -> (r: bool)
        ensures
            exists|now: u64| r == self.spec_alive(now),
    {
        let now = unix_millis();
        self.is_alive_at(now)
    }

    /// Counts one processed frame at `now`, and one dropped frame if
    /// `dropped`; the counters stop at `u64::MAX`.
    pub fn report_frame_at(&mut self, dropped: bool, now: u64)
        ensures
            *final(self) == old(self).spec_frame_reported(dropped, now),
    {
        self.frame_count = self.frame_count.saturating_add(1);
        if dropped {
            self.dropped_frames = self.dropped_frames.saturating_add(1);
        }
        self.last_update = now;
    }

    /// Time left of a finite source, zero once its duration has passed;
    /// `None` for an indefinite one.
    pub fn remaining_ms(&self) -> (r: Option<u64>)
        ensures
            r == self.spec_remaining(),
    {
        match self.duration_type {
            DurationType::Finite { duration_ms } => {
                if self.elapsed_ms < duration_ms {
                    Some(duration_ms - self.elapsed_ms)
                } else {
                    Some(0)
                }
            },
            DurationType::Indefinite => None,
        }
    }
}

fn progress_of(elapsed: u64, duration_ms: u64) -> (r: u64)
    requires
        duration_ms > 0,
    ensures
        r == spec_progress(elapsed, duration_ms),
        r <= FULL_PROGRESS,
{
    let scaled = (elapsed as u128) * 10000 / (duration_ms as u128);
    if scaled >= 10000 {
        FULL_PROGRESS
    } else {
        scaled as u64
    }
}

/// Ticks while playing never move elapsed time backwards: two ticks at
/// `t1 <= t2` on a playing state, after which it still plays, give
/// non-decreasing elapsed times measured from the same start.
pub proof fn lemma_update_monotonic(s: TimeState, t1: u64, t2: u64)
    requires
        t1 <= t2,
        s.run_state == RunState::Playing,
        s.start_time is Some,
    ensures
        s.spec_update(t1).spec_update(t2).run_state == RunState::Playing ==> {
            &&& s.spec_update(t1).run_state == RunState::Playing
            &&& s.spec_update(t1).start_time == s.start_time
            &&& s.spec_update(t1).elapsed_ms <= s.spec_update(t1).spec_update(t2).elapsed_ms
        },
{
}

/// Stopping always leaves elapsed time, progress and the timecode at zero.
pub proof fn lemma_stop_resets(s: TimeState, now: u64)
    ensures
        s.spec_stop(now).elapsed_ms == 0,
        s.spec_stop(now).progress_basis_points == 0,
        s.spec_stop(now).run_state == RunState::Stopped,
        match s.spec_stop(now).timecode {
            Some(tc) => tc == Timecode::spec_zero(tc.framerate) && tc.total_frames() == 0,
            None => s.timecode is None,
        },
{
}

} // verus!
