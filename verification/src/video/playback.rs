//! Playback side of the comparison player: frame quality modes, how frames reach the
//! screen, the width cap of rendered frames, and how often scopes sample while playing.
//!
//! Decoding and rendering are done outside; this module holds the decisions.
use vstd::prelude::*;

use crate::clock::{instant_now, nanos_since};
use crate::text::{push_str, string_from_chars, string_of};

verus! {

/// Frame quality: sized to the pane's budget (the default), or the source's own.
#[derive(Debug, Clone, Copy, PartialEq, Eq, Structural)]
pub enum FidelityMode {
    Performance,
    Native,
}

impl FidelityMode {
    pub open spec fn label_spec(self) -> Seq<char> {
        match self {
            FidelityMode::Performance => "性能"@,
            FidelityMode::Native => "原片"@,
        }
    }

    pub open spec fn short_status_spec(self) -> Seq<char> {
        match self {
            FidelityMode::Performance => "perf"@,
            FidelityMode::Native => "native"@,
        }
    }

    /// The name shown in the interface.
    pub fn label(self) -> (r: &'static str)
        ensures
            r@ == self.label_spec(),
    {
        match self {
            FidelityMode::Performance => "性能",
            FidelityMode::Native => "原片",
        }
    }

    /// The short name shown in the status line.
    pub fn short_status(self) -> (r: &'static str)
        ensures
            r@ == self.short_status_spec(),
    {
        match self {
            FidelityMode::Performance => "perf",
            FidelityMode::Native => "native",
        }
    }
}

impl Default for FidelityMode {
    fn default() -> (r: Self)
        ensures
            r == FidelityMode::Performance,
    {
        FidelityMode::Performance
    }
}

/// How rendered frames reach the screen: copied through memory, or drawn by the GPU.
#[derive(Debug, Clone, Copy, PartialEq, Eq, Structural)]
pub enum PresentMode {
    Sw,
    Gl,
}

impl PresentMode {
    pub fn label(self) -> (r: &'static str)
        ensures
            r@ == (match self {
                PresentMode::Sw => "SW"@,
                PresentMode::Gl => "GL"@,
            }),
    {
        match self {
            PresentMode::Sw => "SW",
            PresentMode::Gl => "GL",
        }
    }
}

pub open spec fn present_label(m: PresentMode) -> Seq<char> {
    match m {
        PresentMode::Sw => "SW"@,
        PresentMode::Gl => "GL"@,
    }
}

/// The player's status line: `抽帧模式` (frame-extraction mode) without libmpv, else
/// `libmpv · <hardware decoding> · <present mode> · <fidelity> · 面板`.
pub open spec fn status_label_spec(available: bool, hwdec: Seq<char>, present: PresentMode, fidelity: FidelityMode) -> Seq<char> {
    if !available {
        "抽帧模式"@
    } else {
        "libmpv · "@ + hwdec + " · "@ + present_label(present) + " · "@ + fidelity.short_status_spec() + " · 面板"@
    }
}

/// The status line of the comparison player.
pub fn player_status_label(available: bool, hwdec: &str, present: PresentMode, fidelity: FidelityMode) -> (r: String)
    ensures
        r@ == status_label_spec(available, hwdec@, present, fidelity),
{
    if !available {
        return string_of("抽帧模式");
    }
    let mut out: Vec<char> = Vec::new();
    push_str(&mut out, "libmpv · ");
    push_str(&mut out, hwdec);
    push_str(&mut out, " · ");
    push_str(&mut out, present.label());
    push_str(&mut out, " · ");
    push_str(&mut out, fidelity.short_status());
    push_str(&mut out, " · 面板");
    string_from_chars(&out)
}

/// Where an A/B loop sends playback at global time `global_ms`: back to `a_ms` once the
/// loop is on, the span is not empty and `b_ms` is reached; nowhere otherwise.
pub fn ab_loop_jump(ab_loop: bool, global_ms: u64, a_ms: u64, b_ms: u64) -> (r: Option<u64>)
    ensures
        r == (if ab_loop && b_ms > a_ms && global_ms >= b_ms { Some(a_ms) } else { None::<u64> }),
{
    if !ab_loop || b_ms <= a_ms {
        return None;
    }
    if global_ms >= b_ms {
        return Some(a_ms);
    }
    None
}

/// A frame as RGBA bytes, row after row.
#[derive(Debug)]
pub struct RgbaFrame {
    pub width: u32,
    pub height: u32,
    pub rgba: Vec<u8>,
}

/// Whether playback is available here, and why not when it is not.
#[derive(Debug)]
pub struct PlaybackBackendInfo {
    pub available: bool,
    pub message: Option<String>,
}

impl Default for PlaybackBackendInfo {
    fn default() -> (r: Self)
        ensures
            !r.available,
            r.message is None,
    {
        PlaybackBackendInfo { available: false, message: None }
    }
}

/// A seek while the user drags the time slider, or the one that ends the drag.
#[derive(Debug, Clone, Copy, PartialEq, Eq, Structural)]
pub enum SeekKind {
    Scrubbing,
    Committed,
}

/// Width cap of frames while scrubbing, or before full resolution is allowed again.
pub const SCRUB_MAX_W: u32 = 960;
/// Width cap of frames while playing one or two videos.
pub const PLAY_MAX_W: u32 = 1920;
/// Width cap of paused frames for one or two videos.
pub const PERF_IDLE_MAX_W: u32 = 1920;

/// The width cap of frames in performance mode for `lanes` visible videos.
pub open spec fn perf_max_w_spec(lanes: nat, scrubbing: bool, playing: bool, allow_hires: bool) -> u32 {
    if scrubbing || !allow_hires {
        SCRUB_MAX_W
    } else if playing {
        if 1 <= lanes <= 2 { PLAY_MAX_W } else if 3 <= lanes <= 4 { 1600 } else { 1280 }
    } else {
        if 1 <= lanes <= 2 { PERF_IDLE_MAX_W } else if 3 <= lanes <= 4 { 1600 } else { 1280 }
    }
}

pub fn perf_max_w(lanes: usize, scrubbing: bool, playing: bool, allow_hires: bool) -> (r: u32)
    ensures
        r == perf_max_w_spec(lanes as nat, scrubbing, playing, allow_hires),
{
    if scrubbing || !allow_hires {
        return SCRUB_MAX_W;
    }
    if playing {
        if 1 <= lanes && lanes <= 2 {
            PLAY_MAX_W
        } else if 3 <= lanes && lanes <= 4 {
            1600
        } else {
            1280
        }
    } else {
        if 1 <= lanes && lanes <= 2 {
            PERF_IDLE_MAX_W
        } else if 3 <= lanes && lanes <= 4 {
            1600
        } else {
            1280
        }
    }
}

/// Whether scopes sample the frame at `time_ms`: always while paused or scrubbing;
/// while playing, never twice for the same time, and otherwise once the interval since
/// the last sample has passed (`due`).
pub open spec fn sample_decision(last_ms: Option<u64>, time_ms: u64, playing: bool, scrubbing: bool, due: bool) -> bool {
    if scrubbing || !playing {
        true
    } else if last_ms == Some(time_ms) {
        false
    } else {
        due
    }
}

pub fn decide_sample(last_ms: Option<u64>, time_ms: u64, playing: bool, scrubbing: bool, due: bool) -> (r: bool)
    ensures
        r == sample_decision(last_ms, time_ms, playing, scrubbing, due),
{
    if scrubbing || !playing {
        true
    } else if last_ms == Some(time_ms) {
        false
    } else {
        due
    }
}

/// Limits how often scopes sample frames while a video plays.
#[derive(Debug)]
pub struct ScopeSampleThrottle {
    last_at: Option<std::time::Instant>,
    interval_ms: u64,
    last_ms: Option<u64>,
}

impl ScopeSampleThrottle {
    pub closed spec fn interval_spec(&self) -> u64 {
        self.interval_ms
    }

    pub closed spec fn last_ms_spec(&self) -> Option<u64> {
        self.last_ms
    }

    pub closed spec fn sampled_once(&self) -> bool {
        self.last_at is Some
    }

    /// A throttle that samples at most every 150 ms, with no sample taken yet.
    pub fn default_throttle() -> (r: Self)
        ensures
            r.interval_spec() == 150,
            r.last_ms_spec() is None,
            !r.sampled_once(),
    {
        ScopeSampleThrottle { last_at: None, interval_ms: 150, last_ms: None }
    }

    /// A throttle that samples at most every `ms` milliseconds, and at least 50.
    pub fn with_interval(ms: u64) -> (r: Self)
        ensures
            r.interval_spec() == if ms < 50 { 50 } else { ms },
            r.last_ms_spec() is None,
            !r.sampled_once(),
    {
        ScopeSampleThrottle { last_at: None, interval_ms: if ms < 50 { 50 } else { ms }, last_ms: None }
    }

    /// The time of the last frame sampled.
    pub fn last_sampled_ms(&self) -> (r: Option<u64>)
        ensures
            r == self.last_ms_spec(),
    {
        self.last_ms
    }

    /// Whether to sample the frame at `time_ms` now. Before any sample the interval
    /// counts as passed; after one, it has passed when the milliseconds elapsed on the
    /// clock since the last sample, `elapsed_ns / 1_000_000`, reach the interval (see
    /// [`interval_elapsed`]); the elapsed time itself is read from the clock.
    pub fn should_sample(&mut self, time_ms: u64, playing: bool, scrubbing: bool) -> (r: bool)
        ensures
            final(self).interval_spec() == old(self).interval_spec(),
            exists|elapsed_ns: u64|
                r == sample_decision(
                    old(self).last_ms_spec(),
                    time_ms,
                    playing,
                    scrubbing,
                    #[trigger] sample_due(old(self).sampled_once(), elapsed_ns, old(self).interval_spec()),
                ),
            r ==> final(self).last_ms_spec() == Some(time_ms) && final(self).sampled_once(),
            !r ==> final(self).last_ms_spec() == old(self).last_ms_spec() && final(self).sampled_once() == old(self).sampled_once(),
    {
        let ghost mut e: u64 = 0;
        let due = match &self.last_at {
            Some(t) => {
                let elapsed = nanos_since(t);
                proof {
                    e = elapsed;
                }
                interval_elapsed(elapsed, self.interval_ms)
            },
            None => true,
        };
        assert(due == sample_due(old(self).sampled_once(), e, old(self).interval_spec()));
        let r = decide_sample(self.last_ms, time_ms, playing, scrubbing, due);
        if r {
            self.last_at = Some(instant_now());
            self.last_ms = Some(time_ms);
        }
        r
    }
}

/// The last sampled time of throttle `b` is that of `a` after a call for `time_ms` that
/// answered `granted`.
pub open spec fn sample_step(a: ScopeSampleThrottle, time_ms: u64, granted: bool, b: ScopeSampleThrottle) -> bool {
    &&& granted ==> b.last_ms_spec() == Some(time_ms)
    &&& !granted ==> b.last_ms_spec() == a.last_ms_spec()
}

/// The time of the last granted call among the first `n` calls for `times`, answered
/// `grants`, else `init`.
pub open spec fn last_granted(init: Option<u64>, times: Seq<u64>, grants: Seq<bool>, n: nat) -> Option<u64>
    decreases n,
{
    if n == 0 {
        init
    } else if grants[n - 1] {
        Some(times[n - 1])
    } else {
        last_granted(init, times, grants, (n - 1) as nat)
    }
}

/// Over a sequence of calls of [`ScopeSampleThrottle::should_sample`] (`states[k + 1]`
/// being `states[k]` after the call for `times[k]` that answered `grants[k]`), the last
/// sampled time is that of the last granted call, or the starting one when none was.
pub proof fn law_last_sampled_is_last_granted(states: Seq<ScopeSampleThrottle>, times: Seq<u64>, grants: Seq<bool>, n: nat)
    requires
        n <= times.len(),
        times.len() == grants.len(),
        states.len() == times.len() + 1,
        forall|k: int| 0 <= k < times.len() ==> sample_step(#[trigger] states[k], times[k], grants[k], states[k + 1]),
    ensures
        states[n as int].last_ms_spec() == last_granted(states[0].last_ms_spec(), times, grants, n),
    decreases n,
{
    if n > 0 {
        law_last_sampled_is_last_granted(states, times, grants, (n - 1) as nat);
        assert(sample_step(states[n - 1], times[n - 1], grants[n - 1], states[n as int]));
    }
}

/// Whether a sample is due: always before the first one; after it, once the interval has
/// elapsed.
pub open spec fn sample_due(sampled_once: bool, elapsed_ns: u64, interval_ms: u64) -> bool {
    !sampled_once || elapsed_ns / 1_000_000 >= interval_ms
}

/// Whether `elapsed_ns` nanoseconds make up at least `interval_ms` whole milliseconds.
pub fn interval_elapsed(elapsed_ns: u64, interval_ms: u64) -> (r: bool)
    ensures
        r == (elapsed_ns / 1_000_000 >= interval_ms),
{
    elapsed_ns / 1_000_000 >= interval_ms
}

impl Default for ScopeSampleThrottle {
    fn default() -> (r: Self)
        ensures
            r.interval_spec() == 150,
            r.last_ms_spec() is None,
            !r.sampled_once(),
    {
        Self::default_throttle()
    }
}


/// Whether every lane is seeked to its time and paused on this frame: while scrubbing,
/// while the clock is paused, or when the last seek asked for it.
pub fn force_seek(scrubbing: bool, playing: bool, last_force_seek: bool) -> (r: bool)
    ensures
        r == (scrubbing || !playing || last_force_seek),
{
    scrubbing || !playing || last_force_seek
}

/// How many lanes share the pane: the panes that have a size hint, or else all videos,
/// and at least one.
pub fn visible_lanes(video_count: usize, hinted_count: usize) -> (r: usize)
    ensures
        r == if hinted_count == 0 {
            if video_count < 1 { 1 } else { video_count }
        } else {
            hinted_count
        },
{
    if hinted_count == 0 {
        if video_count < 1 { 1 } else { video_count }
    } else {
        hinted_count
    }
}

/// What one comparison lane is told on a frame.
#[derive(Debug, Clone, Copy, PartialEq, Eq, Structural)]
pub enum LaneCommand {
    /// Seek quickly to the time and pause (while scrubbing).
    SeekFast(u64),
    /// Seek exactly to the time and pause.
    SeekExact(u64),
    /// Play on (the audio master).
    Play,
    /// Seek back to the time if the lane drifted, and play on.
    CorrectAndPlay(u64),
}

impl LaneCommand {
    /// Whether the lane is left paused.
    pub fn pauses(&self) -> (r: bool)
        ensures
            r == (*self is SeekFast || *self is SeekExact),
    {
        match self {
            LaneCommand::SeekFast(_) | LaneCommand::SeekExact(_) => true,
            _ => false,
        }
    }
}

/// The command for a lane whose own time is `local_ms`.
pub open spec fn lane_command_spec(force: bool, scrubbing: bool, is_master: bool, local_ms: u64) -> LaneCommand {
    if force {
        if scrubbing { LaneCommand::SeekFast(local_ms) } else { LaneCommand::SeekExact(local_ms) }
    } else if is_master {
        LaneCommand::Play
    } else {
        LaneCommand::CorrectAndPlay(local_ms)
    }
}

pub fn lane_command(force: bool, scrubbing: bool, is_master: bool, local_ms: u64) -> (r: LaneCommand)
    ensures
        r == lane_command_spec(force, scrubbing, is_master, local_ms),
{
    if force {
        if scrubbing {
            LaneCommand::SeekFast(local_ms)
        } else {
            LaneCommand::SeekExact(local_ms)
        }
    } else if is_master {
        LaneCommand::Play
    } else {
        LaneCommand::CorrectAndPlay(local_ms)
    }
}

} // verus!
