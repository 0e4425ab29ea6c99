//! Scene recognition of a batch of videos: how many progress steps the run has, which
//! frame of each video is sampled and at what width, and which scene prefix a file gets.
//!
//! Frame extraction, the vision service and the renames are done outside; this module
//! holds the numbers and choices around them.
use vstd::prelude::*;

use crate::text::string_of;

verus! {

/// Narrowest and widest frame sent for recognition.
pub const RECOGNITION_MIN_WIDTH: u32 = 256;
pub const RECOGNITION_MAX_WIDTH: u32 = 1280;

/// The numbers of a recognition run over a batch.
#[derive(Debug, Clone, Copy, PartialEq, Eq, Structural)]
pub struct RecognitionPlan {
    /// Progress steps: extraction, recognition and write-back for each video, at least one.
    pub steps: usize,
    /// Width of the extracted frames.
    pub frame_width: u32,
}

/// The plan for `video_count` videos and a configured longest edge of `max_edge`.
pub open spec fn recognition_plan_spec(video_count: nat, max_edge: u32) -> RecognitionPlan {
    let tripled: int = if video_count * 3 > usize::MAX { usize::MAX as int } else { (video_count * 3) as int };
    RecognitionPlan {
        steps: if tripled < 1 { 1 } else { tripled as usize },
        frame_width: if max_edge < RECOGNITION_MIN_WIDTH {
            RECOGNITION_MIN_WIDTH
        } else if max_edge > RECOGNITION_MAX_WIDTH {
            RECOGNITION_MAX_WIDTH
        } else {
            max_edge
        },
    }
}

pub fn recognition_plan(video_count: usize, max_edge: u32) -> (r: RecognitionPlan)
    ensures
        r == recognition_plan_spec(video_count as nat, max_edge),
{
    let steps: usize = if video_count > usize::MAX / 3 {
        usize::MAX
    } else if video_count == 0 {
        1
    } else {
        video_count * 3
    };
    let frame_width = if max_edge < RECOGNITION_MIN_WIDTH {
        RECOGNITION_MIN_WIDTH
    } else if max_edge > RECOGNITION_MAX_WIDTH {
        RECOGNITION_MAX_WIDTH
    } else {
        max_edge
    };
    RecognitionPlan { steps, frame_width }
}

/// The time of the sampled frame: a tenth into videos longer than two seconds (and
/// before their end), else the first frame.
pub open spec fn sample_pts_spec(duration_ms: u64) -> u64 {
    if duration_ms > 2000 {
        let tenth = duration_ms / 10;
        let last = (duration_ms - 1) as u64;
        if tenth < last { tenth } else { last }
    } else {
        0
    }
}

pub fn sample_pts_ms(duration_ms: u64) -> (r: u64)
    ensures
        r == sample_pts_spec(duration_ms),
        r < duration_ms || duration_ms <= 2000,
{
    if duration_ms > 2000 {
        let tenth = duration_ms / 10;
        let last = duration_ms - 1;
        if tenth < last { tenth } else { last }
    } else {
        0
    }
}

/// The scene name that prefixes a recognised file: the matched scene, or "未识别" for an
/// unmatched one when unknown files are to be marked, else none.
pub fn scene_prefix(scene_name: Option<&str>, prefix_unknown: bool) -> (r: Option<String>)
    ensures
        scene_name matches Some(n) ==> r matches Some(p) && p@ == n@,
        scene_name is None ==> (r is Some <==> prefix_unknown),
        scene_name is None ==> (r matches Some(p) ==> p@ == "未识别"@),
{
    match scene_name {
        Some(n) => Some(string_of(n)),
        None => if prefix_unknown { Some(string_of("未识别")) } else { None },
    }
}

} // verus!
