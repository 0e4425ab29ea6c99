//! Settings of video alignment: the strategy, the quality tiers and what each tier
//! analyses. Durations are whole seconds.
use vstd::prelude::*;

use crate::paths::{file_stem, file_stem_of};
use crate::text::{chars_of_string, push_all, push_signed, push_str, signed_decimal, slice_vec, string_from_chars};
use crate::video::domain::VideoItem;

verus! {

/// How videos are aligned to the reference.
#[derive(Debug, Clone, Copy, PartialEq, Eq, Structural)]
pub enum AlignMode {
    Auto,
    Audio,
    Visual,
    Features,
}

impl AlignMode {
    pub open spec fn label_spec(self) -> Seq<char> {
        match self {
            AlignMode::Auto => "自动"@,
            AlignMode::Audio => "音频"@,
            AlignMode::Visual => "画面"@,
            AlignMode::Features => "特征"@,
        }
    }

    /// The name shown in the interface.
    pub fn label(self) -> (r: &'static str)
        ensures
            r@ == self.label_spec(),
    {
        match self {
            AlignMode::Auto => "自动",
            AlignMode::Audio => "音频",
            AlignMode::Visual => "画面",
            AlignMode::Features => "特征",
        }
    }

    /// The modes in menu order.
    pub fn all() -> (r: [AlignMode; 4])
        ensures
            r@ == seq![AlignMode::Auto, AlignMode::Audio, AlignMode::Visual, AlignMode::Features],
    {
        let r = [AlignMode::Auto, AlignMode::Audio, AlignMode::Visual, AlignMode::Features];
        assert(r@ =~= seq![AlignMode::Auto, AlignMode::Audio, AlignMode::Visual, AlignMode::Features]);
        r
    }
}

impl Default for AlignMode {
    fn default() -> (r: Self)
        ensures
            r == AlignMode::Auto,
    {
        AlignMode::Auto
    }
}

/// The quality tier of an alignment: how long a stretch is analysed, how finely, and which
/// refinements run.
#[derive(Debug, Clone, Copy, PartialEq, Eq, Structural)]
pub enum AlignQuality {
    Fast,
    Standard,
    Fine,
}

/// What visual alignment samples: a frame every `sample_ms` milliseconds scaled to `width`
/// pixels, whether normalised cross-correlation refines the result over `ncc_frames`
/// frames either side, and whether feature matching runs.
#[derive(Debug, Clone, Copy, PartialEq, Eq, Structural)]
pub struct VisualAlignParams {
    pub sample_ms: u64,
    pub width: u32,
    pub do_ncc: bool,
    pub ncc_frames: i64,
    pub enable_features: bool,
}

impl Default for VisualAlignParams {
    /// A frame every 200 ms at 160 pixels, no refinement, no features.
    fn default() -> (r: Self)
        ensures
            r == (VisualAlignParams { sample_ms: 200, width: 160, do_ncc: false, ncc_frames: 0, enable_features: false }),
    {
        VisualAlignParams { sample_ms: 200, width: 160, do_ncc: false, ncc_frames: 0, enable_features: false }
    }
}

impl AlignQuality {
    pub open spec fn label_spec(self) -> Seq<char> {
        match self {
            AlignQuality::Fast => "快速"@,
            AlignQuality::Standard => "标准"@,
            AlignQuality::Fine => "精细"@,
        }
    }

    /// The name shown in the interface.
    pub fn label(self) -> (r: &'static str)
        ensures
            r@ == self.label_spec(),
    {
        match self {
            AlignQuality::Fast => "快速",
            AlignQuality::Standard => "标准",
            AlignQuality::Fine => "精细",
        }
    }

    /// The tiers in menu order.
    pub fn all() -> (r: [AlignQuality; 3])
        ensures
            r@ == seq![AlignQuality::Fast, AlignQuality::Standard, AlignQuality::Fine],
    {
        let r = [AlignQuality::Fast, AlignQuality::Standard, AlignQuality::Fine];
        assert(r@ =~= seq![AlignQuality::Fast, AlignQuality::Standard, AlignQuality::Fine]);
        r
    }

    /// Seconds of each video that are analysed: 5, 12 or 30.
    pub fn analysis_secs(self) -> (r: u32)
        ensures
            r == match self {
                AlignQuality::Fast => 5u32,
                AlignQuality::Standard => 12u32,
                AlignQuality::Fine => 30u32,
            },
    {
        match self {
            AlignQuality::Fast => 5,
            AlignQuality::Standard => 12,
            AlignQuality::Fine => 30,
        }
    }

    /// The audio sample rate: 8 kHz for the fast tier, 16 kHz otherwise.
    pub fn audio_sample_rate(self) -> (r: u32)
        ensures
            r == (if self == AlignQuality::Fast { 8000u32 } else { 16000u32 }),
    {
        match self {
            AlignQuality::Fast => 8000,
            AlignQuality::Standard | AlignQuality::Fine => 16000,
        }
    }

    /// Whether GCC-PHAT backs up a weak envelope correlation: in every tier, as it is cheap.
    pub fn use_gcc_phat(self) -> (r: bool)
        ensures
            r,
    {
        true
    }

    /// Whether the chromagram, the heaviest audio method, may run: only in the fine tier.
    pub fn use_chroma(self) -> (r: bool)
        ensures
            r == (self == AlignQuality::Fine),
    {
        match self {
            AlignQuality::Fine => true,
            _ => false,
        }
    }

    /// Whether the audio methods cascade; the same as [`Self::use_gcc_phat`].
    pub fn audio_cascade(self) -> (r: bool)
        ensures
            r,
    {
        self.use_gcc_phat()
    }

    /// Whether clock drift is estimated over several windows: only in the fine tier.
    pub fn drift_enabled(self) -> (r: bool)
        ensures
            r == (self == AlignQuality::Fine),
    {
        match self {
            AlignQuality::Fine => true,
            _ => false,
        }
    }

    /// Seconds spanned by the drift windows: 90 in the fine tier, none otherwise.
    pub fn drift_span_secs(self) -> (r: u32)
        ensures
            r == (if self == AlignQuality::Fine { 90u32 } else { 0u32 }),
    {
        match self {
            AlignQuality::Fine => 90,
            _ => 0,
        }
    }

    /// How many drift windows: 5 in the fine tier, none otherwise.
    pub fn drift_windows(self) -> (r: usize)
        ensures
            r == (if self == AlignQuality::Fine { 5usize } else { 0usize }),
    {
        match self {
            AlignQuality::Fine => 5,
            _ => 0,
        }
    }

    /// What visual alignment samples in this tier.
    pub fn visual_params(self) -> (r: VisualAlignParams)
        ensures
            r == match self {
                AlignQuality::Fast => VisualAlignParams {
                    sample_ms: 250,
                    width: 128,
                    do_ncc: false,
                    ncc_frames: 0,
                    enable_features: false,
                },
                AlignQuality::Standard => VisualAlignParams {
                    sample_ms: 160,
                    width: 192,
                    do_ncc: true,
                    ncc_frames: 2,
                    enable_features: false,
                },
                AlignQuality::Fine => VisualAlignParams {
                    sample_ms: 100,
                    width: 320,
                    do_ncc: true,
                    ncc_frames: 5,
                    enable_features: true,
                },
            },
    {
        match self {
            AlignQuality::Fast => VisualAlignParams {
                sample_ms: 250,
                width: 128,
                do_ncc: false,
                ncc_frames: 0,
                enable_features: false,
            },
            AlignQuality::Standard => VisualAlignParams {
                sample_ms: 160,
                width: 192,
                do_ncc: true,
                ncc_frames: 2,
                enable_features: false,
            },
            AlignQuality::Fine => VisualAlignParams {
                sample_ms: 100,
                width: 320,
                do_ncc: true,
                ncc_frames: 5,
                enable_features: true,
            },
        }
    }
}

impl Default for AlignQuality {
    fn default() -> (r: Self)
        ensures
            r == AlignQuality::Fast,
    {
        AlignQuality::Fast
    }
}

/// The short name of a video in progress messages: its file stem, cut to sixteen
/// characters and an ellipsis when longer than eighteen; `#` and its id when the path has
/// no stem.
pub open spec fn short_name_spec(file_path: Seq<char>, id: i64) -> Seq<char> {
    match file_stem_of(file_path) {
        Some(stem) => if stem.len() > 18 {
            stem.subrange(0, 16) + "…"@
        } else {
            stem
        },
        None => "#"@ + signed_decimal(id as int),
    }
}

/// The short name of a video in progress messages.
pub fn short_video_name(video: &VideoItem) -> (r: String)
    ensures
        r@ == short_name_spec(video.file_path@, video.id),
{
    let mut out: Vec<char> = Vec::new();
    match file_stem(video.file_path.as_str()) {
        Some(stem) => {
            let cs = chars_of_string(&stem);
            if cs.len() > 18 {
                let head = slice_vec(&cs, 0, 16);
                push_all(&mut out, &head);
                push_str(&mut out, "…");
            } else {
                push_all(&mut out, &cs);
            }
        },
        None => {
            push_str(&mut out, "#");
            push_signed(&mut out, video.id);
        },
    }
    proof {
        assert(out@ =~= short_name_spec(video.file_path@, video.id));
    }
    string_from_chars(&out)
}

} // verus!
