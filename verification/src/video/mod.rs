//! Video review: the records and search language, scope sampling and counting, feature
//! matching for alignment, layouts of contact sheets and comparison videos, screenshot
//! naming and export planning.
pub mod domain;
pub mod scopes;
pub mod contact_sheet;
pub mod grid_video;
pub mod services;
pub mod playback;
pub mod export;
pub mod defect;
pub mod features;
pub mod align;
pub mod recognize;
