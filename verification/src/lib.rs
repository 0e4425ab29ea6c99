//! Verified core of an image and video processing toolkit: batch conversion planning,
//! the remote processing back end (job store, queue, object storage, request signing,
//! authorisation, throttling, worker decisions) and video review (queries, scopes,
//! layouts, export planning).
use vstd::prelude::*;

pub mod clock;
pub mod keyed;
pub mod paths;
pub mod scheduler;
pub mod server;
pub mod sorting;
pub mod text;
pub mod ui;
pub mod video;

verus! {

} // verus!
