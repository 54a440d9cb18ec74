//! Verified core of a media-organisation library.
use vstd::prelude::*;

pub mod ai_pipeline;
pub mod classifier;
pub mod exif;
pub mod job_registry;
pub mod models;
pub mod project_detector;
pub mod queries;
pub mod scanner;
pub mod search;
pub mod seo_generator;
pub mod settings;
pub mod sorting;
pub mod text;
pub mod thumbnails;
pub mod trusted;

verus! {
}
