//! Video engine kinds and their configuration.

use vstd::prelude::*;
use vstd::string::StringExecFns;
use crate::error::VideoError;

verus! {

/// Engine type enumeration.
#[derive(Debug, Clone, Copy, PartialEq, Eq, Structural)]
pub enum EngineType {
    Mpv,
    GStreamer,
}

/// Configuration for a video engine.
#[derive(Debug)]
pub struct EngineConfig {
    pub hw_acceleration: bool,
    pub preferred_hw_api: Option<String>,
    /// Video output driver.
    pub vo_driver: Option<String>,
    /// Audio output driver.
    pub ao_driver: Option<String>,
    pub frame_extraction_resolution: (u32, u32),
    pub cache_duration_ms: u64,
}

impl Default for EngineConfig {
    fn default() -> (r: Self)
        ensures
            r.hw_acceleration,
            r.preferred_hw_api is None,
            r.vo_driver is None,
            r.ao_driver is None,
            r.frame_extraction_resolution == (320u32, 180u32),
            r.cache_duration_ms == 10_000,
    {
        EngineConfig {
            hw_acceleration: true,
            preferred_hw_api: None,
            vo_driver: None,
            ao_driver: None,
            frame_extraction_resolution: (320, 180),
            cache_duration_ms: 10_000,
        }
    }
}

/// Factory for video engines. No engine backend is compiled into this
/// library, so every request is answered with the engine's `InitFailed`
/// error naming the missing feature.
pub struct VideoEngineFactory;

impl VideoEngineFactory {
    /// Create an engine of the given type.
    pub fn create(engine_type: EngineType) -> (r: Result<EngineType, VideoError>)
        ensures
            r matches Err(VideoError::InitFailed(m)) && m@ == match engine_type {
                EngineType::Mpv => "MPV feature not enabled"@,
                EngineType::GStreamer => "GStreamer feature not enabled"@,
            },
    {
        match engine_type {
            EngineType::Mpv => Err(VideoError::InitFailed(String::from_str("MPV feature not enabled"))),
            EngineType::GStreamer => Err(
                VideoError::InitFailed(String::from_str("GStreamer feature not enabled")),
            ),
        }
    }

    /// The best available engine: `None`, since no backend is compiled in.
    pub fn create_best() -> (r: Option<EngineType>)
        ensures
            r is None,
    {
        None
    }
}

} // verus!
