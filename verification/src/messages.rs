//! What failures say.
use vstd::prelude::*;
use vstd::string::*;

use crate::audio_limits::NativeMasterError;
use crate::model::OutsideFailure;
use crate::project_plan::{NativeProjectPlanError, PlanError};
use crate::render::NativeSourceRenderError;
use crate::source::{NativeSourceError, NativeSourcePreflightError};
use crate::source_playback::NativeSourcePlaybackError;
use crate::text;
use crate::text::decimal;

verus! {

/// Failures of the native media runtime, each with the failure underneath.
#[derive(Clone, Copy, Debug, PartialEq, Eq, Structural)]
pub enum NativeMediaError {
    Ffmpeg(OutsideFailure),
    Gpu(OutsideFailure),
    Color(OutsideFailure),
    SceneCompositor(OutsideFailure),
    Compositor(OutsideFailure),
    Stinger(OutsideFailure),
    FadeToBlack(OutsideFailure),
}

/// What is said where a project cannot be compiled.
pub open spec fn project_plan_message(error: NativeProjectPlanError, id: Seq<char>, detail: Seq<char>) -> Seq<char> {
    match error {
        NativeProjectPlanError::MissingInput(_) => "native scene references missing input "@ + id,
        NativeProjectPlanError::MissingScene(_) => "native scene "@ + id + " is missing"@,
        NativeProjectPlanError::InvalidStingerSlot(slot) => "native project has invalid Stinger slot "@ + text::digits(slot as nat),
        NativeProjectPlanError::SceneCycle { .. } => "native scene dependency cycle reaches "@ + id,
        NativeProjectPlanError::AudioCycle { .. } => "native scene audio cycle reaches input "@ + id,
        NativeProjectPlanError::TooManyReachableScenes { actual, maximum } => "native project has "@ + text::digits(actual as nat) + " reachable scenes; maximum is "@ + text::digits(maximum as nat),
        NativeProjectPlanError::TooManyActiveLayers { actual, maximum } => "native project has "@ + text::digits(actual as nat) + " active reachable scene layers; maximum is "@ + text::digits(maximum as nat),
        NativeProjectPlanError::TransientByteSizeOverflow { width, height, targets } => text::digits(targets as nat) + " simultaneous native targets at "@ + text::digits(width as nat) + "x"@ + text::digits(height as nat) + " overflow the RGBA16F byte charge"@,
        NativeProjectPlanError::TransientTargetCountOverflow => "native transient target count overflowed"@,
        NativeProjectPlanError::TransientBytesExceeded { required, maximum } => "native transient RGBA16F bytes "@ + text::digits(required as nat) + " exceed limit "@ + text::digits(maximum as nat),
        NativeProjectPlanError::Scene { .. } => "native scene "@ + id + " is invalid: "@ + detail,
        NativeProjectPlanError::Composition { .. } => "native scene "@ + id + " plan is invalid: "@ + detail,
        NativeProjectPlanError::SourceTokenExhausted => "native scene source tokens are exhausted"@,
    }
}

impl NativeProjectPlanError {
    /// Says what failed. `id` names the input or the scene, `detail` is what the failure
    /// underneath says of itself.
    pub fn message(&self, id: &str, detail: &str) -> (text: String)
        ensures
            text@ == project_plan_message(*self, id@, detail@),
    {
        match self {
            NativeProjectPlanError::MissingInput(_) => String::from_str("native scene references missing input ").concat(id),
            NativeProjectPlanError::MissingScene(_) => String::from_str("native scene ").concat(id).concat(" is missing"),
            NativeProjectPlanError::InvalidStingerSlot(slot) => String::from_str("native project has invalid Stinger slot ").concat(decimal(*slot as u64).as_str()),
            NativeProjectPlanError::SceneCycle { .. } => String::from_str("native scene dependency cycle reaches ").concat(id),
            NativeProjectPlanError::AudioCycle { .. } => String::from_str("native scene audio cycle reaches input ").concat(id),
            NativeProjectPlanError::TooManyReachableScenes { actual, maximum } => String::from_str("native project has ").concat(decimal(*actual as u64).as_str()).concat(" reachable scenes; maximum is ").concat(decimal(*maximum as u64).as_str()),
            NativeProjectPlanError::TooManyActiveLayers { actual, maximum } => String::from_str("native project has ").concat(decimal(*actual as u64).as_str()).concat(" active reachable scene layers; maximum is ").concat(decimal(*maximum as u64).as_str()),
            NativeProjectPlanError::TransientByteSizeOverflow { width, height, targets } => decimal(*targets as u64).concat(" simultaneous native targets at ").concat(decimal(*width as u64).as_str()).concat("x").concat(decimal(*height as u64).as_str()).concat(" overflow the RGBA16F byte charge"),
            NativeProjectPlanError::TransientTargetCountOverflow => String::from_str("native transient target count overflowed"),
            NativeProjectPlanError::TransientBytesExceeded { required, maximum } => String::from_str("native transient RGBA16F bytes ").concat(decimal(*required as u64).as_str()).concat(" exceed limit ").concat(decimal(*maximum as u64).as_str()),
            NativeProjectPlanError::Scene { .. } => String::from_str("native scene ").concat(id).concat(" is invalid: ").concat(detail),
            NativeProjectPlanError::Composition { .. } => String::from_str("native scene ").concat(id).concat(" plan is invalid: ").concat(detail),
            NativeProjectPlanError::SourceTokenExhausted => String::from_str("native scene source tokens are exhausted"),
        }
    }
}

/// What is said where native media fail.
pub open spec fn media_message(error: NativeMediaError, id: Seq<char>, detail: Seq<char>) -> Seq<char> {
    match error {
        NativeMediaError::Ffmpeg(_) => "local media decode failed: "@ + detail,
        NativeMediaError::Gpu(_) => "native GPU setup or diagnostic failed: "@ + detail,
        NativeMediaError::Color(_) => "native color normalization failed: "@ + detail,
        NativeMediaError::SceneCompositor(_) => "native scene composition failed: "@ + detail,
        NativeMediaError::Compositor(_) => "native composition failed: "@ + detail,
        NativeMediaError::Stinger(_) => "native Stinger setup failed: "@ + detail,
        NativeMediaError::FadeToBlack(_) => "native Fade-to-Black setup failed: "@ + detail,
    }
}

impl NativeMediaError {
    /// Says what failed. `id` names the input or the scene, `detail` is what the failure
    /// underneath says of itself.
    pub fn message(&self, id: &str, detail: &str) -> (text: String)
        ensures
            text@ == media_message(*self, id@, detail@),
    {
        match self {
            NativeMediaError::Ffmpeg(_) => String::from_str("local media decode failed: ").concat(detail),
            NativeMediaError::Gpu(_) => String::from_str("native GPU setup or diagnostic failed: ").concat(detail),
            NativeMediaError::Color(_) => String::from_str("native color normalization failed: ").concat(detail),
            NativeMediaError::SceneCompositor(_) => String::from_str("native scene composition failed: ").concat(detail),
            NativeMediaError::Compositor(_) => String::from_str("native composition failed: ").concat(detail),
            NativeMediaError::Stinger(_) => String::from_str("native Stinger setup failed: ").concat(detail),
            NativeMediaError::FadeToBlack(_) => String::from_str("native Fade-to-Black setup failed: ").concat(detail),
        }
    }
}

/// What is said where sources are refused.
pub open spec fn source_message(error: NativeSourceError, id: Seq<char>, detail: Seq<char>) -> Seq<char> {
    match error {
        NativeSourceError::TooManySources { actual, maximum } => "source count "@ + text::digits(actual as nat) + " exceeds limit "@ + text::digits(maximum as nat),
        NativeSourceError::TooManyFrames { actual, maximum, .. } => "source "@ + id + " frame count "@ + text::digits(actual as nat) + " exceeds limit "@ + text::digits(maximum as nat),
        NativeSourceError::DuplicateSource(_) => "source "@ + id + " is already registered"@,
        NativeSourceError::FrameByteSizeOverflow { width, height, .. } => "source "@ + id + " dimensions "@ + text::digits(width as nat) + "x"@ + text::digits(height as nat) + " overflow the RGBA16F byte charge"@,
        NativeSourceError::RetainedBytesExceeded { required, maximum } => "retained RGBA16F bytes "@ + text::digits(required as nat) + " exceed limit "@ + text::digits(maximum as nat),
        NativeSourceError::DimensionMismatch { expected_width, expected_height, actual_width, actual_height, .. } => "source "@ + id + " dimensions "@ + text::digits(actual_width as nat) + "x"@ + text::digits(actual_height as nat) + " do not match "@ + text::digits(expected_width as nat) + "x"@ + text::digits(expected_height as nat),
        NativeSourceError::InvalidTimeline { .. } => "source "@ + id + " has an invalid video timeline"@,
    }
}

impl NativeSourceError {
    /// Says what failed. `id` names the input or the scene, `detail` is what the failure
    /// underneath says of itself.
    pub fn message(&self, id: &str, detail: &str) -> (text: String)
        ensures
            text@ == source_message(*self, id@, detail@),
    {
        match self {
            NativeSourceError::TooManySources { actual, maximum } => String::from_str("source count ").concat(decimal(*actual as u64).as_str()).concat(" exceeds limit ").concat(decimal(*maximum as u64).as_str()),
            NativeSourceError::TooManyFrames { actual, maximum, .. } => String::from_str("source ").concat(id).concat(" frame count ").concat(decimal(*actual as u64).as_str()).concat(" exceeds limit ").concat(decimal(*maximum as u64).as_str()),
            NativeSourceError::DuplicateSource(_) => String::from_str("source ").concat(id).concat(" is already registered"),
            NativeSourceError::FrameByteSizeOverflow { width, height, .. } => String::from_str("source ").concat(id).concat(" dimensions ").concat(decimal(*width as u64).as_str()).concat("x").concat(decimal(*height as u64).as_str()).concat(" overflow the RGBA16F byte charge"),
            NativeSourceError::RetainedBytesExceeded { required, maximum } => String::from_str("retained RGBA16F bytes ").concat(decimal(*required as u64).as_str()).concat(" exceed limit ").concat(decimal(*maximum as u64).as_str()),
            NativeSourceError::DimensionMismatch { expected_width, expected_height, actual_width, actual_height, .. } => String::from_str("source ").concat(id).concat(" dimensions ").concat(decimal(*actual_width as u64).as_str()).concat("x").concat(decimal(*actual_height as u64).as_str()).concat(" do not match ").concat(decimal(*expected_width as u64).as_str()).concat("x").concat(decimal(*expected_height as u64).as_str()),
            NativeSourceError::InvalidTimeline { .. } => String::from_str("source ").concat(id).concat(" has an invalid video timeline"),
        }
    }
}

/// What is said where sources cannot be prepared.
pub open spec fn preflight_message(error: NativeSourcePreflightError, id: Seq<char>, detail: Seq<char>) -> Seq<char> {
    match error {
        NativeSourcePreflightError::Source(error) => source_message(error, id, detail),
        NativeSourcePreflightError::Decode { .. } => "source "@ + id + " video preflight decode failed: "@ + detail,
        NativeSourcePreflightError::DecodeContract { video_frames, audio_blocks, .. } => "source "@ + id + " preflight returned "@ + text::digits(video_frames as nat) + " video frames and "@ + text::digits(audio_blocks as nat) + " audio blocks; expected a nonempty bounded video prefix and no audio"@,
        NativeSourcePreflightError::Normalize { .. } => "source "@ + id + " native normalization failed: "@ + detail,
        NativeSourcePreflightError::CodecAdapterRequired { .. } => "source "@ + id + " requires a local video codec adapter"@,
        NativeSourcePreflightError::WorkerUnavailable => "native source decode worker could not be started"@,
    }
}

impl NativeSourcePreflightError {
    /// Says what failed. `id` names the input or the scene, `detail` is what the failure
    /// underneath says of itself.
    pub fn message(&self, id: &str, detail: &str) -> (text: String)
        ensures
            text@ == preflight_message(*self, id@, detail@),
    {
        match self {
            NativeSourcePreflightError::Source(error) => error.message(id, detail),
            NativeSourcePreflightError::Decode { .. } => String::from_str("source ").concat(id).concat(" video preflight decode failed: ").concat(detail),
            NativeSourcePreflightError::DecodeContract { video_frames, audio_blocks, .. } => String::from_str("source ").concat(id).concat(" preflight returned ").concat(decimal(*video_frames as u64).as_str()).concat(" video frames and ").concat(decimal(*audio_blocks as u64).as_str()).concat(" audio blocks; expected a nonempty bounded video prefix and no audio"),
            NativeSourcePreflightError::Normalize { .. } => String::from_str("source ").concat(id).concat(" native normalization failed: ").concat(detail),
            NativeSourcePreflightError::CodecAdapterRequired { .. } => String::from_str("source ").concat(id).concat(" requires a local video codec adapter"),
            NativeSourcePreflightError::WorkerUnavailable => String::from_str("native source decode worker could not be started"),
        }
    }
}

/// What is said where playback fails.
pub open spec fn playback_message(error: NativeSourcePlaybackError, id: Seq<char>, detail: Seq<char>) -> Seq<char> {
    match error {
        NativeSourcePlaybackError::Source(error) => source_message(error, id, detail),
        NativeSourcePlaybackError::Decode { .. } => "source "@ + id + " video refill decode failed: "@ + detail,
        NativeSourcePlaybackError::DecodeContract { .. } => "source "@ + id + " video refill violated the decode contract"@,
        NativeSourcePlaybackError::Normalize { .. } => "source "@ + id + " native refill normalization failed: "@ + detail,
        NativeSourcePlaybackError::WorkerDisconnected => "native source decode worker disconnected"@,
        NativeSourcePlaybackError::WorkerPanicked => "native source decode worker panicked"@,
        NativeSourcePlaybackError::WorkerQueueFull => "native source decode worker request queue is unexpectedly full"@,
        NativeSourcePlaybackError::SourceNotLive { .. } => "source "@ + id + " is not a live video source"@,
        NativeSourcePlaybackError::MissingSource { .. } => "source "@ + id + " is not registered"@,
        NativeSourcePlaybackError::StingerSourceNotFullyPreloaded { retained_frames, maximum_frames, .. } => "Stinger source "@ + id + " did not reach end of stream within "@ + text::digits(retained_frames as nat) + " retained frames; maximum is "@ + text::digits(maximum_frames as nat),
        NativeSourcePlaybackError::StingerSourceIsLive { .. } => "Stinger source "@ + id + " is a live video source"@,
        NativeSourcePlaybackError::Failed => "native source playback previously failed"@,
    }
}

impl NativeSourcePlaybackError {
    /// Says what failed. `id` names the input or the scene, `detail` is what the failure
    /// underneath says of itself.
    pub fn message(&self, id: &str, detail: &str) -> (text: String)
        ensures
            text@ == playback_message(*self, id@, detail@),
    {
        match self {
            NativeSourcePlaybackError::Source(error) => error.message(id, detail),
            NativeSourcePlaybackError::Decode { .. } => String::from_str("source ").concat(id).concat(" video refill decode failed: ").concat(detail),
            NativeSourcePlaybackError::DecodeContract { .. } => String::from_str("source ").concat(id).concat(" video refill violated the decode contract"),
            NativeSourcePlaybackError::Normalize { .. } => String::from_str("source ").concat(id).concat(" native refill normalization failed: ").concat(detail),
            NativeSourcePlaybackError::WorkerDisconnected => String::from_str("native source decode worker disconnected"),
            NativeSourcePlaybackError::WorkerPanicked => String::from_str("native source decode worker panicked"),
            NativeSourcePlaybackError::WorkerQueueFull => String::from_str("native source decode worker request queue is unexpectedly full"),
            NativeSourcePlaybackError::SourceNotLive { .. } => String::from_str("source ").concat(id).concat(" is not a live video source"),
            NativeSourcePlaybackError::MissingSource { .. } => String::from_str("source ").concat(id).concat(" is not registered"),
            NativeSourcePlaybackError::StingerSourceNotFullyPreloaded { retained_frames, maximum_frames, .. } => String::from_str("Stinger source ").concat(id).concat(" did not reach end of stream within ").concat(decimal(*retained_frames as u64).as_str()).concat(" retained frames; maximum is ").concat(decimal(*maximum_frames as u64).as_str()),
            NativeSourcePlaybackError::StingerSourceIsLive { .. } => String::from_str("Stinger source ").concat(id).concat(" is a live video source"),
            NativeSourcePlaybackError::Failed => String::from_str("native source playback previously failed"),
        }
    }
}

/// What is said where a frame cannot be rendered.
pub open spec fn render_message(error: NativeSourceRenderError, id: Seq<char>, detail: Seq<char>) -> Seq<char> {
    match error {
        NativeSourceRenderError::MissingSource { .. } => "source "@ + id + " is not registered"@,
        NativeSourceRenderError::DimensionMismatch { expected_width, expected_height, actual_width, actual_height, .. } => "source "@ + id + " texture dimensions "@ + text::digits(actual_width as nat) + "x"@ + text::digits(actual_height as nat) + " do not match registry dimensions "@ + text::digits(expected_width as nat) + "x"@ + text::digits(expected_height as nat),
        NativeSourceRenderError::MissingTransitionKind => "program-frame transition kind is missing"@,
        NativeSourceRenderError::MissingStingerConfiguration(slot) => "native project has no configuration for Stinger slot "@ + text::digits(slot.0 as nat),
        NativeSourceRenderError::StingerSourceNotPreloaded { .. } => "native Stinger source "@ + id + " is not pinned for clip-local playback"@,
        NativeSourceRenderError::UnsupportedTransition(_) => "native transition "@ + detail + " is not supported"@,
        NativeSourceRenderError::InvalidMix(_) => "program-frame mix is invalid: "@ + detail,
        NativeSourceRenderError::InvalidStinger(_) => "program-frame Stinger is invalid: "@ + detail,
        NativeSourceRenderError::ResourceBounds => "native scene execution exceeded planned resource bounds"@,
        NativeSourceRenderError::ConcurrentProjectRender => "native project rendering is already in progress"@,
        NativeSourceRenderError::Completion(_) => "native project completion failed: "@ + detail,
        NativeSourceRenderError::SceneCompositor(_) => "native scene composition failed: "@ + detail,
        NativeSourceRenderError::Compositor(_) => "native composition failed: "@ + detail,
        NativeSourceRenderError::Stinger(_) => "native Stinger rendering failed: "@ + detail,
        NativeSourceRenderError::InvalidFadeToBlack(_) => "native Fade-to-Black plan is invalid: "@ + detail,
        NativeSourceRenderError::FadeToBlack(_) => "native Fade-to-Black rendering failed: "@ + detail,
    }
}

impl NativeSourceRenderError {
    /// Says what failed. `id` names the input or the scene, `detail` is what the failure
    /// underneath says of itself.
    pub fn message(&self, id: &str, detail: &str) -> (text: String)
        ensures
            text@ == render_message(*self, id@, detail@),
    {
        match self {
            NativeSourceRenderError::MissingSource { .. } => String::from_str("source ").concat(id).concat(" is not registered"),
            NativeSourceRenderError::DimensionMismatch { expected_width, expected_height, actual_width, actual_height, .. } => String::from_str("source ").concat(id).concat(" texture dimensions ").concat(decimal(*actual_width as u64).as_str()).concat("x").concat(decimal(*actual_height as u64).as_str()).concat(" do not match registry dimensions ").concat(decimal(*expected_width as u64).as_str()).concat("x").concat(decimal(*expected_height as u64).as_str()),
            NativeSourceRenderError::MissingTransitionKind => String::from_str("program-frame transition kind is missing"),
            NativeSourceRenderError::MissingStingerConfiguration(slot) => String::from_str("native project has no configuration for Stinger slot ").concat(decimal(slot.0 as u64).as_str()),
            NativeSourceRenderError::StingerSourceNotPreloaded { .. } => String::from_str("native Stinger source ").concat(id).concat(" is not pinned for clip-local playback"),
            NativeSourceRenderError::UnsupportedTransition(_) => String::from_str("native transition ").concat(detail).concat(" is not supported"),
            NativeSourceRenderError::InvalidMix(_) => String::from_str("program-frame mix is invalid: ").concat(detail),
            NativeSourceRenderError::InvalidStinger(_) => String::from_str("program-frame Stinger is invalid: ").concat(detail),
            NativeSourceRenderError::ResourceBounds => String::from_str("native scene execution exceeded planned resource bounds"),
            NativeSourceRenderError::ConcurrentProjectRender => String::from_str("native project rendering is already in progress"),
            NativeSourceRenderError::Completion(_) => String::from_str("native project completion failed: ").concat(detail),
            NativeSourceRenderError::SceneCompositor(_) => String::from_str("native scene composition failed: ").concat(detail),
            NativeSourceRenderError::Compositor(_) => String::from_str("native composition failed: ").concat(detail),
            NativeSourceRenderError::Stinger(_) => String::from_str("native Stinger rendering failed: ").concat(detail),
            NativeSourceRenderError::InvalidFadeToBlack(_) => String::from_str("native Fade-to-Black plan is invalid: ").concat(detail),
            NativeSourceRenderError::FadeToBlack(_) => String::from_str("native Fade-to-Black rendering failed: ").concat(detail),
        }
    }
}

/// What is said where audio fails.
pub open spec fn master_message(error: NativeMasterError, id: Seq<char>, detail: Seq<char>) -> Seq<char> {
    match error {
        NativeMasterError::Ffmpeg { .. } => "source "@ + id + " native audio decode failed: "@ + detail,
        NativeMasterError::Audio(_) => "native Master mix failed: "@ + detail,
        NativeMasterError::ChannelMapping(_) => "native audio channel mapping failed: "@ + detail,
        NativeMasterError::Synchronizer(_) => "native audio synchronization failed: "@ + detail,
        NativeMasterError::AudioBlock(_) => "native audio block failed: "@ + detail,
        NativeMasterError::Timing(_) => "native audio timing failed: "@ + detail,
        NativeMasterError::SinkConfig(_) => "native fake audio sink failed: "@ + detail,
        NativeMasterError::InvalidLimits => "native audio limits are invalid"@,
        NativeMasterError::InvalidFormat => "native audio requires planar F32 with a compatible channel layout"@,
        NativeMasterError::InvalidTimeline { .. } => "source "@ + id + " has an invalid audio timeline"@,
        NativeMasterError::BoundsExceeded => "native audio retained resource bounds were exceeded"@,
        NativeMasterError::WorkerUnavailable => "native audio decode worker could not be started"@,
        NativeMasterError::WorkerDisconnected => "native audio decode worker disconnected"@,
        NativeMasterError::WorkerPanicked => "native audio decode worker panicked"@,
        NativeMasterError::WorkerQueueFull => "native audio decode worker queue is unexpectedly full"@,
        NativeMasterError::DecodeContract { .. } => "source "@ + id + " violated the native audio decode contract"@,
        NativeMasterError::MissingAudioRoute { .. } => "input "@ + id + " has no native project audio route"@,
        NativeMasterError::MissingAudioTransitionKind => "native audio transition kind is missing"@,
        NativeMasterError::MissingStingerConfiguration(slot) => "native project has no audio configuration for Stinger slot "@ + text::digits(slot.0 as nat),
        NativeMasterError::InvalidStinger(_) => "native Stinger audio plan is invalid: "@ + detail,
        NativeMasterError::UnsupportedAudioTransition(_) => "native audio transition "@ + detail + " is not supported"@,
        NativeMasterError::UnexpectedFrame { expected, actual } => "native audio expected frame "@ + text::digits(expected as nat) + ", received "@ + text::digits(actual as nat),
        NativeMasterError::FrameNotReady(frame) => "native audio frame "@ + text::digits(frame as nat) + " was not serviced before render"@,
        NativeMasterError::SinkRejected => "native fake audio sink rejected a block"@,
        NativeMasterError::Failed => "native audio runtime previously failed"@,
    }
}

impl NativeMasterError {
    /// Says what failed. `id` names the input or the scene, `detail` is what the failure
    /// underneath says of itself.
    pub fn message(&self, id: &str, detail: &str) -> (text: String)
        ensures
            text@ == master_message(*self, id@, detail@),
    {
        match self {
            NativeMasterError::Ffmpeg { .. } => String::from_str("source ").concat(id).concat(" native audio decode failed: ").concat(detail),
            NativeMasterError::Audio(_) => String::from_str("native Master mix failed: ").concat(detail),
            NativeMasterError::ChannelMapping(_) => String::from_str("native audio channel mapping failed: ").concat(detail),
            NativeMasterError::Synchronizer(_) => String::from_str("native audio synchronization failed: ").concat(detail),
            NativeMasterError::AudioBlock(_) => String::from_str("native audio block failed: ").concat(detail),
            NativeMasterError::Timing(_) => String::from_str("native audio timing failed: ").concat(detail),
            NativeMasterError::SinkConfig(_) => String::from_str("native fake audio sink failed: ").concat(detail),
            NativeMasterError::InvalidLimits => String::from_str("native audio limits are invalid"),
            NativeMasterError::InvalidFormat => String::from_str("native audio requires planar F32 with a compatible channel layout"),
            NativeMasterError::InvalidTimeline { .. } => String::from_str("source ").concat(id).concat(" has an invalid audio timeline"),
            NativeMasterError::BoundsExceeded => String::from_str("native audio retained resource bounds were exceeded"),
            NativeMasterError::WorkerUnavailable => String::from_str("native audio decode worker could not be started"),
            NativeMasterError::WorkerDisconnected => String::from_str("native audio decode worker disconnected"),
            NativeMasterError::WorkerPanicked => String::from_str("native audio decode worker panicked"),
            NativeMasterError::WorkerQueueFull => String::from_str("native audio decode worker queue is unexpectedly full"),
            NativeMasterError::DecodeContract { .. } => String::from_str("source ").concat(id).concat(" violated the native audio decode contract"),
            NativeMasterError::MissingAudioRoute { .. } => String::from_str("input ").concat(id).concat(" has no native project audio route"),
            NativeMasterError::MissingAudioTransitionKind => String::from_str("native audio transition kind is missing"),
            NativeMasterError::MissingStingerConfiguration(slot) => String::from_str("native project has no audio configuration for Stinger slot ").concat(decimal(slot.0 as u64).as_str()),
            NativeMasterError::InvalidStinger(_) => String::from_str("native Stinger audio plan is invalid: ").concat(detail),
            NativeMasterError::UnsupportedAudioTransition(_) => String::from_str("native audio transition ").concat(detail).concat(" is not supported"),
            NativeMasterError::UnexpectedFrame { expected, actual } => String::from_str("native audio expected frame ").concat(decimal(*expected as u64).as_str()).concat(", received ").concat(decimal(*actual as u64).as_str()),
            NativeMasterError::FrameNotReady(frame) => String::from_str("native audio frame ").concat(decimal(*frame as u64).as_str()).concat(" was not serviced before render"),
            NativeMasterError::SinkRejected => String::from_str("native fake audio sink rejected a block"),
            NativeMasterError::Failed => String::from_str("native audio runtime previously failed"),
        }
    }
}

/// The failure underneath another.
#[derive(Clone, Copy, Debug, PartialEq, Eq, Structural)]
pub enum FailureSource {
    Outside(OutsideFailure),
    Source(NativeSourceError),
    Plan(PlanError),
}

impl NativeProjectPlanError {
    /// The failure underneath, if there is one.
    pub fn source(&self) -> (source: Option<FailureSource>)
        ensures
            source == (match *self {
                NativeProjectPlanError::Scene { error, .. } => Some(FailureSource::Outside(error)),
                NativeProjectPlanError::Composition { error, .. } => Some(FailureSource::Plan(error)),
                _ => None,
            }),
    {
        match self {
            NativeProjectPlanError::Scene { error, .. } => Some(FailureSource::Outside(*error)),
            NativeProjectPlanError::Composition { error, .. } => Some(FailureSource::Plan(*error)),
            _ => None,
        }
    }
}

impl NativeMediaError {
    /// The failure underneath, if there is one.
    pub fn source(&self) -> (source: Option<FailureSource>)
        ensures
            source == (match *self {
                NativeMediaError::Ffmpeg(error) => Some(FailureSource::Outside(error)),
                NativeMediaError::Gpu(error) => Some(FailureSource::Outside(error)),
                NativeMediaError::Color(error) => Some(FailureSource::Outside(error)),
                NativeMediaError::SceneCompositor(error) => Some(FailureSource::Outside(error)),
                NativeMediaError::Compositor(error) => Some(FailureSource::Outside(error)),
                NativeMediaError::Stinger(error) => Some(FailureSource::Outside(error)),
                NativeMediaError::FadeToBlack(error) => Some(FailureSource::Outside(error)),
            }),
    {
        match self {
            NativeMediaError::Ffmpeg(error) => Some(FailureSource::Outside(*error)),
            NativeMediaError::Gpu(error) => Some(FailureSource::Outside(*error)),
            NativeMediaError::Color(error) => Some(FailureSource::Outside(*error)),
            NativeMediaError::SceneCompositor(error) => Some(FailureSource::Outside(*error)),
            NativeMediaError::Compositor(error) => Some(FailureSource::Outside(*error)),
            NativeMediaError::Stinger(error) => Some(FailureSource::Outside(*error)),
            NativeMediaError::FadeToBlack(error) => Some(FailureSource::Outside(*error)),
        }
    }
}

impl NativeSourcePreflightError {
    /// The failure underneath, if there is one.
    pub fn source(&self) -> (source: Option<FailureSource>)
        ensures
            source == (match *self {
                NativeSourcePreflightError::Source(error) => Some(FailureSource::Source(error)),
                NativeSourcePreflightError::Decode { error, .. } => Some(FailureSource::Outside(error)),
                NativeSourcePreflightError::Normalize { error, .. } => Some(FailureSource::Outside(error)),
                _ => None,
            }),
    {
        match self {
            NativeSourcePreflightError::Source(error) => Some(FailureSource::Source(*error)),
            NativeSourcePreflightError::Decode { error, .. } => Some(FailureSource::Outside(*error)),
            NativeSourcePreflightError::Normalize { error, .. } => Some(FailureSource::Outside(*error)),
            _ => None,
        }
    }
}

impl NativeSourcePlaybackError {
    /// The failure underneath, if there is one.
    pub fn source(&self) -> (source: Option<FailureSource>)
        ensures
            source == (match *self {
                NativeSourcePlaybackError::Source(error) => Some(FailureSource::Source(error)),
                NativeSourcePlaybackError::Decode { error, .. } => Some(FailureSource::Outside(error)),
                NativeSourcePlaybackError::Normalize { error, .. } => Some(FailureSource::Outside(error)),
                _ => None,
            }),
    {
        match self {
            NativeSourcePlaybackError::Source(error) => Some(FailureSource::Source(*error)),
            NativeSourcePlaybackError::Decode { error, .. } => Some(FailureSource::Outside(*error)),
            NativeSourcePlaybackError::Normalize { error, .. } => Some(FailureSource::Outside(*error)),
            _ => None,
        }
    }
}

impl NativeSourceRenderError {
    /// The failure underneath, if there is one.
    pub fn source(&self) -> (source: Option<FailureSource>)
        ensures
            source == (match *self {
                NativeSourceRenderError::InvalidMix(error) => Some(FailureSource::Outside(error)),
                NativeSourceRenderError::InvalidStinger(error) => Some(FailureSource::Outside(error)),
                NativeSourceRenderError::Completion(error) => Some(FailureSource::Outside(error)),
                NativeSourceRenderError::SceneCompositor(error) => Some(FailureSource::Outside(error)),
                NativeSourceRenderError::Compositor(error) => Some(FailureSource::Outside(error)),
                NativeSourceRenderError::Stinger(error) => Some(FailureSource::Outside(error)),
                NativeSourceRenderError::InvalidFadeToBlack(error) => Some(FailureSource::Outside(error)),
                NativeSourceRenderError::FadeToBlack(error) => Some(FailureSource::Outside(error)),
                _ => None,
            }),
    {
        match self {
            NativeSourceRenderError::InvalidMix(error) => Some(FailureSource::Outside(*error)),
            NativeSourceRenderError::InvalidStinger(error) => Some(FailureSource::Outside(*error)),
            NativeSourceRenderError::Completion(error) => Some(FailureSource::Outside(*error)),
            NativeSourceRenderError::SceneCompositor(error) => Some(FailureSource::Outside(*error)),
            NativeSourceRenderError::Compositor(error) => Some(FailureSource::Outside(*error)),
            NativeSourceRenderError::Stinger(error) => Some(FailureSource::Outside(*error)),
            NativeSourceRenderError::InvalidFadeToBlack(error) => Some(FailureSource::Outside(*error)),
            NativeSourceRenderError::FadeToBlack(error) => Some(FailureSource::Outside(*error)),
            _ => None,
        }
    }
}

impl NativeMasterError {
    /// The failure underneath, if there is one.
    pub fn source(&self) -> (source: Option<FailureSource>)
        ensures
            source == (match *self {
                NativeMasterError::Ffmpeg { error, .. } => Some(FailureSource::Outside(error)),
                NativeMasterError::Audio(error) => Some(FailureSource::Outside(error)),
                NativeMasterError::ChannelMapping(error) => Some(FailureSource::Outside(error)),
                NativeMasterError::Synchronizer(error) => Some(FailureSource::Outside(error)),
                NativeMasterError::AudioBlock(error) => Some(FailureSource::Outside(error)),
                NativeMasterError::Timing(error) => Some(FailureSource::Outside(error)),
                NativeMasterError::SinkConfig(error) => Some(FailureSource::Outside(error)),
                NativeMasterError::InvalidStinger(error) => Some(FailureSource::Outside(error)),
                _ => None,
            }),
    {
        match self {
            NativeMasterError::Ffmpeg { error, .. } => Some(FailureSource::Outside(*error)),
            NativeMasterError::Audio(error) => Some(FailureSource::Outside(*error)),
            NativeMasterError::ChannelMapping(error) => Some(FailureSource::Outside(*error)),
            NativeMasterError::Synchronizer(error) => Some(FailureSource::Outside(*error)),
            NativeMasterError::AudioBlock(error) => Some(FailureSource::Outside(*error)),
            NativeMasterError::Timing(error) => Some(FailureSource::Outside(*error)),
            NativeMasterError::SinkConfig(error) => Some(FailureSource::Outside(*error)),
            NativeMasterError::InvalidStinger(error) => Some(FailureSource::Outside(*error)),
            _ => None,
        }
    }
}

} // verus!
