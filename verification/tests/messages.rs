use freemix_daemon::audio_limits::NativeMasterError;
use freemix_daemon::messages::NativeMediaError;
use freemix_daemon::model::{InputId, OutsideFailure, SceneId};
use freemix_daemon::project_plan::NativeProjectPlanError;
use freemix_daemon::render::NativeSourceRenderError;
use freemix_daemon::source::{NativeSourceError, NativeSourcePreflightError};
use freemix_daemon::source_playback::NativeSourcePlaybackError;

#[test]
fn aggregate_errors_preserve_typed_sources_without_paths() {
    let error = NativeMediaError::Ffmpeg(OutsideFailure(1));
    assert!(error.source().is_some());
    assert_eq!(
        error.message("", "input file was not found"),
        "local media decode failed: input file was not found"
    );
}

#[test]
fn failures_say_what_they_count() {
    assert_eq!(
        NativeProjectPlanError::TransientBytesExceeded { required: 384, maximum: 383 }
            .message("", ""),
        "native transient RGBA16F bytes 384 exceed limit 383"
    );
    assert_eq!(
        NativeProjectPlanError::MissingScene(SceneId(10)).message("10", ""),
        "native scene 10 is missing"
    );
    assert!(NativeProjectPlanError::MissingScene(SceneId(10)).source().is_none());
    let scene = NativeProjectPlanError::Scene { scene: SceneId(1), error: OutsideFailure(2) };
    assert_eq!(scene.message("1", "too wide"), "native scene 1 is invalid: too wide");
    assert!(scene.source().is_some());
    assert_eq!(
        NativeSourceError::DuplicateSource(InputId(3)).message("3", ""),
        "source 3 is already registered"
    );
    let source = NativeSourcePreflightError::Source(NativeSourceError::InvalidTimeline {
        input: InputId(3),
    });
    assert_eq!(source.message("3", ""), "source 3 has an invalid video timeline");
    assert!(source.source().is_some());
    assert!(NativeSourcePlaybackError::Failed.source().is_none());
    assert!(NativeSourceRenderError::ResourceBounds.source().is_none());
    assert!(NativeMasterError::Audio(OutsideFailure(1)).source().is_some());
    assert!(NativeMasterError::Failed.source().is_none());
}
