use freemix_daemon::audio_playback::NativeStingerAudioPlayback;
use freemix_daemon::model::{
    ClockDomainId, FrameRate, Input, InputId, InputKind, Project, StingerAudioPolicy,
    StingerConfig, StingerSlotId,
};
use freemix_daemon::ordered::OrderedMap;
use freemix_daemon::project_plan::{NativeProjectLimits, NativeProjectPlan};
use freemix_daemon::source::{
    MediaTiming, NativeResolvedSource, NativeSourceLimits, OriginalTimestamp, TimeBase, VideoFrame,
};
use freemix_daemon::source_playback::NativeSourcePlayback;
use freemix_daemon::source_registry::NativeSourceRegistry;
use freemix_daemon::stinger_mutation::{
    codec_requirement, native_stinger_requires_ffmpeg, preflight_failure, preflight_step,
    retirement_limit_for_test, same_stingers, NativeDaemon, NativeStingerMutation,
    NativeStingerRetirements, PreflightPoll, PreflightStep, Preparation, RejectionCode,
    RetirementError, StingerTransaction, TransactionStep,
};

fn config(media: u128, preload: bool) -> StingerConfig {
    StingerConfig {
        slot_number: 1,
        slot: Some(StingerSlotId(1)),
        media_input: InputId(media),
        preload,
        cut_point_frames: 2,
        audio_policy: StingerAudioPolicy::Muted,
    }
}

fn video(input: u128) -> NativeResolvedSource {
    NativeResolvedSource::LocalVideo { input: InputId(input), path: String::from("clip.mov") }
}

fn still(input: u128) -> NativeResolvedSource {
    NativeResolvedSource::RetainedFrame {
        input: InputId(input),
        frame: VideoFrame {
            timing: MediaTiming {
                original: OriginalTimestamp {
                    ticks: 0,
                    time_base: TimeBase { numerator: 1, denominator: 1 },
                },
                presentation_ns: 0,
                duration_ns: 1,
                sequence: 0,
                clock_domain: ClockDomainId(1),
            },
            width: 1,
            height: 1,
            payload: 0,
        },
    }
}

#[test]
fn only_preloaded_video_files_take_a_codec() {
    assert!(native_stinger_requires_ffmpeg(&[config(3, true)], &[still(1), video(3)]));
    assert!(!native_stinger_requires_ffmpeg(&[config(3, false)], &[video(3)]));
    assert!(!native_stinger_requires_ffmpeg(&[config(3, true)], &[still(3), video(4)]));
    assert!(!native_stinger_requires_ffmpeg(&[], &[video(3)]));
    assert_eq!(codec_requirement(false, false, false), Ok(()));
    assert_eq!(codec_requirement(true, true, true), Ok(()));
    assert_eq!(
        codec_requirement(true, true, false),
        Err("native Stinger preflight requires available codec capabilities")
    );
}

#[test]
fn retirement_is_bounded_by_its_queue_and_its_workers() {
    assert_eq!(retirement_limit_for_test(), 4);
    let mut retirements = NativeStingerRetirements::start();
    assert!(retirements.can_accept());
    assert_eq!(retirements.retire(1), Ok(()));
    assert_eq!(retirements.retire(2), Ok(()));
    assert_eq!(retirements.retire(3), Err(3));
    assert_eq!(retirements.take(), Some(1));
    assert_eq!(retirements.take(), Some(2));
    assert_eq!(retirements.take(), None);
    assert_eq!(retirements.retire(3), Ok(()));
    assert_eq!(retirements.retire(4), Ok(()));
    assert!(!retirements.can_accept());
    assert_eq!(retirements.take(), None);
    retirements.finish();
    assert!(retirements.can_accept());
    assert_eq!(retirements.take(), Some(3));
    retirements.close();
    assert_eq!(retirements.retire(5), Err(5));
    retirements.finish();
    assert_eq!(retirements.take(), Some(4));
}

fn plan(width: u32) -> NativeProjectPlan {
    let project = Project {
        inputs: vec![Input { id: InputId(1), kind: InputKind::Media }],
        scenes: Vec::new(),
        stingers: Vec::new(),
        input_audio_strips: Vec::new(),
        frame_rate: FrameRate { numerator: 25, denominator: 1 },
        width,
        height: 2,
    };
    NativeProjectPlan::compile(&project, NativeProjectLimits::default(), &Vec::new()).ok().unwrap()
}

fn playback(bytes: u64) -> NativeSourcePlayback {
    NativeSourcePlayback::new(NativeSourceRegistry {
        sources: OrderedMap::new(),
        dimensions: None,
        retained_rgba16f_bytes: 0,
        limits: NativeSourceLimits {
            max_retained_rgba16f_bytes: bytes,
            ..NativeSourceLimits::default()
        },
    })
}

fn audio(silent: u128) -> NativeStingerAudioPlayback {
    NativeStingerAudioPlayback {
        masters: OrderedMap::new(),
        silent_inputs: vec![InputId(silent)],
        active_trigger: None,
        ready: None,
    }
}

fn daemon() -> NativeDaemon {
    NativeDaemon {
        retained_byte_limit: 10,
        stingers: playback(1),
        stinger_audio: audio(1),
        project_plan: plan(4),
        stinger_retirements: NativeStingerRetirements::start(),
        pending_stinger_mutation: None,
    }
}

fn mutation() -> NativeStingerMutation {
    NativeStingerMutation {
        project_plan: plan(8),
        stingers: playback(2),
        audio: audio(2),
        ordinary_video_limit: 20,
    }
}

#[test]
fn staged_resources_are_installed_and_the_old_ones_handed_over() {
    let mut daemon = daemon();
    assert_eq!(daemon.install_stinger_mutation(), Ok(()));
    assert_eq!(daemon.retained_byte_limit, 10);
    daemon.stage_stinger_mutation(mutation());
    assert_eq!(daemon.retained_byte_limit, 10);
    assert_eq!(daemon.install_stinger_mutation(), Ok(()));
    assert_eq!(daemon.retained_byte_limit, 20);
    assert_eq!(daemon.stingers.registry.limits.max_retained_rgba16f_bytes, 2);
    assert_eq!(daemon.stinger_audio.silent_inputs, vec![InputId(2)]);
    assert_eq!(daemon.project_plan.transient_rgba16f_bytes(), plan(8).transient_rgba16f_bytes());
    assert!(daemon.pending_stinger_mutation.is_none());
    let retired = daemon.stinger_retirements.take().unwrap();
    assert_eq!(retired.stingers.registry.limits.max_retained_rgba16f_bytes, 1);
    assert_eq!(retired.audio.silent_inputs, vec![InputId(1)]);
}

#[test]
fn a_full_queue_is_reported_but_the_new_resources_stay() {
    let mut daemon = daemon();
    assert_eq!(daemon.stinger_retirements.discard(mutation()), Ok(()));
    assert_eq!(daemon.stinger_retirements.discard(mutation()), Ok(()));
    let refused = daemon.stinger_retirements.discard(mutation());
    assert_eq!(refused, Err(RetirementError::AfterPreflight));
    assert_eq!(
        RetirementError::AfterPreflight.message(),
        "native Stinger retirement capacity changed after preflight"
    );
    daemon.stage_stinger_mutation(mutation());
    assert_eq!(daemon.install_stinger_mutation(), Err(RetirementError::DuringInstallation));
    assert_eq!(daemon.retained_byte_limit, 20);
    assert_eq!(
        RetirementError::DuringInstallation.message(),
        "native Stinger retirement capacity changed during installation"
    );
}

#[test]
fn prepared_resources_are_looked_at_before_a_request_to_stop() {
    assert_eq!(
        preflight_step(PreflightPoll::Prepared { limit_fits: true }, true),
        PreflightStep::Accept
    );
    assert_eq!(
        preflight_step(PreflightPoll::Prepared { limit_fits: false }, false),
        PreflightStep::DiscardAndRefuse
    );
    assert_eq!(preflight_step(PreflightPoll::Failed, true), PreflightStep::Refuse);
    assert_eq!(preflight_step(PreflightPoll::Waiting, true), PreflightStep::Stop);
    assert_eq!(preflight_step(PreflightPoll::Waiting, false), PreflightStep::Tick);
}

const ACCEPTED: Preparation = Preparation::Prepared { accepted: true };
const REJECTED: Preparation = Preparation::Prepared { accepted: false };

#[test]
fn a_change_is_committed_after_two_accepted_preparations() {
    let mut transaction = StingerTransaction::new();
    assert_eq!(transaction.prepared(ACCEPTED), TransactionStep::Preflight);
    assert_eq!(
        transaction.preflighted(Some((true, vec![1, 2]))),
        TransactionStep::PrepareAgain
    );
    assert_eq!(transaction.prepared(ACCEPTED), TransactionStep::Compare);
    let stingers = [config(3, true)];
    assert_eq!(transaction.compared(&stingers, &stingers, true), TransactionStep::Commit);
    transaction.realized(vec![3]);
    assert_eq!(transaction.into_events(), vec![1, 2, 3]);
}

#[test]
fn a_change_that_cannot_be_made_discards_what_was_prepared() {
    let begun = || {
        let mut transaction = StingerTransaction::new();
        transaction.prepared(ACCEPTED);
        transaction.preflighted(Some((true, vec![1])));
        transaction
    };
    let mut replayed = begun();
    assert_eq!(
        replayed.prepared(Preparation::Replayed),
        TransactionStep::Replay { discard: true }
    );
    assert_eq!(replayed.into_events(), vec![1]);

    let mut rejected = begun();
    assert_eq!(rejected.prepared(REJECTED), TransactionStep::PersistRejected { discard: true });
    assert!(rejected.into_events().is_empty());

    let mut changed = begun();
    changed.prepared(ACCEPTED);
    assert_eq!(
        changed.compared(&[config(3, true)], &[config(4, true)], true),
        TransactionStep::Fail { discard: true }
    );
    assert_eq!(changed.into_events(), vec![1]);

    let mut limited = begun();
    limited.prepared(ACCEPTED);
    assert_eq!(limited.compared(&[], &[], false), TransactionStep::Fail { discard: true });

    let mut stopped = StingerTransaction::<u8>::new();
    stopped.prepared(ACCEPTED);
    assert_eq!(stopped.preflighted(None), TransactionStep::Fail { discard: false });
    assert!(stopped.into_events().is_empty());

    let mut known = StingerTransaction::<u8>::new();
    assert_eq!(
        known.prepared(Preparation::Replayed),
        TransactionStep::Replay { discard: false }
    );
    let mut refused = StingerTransaction::<u8>::new();
    assert_eq!(refused.prepared(REJECTED), TransactionStep::PersistRejected { discard: false });
}

#[test]
fn stingers_are_compared_one_by_one() {
    assert!(same_stingers(&[], &[]));
    assert!(same_stingers(&[config(1, true)], &[config(1, true)]));
    assert!(!same_stingers(&[config(1, true)], &[config(1, false)]));
    assert!(!same_stingers(&[config(1, true)], &[]));
}

#[test]
fn failures_say_nothing_of_files() {
    let failure = preflight_failure(String::from("command-1"), 7, vec![9]);
    assert_eq!(failure.result.id, "command-1");
    assert_eq!(failure.result.code, RejectionCode::Unavailable);
    assert_eq!(failure.result.message, "native Stinger resources could not be prepared");
    assert!(failure.result.fields.is_empty());
    assert_eq!(failure.result.current_revision, 7);
    assert!(!failure.result.retryable);
    assert_eq!(failure.runtime_events, vec![9]);
}
