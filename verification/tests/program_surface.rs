use std::sync::mpsc;
use std::sync::mpsc::TrySendError;

use freemix_daemon::monitor::{
    order_bytes, sort_monitor_entries, BytesOrder, MonitorChange, MonitorDescriptor, MonitorEntry,
    MonitorPolicy, MonitorSelectionError, WindowTarget,
};
use freemix_daemon::presentation::{
    ConfigureOutcome, PresentEvent, PresentFailure, PresentStage, ProgramPresentation,
    ReplacementPoll, ResumePoint,
};
use freemix_daemon::program_surface::{
    accepts_escape_press, acquisition_step, begin_shutdown, coalescing_channel,
    configuration_step, delivery, display_unavailable_message, first_to_give,
    forced_shutdown_message, next_frame_generation, presented_frame, program_shutdown_timeout,
    replacement_disposition, ruled_channel, set_deadline_once, surface_error, surface_validation_error, wait_step, Anything, CoalescingSlot,
    ConfigurationStep, PresentationAction, PresentationState, RecorderTimeouts,
    RecreationCoordinator, ReplacementDisposition, ResizeGeneration, ShutdownSignal,
    SurfaceAcquire, SurfaceAcquisition, WaitStep,
};

fn monitor(id: u32, x: i32, name: &str) -> MonitorEntry<u32> {
    MonitorEntry {
        descriptor: MonitorDescriptor {
            x,
            y: 0,
            name: name.to_owned(),
            width: 1920,
            height: 1080,
            refresh_millihertz: 60_000,
            scale_bits: 1.0_f64.to_bits(),
        },
        identity: id,
    }
}

const TIMEOUTS: RecorderTimeouts = RecorderTimeouts {
    stop_millis: 10_000,
    kill_millis: 2_000,
    checkpoint_margin_millis: 1_500,
};

#[test]
fn monitor_inventory_uses_position_then_stable_descriptive_fields() {
    let mut inventory = vec![monitor(3, 0, "B"), monitor(2, -1920, "C"), monitor(1, 0, "A")];
    sort_monitor_entries(&mut inventory);
    assert_eq!(
        inventory.iter().map(|item| item.identity).collect::<Vec<_>>(),
        vec![2, 1, 3]
    );
}

#[test]
fn ambiguous_descriptors_are_rejected_instead_of_using_identity_as_a_sort_key() {
    let mut inventory = vec![monitor(1, 0, "same"), monitor(2, 0, "same")];
    assert!(matches!(
        MonitorPolicy::select(&mut inventory, 0),
        Err(MonitorSelectionError::AmbiguousDescriptors)
    ));
}

#[test]
fn selected_display_disconnect_does_not_jump_and_reconnects_by_identity() {
    let mut initial = vec![monitor(10, 0, "A"), monitor(20, 1920, "B")];
    let (mut policy, _) = MonitorPolicy::select(&mut initial, 1).ok().unwrap();
    let mut disconnected = vec![monitor(10, 0, "A"), monitor(30, 1920, "C")];
    assert_eq!(policy.update(&mut disconnected), MonitorChange::Disconnected);
    assert_eq!(policy.update(&mut disconnected), MonitorChange::Unchanged);
    let mut reconnected = vec![monitor(20, -1920, "B"), monitor(10, 0, "A")];
    assert_eq!(policy.update(&mut reconnected), MonitorChange::Reconnected(0));
}

#[test]
fn coalescing_channel_keeps_only_latest_value() {
    let (sender, receiver) = coalescing_channel();
    sender.send(1).unwrap();
    sender.send(2).unwrap();
    sender.send(3).unwrap();
    assert_eq!(receiver.take_latest(), Some(3));
    assert_eq!(receiver.take_latest(), None);
}

#[test]
fn a_channel_without_a_receiver_says_so() {
    let (sender, receiver) = coalescing_channel();
    assert_eq!(sender.send(1), Ok(()));
    drop(receiver);
    assert_eq!(sender.send(2), Err(()));
    assert_eq!((delivery(1), delivery(2), delivery(3)), (Err(()), Ok(()), Ok(())));
}

#[test]
fn a_ruled_channel_hands_on_what_was_put() {
    let (sender, receiver) = ruled_channel::<u64, Anything>();
    assert_eq!(receiver.take_latest(), None);
    sender.send(4).unwrap();
    sender.send(5).unwrap();
    assert_eq!(receiver.take_latest(), Some(5));
    assert_eq!(receiver.take_latest(), None);
}

#[test]
fn recreation_requests_coalesce_to_latest_resize_generation() {
    let (sender, receiver) = coalescing_channel();
    sender.send(ResizeGeneration::new(7)).unwrap();
    sender.send(ResizeGeneration::new(8)).unwrap();
    assert_eq!(receiver.take_latest(), Some(ResizeGeneration::new(8)));
    assert_eq!(receiver.take_latest(), None);
}

#[test]
fn shutdown_signal_is_shared_and_idempotent() {
    let shutdown = ShutdownSignal::new();
    let worker = shutdown.clone();
    assert!(!worker.requested());
    assert!(shutdown.request());
    assert!(!shutdown.request());
    assert!(worker.requested());
}

#[test]
fn only_the_first_gives_a_signal() {
    assert!(first_to_give(false));
    assert!(!first_to_give(true));
}

#[test]
fn shutdown_deadline_is_set_once_and_repeated_escape_is_ignored() {
    let shutdown = ShutdownSignal::new();
    let mut deadline = None;
    assert!(begin_shutdown(&shutdown, &mut deadline, 100));
    assert!(!begin_shutdown(&shutdown, &mut deadline, 200));
    assert_eq!(deadline, Some(100));
    assert!(accepts_escape_press(true, false, true));
    assert!(!accepts_escape_press(true, true, true));
}

#[test]
fn recorder_shutdown_deadline_covers_stop_kill_and_checkpoint_margin() {
    assert_eq!(program_shutdown_timeout(false, TIMEOUTS), 5_000);
    assert_eq!(
        program_shutdown_timeout(true, TIMEOUTS),
        TIMEOUTS.stop_millis + TIMEOUTS.kill_millis + TIMEOUTS.checkpoint_margin_millis
    );
    assert!(program_shutdown_timeout(true, TIMEOUTS) > program_shutdown_timeout(false, TIMEOUTS));
    assert!(TIMEOUTS.outlasts_shutdown());
    let short = RecorderTimeouts { stop_millis: 5_000, kill_millis: 0, checkpoint_margin_millis: 0 };
    assert!(!short.outlasts_shutdown());
    assert!(RecorderTimeouts { kill_millis: 1, ..short }.outlasts_shutdown());
    assert!(!RecorderTimeouts { kill_millis: u64::MAX, ..short }.outlasts_shutdown());
}

#[test]
fn resize_is_rejected_when_selected_identity_is_absent_or_window_is_rehomed() {
    let mut inventory = vec![monitor(10, 0, "A"), monitor(20, 1920, "B")];
    let (mut policy, _) = MonitorPolicy::select(&mut inventory, 1).ok().unwrap();
    assert!(policy.accepts_resize(Some(&20)));
    assert!(!policy.accepts_resize(Some(&10)));
    assert!(!policy.accepts_resize(None));
    let mut disconnected = vec![monitor(10, 0, "A")];
    assert_eq!(policy.update(&mut disconnected), MonitorChange::Disconnected);
    assert!(!policy.accepts_resize(Some(&20)));
}

#[test]
fn stale_recreation_response_is_discarded_and_new_generation_retried() {
    let first = ResizeGeneration::new(1);
    let second = ResizeGeneration::new(2);
    let state = PresentationState::Recreate { resize_generation: second };
    assert_eq!(
        replacement_disposition(state, first),
        ReplacementDisposition::DiscardAndRetry(second)
    );
    assert_eq!(replacement_disposition(state, second), ReplacementDisposition::Install);
    assert_eq!(
        replacement_disposition(state, ResizeGeneration::new(3)),
        ReplacementDisposition::Discard
    );
    assert_eq!(
        replacement_disposition(PresentationState::Other, second),
        ReplacementDisposition::Discard
    );
}

#[test]
fn response_pressure_preserves_and_retries_newer_generation() {
    let first = ResizeGeneration::new(1);
    let second = ResizeGeneration::new(2);
    let (sender, receiver) = mpsc::sync_channel(1);
    let mut coordinator = RecreationCoordinator::new();

    coordinator.request(first);
    coordinator.prepare(ResizeGeneration::get);
    let response = coordinator.take_ready().unwrap();
    sender.try_send(response).unwrap();
    coordinator.sent(first);

    coordinator.request(second);
    coordinator.prepare(ResizeGeneration::get);
    let response = coordinator.take_ready().unwrap();
    let TrySendError::Full(response) = sender.try_send(response).unwrap_err() else {
        unreachable!()
    };
    coordinator.pressure(response);
    assert_eq!(coordinator.pending(), Some(second));

    assert_eq!(receiver.try_recv().unwrap().generation, first);
    let response = coordinator.take_ready().unwrap();
    assert_eq!(response.generation, second);
    sender.try_send(response).unwrap();
    coordinator.sent(second);
    assert_eq!(coordinator.pending(), None);
    assert_eq!(receiver.try_recv().unwrap().generation, second);
}

#[test]
fn surface_validation_failure_does_not_record_out_of_memory() {
    assert_eq!(
        surface_validation_error("injected"),
        "fatal Program surface validation failure: injected"
    );
}

#[test]
fn an_older_request_does_not_replace_a_newer_one() {
    let mut coordinator = RecreationCoordinator::new();
    coordinator.request(ResizeGeneration::new(4));
    coordinator.prepare(ResizeGeneration::get);
    coordinator.request(ResizeGeneration::new(3));
    assert_eq!(coordinator.pending(), Some(ResizeGeneration::new(4)));
    assert_eq!(coordinator.take_ready().map(|ready| ready.value), Some(4));
    coordinator.sent(ResizeGeneration::new(3));
    assert_eq!(coordinator.pending(), Some(ResizeGeneration::new(4)));
}

#[test]
fn displays_that_are_missing_cannot_be_selected() {
    let mut inventory = vec![monitor(1, 0, "A")];
    assert!(matches!(
        MonitorPolicy::select(&mut inventory, 1),
        Err(MonitorSelectionError::Unavailable)
    ));
    assert_eq!(
        display_unavailable_message(1, 1),
        "fullscreen display index 1 is unavailable; 1 display(s) detected"
    );
}

#[test]
fn names_are_ordered_byte_by_byte() {
    assert_eq!(order_bytes(b"", b""), BytesOrder::Same);
    assert_eq!(order_bytes(b"a", b"ab"), BytesOrder::Below);
    assert_eq!(order_bytes(b"b", b"ab"), BytesOrder::Above);
    let a = monitor(1, 0, "A").descriptor;
    let b = monitor(2, 0, "B").descriptor;
    assert_eq!(a.order(&b), BytesOrder::Below);
    assert_eq!(b.order(&a), BytesOrder::Above);
    assert_eq!(a.order(&a), BytesOrder::Same);
}

#[test]
fn the_window_goes_where_its_display_is() {
    let mut inventory = vec![monitor(10, 0, "A"), monitor(20, 1920, "B")];
    let (policy, index) = MonitorPolicy::select(&mut inventory, 1).ok().unwrap();
    assert_eq!(index, 1);
    assert_eq!(policy.selected_index(&inventory), Some(1));
    assert_eq!(policy.window_target(&inventory, Some(&20)), WindowTarget::Shown);
    assert_eq!(policy.window_target(&inventory, Some(&10)), WindowTarget::Rehome(1));
    assert_eq!(policy.window_target(&inventory, None), WindowTarget::Rehome(1));
    let without = vec![monitor(10, 0, "A")];
    assert_eq!(policy.window_target(&without, Some(&20)), WindowTarget::Suspended);
}

#[test]
fn a_slot_gives_each_value_once() {
    let mut slot = CoalescingSlot::new();
    assert_eq!(slot.take(), None);
    slot.put(1);
    slot.put(2);
    assert_eq!(slot.take(), Some(2));
    assert_eq!(slot.take(), None);
    let mut deadline = Some(1);
    assert!(!set_deadline_once(false, &mut deadline, 2));
    assert_eq!(deadline, Some(1));
}

#[test]
fn acquisitions_are_reported_and_followed_up() {
    let lost = acquisition_step(SurfaceAcquire::Lost).unwrap();
    assert_eq!(lost.reported, SurfaceAcquisition::Lost);
    assert!(!lost.submits && lost.follows_up);
    let occluded = acquisition_step(SurfaceAcquire::Occluded).unwrap();
    assert_eq!(occluded.reported, SurfaceAcquisition::Timeout);
    assert!(!occluded.submits && !occluded.follows_up);
    let suboptimal = acquisition_step(SurfaceAcquire::Suboptimal).unwrap();
    assert!(suboptimal.submits && suboptimal.follows_up);
    assert!(acquisition_step(SurfaceAcquire::Success).unwrap().submits);
    assert!(acquisition_step(SurfaceAcquire::Validation).is_none());
}

#[test]
fn actions_say_what_becomes_of_the_surface() {
    let generation = ResizeGeneration::new(5);
    assert_eq!(
        configuration_step(PresentationAction::PresentAndReconfigure {
            frame: 9,
            width: 3,
            height: 4,
            resize_generation: generation,
        }),
        ConfigurationStep::Configure { width: 3, height: 4, resize_generation: generation }
    );
    assert_eq!(
        configuration_step(PresentationAction::Recreate { resize_generation: generation }),
        ConfigurationStep::Recreate(generation)
    );
    assert_eq!(configuration_step(PresentationAction::Fail), ConfigurationStep::Fail);
    assert_eq!(configuration_step(PresentationAction::Retry), ConfigurationStep::Nothing);
    assert_eq!(presented_frame(PresentationAction::Present { frame: 9 }), Some(9));
    assert_eq!(presented_frame(PresentationAction::Idle), None);
    assert_eq!(next_frame_generation(7), Some(8));
    assert_eq!(next_frame_generation(u64::MAX), None);
}

#[test]
fn a_shutdown_that_takes_too_long_is_forced() {
    assert_eq!(wait_step(false, true), WaitStep::Serve);
    assert_eq!(wait_step(true, false), WaitStep::AwaitShutdown);
    assert_eq!(wait_step(true, true), WaitStep::ForceShutdown);
    assert_eq!(
        forced_shutdown_message(true, 13),
        "forced Program shutdown after 13 seconds; checkpoint and recorder cleanup completion were not confirmed"
    );
    assert_eq!(
        forced_shutdown_message(false, 13),
        "forced Program shutdown after 5 seconds; checkpoint completion was not confirmed"
    );
    assert_eq!(surface_error("lost device"), "Program surface GPU failure: lost device");
}

/// Goes through a presentation, with what comes of each stage.
fn present(
    presentation: &mut ProgramPresentation,
    events: &[PresentEvent],
) -> Result<PresentStage, PresentFailure> {
    let mut stage = PresentStage::Size;
    for event in events {
        stage = presentation.present(stage, *event)?;
    }
    Ok(stage)
}

#[test]
fn a_frame_comes_to_a_surface_that_is_configured() {
    let generation = ResizeGeneration::new(1);
    let configure =
        PresentationAction::Configure { width: 640, height: 360, resize_generation: generation };
    let mut presentation = ProgramPresentation::new();
    assert_eq!(
        present(&mut presentation, &[PresentEvent::Sized(Some(configure))]),
        Ok(PresentStage::Configure {
            width: 640,
            height: 360,
            generation,
            makes_transform: true,
            resume: ResumePoint::Replacement,
        })
    );
    let submitted = [
        PresentEvent::Sized(Some(configure)),
        PresentEvent::Configured(ConfigureOutcome::Configured),
        PresentEvent::Replaced(ReplacementPoll::Nothing),
        PresentEvent::Shown(Some(generation)),
        PresentEvent::Submitted { rejected: false },
        PresentEvent::Acquired(Some(SurfaceAcquire::Suboptimal)),
    ];
    let stage = present(&mut presentation, &submitted).unwrap();
    assert_eq!(
        stage,
        PresentStage::Report {
            reported: SurfaceAcquisition::Suboptimal,
            submits: true,
            follows_up: true
        }
    );
    assert_eq!(presentation.frame_generation, 1);
    let action = PresentationAction::PresentAndReconfigure {
        frame: 1,
        width: 640,
        height: 360,
        resize_generation: generation,
    };
    let stage = presentation.present(stage, PresentEvent::Reported(action)).unwrap();
    assert_eq!(stage, PresentStage::Draw { frame: 1, action, follows_up: true });
    let stage = presentation.present(stage, PresentEvent::Drawn { done: true }).unwrap();
    assert!(matches!(stage, PresentStage::Configure { makes_transform: false, .. }));
    let configured = PresentEvent::Configured(ConfigureOutcome::Configured);
    assert_eq!(presentation.present(stage, configured), Ok(PresentStage::Over));
}

#[test]
fn a_lost_surface_is_given_up_until_another_comes() {
    let first = ResizeGeneration::new(1);
    let second = ResizeGeneration::new(2);
    let mut presentation =
        ProgramPresentation { has_surface: true, has_transform: true, frame_generation: 4 };
    let lost = PresentStage::Report {
        reported: SurfaceAcquisition::Lost,
        submits: false,
        follows_up: true,
    };
    let recreate = PresentationAction::Recreate { resize_generation: second };
    assert_eq!(
        presentation.present(lost, PresentEvent::Reported(recreate)),
        Ok(PresentStage::Request { generation: second, resume: ResumePoint::Over })
    );
    assert!(!presentation.has_surface && !presentation.has_transform);

    let came = |generation, made| {
        PresentEvent::Replaced(ReplacementPoll::Came {
            generation,
            made,
            state: PresentationState::Recreate { resize_generation: second },
        })
    };
    let at = PresentStage::Replacement;
    assert_eq!(
        presentation.present(at, came(first, true)),
        Ok(PresentStage::Request { generation: second, resume: ResumePoint::Frame })
    );
    assert!(!presentation.has_surface);
    let failed = presentation.present(at, came(second, false)).unwrap();
    assert_eq!(failed, PresentStage::Install { generation: second, made: false });
    assert_eq!(
        presentation.present(failed, PresentEvent::Installed(PresentationAction::Fail)),
        Err(PresentFailure::Replacement)
    );
    let made = presentation.present(at, came(second, true)).unwrap();
    assert!(presentation.has_surface);
    assert_eq!(
        presentation.present(made, PresentEvent::Installed(PresentationAction::Idle)),
        Ok(PresentStage::Frame)
    );
}

#[test]
fn a_presentation_fails_where_it_cannot_go_on() {
    let generation = ResizeGeneration::new(1);
    let fresh = ProgramPresentation::new();
    let bare = ProgramPresentation { has_surface: false, ..fresh };
    let fails = |mut presentation: ProgramPresentation, stage, event| {
        presentation.present(stage, event).unwrap_err()
    };
    let configure =
        PresentationAction::Configure { width: 1, height: 1, resize_generation: generation };
    let configuring = PresentStage::Configure {
        width: 1,
        height: 1,
        generation,
        makes_transform: true,
        resume: ResumePoint::Over,
    };
    let reporting = PresentStage::Report {
        reported: SurfaceAcquisition::Success,
        submits: true,
        follows_up: false,
    };
    let action = PresentationAction::Present { frame: 1 };
    let drawing = PresentStage::Draw { frame: 1, action, follows_up: false };
    let asking = PresentStage::Request { generation, resume: ResumePoint::Over };
    let last = ProgramPresentation { frame_generation: u64::MAX, ..fresh };
    let told = [
        (
            fails(fresh, PresentStage::Replacement, PresentEvent::Replaced(ReplacementPoll::Gone)),
            "Program surface replacement channel disconnected",
        ),
        (
            fails(last, PresentStage::Frame, PresentEvent::Shown(Some(generation))),
            "Program frame generation exhausted",
        ),
        (
            fails(
                fresh,
                PresentStage::Acquire,
                PresentEvent::Acquired(Some(SurfaceAcquire::Validation)),
            ),
            "fatal Program surface validation failure: why",
        ),
        (
            fails(fresh, PresentStage::Acquire, PresentEvent::Acquired(None)),
            "Program surface GPU failure: why",
        ),
        (
            fails(fresh, reporting, PresentEvent::Reported(action)),
            "Program output transform is not configured",
        ),
        (
            fails(fresh, drawing, PresentEvent::Drawn { done: false }),
            "Program surface GPU failure: why",
        ),
        (
            fails(bare, PresentStage::Size, PresentEvent::Sized(Some(configure))),
            "Program surface is unavailable during configuration",
        ),
        (
            fails(fresh, PresentStage::Size, PresentEvent::Sized(Some(PresentationAction::Fail))),
            "Program presentation failed: why",
        ),
        (
            fails(fresh, configuring, PresentEvent::Configured(ConfigureOutcome::NoneFits)),
            "Program surface GPU failure: why",
        ),
        (
            fails(fresh, configuring, PresentEvent::Configured(ConfigureOutcome::NoTransform)),
            "Program output transform failed: why",
        ),
        (
            fails(fresh, configuring, PresentEvent::Configured(ConfigureOutcome::Refused)),
            "Program surface configuration failed why",
        ),
        (fails(fresh, asking, PresentEvent::Requested { done: false }), "why"),
    ];
    for (failure, text) in told {
        assert_eq!(failure.message("why"), text);
    }
    let mut waiting = fresh;
    assert_eq!(
        waiting.present(PresentStage::Frame, PresentEvent::Shown(None)),
        Ok(PresentStage::Over)
    );
    let submit = PresentStage::Submit { frame: 1, generation };
    assert_eq!(
        waiting.present(submit, PresentEvent::Submitted { rejected: true }),
        Ok(PresentStage::Over)
    );
}

#[test]
fn displays_that_are_alike_stay_in_their_order() {
    let mut inventory =
        vec![monitor(3, 5, "B"), monitor(1, 0, "A"), monitor(2, 5, "B"), monitor(4, 0, "A")];
    sort_monitor_entries(&mut inventory);
    let order: Vec<_> = inventory.iter().map(|entry| entry.identity).collect();
    assert_eq!(order, vec![1, 4, 3, 2]);
}
