//! Policies of the window that shows the program.
use vstd::prelude::*;
use vstd::rwlock::{RwLock, RwLockPredicate};
use vstd::string::*;

use crate::text;
use crate::text::decimal;

use std::marker::PhantomData;
use std::sync::atomic::AtomicBool;
use std::sync::Arc;

verus! {

/// How long a shutdown without a recorder may take.
pub const PROGRAM_SHUTDOWN_MILLIS: u64 = 5_000;

/// Tells all holders that the program is to shut down.
#[derive(Clone)]
pub struct ShutdownSignal(pub Arc<AtomicBool>);

impl ShutdownSignal {
    /// A signal that nobody has given. The flag is an atomic that all holders share, and what
    /// an atomic holds cannot be told of its value, so nothing is claimed of it here.
    pub fn new() -> Self {
        ShutdownSignal(Arc::new(AtomicBool::new(false)))
    }

    /// Gives the signal and tells whether nobody had given it before, as [`first_to_give`] says
    /// of what the flag held. What a shared flag held is not known beforehand, so nothing is
    /// claimed of the answer.
    pub fn request(&self) -> bool {
        first_to_give(self.0.swap(true, std::sync::atomic::Ordering::AcqRel))
    }

    /// Tells whether the signal has been given. Others may give it meanwhile, so nothing is
    /// claimed of the answer.
    pub fn requested(&self) -> bool {
        self.0.load(std::sync::atomic::Ordering::Acquire)
    }
}

/// Tells whether a signal is given for the first time, from what its flag held before.
pub fn first_to_give(given_before: bool) -> (first: bool)
    ensures
        first == !given_before,
{
    !given_before
}

/// Sets a deadline where `first` says that it is not set yet.
pub fn set_deadline_once<T>(first: bool, deadline: &mut Option<T>, value: T) -> (set: bool)
    ensures
        set == first,
        *final(deadline) == (if first {
            Some(value)
        } else {
            *old(deadline)
        }),
{
    if !first {
        return false;
    }
    *deadline = Some(value);
    true
}

/// Gives the signal to shut down. Only the first to give it sets the deadline.
pub fn begin_shutdown<T>(signal: &ShutdownSignal, deadline: &mut Option<T>, value: T) -> (first:
    bool)
    ensures
        *final(deadline) == (if first {
            Some(value)
        } else {
            *old(deadline)
        }),
{
    set_deadline_once(signal.request(), deadline, value)
}

/// How long a recorder may take to stop, to be killed, and to save where it was.
#[derive(Clone, Copy, Debug, PartialEq, Eq, Structural)]
pub struct RecorderTimeouts {
    pub stop_millis: u64,
    pub kill_millis: u64,
    pub checkpoint_margin_millis: u64,
}

impl RecorderTimeouts {
    /// How long a recorder may take in all.
    pub open spec fn total(self) -> int {
        self.stop_millis + self.kill_millis + self.checkpoint_margin_millis
    }

    /// Whether the whole can be counted and a recorder gets longer than a shutdown without one.
    pub open spec fn wf(self) -> bool {
        PROGRAM_SHUTDOWN_MILLIS < self.total() <= u64::MAX
    }

    /// Tells whether the whole can be counted and a recorder gets longer than a shutdown
    /// without one.
    pub fn outlasts_shutdown(&self) -> (outlasts: bool)
        ensures
            outlasts == self.wf(),
    {
        match self.stop_millis.checked_add(self.kill_millis) {
            None => false,
            Some(part) => match part.checked_add(self.checkpoint_margin_millis) {
                None => false,
                Some(total) => PROGRAM_SHUTDOWN_MILLIS < total,
            },
        }
    }
}

/// How long a shutdown may take.
pub open spec fn shutdown_millis(recorder: bool, timeouts: RecorderTimeouts) -> int {
    if recorder {
        timeouts.total()
    } else {
        PROGRAM_SHUTDOWN_MILLIS as int
    }
}

/// A shutdown with a recorder may take strictly longer than one without, and leaves the
/// recorder the time to stop, to be killed and to save where it was.
pub proof fn recorders_get_longer(timeouts: RecorderTimeouts)
    requires
        timeouts.wf(),
    ensures
        shutdown_millis(true, timeouts) > shutdown_millis(false, timeouts),
        shutdown_millis(true, timeouts) - timeouts.checkpoint_margin_millis - timeouts.kill_millis
            == timeouts.stop_millis,
{
}

/// Finds how long a shutdown may take.
pub fn program_shutdown_timeout(recorder: bool, timeouts: RecorderTimeouts) -> (millis: u64)
    requires
        timeouts.total() <= u64::MAX,
    ensures
        millis == shutdown_millis(recorder, timeouts),
{
    if recorder {
        timeouts.stop_millis + timeouts.kill_millis + timeouts.checkpoint_margin_millis
    } else {
        PROGRAM_SHUTDOWN_MILLIS
    }
}

/// Tells whether a key press asks for a shutdown: Escape, when it goes down and not while it
/// is held.
pub fn accepts_escape_press(pressed: bool, repeat: bool, escape: bool) -> (accepts: bool)
    ensures
        accepts == (pressed && !repeat && escape),
{
    pressed && !repeat && escape
}

/// A value that waits to be taken. A newer one takes its place.
pub struct CoalescingSlot<T> {
    pub value: Option<T>,
    pub woken: bool,
}

impl<T> CoalescingSlot<T> {
    /// Whether a receiver that is woken finds a value.
    pub open spec fn wf(self) -> bool {
        self.woken ==> self.value is Some
    }

    /// A slot in which nothing waits.
    pub fn new() -> (slot: Self)
        ensures
            slot.wf(),
            slot == (CoalescingSlot::<T> { value: None, woken: false }),
    {
        CoalescingSlot { value: None, woken: false }
    }

    /// Puts a value in the place of the one that waits.
    pub fn put(&mut self, value: T)
        ensures
            final(self).wf(),
            *final(self) == (CoalescingSlot { value: Some(value), woken: true }),
    {
        self.value = Some(value);
        self.woken = true;
    }

    /// Takes the value that waits, if one has been put since the last was taken.
    pub fn take(&mut self) -> (value: Option<T>)
        requires
            old(self).wf(),
        ensures
            final(self).wf(),
            value == (if old(self).woken {
                old(self).value
            } else {
                None
            }),
            *final(self) == (if old(self).woken {
                CoalescingSlot { value: None, woken: false }
            } else {
                *old(self)
            }),
    {
        if !self.woken {
            return None;
        }
        self.woken = false;
        let mut value: Option<T> = None;
        std::mem::swap(&mut value, &mut self.value);
        value
    }
}

/// Says which values may pass through a channel.
pub trait ValueRule<T> {
    /// Whether a value may pass.
    spec fn admits(value: T) -> bool;
}

/// Lets every value pass.
pub struct Anything;

impl<T> ValueRule<T> for Anything {
    open spec fn admits(value: T) -> bool {
        true
    }
}

/// Holds a slot to its order, and the value in it to a rule.
pub struct SlotRule<R>(pub PhantomData<R>);

impl<T, R: ValueRule<T>> RwLockPredicate<CoalescingSlot<T>> for SlotRule<R> {
    open spec fn inv(self, slot: CoalescingSlot<T>) -> bool {
        slot.wf() && (slot.value matches Some(value) ==> R::admits(value))
    }
}

/// The side of a channel that puts values.
pub struct CoalescingSender<T, R: ValueRule<T> = Anything> {
    pub slot: Arc<RwLock<CoalescingSlot<T>, SlotRule<R>>>,
}

/// The side of a channel that takes values.
pub struct CoalescingReceiver<T, R: ValueRule<T> = Anything> {
    pub slot: Arc<RwLock<CoalescingSlot<T>, SlotRule<R>>>,
}

/// Calls `std::sync::Arc::strong_count`, which counts the holders of a shared value. Others may
/// come and go meanwhile, so nothing is claimed of the count.
#[verifier::external_body]
fn holders<T>(shared: &Arc<T>) -> usize {
    Arc::strong_count(shared)
}

/// Makes a channel of which only the latest value is taken. Both sides share one slot.
pub fn coalescing_channel<T>() -> (ends: (CoalescingSender<T>, CoalescingReceiver<T>))
    ensures
        ends.0.slot == ends.1.slot,
{
    ruled_channel::<T, Anything>()
}

/// Makes a channel of which only the latest value is taken, and through which only values pass
/// that a rule admits. Both sides share one slot.
pub fn ruled_channel<T, R: ValueRule<T>>() -> (ends: (
    CoalescingSender<T, R>,
    CoalescingReceiver<T, R>,
))
    ensures
        ends.0.slot == ends.1.slot,
{
    let slot: Arc<RwLock<CoalescingSlot<T>, SlotRule<R>>> = Arc::new(
        RwLock::new(CoalescingSlot::new(), Ghost(SlotRule(PhantomData))),
    );
    (CoalescingSender { slot: slot.clone() }, CoalescingReceiver { slot })
}

/// Tells what becomes of a value that was put, from how many still hold the slot: the sender
/// alone finds nobody to take it.
pub fn delivery(holders: usize) -> (sent: Result<(), ()>)
    ensures
        sent == (if holders < 2 {
            Err::<(), ()>(())
        } else {
            Ok(())
        }),
{
    if holders < 2 {
        Err(())
    } else {
        Ok(())
    }
}

impl<T, R: ValueRule<T>> CoalescingSender<T, R> {
    /// Puts a value. Fails where nobody is left to take it, as [`delivery`] says of how many
    /// hold the slot. How many do rests on others, and the value may be replaced or taken at
    /// once, so nothing is claimed of either.
    pub fn send(&self, value: T) -> Result<(), ()>
        requires
            R::admits(value),
    {
        let (mut slot, handle) = self.slot.acquire_write();
        slot.put(value);
        handle.release_write(slot);
        delivery(holders(&self.slot))
    }
}

impl<T, R: ValueRule<T>> CoalescingReceiver<T, R> {
    /// Takes the latest value, if one has been put since the last was taken, as
    /// [`CoalescingSlot::take`] says of the slot. Only what senders may put comes out; which
    /// value they have put last is not known here.
    pub fn take_latest(&self) -> (value: Option<T>)
        ensures
            value matches Some(value) ==> R::admits(value),
    {
        let (mut slot, handle) = self.slot.acquire_write();
        let value: Option<T> = slot.take();
        handle.release_write(slot);
        value
    }
}

/// Which size of the surface is meant.
#[derive(Clone, Copy, Debug, PartialEq, Eq, Structural)]
pub struct ResizeGeneration(pub u64);

impl ResizeGeneration {
    /// Numbers a size of the surface.
    pub fn new(generation: u64) -> (numbered: Self)
        ensures
            numbered.0 == generation,
    {
        ResizeGeneration(generation)
    }

    /// The number of the size.
    pub fn get(self) -> (generation: u64)
        ensures
            generation == self.0,
    {
        self.0
    }
}

/// A value made for one size of the surface.
#[derive(Debug)]
pub struct Correlated<T> {
    pub generation: ResizeGeneration,
    pub value: T,
}

/// Makes one surface at a time for the newest size that was asked for.
pub struct RecreationCoordinator<T> {
    pub pending: Option<ResizeGeneration>,
    pub ready: Option<Correlated<T>>,
}

/// The newest size asked for, with one more request.
pub open spec fn newest(pending: Option<ResizeGeneration>, generation: ResizeGeneration) -> Option<
    ResizeGeneration,
> {
    match pending {
        None => Some(generation),
        Some(older) => if generation.0 > older.0 {
            Some(generation)
        } else {
            Some(older)
        },
    }
}

impl<T> RecreationCoordinator<T> {
    /// Whether what is ready is what is asked for.
    pub open spec fn wf(self) -> bool {
        self.ready matches Some(ready) ==> self.pending == Some(ready.generation)
    }

    /// A coordinator that has been asked for nothing.
    pub fn new() -> (coordinator: Self)
        ensures
            coordinator.wf(),
            coordinator.pending is None,
            coordinator.ready is None,
    {
        RecreationCoordinator { pending: None, ready: None }
    }

    /// Asks for a surface of a size. A newer size takes the place of an older, and what was
    /// ready for the older is dropped.
    pub fn request(&mut self, generation: ResizeGeneration)
        ensures
            final(self).wf(),
            final(self).pending == newest(old(self).pending, generation),
            final(self).ready == (match old(self).ready {
                None => None,
                Some(ready) => if Some(ready.generation) == newest(
                    old(self).pending,
                    generation,
                ) {
                    Some(ready)
                } else {
                    None
                },
            }),
    {
        let newer: bool = match self.pending {
            None => true,
            Some(pending) => generation.0 > pending.0,
        };
        if newer {
            self.pending = Some(generation);
        }
        let outdated: bool = match (&self.ready, self.pending) {
            (Some(ready), Some(pending)) => ready.generation != pending,
            _ => false,
        };
        if outdated {
            self.ready = None;
        }
    }

    /// The size that is asked for.
    pub fn pending(&self) -> (pending: Option<ResizeGeneration>)
        ensures
            pending == self.pending,
    {
        self.pending
    }

    /// Makes the surface that is asked for, unless it is ready.
    pub fn prepare<F: FnOnce(ResizeGeneration) -> T>(&mut self, create: F)
        requires
            old(self).pending matches Some(generation) ==> create.requires((generation,)),
        ensures
            old(self).wf() ==> final(self).wf(),
            final(self).pending == old(self).pending,
            match (old(self).ready, old(self).pending) {
                (None, Some(generation)) => final(self).ready matches Some(ready)
                    && ready.generation == generation && create.ensures(
                    (generation,),
                    ready.value,
                ),
                _ => final(self).ready == old(self).ready,
            },
    {
        if self.ready.is_none() {
            if let Some(generation) = self.pending {
                let value: T = create(generation);
                self.ready = Some(Correlated { generation, value });
            }
        }
    }

    /// Takes what is ready, to send it.
    pub fn take_ready(&mut self) -> (ready: Option<Correlated<T>>)
        ensures
            final(self).wf(),
            ready == old(self).ready,
            final(self).ready is None,
            final(self).pending == old(self).pending,
    {
        let mut ready: Option<Correlated<T>> = None;
        std::mem::swap(&mut ready, &mut self.ready);
        ready
    }

    /// Takes back what could not be sent, unless a newer size has been asked for.
    pub fn pressure(&mut self, response: Correlated<T>)
        ensures
            old(self).wf() ==> final(self).wf(),
            final(self).pending == old(self).pending,
            final(self).ready == (if old(self).pending == Some(response.generation) {
                Some(response)
            } else {
                old(self).ready
            }),
    {
        let wanted: bool = match self.pending {
            None => false,
            Some(pending) => pending == response.generation,
        };
        if wanted {
            self.ready = Some(response);
        }
    }

    /// Notes that the surface of a size has been sent. A newer request stays open.
    pub fn sent(&mut self, generation: ResizeGeneration)
        ensures
            old(self).ready is None ==> final(self).wf(),
            final(self).ready == old(self).ready,
            final(self).pending == (if old(self).pending == Some(generation) {
                None
            } else {
                old(self).pending
            }),
    {
        let answered: bool = match self.pending {
            None => false,
            Some(pending) => pending == generation,
        };
        if answered {
            self.pending = None;
        }
    }
}

/// Requests are never lost to older ones: after any requests the newest is pending.
pub proof fn newest_request_wins(
    pending: Option<ResizeGeneration>,
    first: ResizeGeneration,
    second: ResizeGeneration,
)
    ensures
        newest(newest(pending, first), second) == newest(newest(pending, second), first),
        newest(newest(pending, first), first) == newest(pending, first),
        newest(pending, first) matches Some(kept) && kept.0 >= first.0,
{
}

/// What the presentation is doing.
#[derive(Clone, Copy, Debug, PartialEq, Eq, Structural)]
pub enum PresentationState {
    /// The surface is being made anew, for this size.
    Recreate { resize_generation: ResizeGeneration },
    Other,
}

/// What becomes of a new surface.
#[derive(Clone, Copy, Debug, PartialEq, Eq, Structural)]
pub enum ReplacementDisposition {
    Install,
    Discard,
    DiscardAndRetry(ResizeGeneration),
}

/// Decides what becomes of a new surface: it is installed where it has the size that is
/// awaited, and asked for again where it is older.
pub fn replacement_disposition(state: PresentationState, response: ResizeGeneration) -> (disposition:
    ReplacementDisposition)
    ensures
        disposition == (match state {
            PresentationState::Recreate { resize_generation } => if resize_generation
                == response {
                ReplacementDisposition::Install
            } else if resize_generation.0 > response.0 {
                ReplacementDisposition::DiscardAndRetry(resize_generation)
            } else {
                ReplacementDisposition::Discard
            },
            PresentationState::Other => ReplacementDisposition::Discard,
        }),
{
    match state {
        PresentationState::Recreate { resize_generation } => {
            if resize_generation == response {
                ReplacementDisposition::Install
            } else if resize_generation.0 > response.0 {
                ReplacementDisposition::DiscardAndRetry(resize_generation)
            } else {
                ReplacementDisposition::Discard
            }
        },
        PresentationState::Other => ReplacementDisposition::Discard,
    }
}

/// What the lifecycle of the surface asks for.
#[derive(Clone, Copy, Debug, PartialEq, Eq, Structural)]
pub enum PresentationAction {
    Idle,
    Retry,
    Present { frame: u64 },
    Configure { width: u32, height: u32, resize_generation: ResizeGeneration },
    Reconfigure { width: u32, height: u32, resize_generation: ResizeGeneration },
    PresentAndReconfigure {
        frame: u64,
        width: u32,
        height: u32,
        resize_generation: ResizeGeneration,
    },
    Recreate { resize_generation: ResizeGeneration },
    Fail,
}

/// What has to be done to the surface.
#[derive(Clone, Copy, Debug, PartialEq, Eq, Structural)]
pub enum ConfigurationStep {
    Nothing,
    Configure { width: u32, height: u32, resize_generation: ResizeGeneration },
    /// The surface is given up and a new one asked for.
    Recreate(ResizeGeneration),
    Fail,
}

/// Finds what an action asks to be done to the surface.
pub fn configuration_step(action: PresentationAction) -> (step: ConfigurationStep)
    ensures
        step == (match action {
            PresentationAction::Configure { width, height, resize_generation } =>
                ConfigurationStep::Configure { width, height, resize_generation },
            PresentationAction::Reconfigure { width, height, resize_generation } =>
                ConfigurationStep::Configure { width, height, resize_generation },
            PresentationAction::PresentAndReconfigure {
                width,
                height,
                resize_generation,
                ..
            } => ConfigurationStep::Configure { width, height, resize_generation },
            PresentationAction::Recreate { resize_generation } => ConfigurationStep::Recreate(
                resize_generation,
            ),
            PresentationAction::Fail => ConfigurationStep::Fail,
            _ => ConfigurationStep::Nothing,
        }),
{
    match action {
        PresentationAction::Configure { width, height, resize_generation } => {
            ConfigurationStep::Configure { width, height, resize_generation }
        },
        PresentationAction::Reconfigure { width, height, resize_generation } => {
            ConfigurationStep::Configure { width, height, resize_generation }
        },
        PresentationAction::PresentAndReconfigure { width, height, resize_generation, .. } => {
            ConfigurationStep::Configure { width, height, resize_generation }
        },
        PresentationAction::Recreate { resize_generation } => ConfigurationStep::Recreate(
            resize_generation,
        ),
        PresentationAction::Fail => ConfigurationStep::Fail,
        _ => ConfigurationStep::Nothing,
    }
}

/// Finds the frame that an action presents.
pub fn presented_frame(action: PresentationAction) -> (frame: Option<u64>)
    ensures
        frame == (match action {
            PresentationAction::Present { frame } => Some(frame),
            PresentationAction::PresentAndReconfigure { frame, .. } => Some(frame),
            _ => None,
        }),
{
    match action {
        PresentationAction::Present { frame } => Some(frame),
        PresentationAction::PresentAndReconfigure { frame, .. } => Some(frame),
        _ => None,
    }
}

/// What came of acquiring a picture of the surface.
#[derive(Clone, Copy, Debug, PartialEq, Eq, Structural)]
pub enum SurfaceAcquire {
    Success,
    Suboptimal,
    Timeout,
    Occluded,
    Outdated,
    Lost,
    Validation,
}

/// What the lifecycle is told of an acquisition.
#[derive(Clone, Copy, Debug, PartialEq, Eq, Structural)]
pub enum SurfaceAcquisition {
    Success,
    Suboptimal,
    Timeout,
    Outdated,
    Lost,
}

/// What is done after an acquisition.
#[derive(Clone, Copy, Debug, PartialEq, Eq, Structural)]
pub struct AcquisitionStep {
    pub reported: SurfaceAcquisition,
    /// Whether the frame is drawn and presented.
    pub submits: bool,
    /// Whether what the lifecycle answers is applied to the surface.
    pub follows_up: bool,
}

/// Decides what is done after an acquisition; a surface that fails validation is fatal, and
/// the lifecycle is not told.
pub fn acquisition_step(acquired: SurfaceAcquire) -> (step: Option<AcquisitionStep>)
    ensures
        step == (match acquired {
            SurfaceAcquire::Success => Some(
                AcquisitionStep {
                    reported: SurfaceAcquisition::Success,
                    submits: true,
                    follows_up: false,
                },
            ),
            SurfaceAcquire::Suboptimal => Some(
                AcquisitionStep {
                    reported: SurfaceAcquisition::Suboptimal,
                    submits: true,
                    follows_up: true,
                },
            ),
            SurfaceAcquire::Timeout | SurfaceAcquire::Occluded => Some(
                AcquisitionStep {
                    reported: SurfaceAcquisition::Timeout,
                    submits: false,
                    follows_up: false,
                },
            ),
            SurfaceAcquire::Outdated => Some(
                AcquisitionStep {
                    reported: SurfaceAcquisition::Outdated,
                    submits: false,
                    follows_up: true,
                },
            ),
            SurfaceAcquire::Lost => Some(
                AcquisitionStep {
                    reported: SurfaceAcquisition::Lost,
                    submits: false,
                    follows_up: true,
                },
            ),
            SurfaceAcquire::Validation => None,
        }),
{
    let (reported, submits, follows_up): (SurfaceAcquisition, bool, bool) = match acquired {
        SurfaceAcquire::Success => (SurfaceAcquisition::Success, true, false),
        SurfaceAcquire::Suboptimal => (SurfaceAcquisition::Suboptimal, true, true),
        SurfaceAcquire::Timeout | SurfaceAcquire::Occluded => (
            SurfaceAcquisition::Timeout,
            false,
            false,
        ),
        SurfaceAcquire::Outdated => (SurfaceAcquisition::Outdated, false, true),
        SurfaceAcquire::Lost => (SurfaceAcquisition::Lost, false, true),
        SurfaceAcquire::Validation => {
            return None;
        },
    };
    Some(AcquisitionStep { reported, submits, follows_up })
}

/// Numbers the next frame; there is none after the last number.
pub fn next_frame_generation(current: u64) -> (next: Option<u64>)
    ensures
        next == (if current == u64::MAX {
            None
        } else {
            Some((current + 1) as u64)
        }),
{
    current.checked_add(1)
}

/// What the event loop does before it waits.
#[derive(Clone, Copy, Debug, PartialEq, Eq, Structural)]
pub enum WaitStep {
    /// The shutdown took too long: the loop ends without the worker.
    ForceShutdown,
    /// The shutdown goes on: the loop looks again soon.
    AwaitShutdown,
    /// The displays are looked at.
    Serve,
}

/// Decides what the event loop does before it waits.
pub fn wait_step(shutdown_requested: bool, deadline_passed: bool) -> (step: WaitStep)
    ensures
        step == (if !shutdown_requested {
            WaitStep::Serve
        } else if deadline_passed {
            WaitStep::ForceShutdown
        } else {
            WaitStep::AwaitShutdown
        }),
{
    if !shutdown_requested {
        WaitStep::Serve
    } else if deadline_passed {
        WaitStep::ForceShutdown
    } else {
        WaitStep::AwaitShutdown
    }
}

/// Says that a shutdown took too long.
pub fn forced_shutdown_message(recorder: bool, seconds: u64) -> (text: String)
    ensures
        text@ == (if recorder {
            "forced Program shutdown after "@ + text::digits(seconds as nat)
                + " seconds; checkpoint and recorder cleanup completion were not confirmed"@
        } else {
            "forced Program shutdown after 5 seconds; checkpoint completion was not confirmed"@
        }),
{
    if recorder {
        String::from_str("forced Program shutdown after ").concat(decimal(seconds).as_str()).concat(
            " seconds; checkpoint and recorder cleanup completion were not confirmed",
        )
    } else {
        String::from_str(
            "forced Program shutdown after 5 seconds; checkpoint completion was not confirmed",
        )
    }
}

/// Says that there is no display at the place that was asked for.
pub fn display_unavailable_message(index: usize, detected: usize) -> (text: String)
    ensures
        text@ == "fullscreen display index "@ + text::digits(index as nat) + " is unavailable; "@
            + text::digits(detected as nat) + " display(s) detected"@,
{
    String::from_str("fullscreen display index ").concat(decimal(index as u64).as_str()).concat(
        " is unavailable; ",
    ).concat(decimal(detected as u64).as_str()).concat(" display(s) detected")
}

/// Says that the graphics device failed.
pub fn surface_error(detail: &str) -> (text: String)
    ensures
        text@ == "Program surface GPU failure: "@ + detail@,
{
    String::from_str("Program surface GPU failure: ").concat(detail)
}

/// Says that the surface failed validation.
pub fn surface_validation_error(detail: &str) -> (text: String)
    ensures
        text@ == "fatal Program surface validation failure: "@ + detail@,
{
    String::from_str("fatal Program surface validation failure: ").concat(detail)
}

} // verus!
