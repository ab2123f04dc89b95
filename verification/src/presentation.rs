//! The order of the steps by which a frame of the program comes to its surface.
//!
//! Between two steps the graphics device, the lifecycle of the surface and the window do their
//! part. Each stage says what is waited for, and each event brings what came of it.
use vstd::prelude::*;

use crate::program_surface::{
    acquisition_step, configuration_step, next_frame_generation, presented_frame,
    replacement_disposition, surface_error, surface_validation_error, AcquisitionStep,
    ConfigurationStep, PresentationAction, PresentationState, ReplacementDisposition,
    ResizeGeneration, SurfaceAcquire, SurfaceAcquisition,
};

verus! {

/// What the thread that renders knows of the surface.
#[derive(Clone, Copy, Debug, PartialEq, Eq)]
pub struct ProgramPresentation {
    pub has_surface: bool,
    /// Whether the transform to the colours of the surface has been made.
    pub has_transform: bool,
    pub frame_generation: u64,
}

/// Where a presentation goes on once the surface is as it should be.
#[derive(Clone, Copy, Debug, PartialEq, Eq, Structural)]
pub enum ResumePoint {
    Replacement,
    Frame,
    Over,
}

/// How far a presentation has come, and what it waits for.
#[derive(Clone, Copy, Debug, PartialEq, Eq, Structural)]
pub enum PresentStage {
    /// The latest size, if there is a new one, goes to the lifecycle.
    Size,
    /// A new surface is looked for.
    Replacement,
    /// The lifecycle is told whether the surface of this size was made.
    Install { generation: ResizeGeneration, made: bool },
    /// The lifecycle is asked for the size of the surface.
    Frame,
    /// The lifecycle is asked whether it takes this frame.
    Submit { frame: u64, generation: ResizeGeneration },
    /// A picture of the surface is acquired.
    Acquire,
    /// The lifecycle is told what came of that.
    Report { reported: SurfaceAcquisition, submits: bool, follows_up: bool },
    /// The frame is drawn and presented, and the lifecycle told what came of that.
    Draw { frame: u64, action: PresentationAction, follows_up: bool },
    /// The surface is configured, with a transform where there is none yet, and the lifecycle
    /// told what came of that.
    Configure {
        width: u32,
        height: u32,
        generation: ResizeGeneration,
        makes_transform: bool,
        resume: ResumePoint,
    },
    /// Another surface is asked for.
    Request { generation: ResizeGeneration, resume: ResumePoint },
    /// The presentation is over.
    Over,
}

/// Why the program cannot be presented any more.
#[derive(Clone, Copy, Debug, PartialEq, Eq, Structural)]
pub enum PresentFailure {
    ReplacementsGone,
    /// The surface could not be made.
    Replacement,
    FramesExhausted,
    Validation,
    TransformMissing,
    SurfaceMissing,
    /// The lifecycle has given up.
    Lifecycle,
    /// The device failed.
    Device,
    Transform,
    Configuration,
    /// The window does not answer.
    Window,
}

impl PresentFailure {
    /// What is said of a failure, given what is known of it.
    pub open spec fn text(self, detail: Seq<char>) -> Seq<char> {
        match self {
            PresentFailure::ReplacementsGone => "Program surface replacement channel disconnected"@,
            PresentFailure::Replacement => detail,
            PresentFailure::FramesExhausted => "Program frame generation exhausted"@,
            PresentFailure::Validation => "fatal Program surface validation failure: "@ + detail,
            PresentFailure::TransformMissing => "Program output transform is not configured"@,
            PresentFailure::SurfaceMissing =>
                "Program surface is unavailable during configuration"@,
            PresentFailure::Lifecycle => "Program presentation failed: "@ + detail,
            PresentFailure::Device => "Program surface GPU failure: "@ + detail,
            PresentFailure::Transform => "Program output transform failed: "@ + detail,
            PresentFailure::Configuration => "Program surface configuration failed "@ + detail,
            PresentFailure::Window => detail,
        }
    }

    /// Says why the program cannot be presented any more.
    pub fn message(&self, detail: &str) -> (text: String)
        ensures
            text@ == self.text(detail@),
    {
        match self {
            PresentFailure::ReplacementsGone => String::from_str(
                "Program surface replacement channel disconnected",
            ),
            PresentFailure::Replacement => String::from_str(detail),
            PresentFailure::FramesExhausted => String::from_str(
                "Program frame generation exhausted",
            ),
            PresentFailure::Validation => surface_validation_error(detail),
            PresentFailure::TransformMissing => String::from_str(
                "Program output transform is not configured",
            ),
            PresentFailure::SurfaceMissing => String::from_str(
                "Program surface is unavailable during configuration",
            ),
            PresentFailure::Lifecycle => String::from_str("Program presentation failed: ").concat(
                detail,
            ),
            PresentFailure::Device => surface_error(detail),
            PresentFailure::Transform => String::from_str(
                "Program output transform failed: ",
            ).concat(detail),
            PresentFailure::Configuration => String::from_str(
                "Program surface configuration failed ",
            ).concat(detail),
            PresentFailure::Window => String::from_str(detail),
        }
    }
}

/// A new surface that was looked for.
#[derive(Clone, Copy, Debug, PartialEq, Eq, Structural)]
pub enum ReplacementPoll {
    Nothing,
    Gone,
    /// A surface of this size, made or not, and what the lifecycle is doing.
    Came { generation: ResizeGeneration, made: bool, state: PresentationState },
}

/// What came of configuring a surface.
#[derive(Clone, Copy, Debug, PartialEq, Eq, Structural)]
pub enum ConfigureOutcome {
    Configured,
    /// No configuration of the surface fits.
    NoneFits,
    /// The transform could not be made.
    NoTransform,
    /// The surface was not configured; the transform was made where one was missing.
    Refused,
}

/// What came of that which a stage of a presentation waited for.
#[derive(Clone, Copy, Debug, PartialEq, Eq, Structural)]
pub enum PresentEvent {
    /// What the lifecycle asks for after a new size.
    Sized(Option<PresentationAction>),
    Replaced(ReplacementPoll),
    /// What the lifecycle asks for after a new surface.
    Installed(PresentationAction),
    /// The size of the surface, if it has one.
    Shown(Option<ResizeGeneration>),
    Submitted { rejected: bool },
    /// What came of acquiring, or that the device failed.
    Acquired(Option<SurfaceAcquire>),
    /// What the lifecycle asks for after an acquisition.
    Reported(PresentationAction),
    Drawn { done: bool },
    Configured(ConfigureOutcome),
    Requested { done: bool },
}

/// Whether an event is what a stage waits for.
pub open spec fn answers_present(stage: PresentStage, event: PresentEvent) -> bool {
    match stage {
        PresentStage::Size => event is Sized,
        PresentStage::Replacement => event is Replaced,
        PresentStage::Install { .. } => event is Installed,
        PresentStage::Frame => event is Shown,
        PresentStage::Submit { .. } => event is Submitted,
        PresentStage::Acquire => event is Acquired,
        PresentStage::Report { .. } => event is Reported,
        PresentStage::Draw { .. } => event is Drawn,
        PresentStage::Configure { .. } => event is Configured,
        PresentStage::Request { .. } => event is Requested,
        PresentStage::Over => false,
    }
}

/// The stage at which a presentation goes on.
pub open spec fn resumed(resume: ResumePoint) -> PresentStage {
    match resume {
        ResumePoint::Replacement => PresentStage::Replacement,
        ResumePoint::Frame => PresentStage::Frame,
        ResumePoint::Over => PresentStage::Over,
    }
}

/// What an action of the lifecycle asks to be done to the surface.
pub open spec fn asked(action: PresentationAction) -> ConfigurationStep {
    match action {
        PresentationAction::Configure { width, height, resize_generation } =>
            ConfigurationStep::Configure { width, height, resize_generation },
        PresentationAction::Reconfigure { width, height, resize_generation } =>
            ConfigurationStep::Configure { width, height, resize_generation },
        PresentationAction::PresentAndReconfigure { width, height, resize_generation, .. } =>
            ConfigurationStep::Configure { width, height, resize_generation },
        PresentationAction::Recreate { resize_generation } => ConfigurationStep::Recreate(
            resize_generation,
        ),
        PresentationAction::Fail => ConfigurationStep::Fail,
        _ => ConfigurationStep::Nothing,
    }
}

/// The presentation and the stage once an action is applied to the surface. A surface that is to
/// be made anew is given up at once, with its transform.
pub open spec fn applied(
    presentation: ProgramPresentation,
    action: PresentationAction,
    resume: ResumePoint,
) -> (ProgramPresentation, Result<PresentStage, PresentFailure>) {
    match asked(action) {
        ConfigurationStep::Nothing => (presentation, Ok(resumed(resume))),
        ConfigurationStep::Fail => (presentation, Err(PresentFailure::Lifecycle)),
        ConfigurationStep::Recreate(generation) => (
            ProgramPresentation { has_surface: false, has_transform: false, ..presentation },
            Ok(PresentStage::Request { generation, resume }),
        ),
        ConfigurationStep::Configure { width, height, resize_generation } => if presentation.has_surface {
            (
                presentation,
                Ok(
                    PresentStage::Configure {
                        width,
                        height,
                        generation: resize_generation,
                        makes_transform: !presentation.has_transform,
                        resume,
                    },
                ),
            )
        } else {
            (presentation, Err(PresentFailure::SurfaceMissing))
        },
    }
}

/// The stage after a new surface was looked for.
pub open spec fn after_replacement(
    presentation: ProgramPresentation,
    poll: ReplacementPoll,
) -> (ProgramPresentation, Result<PresentStage, PresentFailure>) {
    match poll {
        ReplacementPoll::Nothing => (presentation, Ok(PresentStage::Frame)),
        ReplacementPoll::Gone => (presentation, Err(PresentFailure::ReplacementsGone)),
        ReplacementPoll::Came { generation, made, state } => match state {
            PresentationState::Recreate { resize_generation } => if resize_generation
                == generation {
                (
                    ProgramPresentation {
                        has_surface: made || presentation.has_surface,
                        ..presentation
                    },
                    Ok(PresentStage::Install { generation, made }),
                )
            } else if resize_generation.0 > generation.0 {
                (
                    presentation,
                    Ok(
                        PresentStage::Request {
                            generation: resize_generation,
                            resume: ResumePoint::Frame,
                        },
                    ),
                )
            } else {
                (presentation, Ok(PresentStage::Frame))
            },
            PresentationState::Other => (presentation, Ok(PresentStage::Frame)),
        },
    }
}

/// The stage after a picture of the surface was acquired.
pub open spec fn after_acquiring(acquired: Option<SurfaceAcquire>) -> Result<
    PresentStage,
    PresentFailure,
> {
    match acquired {
        None => Err(PresentFailure::Device),
        Some(SurfaceAcquire::Validation) => Err(PresentFailure::Validation),
        Some(SurfaceAcquire::Success) => Ok(
            PresentStage::Report {
                reported: SurfaceAcquisition::Success,
                submits: true,
                follows_up: false,
            },
        ),
        Some(SurfaceAcquire::Suboptimal) => Ok(
            PresentStage::Report {
                reported: SurfaceAcquisition::Suboptimal,
                submits: true,
                follows_up: true,
            },
        ),
        Some(SurfaceAcquire::Timeout) | Some(SurfaceAcquire::Occluded) => Ok(
            PresentStage::Report {
                reported: SurfaceAcquisition::Timeout,
                submits: false,
                follows_up: false,
            },
        ),
        Some(SurfaceAcquire::Outdated) => Ok(
            PresentStage::Report {
                reported: SurfaceAcquisition::Outdated,
                submits: false,
                follows_up: true,
            },
        ),
        Some(SurfaceAcquire::Lost) => Ok(
            PresentStage::Report {
                reported: SurfaceAcquisition::Lost,
                submits: false,
                follows_up: true,
            },
        ),
    }
}

/// The frame that an action presents.
pub open spec fn presents(action: PresentationAction) -> Option<u64> {
    match action {
        PresentationAction::Present { frame } => Some(frame),
        PresentationAction::PresentAndReconfigure { frame, .. } => Some(frame),
        _ => None,
    }
}

/// The presentation and the stage once nothing is left to be drawn.
pub open spec fn followed_up(
    presentation: ProgramPresentation,
    action: PresentationAction,
    follows_up: bool,
) -> (ProgramPresentation, Result<PresentStage, PresentFailure>) {
    if follows_up {
        applied(presentation, action, ResumePoint::Over)
    } else {
        (presentation, Ok(PresentStage::Over))
    }
}

/// The presentation and the stage that follow on a stage and what came of it.
pub open spec fn present_step(
    presentation: ProgramPresentation,
    stage: PresentStage,
    event: PresentEvent,
) -> (ProgramPresentation, Result<PresentStage, PresentFailure>) {
    match (stage, event) {
        (PresentStage::Size, PresentEvent::Sized(action)) => match action {
            None => (presentation, Ok(PresentStage::Replacement)),
            Some(action) => applied(presentation, action, ResumePoint::Replacement),
        },
        (PresentStage::Replacement, PresentEvent::Replaced(poll)) => after_replacement(
            presentation,
            poll,
        ),
        (PresentStage::Install { made, .. }, PresentEvent::Installed(action)) => if made {
            applied(presentation, action, ResumePoint::Frame)
        } else {
            (presentation, Err(PresentFailure::Replacement))
        },
        (PresentStage::Frame, PresentEvent::Shown(generation)) => match generation {
            None => (presentation, Ok(PresentStage::Over)),
            Some(generation) => if presentation.frame_generation == u64::MAX {
                (presentation, Err(PresentFailure::FramesExhausted))
            } else {
                let frame = (presentation.frame_generation + 1) as u64;
                (
                    ProgramPresentation { frame_generation: frame, ..presentation },
                    Ok(PresentStage::Submit { frame, generation }),
                )
            },
        },
        (PresentStage::Submit { .. }, PresentEvent::Submitted { rejected }) => (
            presentation,
            Ok(
                if rejected || !presentation.has_surface {
                    PresentStage::Over
                } else {
                    PresentStage::Acquire
                },
            ),
        ),
        (PresentStage::Acquire, PresentEvent::Acquired(acquired)) => (
            presentation,
            after_acquiring(acquired),
        ),
        (
            PresentStage::Report { submits, follows_up, .. },
            PresentEvent::Reported(action),
        ) => match presents(action) {
            Some(frame) => if !submits {
                followed_up(presentation, action, follows_up)
            } else if presentation.has_transform {
                (presentation, Ok(PresentStage::Draw { frame, action, follows_up }))
            } else {
                (presentation, Err(PresentFailure::TransformMissing))
            },
            None => followed_up(presentation, action, follows_up),
        },
        (PresentStage::Draw { action, follows_up, .. }, PresentEvent::Drawn { done }) => if done {
            followed_up(presentation, action, follows_up)
        } else {
            (presentation, Err(PresentFailure::Device))
        },
        (PresentStage::Configure { resume, .. }, PresentEvent::Configured(outcome)) => {
            match outcome {
                ConfigureOutcome::NoneFits => (presentation, Err(PresentFailure::Device)),
                ConfigureOutcome::NoTransform => (presentation, Err(PresentFailure::Transform)),
                ConfigureOutcome::Refused => (
                    ProgramPresentation { has_transform: true, ..presentation },
                    Err(PresentFailure::Configuration),
                ),
                ConfigureOutcome::Configured => (
                    ProgramPresentation { has_transform: true, ..presentation },
                    Ok(resumed(resume)),
                ),
            }
        },
        (PresentStage::Request { resume, .. }, PresentEvent::Requested { done }) => (
            presentation,
            if done {
                Ok(resumed(resume))
            } else {
                Err(PresentFailure::Window)
            },
        ),
        _ => (presentation, Ok(stage)),
    }
}

fn resume_at(resume: ResumePoint) -> (stage: PresentStage)
    ensures
        stage == resumed(resume),
{
    match resume {
        ResumePoint::Replacement => PresentStage::Replacement,
        ResumePoint::Frame => PresentStage::Frame,
        ResumePoint::Over => PresentStage::Over,
    }
}

impl ProgramPresentation {
    /// A presentation on a surface that was just made.
    pub fn new() -> (presentation: Self)
        ensures
            presentation == (ProgramPresentation {
                has_surface: true,
                has_transform: false,
                frame_generation: 0,
            }),
    {
        ProgramPresentation { has_surface: true, has_transform: false, frame_generation: 0 }
    }

    /// Applies an action of the lifecycle to the surface.
    fn apply_configuration_action(&mut self, action: PresentationAction, resume: ResumePoint) -> (next:
        Result<PresentStage, PresentFailure>)
        ensures
            (*final(self), next) == applied(*old(self), action, resume),
    {
        match configuration_step(action) {
            ConfigurationStep::Nothing => Ok(resume_at(resume)),
            ConfigurationStep::Fail => Err(PresentFailure::Lifecycle),
            ConfigurationStep::Recreate(generation) => {
                self.has_surface = false;
                self.has_transform = false;
                Ok(PresentStage::Request { generation, resume })
            },
            ConfigurationStep::Configure { width, height, resize_generation } => {
                if !self.has_surface {
                    return Err(PresentFailure::SurfaceMissing);
                }
                Ok(
                    PresentStage::Configure {
                        width,
                        height,
                        generation: resize_generation,
                        makes_transform: !self.has_transform,
                        resume,
                    },
                )
            },
        }
    }

    /// Goes on after a new surface was looked for.
    fn replace(&mut self, poll: ReplacementPoll) -> (next: Result<PresentStage, PresentFailure>)
        ensures
            (*final(self), next) == after_replacement(*old(self), poll),
    {
        match poll {
            ReplacementPoll::Nothing => Ok(PresentStage::Frame),
            ReplacementPoll::Gone => Err(PresentFailure::ReplacementsGone),
            ReplacementPoll::Came { generation, made, state } => {
                match replacement_disposition(state, generation) {
                    ReplacementDisposition::Discard => Ok(PresentStage::Frame),
                    ReplacementDisposition::DiscardAndRetry(wanted) => Ok(
                        PresentStage::Request { generation: wanted, resume: ResumePoint::Frame },
                    ),
                    ReplacementDisposition::Install => {
                        if made {
                            self.has_surface = true;
                        }
                        Ok(PresentStage::Install { generation, made })
                    },
                }
            },
        }
    }

    /// Goes on once nothing is left to be drawn.
    fn follow_up(&mut self, action: PresentationAction, follows_up: bool) -> (next: Result<
        PresentStage,
        PresentFailure,
    >)
        ensures
            (*final(self), next) == followed_up(*old(self), action, follows_up),
    {
        if follows_up {
            self.apply_configuration_action(action, ResumePoint::Over)
        } else {
            Ok(PresentStage::Over)
        }
    }

    /// Takes what came of that which a stage waited for, and goes on to the next. A presentation
    /// begins with [`PresentStage::Size`].
    pub fn present(&mut self, stage: PresentStage, event: PresentEvent) -> (next: Result<
        PresentStage,
        PresentFailure,
    >)
        requires
            answers_present(stage, event),
        ensures
            (*final(self), next) == present_step(*old(self), stage, event),
    {
        match (stage, event) {
            (PresentStage::Size, PresentEvent::Sized(action)) => match action {
                None => Ok(PresentStage::Replacement),
                Some(action) => self.apply_configuration_action(action, ResumePoint::Replacement),
            },
            (PresentStage::Replacement, PresentEvent::Replaced(poll)) => self.replace(poll),
            (PresentStage::Install { made, .. }, PresentEvent::Installed(action)) => {
                if made {
                    self.apply_configuration_action(action, ResumePoint::Frame)
                } else {
                    Err(PresentFailure::Replacement)
                }
            },
            (PresentStage::Frame, PresentEvent::Shown(generation)) => match generation {
                None => Ok(PresentStage::Over),
                Some(generation) => match next_frame_generation(self.frame_generation) {
                    None => Err(PresentFailure::FramesExhausted),
                    Some(frame) => {
                        self.frame_generation = frame;
                        Ok(PresentStage::Submit { frame, generation })
                    },
                },
            },
            (PresentStage::Submit { .. }, PresentEvent::Submitted { rejected }) => {
                if rejected || !self.has_surface {
                    Ok(PresentStage::Over)
                } else {
                    Ok(PresentStage::Acquire)
                }
            },
            (PresentStage::Acquire, PresentEvent::Acquired(acquired)) => match acquired {
                None => Err(PresentFailure::Device),
                Some(acquired) => match acquisition_step(acquired) {
                    None => Err(PresentFailure::Validation),
                    Some(AcquisitionStep { reported, submits, follows_up }) => Ok(
                        PresentStage::Report { reported, submits, follows_up },
                    ),
                },
            },
            (PresentStage::Report { submits, follows_up, .. }, PresentEvent::Reported(action)) => {
                match presented_frame(action) {
                    Some(frame) => {
                        if !submits {
                            return self.follow_up(action, follows_up);
                        }
                        if !self.has_transform {
                            return Err(PresentFailure::TransformMissing);
                        }
                        Ok(PresentStage::Draw { frame, action, follows_up })
                    },
                    None => self.follow_up(action, follows_up),
                }
            },
            (PresentStage::Draw { action, follows_up, .. }, PresentEvent::Drawn { done }) => {
                if done {
                    self.follow_up(action, follows_up)
                } else {
                    Err(PresentFailure::Device)
                }
            },
            (PresentStage::Configure { resume, .. }, PresentEvent::Configured(outcome)) => {
                match outcome {
                    ConfigureOutcome::NoneFits => Err(PresentFailure::Device),
                    ConfigureOutcome::NoTransform => Err(PresentFailure::Transform),
                    ConfigureOutcome::Refused => {
                        self.has_transform = true;
                        Err(PresentFailure::Configuration)
                    },
                    ConfigureOutcome::Configured => {
                        self.has_transform = true;
                        Ok(resume_at(resume))
                    },
                }
            },
            (PresentStage::Request { resume, .. }, PresentEvent::Requested { done }) => {
                if done {
                    Ok(resume_at(resume))
                } else {
                    Err(PresentFailure::Window)
                }
            },
            _ => Ok(stage),
        }
    }
}

/// Frames are numbered in turn: a number is given to a frame once, and none is passed over.
pub proof fn frames_are_numbered_in_turn(
    presentation: ProgramPresentation,
    stage: PresentStage,
    event: PresentEvent,
)
    ensures
        ({
            let (after, next) = present_step(presentation, stage, event);
            if stage is Frame && next matches Ok(PresentStage::Submit { .. }) {
                &&& after.frame_generation == presentation.frame_generation + 1
                &&& next->Ok_0->Submit_frame == after.frame_generation
            } else {
                after.frame_generation == presentation.frame_generation
            }
        }),
{
}

/// Only a surface that is there is drawn to or configured, and only one with a transform is
/// drawn to.
pub proof fn only_what_is_there_is_used(
    presentation: ProgramPresentation,
    stage: PresentStage,
    event: PresentEvent,
)
    requires
        answers_present(stage, event),
        stage is Report || stage is Draw ==> presentation.has_surface,
    ensures
        ({
            let (after, next) = present_step(presentation, stage, event);
            &&& next matches Ok(PresentStage::Acquire) ==> after.has_surface
            &&& next matches Ok(PresentStage::Configure { .. }) ==> after.has_surface
            &&& next matches Ok(PresentStage::Draw { .. }) ==> after.has_surface
                && after.has_transform
            &&& next matches Ok(PresentStage::Request { .. }) ==> !after.has_surface || stage is Replacement
        }),
{
}

} // verus!
