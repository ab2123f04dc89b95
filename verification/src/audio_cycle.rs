//! The order of the steps by which a lane is serviced and rendered, frame after frame.
//!
//! Between two steps the decoders, the synchronizers and the mixer do their part. Each stage
//! says what is waited for, and each event brings what came of it. A step that fails leaves the
//! lane failed for good.
use vstd::prelude::*;

use crate::audio_laws;
use crate::audio_limits::{NativeAudioCharge, NativeAudioTelemetry, NativeMasterError};
use crate::audio_master;
use crate::audio_master::{
    LaneModel, NativeAudioDecodeResult, NativeMasterLane, ValidatedCompletedAudioPage,
};
use crate::audio_mix;
use crate::audio_mix::AudioMixVerdict;
use crate::audio_render;
use crate::audio_render::{AudioFramePlan, SourceRender};
use crate::audio_sending;
use crate::audio_sending::BeforeAsking;
use crate::audio_service;
use crate::audio_service::{NativeAudioDecodeRequest, RenderOutcome};
use crate::audio_source::{PaddingModel, StagedAudioPadding, Synchronizer};
use crate::model::{FrameResult, InputId, OutsideFailure};
use crate::project_plan::NativeProjectPlan;
use crate::render;

verus! {

/// How far the service of a frame has come, and what it waits for.
#[derive(Debug)]
pub enum ServiceStage {
    /// The answers that the decoders have given since the last frame.
    Answers { start_sample: u64, end_sample: u64 },
    /// These pages are to be pushed to their synchronizers, the last first.
    Pages {
        start_sample: u64,
        end_sample: u64,
        retained: NativeAudioCharge,
        pages: Vec<ValidatedCompletedAudioPage>,
    },
    /// Every synchronizer is to say whether it covers the interval of its source.
    Intervals { start_sample: u64, end_sample: u64 },
    /// The synchronizers of ended sources are to say whether they would take silence.
    Silence {
        start_sample: u64,
        end_sample: u64,
        uncovered: Vec<InputId>,
        wanted: Vec<(InputId, u64)>,
    },
    /// This silence is to be pushed, in order.
    Paddings {
        start_sample: u64,
        end_sample: u64,
        uncovered: Vec<InputId>,
        retained: NativeAudioCharge,
        paddings: Vec<StagedAudioPadding>,
    },
    /// The service is over. The requests go to the decoders, whatever it came to; where one
    /// cannot be sent, it and those after it are taken back.
    Over {
        requests: Vec<NativeAudioDecodeRequest>,
        covered: Result<bool, NativeMasterError>,
        before: BeforeAsking,
    },
}

/// What a stage of a service holds.
#[verifier::ext_equal]
pub enum ServiceModel {
    Answers { start_sample: u64, end_sample: u64 },
    Pages {
        start_sample: u64,
        end_sample: u64,
        retained: NativeAudioCharge,
        pages: Seq<ValidatedCompletedAudioPage>,
    },
    Intervals { start_sample: u64, end_sample: u64 },
    Silence {
        start_sample: u64,
        end_sample: u64,
        uncovered: Seq<InputId>,
        wanted: Seq<(InputId, u64)>,
    },
    Paddings {
        start_sample: u64,
        end_sample: u64,
        uncovered: Seq<InputId>,
        retained: NativeAudioCharge,
        paddings: Seq<PaddingModel>,
    },
    Over {
        requests: Seq<NativeAudioDecodeRequest>,
        covered: Result<bool, NativeMasterError>,
        before: BeforeAsking,
    },
}

impl ServiceModel {
    /// Whether no frame ends before it starts.
    pub open spec fn wf(self) -> bool {
        match self {
            ServiceModel::Answers { start_sample, end_sample } => start_sample <= end_sample,
            ServiceModel::Pages { start_sample, end_sample, .. } => start_sample <= end_sample,
            ServiceModel::Intervals { start_sample, end_sample } => start_sample <= end_sample,
            ServiceModel::Silence { start_sample, end_sample, .. } => start_sample <= end_sample,
            ServiceModel::Paddings { start_sample, end_sample, .. } => start_sample <= end_sample,
            ServiceModel::Over { before, .. } => before.wf(),
        }
    }
}

impl View for ServiceStage {
    type V = ServiceModel;

    open spec fn view(&self) -> ServiceModel {
        match self {
            ServiceStage::Answers { start_sample, end_sample } => ServiceModel::Answers {
                start_sample: *start_sample,
                end_sample: *end_sample,
            },
            ServiceStage::Pages { start_sample, end_sample, retained, pages } =>
                ServiceModel::Pages {
                start_sample: *start_sample,
                end_sample: *end_sample,
                retained: *retained,
                pages: pages@,
            },
            ServiceStage::Intervals { start_sample, end_sample } => ServiceModel::Intervals {
                start_sample: *start_sample,
                end_sample: *end_sample,
            },
            ServiceStage::Silence { start_sample, end_sample, uncovered, wanted } =>
                ServiceModel::Silence {
                start_sample: *start_sample,
                end_sample: *end_sample,
                uncovered: uncovered@,
                wanted: wanted@,
            },
            ServiceStage::Paddings { start_sample, end_sample, uncovered, retained, paddings } =>
                ServiceModel::Paddings {
                start_sample: *start_sample,
                end_sample: *end_sample,
                uncovered: uncovered@,
                retained: *retained,
                paddings: audio_service::paddings_of(paddings@),
            },
            ServiceStage::Over { requests, covered, before } => ServiceModel::Over {
                requests: requests@,
                covered: *covered,
                before: *before,
            },
        }
    }
}

/// What came of that which a stage of a service waited for.
#[derive(Debug)]
pub enum ServiceEvent {
    /// The answers, or why the worker gives none any more.
    Answered(Result<Vec<NativeAudioDecodeResult>, NativeMasterError>),
    /// What each synchronizer holds with its page.
    Pushed(Vec<Result<NativeAudioCharge, OutsideFailure>>),
    /// What the synchronizers say of the intervals, for each source of the lane.
    Planned(Vec<RenderOutcome>),
    /// Whether each silence would be taken.
    Admitted(Vec<Result<(), OutsideFailure>>),
    /// What each synchronizer holds with its silence.
    Padded(Vec<Result<NativeAudioCharge, OutsideFailure>>),
}

/// Whether an event is what a stage waits for.
pub open spec fn answers_stage(lane: LaneModel, stage: ServiceModel, event: ServiceEvent) -> bool {
    match (stage, event) {
        (ServiceModel::Answers { .. }, ServiceEvent::Answered(answers)) => {
            answers matches Ok(answers) ==> forall|i: int|
                0 <= i < answers@.len() ==> audio_master::answer_is_timed(
                    #[trigger] answers@[i],
                )
        },
        (ServiceModel::Pages { pages, .. }, ServiceEvent::Pushed(pushed)) => pushed@.len()
            == pages.len(),
        (ServiceModel::Intervals { .. }, ServiceEvent::Planned(outcomes)) => outcomes@.len()
            == lane.sources.len(),
        (ServiceModel::Silence { wanted, .. }, ServiceEvent::Admitted(admitted)) => {
            admitted@.len() == wanted.len()
        },
        (ServiceModel::Paddings { paddings, .. }, ServiceEvent::Padded(pushed)) => pushed@.len()
            == paddings.len(),
        _ => false,
    }
}

/// The lane once it has failed.
pub open spec fn failed(lane: LaneModel) -> LaneModel {
    LaneModel { failed: true, ..lane }
}

/// The lane and the first stage of the service of its next frame.
pub open spec fn service_begun(lane: LaneModel) -> (
    LaneModel,
    Result<ServiceModel, NativeMasterError>,
) {
    if lane.failed {
        (lane, Err(NativeMasterError::Failed))
    } else {
        match audio_master::next_span(lane) {
            Err(error) => (failed(lane), Err(error)),
            Ok((start_sample, end_sample)) => (
                lane,
                Ok(ServiceModel::Answers { start_sample, end_sample }),
            ),
        }
    }
}

/// The lane after pages have been pushed, the last first, given what pushing each came to.
pub open spec fn pages_pushed(
    lane: LaneModel,
    pages: Seq<ValidatedCompletedAudioPage>,
    pushed: Seq<Result<NativeAudioCharge, OutsideFailure>>,
) -> (LaneModel, Result<(), NativeMasterError>)
    decreases pages.len(),
{
    if pages.len() == 0 {
        (lane, Ok(()))
    } else {
        match audio_master::with_committed(lane, pages.last(), pushed[pages.len() - 1]) {
            (after, Err(error)) => (after, Err(error)),
            (after, Ok(_)) => pages_pushed(after, pages.drop_last(), pushed),
        }
    }
}

/// The lane with its peaks raised to what it holds.
pub open spec fn observed(lane: LaneModel, retained: NativeAudioCharge) -> LaneModel {
    lane.with_telemetry(lane.audio_telemetry.with_retained(retained))
}

/// The lane and the last stage, once nothing more can be covered.
pub open spec fn service_over(
    lane: LaneModel,
    start_sample: u64,
    end_sample: u64,
    uncovered: Seq<InputId>,
) -> (LaneModel, Result<ServiceModel, NativeMasterError>) {
    let (after, requests, covered) = audio_service::serviced(
        lane,
        start_sample,
        end_sample,
        uncovered,
    );
    (
        if covered is Ok {
            after
        } else {
            failed(after)
        },
        Ok(
            ServiceModel::Over {
                requests,
                covered,
                before: audio_sending::before_asking(lane, uncovered),
            },
        ),
    )
}

/// The lane and the stage that follow on a stage and what came of it.
pub open spec fn service_step(
    lane: LaneModel,
    stage: ServiceModel,
    event: ServiceEvent,
    max_block_samples: usize,
) -> (LaneModel, Result<ServiceModel, NativeMasterError>) {
    match (stage, event) {
        (
            ServiceModel::Answers { start_sample, end_sample },
            ServiceEvent::Answered(answers),
        ) => match answers {
            Err(error) => (failed(lane), Err(error)),
            Ok(answers) => match audio_master::looked_at(
                lane,
                audio_master::held_by(lane.sources),
                Seq::empty(),
                answers@,
            ) {
                (after, Err(error)) => (failed(after), Err(error)),
                (after, Ok((retained, pages))) => (
                    after,
                    Ok(ServiceModel::Pages { start_sample, end_sample, retained, pages }),
                ),
            },
        },
        (
            ServiceModel::Pages { start_sample, end_sample, retained, pages },
            ServiceEvent::Pushed(pushed),
        ) => match pages_pushed(lane, pages, pushed@) {
            (after, Err(error)) => (failed(after), Err(error)),
            (after, Ok(_)) => (
                observed(after, retained),
                Ok(ServiceModel::Intervals { start_sample, end_sample }),
            ),
        },
        (
            ServiceModel::Intervals { start_sample, end_sample },
            ServiceEvent::Planned(outcomes),
        ) => match audio_service::needs(
            lane,
            start_sample,
            end_sample,
            outcomes@,
            0,
            Seq::empty(),
            Seq::empty(),
        ) {
            Err(error) => (failed(lane), Err(error)),
            Ok((uncovered, wanted)) => if wanted.len() == 0 {
                service_over(lane, start_sample, end_sample, uncovered)
            } else {
                (
                    lane,
                    Ok(ServiceModel::Silence { start_sample, end_sample, uncovered, wanted }),
                )
            },
        },
        (
            ServiceModel::Silence { start_sample, end_sample, uncovered, wanted },
            ServiceEvent::Admitted(admitted),
        ) => match audio_service::staged(
            lane,
            wanted,
            admitted@,
            max_block_samples,
            0,
            audio_master::held_by(lane.sources),
            lane.limits.max_retained_blocks as int,
            Seq::empty(),
        ) {
            Err(error) => (failed(lane), Err(error)),
            Ok((retained, paddings)) => (
                lane,
                Ok(
                    ServiceModel::Paddings {
                        start_sample,
                        end_sample,
                        uncovered,
                        retained,
                        paddings,
                    },
                ),
            ),
        },
        (
            ServiceModel::Paddings { start_sample, end_sample, uncovered, retained, paddings },
            ServiceEvent::Padded(pushed),
        ) => match audio_service::padded_lane(lane, paddings, pushed@, 0) {
            (after, Err(error)) => (failed(after), Err(error)),
            (after, Ok(_)) => service_over(
                observed(after, retained),
                start_sample,
                end_sample,
                uncovered,
            ),
        },
        _ => (lane, Ok(stage)),
    }
}

impl NativeMasterLane {
    /// Begins to service the next frame. A lane that failed stays failed.
    pub fn start_service(&mut self) -> (stage: Result<ServiceStage, NativeMasterError>)
        requires
            old(self).wf(),
        ensures
            final(self).wf(),
            ({
                let (after, outcome) = service_begun(old(self)@);
                &&& final(self)@ == after
                &&& match stage {
                    Ok(stage) => outcome == Ok::<ServiceModel, NativeMasterError>(stage@),
                    Err(error) => outcome == Err::<ServiceModel, NativeMasterError>(error),
                }
            }),
            stage matches Ok(stage) ==> stage@.wf(),
    {
        match self.begin_service() {
            Err(error) => {
                self.fail();
                assert(old(self)@.failed ==> self@ =~= old(self)@);
                Err(error)
            },
            Ok((start_sample, end_sample)) => Ok(
                ServiceStage::Answers { start_sample, end_sample },
            ),
        }
    }

    /// Pushes pages that were found in order, the last first.
    fn commit_pages(
        &mut self,
        pages: &Vec<ValidatedCompletedAudioPage>,
        pushed: &Vec<Result<NativeAudioCharge, OutsideFailure>>,
    ) -> (committed: Result<(), NativeMasterError>)
        requires
            old(self).wf(),
            pushed@.len() == pages@.len(),
        ensures
            final(self).wf(),
            (final(self)@, committed) == pages_pushed(old(self)@, pages@, pushed@),
    {
        let mut left: usize = pages.len();
        assert(pages@.take(left as int) =~= pages@);
        while left > 0
            invariant
                self.wf(),
                left <= pages@.len(),
                pushed@.len() == pages@.len(),
                pages_pushed(old(self)@, pages@, pushed@) == pages_pushed(
                    self@,
                    pages@.take(left as int),
                    pushed@,
                ),
            decreases left,
        {
            assert(pages@.take(left as int).last() == pages@[left - 1]);
            assert(pages@.take(left as int).drop_last() =~= pages@.take(left - 1));
            left = left - 1;
            match self.commit_completed_page(pages[left], pushed[left]) {
                Err(error) => {
                    return Err(error);
                },
                Ok(()) => {},
            }
        }
        Ok(())
    }

    /// Ends the service of a frame, and fails the lane where that fails.
    fn end_service(&mut self, start_sample: u64, end_sample: u64, uncovered: &Vec<InputId>) -> (stage:
        ServiceStage)
        requires
            old(self).wf(),
            start_sample <= end_sample,
        ensures
            final(self).wf(),
            (final(self)@, Ok::<ServiceModel, NativeMasterError>(stage@)) == service_over(
                old(self)@,
                start_sample,
                end_sample,
                uncovered@,
            ),
    {
        let before: BeforeAsking = BeforeAsking {
            audio_telemetry: NativeAudioTelemetry {
                source_stalls: self.audio_telemetry.source_stalls.saturating_add(
                    uncovered.len() as u64,
                ),
                ..self.audio_telemetry
            },
            ready_frame: self.ready_frame,
        };
        let (requests, covered): (
            Vec<NativeAudioDecodeRequest>,
            Result<bool, NativeMasterError>,
        ) = self.finish_service(start_sample, end_sample, uncovered);
        if covered.is_err() {
            self.fail();
        }
        ServiceStage::Over { requests, covered, before }
    }

    /// Goes from one stage of the service of a frame to the next. `max_block_samples` is the
    /// longest block that a synchronizer takes.
    pub fn serve(&mut self, stage: ServiceStage, event: ServiceEvent, max_block_samples: usize) -> (next:
        Result<ServiceStage, NativeMasterError>)
        requires
            old(self).wf(),
            stage@.wf(),
            answers_stage(old(self)@, stage@, event),
        ensures
            final(self).wf(),
            next matches Ok(next) ==> next@.wf(),
            ({
                let (after, outcome) = service_step(old(self)@, stage@, event, max_block_samples);
                &&& final(self)@ == after
                &&& match next {
                    Ok(next) => outcome == Ok::<ServiceModel, NativeMasterError>(next@),
                    Err(error) => outcome == Err::<ServiceModel, NativeMasterError>(error),
                }
            }),
    {
        match (stage, event) {
            (
                ServiceStage::Answers { start_sample, end_sample },
                ServiceEvent::Answered(answers),
            ) => {
                let answers: Vec<NativeAudioDecodeResult> = match answers {
                    Err(error) => {
                        self.fail();
                        return Err(error);
                    },
                    Ok(answers) => answers,
                };
                match self.check_completed_pages(&answers) {
                    Err(error) => {
                        self.fail();
                        Err(error)
                    },
                    Ok((retained, pages)) => Ok(
                        ServiceStage::Pages { start_sample, end_sample, retained, pages },
                    ),
                }
            },
            (
                ServiceStage::Pages { start_sample, end_sample, retained, pages },
                ServiceEvent::Pushed(pushed),
            ) => match self.commit_pages(&pages, &pushed) {
                Err(error) => {
                    self.fail();
                    Err(error)
                },
                Ok(()) => {
                    self.observe_retained(retained);
                    Ok(ServiceStage::Intervals { start_sample, end_sample })
                },
            },
            (
                ServiceStage::Intervals { start_sample, end_sample },
                ServiceEvent::Planned(outcomes),
            ) => match self.plan_sources(start_sample, end_sample, &outcomes) {
                Err(error) => {
                    self.fail();
                    Err(error)
                },
                Ok((uncovered, wanted)) => if wanted.len() == 0 {
                    Ok(self.end_service(start_sample, end_sample, &uncovered))
                } else {
                    Ok(ServiceStage::Silence { start_sample, end_sample, uncovered, wanted })
                },
            },
            (
                ServiceStage::Silence { start_sample, end_sample, uncovered, wanted },
                ServiceEvent::Admitted(admitted),
            ) => match self.stage_eos_padding(&wanted, &admitted, max_block_samples) {
                Err(error) => {
                    self.fail();
                    Err(error)
                },
                Ok((retained, paddings)) => Ok(
                    ServiceStage::Paddings {
                        start_sample,
                        end_sample,
                        uncovered,
                        retained,
                        paddings,
                    },
                ),
            },
            (
                ServiceStage::Paddings { start_sample, end_sample, uncovered, retained, paddings },
                ServiceEvent::Padded(pushed),
            ) => match self.commit_staged_eos_padding(&paddings, &pushed, retained) {
                Err(error) => {
                    self.fail();
                    Err(error)
                },
                Ok(()) => Ok(self.end_service(start_sample, end_sample, &uncovered)),
            },
            (stage, _) => Ok(stage),
        }
    }
}

proof fn lemma_pushing_keeps_cursor(
    lane: LaneModel,
    pages: Seq<ValidatedCompletedAudioPage>,
    pushed: Seq<Result<NativeAudioCharge, OutsideFailure>>,
)
    ensures
        ({
            let after = pages_pushed(lane, pages, pushed).0;
            &&& after.expected_next_frame == lane.expected_next_frame
            &&& after.ready_frame == lane.ready_frame
        }),
    decreases pages.len(),
{
    if pages.len() > 0 {
        match audio_master::with_committed(lane, pages.last(), pushed[pages.len() - 1]) {
            (_, Err(_)) => {},
            (after, Ok(_)) => {
                lemma_pushing_keeps_cursor(after, pages.drop_last(), pushed);
            },
        }
    }
}

proof fn lemma_padding_keeps_cursor(
    lane: LaneModel,
    paddings: Seq<PaddingModel>,
    pushed: Seq<Result<NativeAudioCharge, OutsideFailure>>,
    i: int,
)
    ensures
        ({
            let after = audio_service::padded_lane(lane, paddings, pushed, i).0;
            &&& after.expected_next_frame == lane.expected_next_frame
            &&& after.ready_frame == lane.ready_frame
        }),
    decreases paddings.len() - i,
{
    if i < paddings.len() {
        let input = paddings[i].input;
        match lane.source(input) {
            None => {},
            Some(source) => match crate::audio_source::with_pushed_page(
                source,
                paddings[i].page,
                pushed[i],
            ) {
                Err(_) => {},
                Ok(after) => {
                    lemma_padding_keeps_cursor(
                        lane.with_source(input, after).with_telemetry(
                            audio_service::padded_telemetry(
                                lane.audio_telemetry,
                                paddings[i].page.charge,
                            ),
                        ),
                        paddings,
                        pushed,
                        i + 1,
                    );
                },
            },
        }
    }
}

/// Servicing never moves the frame cursor. A frame is ready once its service is over and every
/// source covers it, and then it is the next one; while a frame is being serviced nothing
/// becomes ready.
pub proof fn only_covered_frames_are_ready(
    lane: LaneModel,
    stage: ServiceModel,
    event: ServiceEvent,
    max_block_samples: usize,
)
    requires
        lane.wf(),
    ensures
        ({
            let (after, next) = service_step(lane, stage, event, max_block_samples);
            &&& after.expected_next_frame == lane.expected_next_frame
            &&& after.ready_frame != lane.ready_frame ==> (next matches Ok(
                ServiceModel::Over { covered: Ok(covered), .. },
            ) && covered == (after.ready_frame is Some))
            &&& after.ready_frame != lane.ready_frame ==> (after.ready_frame matches Some(ready)
                ==> ready.frame == lane.expected_next_frame)
            &&& !(stage is Over) ==> (next matches Ok(
                ServiceModel::Over { covered: Ok(covered), .. },
            ) ==> covered == (after.ready_frame is Some))
        }),
{
    match (stage, event) {
        (ServiceModel::Answers { .. }, ServiceEvent::Answered(Ok(answers))) => {
            audio_laws::looking_moves_nothing(lane, answers@);
        },
        (ServiceModel::Pages { pages, .. }, ServiceEvent::Pushed(pushed)) => {
            lemma_pushing_keeps_cursor(lane, pages, pushed@);
        },
        (
            ServiceModel::Intervals { start_sample, end_sample },
            ServiceEvent::Planned(outcomes),
        ) => match audio_service::needs(
            lane,
            start_sample,
            end_sample,
            outcomes@,
            0,
            Seq::empty(),
            Seq::empty(),
        ) {
            Err(_) => {},
            Ok((uncovered, _)) => {
                audio_service::lemma_servicing_keeps_cursor(
                    lane,
                    start_sample,
                    end_sample,
                    uncovered,
                );
            },
        },
        (
            ServiceModel::Paddings { start_sample, end_sample, uncovered, retained, paddings },
            ServiceEvent::Padded(pushed),
        ) => {
            lemma_padding_keeps_cursor(lane, paddings, pushed@, 0);
            let padded = audio_service::padded_lane(lane, paddings, pushed@, 0).0;
            audio_service::lemma_servicing_keeps_cursor(
                observed(padded, retained),
                start_sample,
                end_sample,
                uncovered,
            );
        },
        _ => {},
    }
}

/// A failure is for good: a lane whose service failed is neither serviced nor rendered again.
pub proof fn a_failed_service_is_final(
    lane: LaneModel,
    stage: ServiceModel,
    event: ServiceEvent,
    max_block_samples: usize,
    frame: FrameResult,
    project: Option<&NativeProjectPlan>,
    sink_rejects: bool,
    verdict: AudioMixVerdict,
)
    ensures
        ({
            let (after, next) = service_step(lane, stage, event, max_block_samples);
            !(stage is Over) && (next is Err || (next matches Ok(
                ServiceModel::Over { covered: Err(_), .. },
            ))) ==> {
                &&& service_begun(after) == (
                    after,
                    Err::<ServiceModel, NativeMasterError>(NativeMasterError::Failed),
                )
                &&& audio_render::frame_plan(after, frame, project, sink_rejects, verdict) == Err::<
                    AudioFramePlan,
                    NativeMasterError,
                >(NativeMasterError::Failed)
            }
        }),
{
}

/// How far the render of a frame has come, and what it waits for.
#[derive(Debug)]
pub enum RenderStage {
    /// Every synchronizer is to render the part that its source fills.
    Parts { plan: AudioFramePlan },
    /// The parts are to be mixed.
    Mix { plan: AudioFramePlan, parts: Vec<(InputId, SourceRender)> },
    /// The synchronizers are to say whether their parts may be played.
    Check { plan: AudioFramePlan, parts: Vec<(InputId, SourceRender)> },
    /// The synchronizers are to play their parts, in order.
    Play { plan: AudioFramePlan, parts: Vec<(InputId, SourceRender)> },
    /// The block is to be made and collected.
    Collect { plan: AudioFramePlan },
    /// The frame has been rendered.
    Over,
}

/// What a stage of a render holds.
#[verifier::ext_equal]
pub enum RenderModel {
    Parts { plan: AudioFramePlan },
    Mix { plan: AudioFramePlan, parts: Seq<(InputId, SourceRender)> },
    Check { plan: AudioFramePlan, parts: Seq<(InputId, SourceRender)> },
    Play { plan: AudioFramePlan, parts: Seq<(InputId, SourceRender)> },
    Collect { plan: AudioFramePlan },
    Over,
}

impl View for RenderStage {
    type V = RenderModel;

    open spec fn view(&self) -> RenderModel {
        match self {
            RenderStage::Parts { plan } => RenderModel::Parts { plan: *plan },
            RenderStage::Mix { plan, parts } => RenderModel::Mix { plan: *plan, parts: parts@ },
            RenderStage::Check { plan, parts } => RenderModel::Check {
                plan: *plan,
                parts: parts@,
            },
            RenderStage::Play { plan, parts } => RenderModel::Play { plan: *plan, parts: parts@ },
            RenderStage::Collect { plan } => RenderModel::Collect { plan: *plan },
            RenderStage::Over => RenderModel::Over,
        }
    }
}

/// What came of that which a stage of a render waited for.
#[derive(Debug)]
pub enum RenderEvent {
    /// What the synchronizers say, for each source of the lane.
    Rendered(Vec<Result<(), OutsideFailure>>),
    /// What mixing came to, with the sound of a clip where one plays.
    Mixed(Result<(), NativeMasterError>),
    /// Whether each part may be played.
    Checked(Vec<Result<(), OutsideFailure>>),
    /// What each synchronizer holds once its part is played.
    Played(Vec<Result<NativeAudioCharge, OutsideFailure>>),
    /// Whether the block was made and the sink took it.
    Collected(Result<(), NativeMasterError>),
}

/// Whether an event is what a stage of a render waits for.
pub open spec fn answers_render(lane: LaneModel, stage: RenderModel, event: RenderEvent) -> bool {
    match (stage, event) {
        (RenderModel::Parts { plan }, RenderEvent::Rendered(outcomes)) => {
            audio_render::plan_is_whole(plan) && outcomes@.len() == lane.sources.len()
        },
        (RenderModel::Mix { .. }, RenderEvent::Mixed(_)) => true,
        (RenderModel::Check { parts, .. }, RenderEvent::Checked(checked)) => checked@.len()
            == parts.len(),
        (RenderModel::Play { parts, .. }, RenderEvent::Played(played)) => played@.len()
            == parts.len(),
        (RenderModel::Collect { .. }, RenderEvent::Collected(_)) => true,
        _ => false,
    }
}

/// The parts of a frame that the sources from `i` on fill, after `parts`.
pub open spec fn parts_from(
    lane: LaneModel,
    plan: AudioFramePlan,
    outcomes: Seq<Result<(), OutsideFailure>>,
    i: int,
    parts: Seq<(InputId, SourceRender)>,
) -> Result<Seq<(InputId, SourceRender)>, NativeMasterError>
    decreases lane.sources.len() - i,
{
    if i >= lane.sources.len() {
        Ok(parts)
    } else {
        let (input, source) = lane.sources[i];
        match audio_render::part_of(lane, input, source, plan) {
            Err(error) => Err(error),
            Ok(None) => parts_from(lane, plan, outcomes, i + 1, parts),
            Ok(Some(part)) => match outcomes[i] {
                Err(error) => Err(NativeMasterError::Synchronizer(error)),
                Ok(()) => parts_from(lane, plan, outcomes, i + 1, parts.push((input, part))),
            },
        }
    }
}

/// What the synchronizers of parts say of playing them.
pub open spec fn commits_of(
    parts: Seq<(InputId, SourceRender)>,
    checked: Seq<Result<(), OutsideFailure>>,
) -> Seq<(InputId, Result<(), OutsideFailure>)> {
    Seq::new(parts.len(), |i: int| (parts[i].0, checked[i]))
}

/// The lane after the parts from `i` on have been played, given what playing each came to.
pub open spec fn parts_played(
    lane: LaneModel,
    parts: Seq<(InputId, SourceRender)>,
    played: Seq<Result<NativeAudioCharge, OutsideFailure>>,
    i: int,
) -> (LaneModel, Result<(), NativeMasterError>)
    decreases parts.len() - i,
{
    if i >= parts.len() {
        (lane, Ok(()))
    } else {
        match audio_render::played(lane, parts[i].0, played[i]) {
            (after, Err(error)) => (after, Err(error)),
            (after, Ok(_)) => parts_played(after, parts, played, i + 1),
        }
    }
}

/// The lane and the stage of a render that follow on a stage and what came of it.
pub open spec fn render_step(lane: LaneModel, stage: RenderModel, event: RenderEvent) -> (
    LaneModel,
    Result<RenderModel, NativeMasterError>,
) {
    match (stage, event) {
        (RenderModel::Parts { plan }, RenderEvent::Rendered(outcomes)) => match parts_from(
            lane,
            plan,
            outcomes@,
            0,
            Seq::empty(),
        ) {
            Err(error) => (failed(lane), Err(error)),
            Ok(parts) => (lane, Ok(RenderModel::Mix { plan, parts })),
        },
        (RenderModel::Mix { plan, parts }, RenderEvent::Mixed(mixed)) => match mixed {
            Err(error) => (failed(lane), Err(error)),
            Ok(_) => (lane, Ok(RenderModel::Check { plan, parts })),
        },
        (RenderModel::Check { plan, parts }, RenderEvent::Checked(checked)) => {
            match audio_render::render_commits(lane, commits_of(parts, checked@), 0) {
                Err(error) => (failed(lane), Err(error)),
                Ok(_) => (lane, Ok(RenderModel::Play { plan, parts })),
            }
        },
        (RenderModel::Play { plan, parts }, RenderEvent::Played(played)) => match parts_played(
            lane,
            parts,
            played@,
            0,
        ) {
            (after, Err(error)) => (failed(after), Err(error)),
            (after, Ok(_)) => (after, Ok(RenderModel::Collect { plan })),
        },
        (RenderModel::Collect { plan }, RenderEvent::Collected(collected)) => match collected {
            Err(error) => (failed(lane), Err(error)),
            Ok(_) => match audio_render::rendered(lane, plan) {
                (after, Err(error)) => (failed(after), Err(error)),
                (after, Ok(_)) => (after, Ok(RenderModel::Over)),
            },
        },
        _ => (lane, Ok(stage)),
    }
}

impl NativeMasterLane {
    /// Begins to render a frame. A lane on which that fails stays failed.
    pub fn start_render(
        &mut self,
        frame: &FrameResult,
        project: Option<&NativeProjectPlan>,
        sink_rejects: bool,
        verdict: AudioMixVerdict,
    ) -> (stage: Result<RenderStage, NativeMasterError>)
        requires
            old(self).wf(),
            project matches Some(project) ==> project.wf(),
            verdict.gains is Ok && render::preview_of(frame.program) is Some
                ==> audio_mix::ratios_fit(frame.program),
        ensures
            final(self).wf(),
            match audio_render::frame_plan(old(self)@, *frame, project, sink_rejects, verdict) {
                Err(error) => {
                    &&& stage == Err::<RenderStage, NativeMasterError>(error)
                    &&& final(self)@ == failed(old(self)@)
                },
                Ok(plan) => {
                    &&& stage == Ok::<RenderStage, NativeMasterError>(RenderStage::Parts { plan })
                    &&& final(self)@ == old(self)@
                    &&& audio_render::plan_is_whole(plan)
                    &&& plan.frame == old(self)@.expected_next_frame
                },
            },
    {
        match self.begin_render(frame, project, sink_rejects, verdict) {
            Err(error) => {
                self.fail();
                Err(error)
            },
            Ok(plan) => Ok(RenderStage::Parts { plan }),
        }
    }

    /// Finds the parts of a frame that the sources fill, given what rendering each came to.
    fn collect_parts(&self, plan: &AudioFramePlan, outcomes: &Vec<Result<(), OutsideFailure>>) -> (found:
        Result<Vec<(InputId, SourceRender)>, NativeMasterError>)
        requires
            audio_render::plan_is_whole(*plan),
            outcomes@.len() == self@.sources.len(),
        ensures
            match found {
                Ok(parts) => parts_from(self@, *plan, outcomes@, 0, Seq::empty()) == Ok::<
                    Seq<(InputId, SourceRender)>,
                    NativeMasterError,
                >(parts@),
                Err(error) => parts_from(self@, *plan, outcomes@, 0, Seq::empty()) == Err::<
                    Seq<(InputId, SourceRender)>,
                    NativeMasterError,
                >(error),
            },
    {
        let mut parts: Vec<(InputId, SourceRender)> = Vec::new();
        let mut i: usize = 0;
        while i < self.sources.entries.len()
            invariant
                i <= self@.sources.len(),
                audio_render::plan_is_whole(*plan),
                outcomes@.len() == self@.sources.len(),
                parts_from(self@, *plan, outcomes@, 0, Seq::empty()) == parts_from(
                    self@,
                    *plan,
                    outcomes@,
                    i as int,
                    parts@,
                ),
            decreases self@.sources.len() - i,
        {
            match self.source_render(i, plan) {
                Err(error) => {
                    return Err(error);
                },
                Ok(None) => {},
                Ok(Some(part)) => match outcomes[i] {
                    Err(error) => {
                        return Err(NativeMasterError::Synchronizer(error));
                    },
                    Ok(()) => {
                        parts.push((self.sources.entries[i].0, part));
                    },
                },
            }
            i = i + 1;
        }
        Ok(parts)
    }

    /// Lets the synchronizers play their parts, in order.
    fn play_parts(
        &mut self,
        parts: &Vec<(InputId, SourceRender)>,
        played: &Vec<Result<NativeAudioCharge, OutsideFailure>>,
    ) -> (outcome: Result<(), NativeMasterError>)
        requires
            old(self).wf(),
            played@.len() == parts@.len(),
        ensures
            final(self).wf(),
            (final(self)@, outcome) == parts_played(old(self)@, parts@, played@, 0),
    {
        let mut i: usize = 0;
        while i < parts.len()
            invariant
                self.wf(),
                i <= parts@.len(),
                played@.len() == parts@.len(),
                parts_played(old(self)@, parts@, played@, 0) == parts_played(
                    self@,
                    parts@,
                    played@,
                    i as int,
                ),
            decreases parts@.len() - i,
        {
            match self.commit_render(parts[i].0, played[i]) {
                Err(error) => {
                    return Err(error);
                },
                Ok(()) => {},
            }
            i = i + 1;
        }
        Ok(())
    }

    /// Goes from one stage of the render of a frame to the next.
    pub fn render(&mut self, stage: RenderStage, event: RenderEvent) -> (next: Result<
        RenderStage,
        NativeMasterError,
    >)
        requires
            old(self).wf(),
            answers_render(old(self)@, stage@, event),
        ensures
            final(self).wf(),
            ({
                let (after, outcome) = render_step(old(self)@, stage@, event);
                &&& final(self)@ == after
                &&& match next {
                    Ok(next) => outcome == Ok::<RenderModel, NativeMasterError>(next@),
                    Err(error) => outcome == Err::<RenderModel, NativeMasterError>(error),
                }
            }),
    {
        match (stage, event) {
            (RenderStage::Parts { plan }, RenderEvent::Rendered(outcomes)) => {
                match self.collect_parts(&plan, &outcomes) {
                    Err(error) => {
                        self.fail();
                        Err(error)
                    },
                    Ok(parts) => Ok(RenderStage::Mix { plan, parts }),
                }
            },
            (RenderStage::Mix { plan, parts }, RenderEvent::Mixed(mixed)) => match mixed {
                Err(error) => {
                    self.fail();
                    Err(error)
                },
                Ok(()) => Ok(RenderStage::Check { plan, parts }),
            },
            (RenderStage::Check { plan, parts }, RenderEvent::Checked(checked)) => {
                let mut commits: Vec<(InputId, Result<(), OutsideFailure>)> = Vec::new();
                let mut i: usize = 0;
                while i < parts.len()
                    invariant
                        i <= parts@.len(),
                        checked@.len() == parts@.len(),
                        commits@ == commits_of(parts@, checked@).take(i as int),
                    decreases parts@.len() - i,
                {
                    commits.push((parts[i].0, checked[i]));
                    i = i + 1;
                    assert(commits@ =~= commits_of(parts@, checked@).take(i as int));
                }
                assert(commits@ =~= commits_of(parts@, checked@));
                match self.preflight_render_commits(&commits) {
                    Err(error) => {
                        self.fail();
                        Err(error)
                    },
                    Ok(()) => Ok(RenderStage::Play { plan, parts }),
                }
            },
            (RenderStage::Play { plan, parts }, RenderEvent::Played(played)) => {
                match self.play_parts(&parts, &played) {
                    Err(error) => {
                        self.fail();
                        Err(error)
                    },
                    Ok(()) => Ok(RenderStage::Collect { plan }),
                }
            },
            (RenderStage::Collect { plan }, RenderEvent::Collected(collected)) => {
                match collected {
                    Err(error) => {
                        self.fail();
                        return Err(error);
                    },
                    Ok(()) => {},
                }
                match self.finish_render(&plan) {
                    Err(error) => {
                        self.fail();
                        Err(error)
                    },
                    Ok(()) => Ok(RenderStage::Over),
                }
            },
            (stage, _) => Ok(stage),
        }
    }
}

proof fn lemma_playing_keeps_place(
    lane: LaneModel,
    parts: Seq<(InputId, SourceRender)>,
    played: Seq<Result<NativeAudioCharge, OutsideFailure>>,
    i: int,
)
    ensures
        ({
            let after = parts_played(lane, parts, played, i).0;
            &&& after.expected_next_frame == lane.expected_next_frame
            &&& after.ready_frame == lane.ready_frame
            &&& after.failed == lane.failed
        }),
    decreases parts.len() - i,
{
    if i < parts.len() {
        match audio_render::played(lane, parts[i].0, played[i]) {
            (_, Err(_)) => {},
            (after, Ok(_)) => {
                lemma_playing_keeps_place(after, parts, played, i + 1);
            },
        }
    }
}

/// A failed frame fails the lane, but neither moves its frame cursor nor takes back that the
/// frame had been serviced. A rendered frame moves the cursor by one and has to be serviced
/// anew.
pub proof fn a_failed_frame_keeps_its_place(
    lane: LaneModel,
    stage: RenderModel,
    event: RenderEvent,
)
    ensures
        ({
            let (after, next) = render_step(lane, stage, event);
            if !(stage is Over) && next == Ok::<RenderModel, NativeMasterError>(RenderModel::Over) {
                &&& after.expected_next_frame == lane.expected_next_frame + 1
                &&& after.ready_frame is None
                &&& after.failed == lane.failed
            } else {
                &&& after.expected_next_frame == lane.expected_next_frame
                &&& after.ready_frame == lane.ready_frame
                &&& after.failed == (lane.failed || next is Err)
            }
        }),
{
    match (stage, event) {
        (RenderModel::Play { parts, .. }, RenderEvent::Played(played)) => {
            lemma_playing_keeps_place(lane, parts, played@, 0);
        },
        _ => {},
    }
}

} // verus!
