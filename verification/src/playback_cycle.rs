//! The order of the steps by which the rings of all sources are serviced.
//!
//! Between two steps the decoders and the renderer do their part. Each stage says what is waited
//! for, and each event brings what came of it. Playback that has failed once stays failed.
use vstd::prelude::*;

use crate::model::{InputId, OutsideFailure};
use crate::ordered;
use crate::source;
use crate::source_playback;
use crate::source_playback::{
    NativeDecodeResult, NativeSourcePlayback, NativeSourcePlaybackError, PageVerdict, VerdictModel,
};
use crate::source_registry;
use crate::source_registry::{NativeDecodeRequest, RegistryModel, WorkingFrame};

verus! {

/// What playback holds.
#[verifier::ext_equal]
pub struct RingsModel {
    pub registry: RegistryModel,
    pub failed: bool,
}

impl View for NativeSourcePlayback {
    type V = RingsModel;

    open spec fn view(&self) -> RingsModel {
        RingsModel { registry: self.registry@, failed: self.failed }
    }
}

/// What a service is about.
#[derive(Clone, Copy, Debug, PartialEq, Eq)]
pub struct PlaybackService {
    pub deadline_ns: u64,
    /// The input that the service is confined to, if it is.
    pub only: Option<InputId>,
}

/// How far a service has come, and what it waits for.
#[derive(Debug)]
pub enum PlaybackStage {
    /// The answers that the decoders have given.
    Answers,
    /// The frames of the answer at this place are to be uploaded.
    Upload { answers: Vec<NativeDecodeResult>, place: usize },
    /// The requests go to the decoders.
    Over { requests: Vec<NativeDecodeRequest>, covered: bool },
}

/// What a stage of a service holds.
#[verifier::ext_equal]
pub enum PlaybackStageModel {
    Answers,
    Upload { answers: Seq<NativeDecodeResult>, place: int },
    Over { requests: Seq<NativeDecodeRequest>, covered: bool },
}

impl View for PlaybackStage {
    type V = PlaybackStageModel;

    open spec fn view(&self) -> PlaybackStageModel {
        match self {
            PlaybackStage::Answers => PlaybackStageModel::Answers,
            PlaybackStage::Upload { answers, place } => PlaybackStageModel::Upload {
                answers: answers@,
                place: *place as int,
            },
            PlaybackStage::Over { requests, covered } => PlaybackStageModel::Over {
                requests: requests@,
                covered: *covered,
            },
        }
    }
}

impl PlaybackStageModel {
    /// Whether the answer that is uploaded is there.
    pub open spec fn wf(self) -> bool {
        self matches PlaybackStageModel::Upload { answers, place } ==> 0 <= place < answers.len()
    }
}

/// What came of that which a stage of a service waited for.
#[derive(Debug)]
pub enum PlaybackEvent {
    /// The answers, or why the worker gives none any more.
    Answered(Result<Vec<NativeDecodeResult>, NativeSourcePlaybackError>),
    /// The uploaded frames of an answer.
    Uploaded(Result<Vec<WorkingFrame>, OutsideFailure>),
}

/// Whether an event is what a stage waits for.
pub open spec fn answers_playback(stage: PlaybackStageModel, event: PlaybackEvent) -> bool {
    match (stage, event) {
        (PlaybackStageModel::Answers, PlaybackEvent::Answered(_)) => true,
        (PlaybackStageModel::Upload { answers, place }, PlaybackEvent::Uploaded(uploaded)) => {
            (source_playback::answer(answers[place]) is Ok && uploaded is Ok)
                ==> uploaded->Ok_0@.len() == source_playback::answer(answers[place])->Ok_0.0.len()
        },
        _ => false,
    }
}

/// The failed playback, with why it failed.
pub open spec fn broken(registry: RegistryModel, error: NativeSourcePlaybackError) -> (
    RingsModel,
    Result<PlaybackStageModel, NativeSourcePlaybackError>,
) {
    (RingsModel { registry, failed: true }, Err(error))
}

/// Whether a service may begin.
pub open spec fn service_allowed(rings: RingsModel, only: Option<InputId>) -> Result<
    (),
    NativeSourcePlaybackError,
> {
    if rings.failed {
        Err(NativeSourcePlaybackError::Failed)
    } else {
        match only {
            None => Ok(()),
            Some(input) => match rings.registry.prefix(input) {
                Some(prefix) => if prefix.available_for_stinger {
                    Ok(())
                } else {
                    Err(NativeSourcePlaybackError::MissingSource { input })
                },
                None => Err(NativeSourcePlaybackError::MissingSource { input }),
            },
        }
    }
}

/// The playback and the stage after the answers from `place` on have been looked at, up to the
/// first whose frames are to be uploaded.
pub open spec fn looked_through(
    registry: RegistryModel,
    service: PlaybackService,
    answers: Seq<NativeDecodeResult>,
    place: int,
) -> (RingsModel, Result<PlaybackStageModel, NativeSourcePlaybackError>)
    decreases answers.len() - place,
{
    if place >= answers.len() {
        let served = source_playback::serviced(registry, service.deadline_ns, service.only);
        match served.covered {
            Err(error) => broken(served.registry, error),
            Ok(covered) => (
                RingsModel { registry: served.registry, failed: false },
                Ok(PlaybackStageModel::Over { requests: served.requests, covered }),
            ),
        }
    } else {
        let window = source_playback::answer(answers[place]);
        match source_playback::page_verdict(registry, answers[place].request, window) {
            Err(error) => broken(registry, error),
            Ok(VerdictModel::Upload(_)) => (
                RingsModel { registry, failed: false },
                Ok(PlaybackStageModel::Upload { answers, place }),
            ),
            Ok(VerdictModel::EndOfStream) => looked_through(
                source_playback::answered(
                    registry,
                    answers[place].request,
                    window,
                    Ok(Seq::empty()),
                )->Ok_0,
                service,
                answers,
                place + 1,
            ),
        }
    }
}

/// The playback and the stage that follow on a stage and what came of it.
pub open spec fn playback_step(
    rings: RingsModel,
    service: PlaybackService,
    stage: PlaybackStageModel,
    event: PlaybackEvent,
) -> (RingsModel, Result<PlaybackStageModel, NativeSourcePlaybackError>) {
    if rings.failed {
        (rings, Err(NativeSourcePlaybackError::Failed))
    } else {
        match (stage, event) {
            (PlaybackStageModel::Answers, PlaybackEvent::Answered(answers)) => match answers {
                Err(error) => broken(rings.registry, error),
                Ok(answers) => looked_through(rings.registry, service, answers@, 0),
            },
            (
                PlaybackStageModel::Upload { answers, place },
                PlaybackEvent::Uploaded(uploaded),
            ) => match source_playback::answered(
                rings.registry,
                answers[place].request,
                source_playback::answer(answers[place]),
                source_playback::upload_views(uploaded),
            ) {
                Err(error) => broken(rings.registry, error),
                Ok(after) => looked_through(after, service, answers, place + 1),
            },
            _ => (rings, Ok(stage)),
        }
    }
}

/// Whether a step came to what was told of it.
pub open spec fn comes_to(
    told: (RingsModel, Result<PlaybackStageModel, NativeSourcePlaybackError>),
    after: RingsModel,
    next: Result<PlaybackStage, NativeSourcePlaybackError>,
) -> bool {
    &&& told.0 == after
    &&& match next {
        Ok(stage) => told.1 == Ok::<PlaybackStageModel, NativeSourcePlaybackError>(stage@)
            && stage@.wf(),
        Err(error) => told.1 == Err::<PlaybackStageModel, NativeSourcePlaybackError>(error),
    }
}

impl NativeSourcePlayback {
    /// Begins to service the rings.
    pub fn start_service(&self, service: PlaybackService) -> (stage: Result<
        PlaybackStage,
        NativeSourcePlaybackError,
    >)
        requires
            self.wf(),
        ensures
            match service_allowed(self@, service.only) {
                Ok(_) => stage == Ok::<PlaybackStage, NativeSourcePlaybackError>(
                    PlaybackStage::Answers,
                ),
                Err(error) => stage == Err::<PlaybackStage, NativeSourcePlaybackError>(error),
            },
    {
        match self.begin_service(service.only) {
            Err(error) => Err(error),
            Ok(()) => Ok(PlaybackStage::Answers),
        }
    }

    /// Looks through the answers from `place` on.
    fn look_through(
        &mut self,
        service: PlaybackService,
        answers: Vec<NativeDecodeResult>,
        place: usize,
    ) -> (next: Result<PlaybackStage, NativeSourcePlaybackError>)
        requires
            old(self).wf(),
            !old(self)@.failed,
            place <= answers@.len(),
        ensures
            final(self).wf(),
            comes_to(
                looked_through(old(self)@.registry, service, answers@, place as int),
                final(self)@,
                next,
            ),
            next matches Ok(PlaybackStage::Over { covered: true, .. })
                ==> source_playback::known_up_to(
                final(self)@.registry,
                service.deadline_ns,
                service.only,
            ),
    {
        let mut at: usize = place;
        let ghost told = looked_through(self@.registry, service, answers@, place as int);
        let length: usize = answers.len();
        while at < length
            invariant
                length == answers@.len(),
                at <= length,
                self.wf(),
                !self@.failed,
                told == looked_through(self@.registry, service, answers@, at as int),
                told == looked_through(old(self)@.registry, service, answers@, place as int),
            decreases length - at,
        {
            match self.registry.check_page(&answers[at]) {
                Err(error) => {
                    self.fail();
                    return Err(error);
                },
                Ok(PageVerdict::Upload(_)) => {
                    return Ok(PlaybackStage::Upload { answers, place: at });
                },
                Ok(PageVerdict::EndOfStream) => {
                    let nothing: Vec<WorkingFrame> = Vec::new();
                    assert(nothing@ =~= Seq::<WorkingFrame>::empty());
                    match self.receive_page(&answers[at], Ok(nothing)) {
                        Err(error) => {
                            return Err(error);
                        },
                        Ok(()) => {},
                    }
                },
            }
            at = at + 1;
        }
        match self.service(service.deadline_ns, service.only) {
            Err(error) => Err(error),
            Ok((requests, covered)) => Ok(PlaybackStage::Over { requests, covered }),
        }
    }

    /// Takes what came of that which a stage waited for, and goes on to the next.
    pub fn serve(
        &mut self,
        service: PlaybackService,
        stage: PlaybackStage,
        event: PlaybackEvent,
    ) -> (next: Result<PlaybackStage, NativeSourcePlaybackError>)
        requires
            old(self).wf(),
            stage@.wf(),
            answers_playback(stage@, event),
        ensures
            final(self).wf(),
            comes_to(playback_step(old(self)@, service, stage@, event), final(self)@, next),
            next matches Ok(PlaybackStage::Over { covered: true, .. })
                ==> source_playback::known_up_to(
                final(self)@.registry,
                service.deadline_ns,
                service.only,
            ),
    {
        if self.failed {
            return Err(NativeSourcePlaybackError::Failed);
        }
        match (stage, event) {
            (PlaybackStage::Answers, PlaybackEvent::Answered(answers)) => match answers {
                Err(error) => {
                    self.fail();
                    Err(error)
                },
                Ok(answers) => self.look_through(service, answers, 0),
            },
            (
                PlaybackStage::Upload { answers, place },
                PlaybackEvent::Uploaded(uploaded),
            ) => match self.receive_page(&answers[place], uploaded) {
                Err(error) => Err(error),
                Ok(()) => {
                    let length: usize = answers.len();
                    assert(place < length);
                    self.look_through(service, answers, place + 1)
                },
            },
            (stage, _) => Ok(stage),
        }
    }
}

/// Playback that fails stays failed: every later step fails and changes nothing.
pub proof fn a_failed_playback_stays_failed(
    rings: RingsModel,
    service: PlaybackService,
    stage: PlaybackStageModel,
    event: PlaybackEvent,
)
    ensures
        rings.failed ==> playback_step(rings, service, stage, event) == (
            rings,
            Err::<PlaybackStageModel, NativeSourcePlaybackError>(NativeSourcePlaybackError::Failed),
        ) && service_allowed(rings, service.only) is Err,
        playback_step(rings, service, stage, event).1 is Err ==> playback_step(
            rings,
            service,
            stage,
            event,
        ).0.failed,
{
    if !rings.failed {
        match (stage, event) {
            (PlaybackStageModel::Answers, PlaybackEvent::Answered(Ok(answers))) => {
                lemma_errors_are_final(rings.registry, service, answers@, 0);
            },
            (
                PlaybackStageModel::Upload { answers, place },
                PlaybackEvent::Uploaded(uploaded),
            ) => {
                if let Ok(after) = source_playback::answered(
                    rings.registry,
                    answers[place].request,
                    source_playback::answer(answers[place]),
                    source_playback::upload_views(uploaded),
                ) {
                    lemma_errors_are_final(after, service, answers, place + 1);
                }
            },
            _ => {},
        }
    }
}

proof fn lemma_errors_are_final(
    registry: RegistryModel,
    service: PlaybackService,
    answers: Seq<NativeDecodeResult>,
    place: int,
)
    ensures
        looked_through(registry, service, answers, place).1 is Err == looked_through(
            registry,
            service,
            answers,
            place,
        ).0.failed,
    decreases answers.len() - place,
{
    if place < answers.len() {
        let window = source_playback::answer(answers[place]);
        if source_playback::page_verdict(registry, answers[place].request, window) == Ok::<
            VerdictModel,
            NativeSourcePlaybackError,
        >(VerdictModel::EndOfStream) {
            lemma_errors_are_final(
                source_playback::answered(
                    registry,
                    answers[place].request,
                    window,
                    Ok(Seq::empty()),
                )->Ok_0,
                service,
                answers,
                place + 1,
            );
        }
    }
}

/// A deadline that is covered finds a picture of every source that was attended to.
pub proof fn covered_deadlines_have_pictures(
    registry: RegistryModel,
    service: PlaybackService,
    input: InputId,
)
    requires
        source_playback::serviced(registry, service.deadline_ns, service.only).registry.wf(),
        source_playback::attends(service.only, input),
        source_playback::serviced(
            registry,
            service.deadline_ns,
            service.only,
        ).registry.prefix(input) is Some,
        source_playback::serviced(registry, service.deadline_ns, service.only).covered == Ok::<
            bool,
            NativeSourcePlaybackError,
        >(true),
    ensures
        source_playback::serviced(
            registry,
            service.deadline_ns,
            service.only,
        ).registry.prefix(input)->Some_0.frame_at(service.deadline_ns) is Some,
{
    let after = source_playback::serviced(registry, service.deadline_ns, service.only).registry;
    let prefix = after.prefix(input)->Some_0;
    let slot = ordered::lower_bound(ordered::entry_keys(after.sources), input);
    ordered::lemma_lower_bound(ordered::entry_keys(after.sources), input);
    assert(after.sources[slot].1 == prefix);
    assert(after.sources[slot].1.wf(after.sources[slot].0, after.limits));
    assert(prefix.is_ready(service.deadline_ns));
    source_registry::lemma_ascending_is_sorted(prefix.offsets_ns);
    source::lemma_shown_index(prefix.offsets_ns, service.deadline_ns);
}

} // verus!
