//! Ordinary audio beside the clips of Stingers, each with a cursor of its own.
use vstd::prelude::*;

use crate::audio_limits;
use crate::audio_limits::{NativeAudioCharge, NativeAudioTelemetry, NativeMasterError};
use crate::audio_master;
use crate::audio_master::{LaneModel, NativeMasterLane};
use crate::audio_mix;
use crate::audio_mix::{
    stinger_audio_request, NativeStingerAudioRequest, NativeStingerAudioTrigger,
};
use crate::audio_render;
use crate::model::{
    FadeToBlackFrame, FadeToBlackPosition, FrameResult, InputId, OutsideFailure, ProgramFrame,
    StingerAudioPolicy,
};
use crate::ordered;
use crate::ordered::OrderedMap;
use crate::project_plan::NativeProjectPlan;
use crate::render::StingerFramePlan;

verus! {

/// The clips of Stingers that may be heard.
pub struct NativeStingerAudioPlayback {
    pub masters: OrderedMap<InputId, NativeMasterLane>,
    pub silent_inputs: Vec<InputId>,
    pub active_trigger: Option<NativeStingerAudioTrigger>,
    pub ready: Option<NativeStingerAudioRequest>,
}

/// What the clips of Stingers hold.
#[verifier::ext_equal]
pub struct PlaybackModel {
    pub masters: Seq<(InputId, LaneModel)>,
    pub silent_inputs: Seq<InputId>,
    pub active_trigger: Option<NativeStingerAudioTrigger>,
    pub ready: Option<NativeStingerAudioRequest>,
}

/// What lanes hold, each with its input.
pub open spec fn lanes_of(masters: Seq<(InputId, NativeMasterLane)>) -> Seq<(InputId, LaneModel)> {
    Seq::new(masters.len(), |i: int| (masters[i].0, masters[i].1@))
}

impl View for NativeStingerAudioPlayback {
    type V = PlaybackModel;

    open spec fn view(&self) -> PlaybackModel {
        PlaybackModel {
            masters: lanes_of(self.masters.entries@),
            silent_inputs: self.silent_inputs@,
            active_trigger: self.active_trigger,
            ready: self.ready,
        }
    }
}

impl PlaybackModel {
    /// The inputs that have a clip, in ascending order.
    pub open spec fn inputs(self) -> Seq<InputId> {
        ordered::entry_keys(self.masters)
    }

    /// Whether the clips stand in order and each lane is in order.
    pub open spec fn wf(self) -> bool {
        &&& ordered::ascending(self.inputs())
        &&& forall|i: int| 0 <= i < self.masters.len() ==> (#[trigger] self.masters[i]).1.wf()
    }

    /// Where the clip of an input stands.
    pub open spec fn slot(self, media: InputId) -> int {
        ordered::lower_bound(self.inputs(), media)
    }

    /// Whether an input has a clip.
    pub open spec fn has_clip(self, media: InputId) -> bool {
        self.inputs().contains(media)
    }

    /// The lane of the clip of an input.
    pub open spec fn lane(self, media: InputId) -> LaneModel {
        self.masters[self.slot(media)].1
    }

    /// The playback with another lane for the clip of an input.
    pub open spec fn with_lane(self, media: InputId, lane: LaneModel) -> Self {
        PlaybackModel { masters: self.masters.update(self.slot(media), (media, lane)), ..self }
    }
}

/// What has to be done for a Stinger before a frame.
#[derive(Clone, Copy, Debug, PartialEq, Eq, Structural)]
pub enum StingerService {
    /// Nothing is missing.
    Covered,
    /// The lane of the clip has to be serviced. Where the clip has been restarted, its mixers
    /// and synchronizers have to be reset before.
    Clip { request: NativeStingerAudioRequest, restarted: bool },
}

/// What is heard of a Stinger during a frame.
#[derive(Clone, Copy, Debug, PartialEq, Eq, Structural)]
pub enum StingerRender {
    /// The Stinger, if there is one, leaves the program as it is.
    Nothing,
    /// The Stinger is heard, and its media have no audio.
    Silence(NativeStingerAudioRequest),
    /// The lane of the clip has to render this frame.
    Clip { request: NativeStingerAudioRequest, frame: FrameResult },
}

/// A program that is not faded.
pub open spec fn live() -> FadeToBlackFrame {
    FadeToBlackFrame {
        interval_start: FadeToBlackPosition { numerator: 0, denominator: 1 },
        interval_end: FadeToBlackPosition { numerator: 0, denominator: 1 },
    }
}

/// The frame that a clip renders: its media alone, by the clip's own count, not faded.
pub open spec fn clip_frame(request: NativeStingerAudioRequest, frame: FrameResult) -> FrameResult {
    FrameResult {
        frame: request.frame_index as u64,
        deadline_ns: frame.deadline_ns,
        program: ProgramFrame {
            primary: request.trigger.media,
            secondary: None,
            transition_kind: None,
            mix_numerator: 0,
            mix_denominator: 1,
            mix_start_numerator: 0,
            mix_end_numerator: 0,
        },
        fade_to_black: live(),
    }
}

/// The clip that is restarted by the frame that is asked for: that of a Stinger which is heard
/// and comes after another showing.
pub open spec fn restart_wanted(
    playback: PlaybackModel,
    asked: Result<Option<NativeStingerAudioRequest>, NativeMasterError>,
) -> Option<InputId> {
    match asked {
        Ok(Some(request)) => {
            let media = request.trigger.media;
            if request.policy != StingerAudioPolicy::Muted && !playback.silent_inputs.contains(
                media,
            ) && playback.active_trigger is Some && playback.active_trigger != Some(
                request.trigger,
            ) && playback.has_clip(media) {
                Some(media)
            } else {
                None
            }
        },
        _ => None,
    }
}

/// The playback with its clip at the begin of the showing that is asked for: the first showing
/// only takes its place in the program, a later one restarts the clip, and the showing that
/// goes on is left alone.
pub open spec fn aimed(playback: PlaybackModel, trigger: NativeStingerAudioTrigger) -> (
    PlaybackModel,
    Result<(), NativeMasterError>,
) {
    let media = trigger.media;
    if playback.active_trigger == Some(trigger) {
        (playback, Ok(()))
    } else if !playback.has_clip(media) {
        (playback, Err(NativeMasterError::MissingAudioRoute { input: media }))
    } else if playback.active_trigger is None {
        (
            playback.with_lane(
                media,
                LaneModel {
                    cadence_origin_frame: trigger.cadence_origin_frame,
                    ..playback.lane(media)
                },
            ),
            Ok(()),
        )
    } else {
        let (lane, outcome) = audio_render::restarted_lane(
            playback.lane(media),
            trigger.cadence_origin_frame,
        );
        (playback.with_lane(media, lane), outcome)
    }
}

/// The playback after a frame has been looked at, and what has to be done for it.
pub open spec fn begun(
    playback: PlaybackModel,
    asked: Result<Option<NativeStingerAudioRequest>, NativeMasterError>,
) -> (PlaybackModel, Result<StingerService, NativeMasterError>) {
    match asked {
        Err(error) => (playback, Err(error)),
        Ok(None) => (PlaybackModel { ready: None, ..playback }, Ok(StingerService::Covered)),
        Ok(Some(request)) => {
            let media = request.trigger.media;
            let heard = PlaybackModel {
                active_trigger: Some(request.trigger),
                ready: Some(request),
                ..playback
            };
            if request.policy == StingerAudioPolicy::Muted || playback.silent_inputs.contains(
                media,
            ) {
                (heard, Ok(StingerService::Covered))
            } else {
                match aimed(playback, request.trigger) {
                    (after, Err(error)) => (after, Err(error)),
                    (after, Ok(_)) => {
                        let active = PlaybackModel {
                            active_trigger: Some(request.trigger),
                            ..after
                        };
                        if !active.has_clip(media) {
                            (active, Err(NativeMasterError::MissingAudioRoute { input: media }))
                        } else if active.lane(media).expected_next_frame != request.frame_index {
                            (
                                active,
                                Err(
                                    NativeMasterError::UnexpectedFrame {
                                        expected: active.lane(media).expected_next_frame,
                                        actual: request.frame_index as u64,
                                    },
                                ),
                            )
                        } else {
                            (
                                active,
                                Ok(
                                    StingerService::Clip {
                                        request,
                                        restarted: playback.active_trigger is Some
                                            && playback.active_trigger != Some(request.trigger),
                                    },
                                ),
                            )
                        }
                    },
                }
            }
        },
    }
}

/// The playback after the audio of a frame has been called for, and what is heard.
pub open spec fn called(
    playback: PlaybackModel,
    asked: Result<Option<NativeStingerAudioRequest>, NativeMasterError>,
    frame: FrameResult,
) -> (PlaybackModel, Result<StingerRender, NativeMasterError>) {
    let used = PlaybackModel { ready: None, ..playback };
    match asked {
        Err(error) => (playback, Err(error)),
        Ok(None) => (used, Ok(StingerRender::Nothing)),
        Ok(Some(request)) => if playback.ready != Some(request) {
            (playback, Err(NativeMasterError::FrameNotReady(frame.frame)))
        } else if request.policy == StingerAudioPolicy::Muted {
            (used, Ok(StingerRender::Nothing))
        } else if playback.silent_inputs.contains(request.trigger.media) {
            (used, Ok(StingerRender::Silence(request)))
        } else if !playback.has_clip(request.trigger.media) {
            (used, Err(NativeMasterError::MissingAudioRoute { input: request.trigger.media }))
        } else {
            (
                used,
                Ok(StingerRender::Clip { request, frame: clip_frame(request, frame) }),
            )
        },
    }
}

/// The showing of a Stinger that goes on is not restarted, whatever else changes in its frames.
pub proof fn a_showing_that_goes_on_is_left_alone(
    playback: PlaybackModel,
    request: NativeStingerAudioRequest,
)
    requires
        playback.active_trigger == Some(request.trigger),
    ensures
        begun(playback, Ok(Some(request))).0.masters == playback.masters,
        begun(playback, Ok(Some(request))).0.active_trigger == playback.active_trigger,
{
}

/// A restart is told: where a clip is wanted from its begin again its lane is restarted,
/// whatever comes of the service then, and the answer says so; where none is, no lane is
/// restarted and no answer says that one was.
pub proof fn a_restart_is_told(
    playback: PlaybackModel,
    asked: Result<Option<NativeStingerAudioRequest>, NativeMasterError>,
)
    requires
        playback.wf(),
    ensures
        ({
            let wanted = restart_wanted(playback, asked);
            let (after, begin) = begun(playback, asked);
            &&& begin matches Ok(StingerService::Clip { request, restarted }) ==> (restarted
                <==> wanted == Some(request.trigger.media))
            &&& wanted matches Some(media) ==> after.lane(media)
                == audio_render::restarted_lane(
                playback.lane(media),
                asked->Ok_0->Some_0.trigger.cadence_origin_frame,
            ).0
            &&& wanted is None ==> after.masters.len() == playback.masters.len() && forall|i: int|
                0 <= i < playback.masters.len() ==> (#[trigger] after.masters[i]).1.sources
                    == playback.masters[i].1.sources
        }),
{
    if let Ok(Some(request)) = asked {
        let media = request.trigger.media;
        ordered::lemma_lower_bound(playback.inputs(), media);
        ordered::lemma_contains_at_lower_bound(playback.inputs(), media);
        if playback.has_clip(media) {
            let slot = playback.slot(media);
            assert(playback.inputs()[slot] == playback.masters[slot].0);
            let after = begun(playback, asked).0;
            assert(after.inputs() =~= playback.inputs());
        }
    }
}

/// A clip that has been restarted holds nothing when its lane is serviced.
pub proof fn a_restarted_clip_holds_nothing(
    playback: PlaybackModel,
    asked: Result<Option<NativeStingerAudioRequest>, NativeMasterError>,
)
    requires
        playback.wf(),
    ensures
        begun(playback, asked).1 matches Ok(StingerService::Clip { request, restarted: true })
            ==> audio_master::held_by(begun(playback, asked).0.lane(request.trigger.media).sources)
            == NativeAudioCharge::zero(),
{
    a_restart_is_told(playback, asked);
    if let Ok(StingerService::Clip { request, restarted: true }) = begun(playback, asked).1 {
        audio_render::a_restarted_lane_holds_nothing(
            playback.lane(request.trigger.media),
            request.trigger.cadence_origin_frame,
        );
    }
}

/// Only the clip that is asked for moves.
pub proof fn only_the_clip_asked_for_moves(
    playback: PlaybackModel,
    request: NativeStingerAudioRequest,
    i: int,
)
    requires
        playback.wf(),
        0 <= i < playback.masters.len(),
        playback.masters[i].0 != request.trigger.media,
    ensures
        begun(playback, Ok(Some(request))).0.masters[i] == playback.masters[i],
{
    let media = request.trigger.media;
    let slot = playback.slot(media);
    ordered::lemma_lower_bound(playback.inputs(), media);
    ordered::lemma_contains_at_lower_bound(playback.inputs(), media);
    if playback.has_clip(media) {
        assert(playback.inputs()[slot] == playback.masters[slot].0);
        assert(slot != i);
    }
}

/// What was made ready is heard, and only once.
pub proof fn what_is_ready_is_heard_once(
    playback: PlaybackModel,
    request: NativeStingerAudioRequest,
    frame: FrameResult,
)
    requires
        playback.ready == Some(request),
    ensures
        called(playback, Ok(Some(request)), frame).1 matches Ok(heard) ==> {
            &&& heard is Nothing <==> request.policy == StingerAudioPolicy::Muted
            &&& called(
                called(playback, Ok(Some(request)), frame).0,
                Ok(Some(request)),
                frame,
            ).1 == Err::<StingerRender, NativeMasterError>(
                NativeMasterError::FrameNotReady(frame.frame),
            )
        },
{
}

/// Where two triggers are the same.
pub fn same_trigger(
    active: Option<NativeStingerAudioTrigger>,
    trigger: NativeStingerAudioTrigger,
) -> (same: bool)
    ensures
        same == (active == Some(trigger)),
{
    match active {
        None => false,
        Some(active) => active == trigger,
    }
}

impl NativeStingerAudioPlayback {
    /// Whether the clips stand in order and each lane is in order.
    pub open spec fn wf(self) -> bool {
        self@.wf()
    }

    proof fn lemma_keys(self)
        ensures
            self@.inputs() == self.masters.keys(),
            self.wf() ==> self.masters.wf(),
    {
        assert(self@.inputs() =~= self.masters.keys());
    }

    /// Finds the place of the clip of an input.
    fn clip_slot(&self, media: InputId) -> (slot: Result<usize, NativeMasterError>)
        requires
            self.wf(),
        ensures
            match slot {
                Ok(slot) => self@.has_clip(media) && slot == self@.slot(media) && slot
                    < self@.masters.len() && self@.masters[slot as int].0 == media
                    && self.masters.entries@[slot as int].0 == media,
                Err(error) => !self@.has_clip(media) && error
                    == (NativeMasterError::MissingAudioRoute { input: media }),
            },
    {
        proof {
            self.lemma_keys();
            self.masters.lemma_entries();
            ordered::lemma_contains_at_lower_bound(self@.inputs(), media);
        }
        match self.masters.position(media) {
            None => Err(NativeMasterError::MissingAudioRoute { input: media }),
            Some(slot) => {
                assert(self@.inputs()[slot as int] == media);
                Ok(slot)
            },
        }
    }

    /// Brings the clip to the begin of the showing that is asked for.
    fn aim(&mut self, trigger: NativeStingerAudioTrigger) -> (done: Result<(), NativeMasterError>)
        requires
            old(self).wf(),
        ensures
            final(self).wf(),
            (final(self)@, done) == aimed(old(self)@, trigger),
    {
        if same_trigger(self.active_trigger, trigger) {
            return Ok(());
        }
        let slot: usize = match self.clip_slot(trigger.media) {
            Err(error) => {
                return Err(error);
            },
            Ok(slot) => slot,
        };
        let ghost before = self@;
        let ghost lanes = self.masters.entries@;
        assert(before.masters[slot as int].1.wf());
        if self.active_trigger.is_none() {
            let lane: &mut NativeMasterLane = &mut self.masters.entries[slot].1;
            lane.cadence_origin_frame = trigger.cadence_origin_frame;
            proof {
                let lane = LaneModel {
                    cadence_origin_frame: trigger.cadence_origin_frame,
                    ..before.lane(trigger.media)
                };
                assert(self@.masters =~= before.with_lane(trigger.media, lane).masters);
                assert(self@ =~= before.with_lane(trigger.media, lane));
                assert(self@.inputs() =~= before.inputs());
                assert forall|i: int| 0 <= i < self@.masters.len() implies (
                #[trigger] self@.masters[i]).1.wf() by {
                    assert(i != slot ==> self@.masters[i] == before.masters[i]);
                }
            }
            return Ok(());
        }
        let done: Result<(), NativeMasterError> = {
            let lane: &mut NativeMasterLane = &mut self.masters.entries[slot].1;
            lane.restart_clip_at(trigger.cadence_origin_frame)
        };
        proof {
            let (lane, outcome) = audio_render::restarted_lane(
                before.lane(trigger.media),
                trigger.cadence_origin_frame,
            );
            assert(self@.masters =~= before.with_lane(trigger.media, lane).masters);
            assert(self@ =~= before.with_lane(trigger.media, lane));
            assert(self@.inputs() =~= before.inputs());
            assert forall|i: int| 0 <= i < self@.masters.len() implies (
            #[trigger] self@.masters[i]).1.wf() by {
                assert(i != slot ==> self@.masters[i] == before.masters[i]);
            }
        }
        done
    }

    /// Finds the clip that beginning to service a frame restarts, if it restarts one. Its
    /// mixers and synchronizers have to be reset then, also where the service fails.
    pub fn restarts(
        &self,
        frame: &FrameResult,
        project: &NativeProjectPlan,
        stinger: Result<StingerFramePlan, OutsideFailure>,
    ) -> (media: Option<InputId>)
        requires
            self.wf(),
            project.wf(),
        ensures
            media == restart_wanted(
                self@,
                audio_mix::stinger_request(*project, *frame, stinger),
            ),
    {
        let request: NativeStingerAudioRequest = match stinger_audio_request(
            project,
            frame,
            stinger,
        ) {
            Err(_) => {
                return None;
            },
            Ok(None) => {
                return None;
            },
            Ok(Some(request)) => request,
        };
        let media: InputId = request.trigger.media;
        if request.policy == StingerAudioPolicy::Muted || ordered::lists_key(
            &self.silent_inputs,
            media,
        ) || self.active_trigger.is_none() || same_trigger(self.active_trigger, request.trigger) {
            return None;
        }
        match self.clip_slot(media) {
            Err(_) => None,
            Ok(_) => Some(media),
        }
    }

    /// Begins to service the Stinger of a frame, if it has one.
    pub fn begin_service(
        &mut self,
        frame: &FrameResult,
        project: &NativeProjectPlan,
        stinger: Result<StingerFramePlan, OutsideFailure>,
    ) -> (begin: Result<StingerService, NativeMasterError>)
        requires
            old(self).wf(),
            project.wf(),
        ensures
            final(self).wf(),
            (final(self)@, begin) == begun(
                old(self)@,
                audio_mix::stinger_request(*project, *frame, stinger),
            ),
    {
        let request: NativeStingerAudioRequest = match stinger_audio_request(
            project,
            frame,
            stinger,
        ) {
            Err(error) => {
                return Err(error);
            },
            Ok(None) => {
                self.ready = None;
                return Ok(StingerService::Covered);
            },
            Ok(Some(request)) => request,
        };
        let media: InputId = request.trigger.media;
        if request.policy == StingerAudioPolicy::Muted || ordered::lists_key(
            &self.silent_inputs,
            media,
        ) {
            self.active_trigger = Some(request.trigger);
            self.ready = Some(request);
            return Ok(StingerService::Covered);
        }
        let restarted: bool = self.active_trigger.is_some() && !same_trigger(
            self.active_trigger,
            request.trigger,
        );
        match self.aim(request.trigger) {
            Err(error) => {
                return Err(error);
            },
            Ok(()) => {},
        }
        self.active_trigger = Some(request.trigger);
        let slot: usize = match self.clip_slot(media) {
            Err(error) => {
                return Err(error);
            },
            Ok(slot) => slot,
        };
        let expected: u64 = self.masters.entries[slot].1.expected_next_frame();
        if expected != request.frame_index as u64 {
            return Err(
                NativeMasterError::UnexpectedFrame { expected, actual: request.frame_index as u64 },
            );
        }
        Ok(StingerService::Clip { request, restarted })
    }

    /// Ends the service of a clip: the frame is ready where the clip covers it.
    pub fn finish_service(&mut self, request: NativeStingerAudioRequest, covered: bool)
        requires
            old(self).wf(),
        ensures
            final(self).wf(),
            final(self)@ == (PlaybackModel {
                ready: if covered {
                    Some(request)
                } else {
                    None
                },
                ..old(self)@
            }),
    {
        self.ready = if covered {
            Some(request)
        } else {
            None
        };
    }

    /// Finds what is heard of the Stinger of a frame.
    pub fn begin_render(
        &mut self,
        frame: &FrameResult,
        project: &NativeProjectPlan,
        stinger: Result<StingerFramePlan, OutsideFailure>,
    ) -> (heard: Result<StingerRender, NativeMasterError>)
        requires
            old(self).wf(),
            project.wf(),
        ensures
            final(self).wf(),
            (final(self)@, heard) == called(
                old(self)@,
                audio_mix::stinger_request(*project, *frame, stinger),
                *frame,
            ),
    {
        let request: NativeStingerAudioRequest = match stinger_audio_request(
            project,
            frame,
            stinger,
        ) {
            Err(error) => {
                return Err(error);
            },
            Ok(None) => {
                self.ready = None;
                return Ok(StingerRender::Nothing);
            },
            Ok(Some(request)) => request,
        };
        let is_ready: bool = match self.ready {
            None => false,
            Some(ready) => ready == request,
        };
        if !is_ready {
            return Err(NativeMasterError::FrameNotReady(frame.frame));
        }
        self.ready = None;
        if request.policy == StingerAudioPolicy::Muted {
            return Ok(StingerRender::Nothing);
        }
        if ordered::lists_key(&self.silent_inputs, request.trigger.media) {
            return Ok(StingerRender::Silence(request));
        }
        match self.clip_slot(request.trigger.media) {
            Err(error) => {
                return Err(error);
            },
            Ok(_) => {},
        }
        Ok(
            StingerRender::Clip {
                request,
                frame: FrameResult {
                    frame: request.frame_index as u64,
                    deadline_ns: frame.deadline_ns,
                    program: ProgramFrame {
                        primary: request.trigger.media,
                        secondary: None,
                        transition_kind: None,
                        mix_numerator: 0,
                        mix_denominator: 1,
                        mix_start_numerator: 0,
                        mix_end_numerator: 0,
                    },
                    fade_to_black: FadeToBlackFrame {
                        interval_start: FadeToBlackPosition { numerator: 0, denominator: 1 },
                        interval_end: FadeToBlackPosition { numerator: 0, denominator: 1 },
                    },
                },
            },
        )
    }
}

/// Whether the Stinger of a frame is covered, given what had to be done for it and whether the
/// lane of its clip covers the frame. Without clips, one that is heard never is.
pub open spec fn stinger_covered(begun: Option<StingerService>, clip: bool) -> bool {
    match begun {
        None => false,
        Some(StingerService::Covered) => true,
        Some(StingerService::Clip { .. }) => clip,
    }
}

/// The playback once the service of a frame is over: what is heard of a clip is ready where its
/// lane covers the frame.
pub open spec fn serviced(
    playback: PlaybackModel,
    begun: Option<StingerService>,
    clip: bool,
) -> PlaybackModel {
    match begun {
        Some(StingerService::Clip { request, .. }) => PlaybackModel {
            ready: if clip {
                Some(request)
            } else {
                None
            },
            ..playback
        },
        _ => playback,
    }
}

/// Whether a frame lacks nothing of a Stinger where no clips are played.
pub open spec fn needs_no_clip(request: Option<NativeStingerAudioRequest>) -> bool {
    match request {
        None => true,
        Some(request) => request.policy == StingerAudioPolicy::Muted,
    }
}

/// The ordinary audio of the program and the clips of its Stingers.
pub struct NativeMasterRuntime {
    pub lane: NativeMasterLane,
    pub stinger_audio: Option<NativeStingerAudioPlayback>,
}

/// The counts of all lanes, one after the other.
pub open spec fn merged_counts(
    first: NativeAudioTelemetry,
    masters: Seq<(InputId, LaneModel)>,
) -> NativeAudioTelemetry
    decreases masters.len(),
{
    if masters.len() == 0 {
        first
    } else {
        merged_counts(first, masters.drop_last()).merged(masters.last().1.audio_telemetry)
    }
}

/// The blocks that all lanes hold, capped.
pub open spec fn merged_blocks(first: usize, masters: Seq<(InputId, LaneModel)>) -> usize
    decreases masters.len(),
{
    if masters.len() == 0 {
        first
    } else {
        audio_limits::capped_usize(
            merged_blocks(first, masters.drop_last()),
            audio_master::held_by(masters.last().1.sources).blocks as int,
        )
    }
}

/// The samples that all lanes hold, capped.
pub open spec fn merged_samples(first: usize, masters: Seq<(InputId, LaneModel)>) -> usize
    decreases masters.len(),
{
    if masters.len() == 0 {
        first
    } else {
        audio_limits::capped_usize(
            merged_samples(first, masters.drop_last()),
            audio_master::held_by(masters.last().1.sources).samples as int,
        )
    }
}

/// The bytes that all lanes hold, capped.
pub open spec fn merged_bytes(first: usize, masters: Seq<(InputId, LaneModel)>) -> usize
    decreases masters.len(),
{
    if masters.len() == 0 {
        first
    } else {
        audio_limits::capped_usize(
            merged_bytes(first, masters.drop_last()),
            audio_master::held_by(masters.last().1.sources).bytes as int,
        )
    }
}

impl NativeMasterRuntime {
    /// Whether all lanes are in order.
    pub open spec fn wf(self) -> bool {
        &&& self.lane.wf()
        &&& self.stinger_audio matches Some(playback) ==> playback.wf()
    }

    /// The clips of the Stingers.
    pub open spec fn clips(self) -> Seq<(InputId, LaneModel)> {
        match self.stinger_audio {
            None => Seq::empty(),
            Some(playback) => playback@.masters,
        }
    }

    /// The next frame of the program that is to be rendered.
    pub fn expected_next_frame(&self) -> (frame: u64)
        ensures
            frame == self.lane@.expected_next_frame,
    {
        self.lane.expected_next_frame()
    }

    /// Counts the blocks that are held.
    pub fn retained_blocks(&self) -> (blocks: usize)
        ensures
            blocks == merged_blocks(
                audio_master::held_by(self.lane@.sources).blocks,
                self.clips(),
            ),
    {
        let first: usize = self.lane.retained_charge().blocks;
        match &self.stinger_audio {
            None => first,
            Some(playback) => {
                let ghost masters = playback@.masters;
                let mut total: usize = first;
                let mut i: usize = 0;
                assert(masters.take(0) =~= Seq::<(InputId, LaneModel)>::empty());
                while i < playback.masters.entries.len()
                    invariant
                        i <= masters.len(),
                        masters == lanes_of(playback.masters.entries@),
                        total == merged_blocks(first, masters.take(i as int)),
                    decreases masters.len() - i,
                {
                    assert(masters.take(i + 1).drop_last() =~= masters.take(i as int));
                    assert(masters.take(i + 1).last() == masters[i as int]);
                    total = total.saturating_add(
                        playback.masters.entries[i].1.retained_charge().blocks,
                    );
                    i = i + 1;
                }
                assert(masters.take(i as int) =~= masters);
                total
            },
        }
    }

    /// Counts the samples that are held.
    pub fn retained_samples(&self) -> (samples: usize)
        ensures
            samples == merged_samples(
                audio_master::held_by(self.lane@.sources).samples,
                self.clips(),
            ),
    {
        let first: usize = self.lane.retained_charge().samples;
        match &self.stinger_audio {
            None => first,
            Some(playback) => {
                let ghost masters = playback@.masters;
                let mut total: usize = first;
                let mut i: usize = 0;
                assert(masters.take(0) =~= Seq::<(InputId, LaneModel)>::empty());
                while i < playback.masters.entries.len()
                    invariant
                        i <= masters.len(),
                        masters == lanes_of(playback.masters.entries@),
                        total == merged_samples(first, masters.take(i as int)),
                    decreases masters.len() - i,
                {
                    assert(masters.take(i + 1).drop_last() =~= masters.take(i as int));
                    assert(masters.take(i + 1).last() == masters[i as int]);
                    total = total.saturating_add(
                        playback.masters.entries[i].1.retained_charge().samples,
                    );
                    i = i + 1;
                }
                assert(masters.take(i as int) =~= masters);
                total
            },
        }
    }

    /// Counts the bytes that are held.
    pub fn retained_bytes(&self) -> (bytes: usize)
        ensures
            bytes == merged_bytes(audio_master::held_by(self.lane@.sources).bytes, self.clips()),
    {
        let first: usize = self.lane.retained_charge().bytes;
        match &self.stinger_audio {
            None => first,
            Some(playback) => {
                let ghost masters = playback@.masters;
                let mut total: usize = first;
                let mut i: usize = 0;
                assert(masters.take(0) =~= Seq::<(InputId, LaneModel)>::empty());
                while i < playback.masters.entries.len()
                    invariant
                        i <= masters.len(),
                        masters == lanes_of(playback.masters.entries@),
                        total == merged_bytes(first, masters.take(i as int)),
                    decreases masters.len() - i,
                {
                    assert(masters.take(i + 1).drop_last() =~= masters.take(i as int));
                    assert(masters.take(i + 1).last() == masters[i as int]);
                    total = total.saturating_add(
                        playback.masters.entries[i].1.retained_charge().bytes,
                    );
                    i = i + 1;
                }
                assert(masters.take(i as int) =~= masters);
                total
            },
        }
    }

    /// Merges the counts of all lanes.
    pub fn audio_telemetry(&self) -> (telemetry: NativeAudioTelemetry)
        ensures
            telemetry == merged_counts(self.lane@.audio_telemetry, self.clips()),
    {
        let first: NativeAudioTelemetry = self.lane.audio_telemetry;
        match &self.stinger_audio {
            None => first,
            Some(playback) => {
                let ghost masters = playback@.masters;
                let mut total: NativeAudioTelemetry = first;
                let mut i: usize = 0;
                assert(masters.take(0) =~= Seq::<(InputId, LaneModel)>::empty());
                while i < playback.masters.entries.len()
                    invariant
                        i <= masters.len(),
                        masters == lanes_of(playback.masters.entries@),
                        total == merged_counts(first, masters.take(i as int)),
                    decreases masters.len() - i,
                {
                    assert(masters.take(i + 1).drop_last() =~= masters.take(i as int));
                    assert(masters.take(i + 1).last() == masters[i as int]);
                    total.merge(playback.masters.entries[i].1.audio_telemetry);
                    i = i + 1;
                }
                assert(masters.take(i as int) =~= masters);
                total
            },
        }
    }

    /// Begins to service the Stinger of a frame. Without clips, a Stinger that is heard is
    /// never covered: then there is `None`.
    pub fn begin_stinger_service(
        &mut self,
        frame: &FrameResult,
        project: &NativeProjectPlan,
        stinger: Result<StingerFramePlan, OutsideFailure>,
    ) -> (begin: Result<Option<StingerService>, NativeMasterError>)
        requires
            old(self).wf(),
            project.wf(),
        ensures
            final(self).wf(),
            final(self).lane@ == old(self).lane@,
            ({
                let asked = audio_mix::stinger_request(*project, *frame, stinger);
                match (old(self).stinger_audio, final(self).stinger_audio) {
                    (Some(before), Some(after)) => after@ == begun(before@, asked).0 && begin == (
                    match begun(before@, asked).1 {
                        Err(error) => Err(error),
                        Ok(service) => Ok::<Option<StingerService>, NativeMasterError>(
                            Some(service),
                        ),
                    }),
                    (None, None) => begin == (match asked {
                        Err(error) => Err(error),
                        Ok(request) => if needs_no_clip(request) {
                            Ok(Some(StingerService::Covered))
                        } else {
                            Ok::<Option<StingerService>, NativeMasterError>(None)
                        },
                    }),
                    _ => false,
                }
            }),
    {
        match &mut self.stinger_audio {
            Some(playback) => match playback.begin_service(frame, project, stinger) {
                Err(error) => Err(error),
                Ok(service) => Ok(Some(service)),
            },
            None => match stinger_audio_request(project, frame, stinger) {
                Err(error) => Err(error),
                Ok(None) => Ok(Some(StingerService::Covered)),
                Ok(Some(request)) => if request.policy == StingerAudioPolicy::Muted {
                    Ok(Some(StingerService::Covered))
                } else {
                    Ok(None)
                },
            },
        }
    }

    /// Ends the service of a frame: tells whether the Master and the Stinger both cover it, and
    /// notes whether the clip does. `ordinary` is whether the Master covers the frame, and
    /// `clip` whether the lane of the clip does, where it was serviced.
    pub fn finish_project_service(
        &mut self,
        ordinary: bool,
        begun: Option<StingerService>,
        clip: bool,
    ) -> (covered: bool)
        requires
            old(self).wf(),
        ensures
            final(self).wf(),
            covered == (ordinary && stinger_covered(begun, clip)),
            final(self).lane@ == old(self).lane@,
            match (old(self).stinger_audio, final(self).stinger_audio) {
                (Some(before), Some(after)) => after@ == serviced(before@, begun, clip),
                (None, None) => true,
                _ => false,
            },
    {
        match begun {
            None => false,
            Some(StingerService::Covered) => ordinary,
            Some(StingerService::Clip { request, .. }) => {
                match &mut self.stinger_audio {
                    None => {},
                    Some(playback) => playback.finish_service(request, clip),
                }
                ordinary && clip
            },
        }
    }

    /// Finds what is heard of the Stinger of a frame. Without clips, a Stinger that is heard
    /// cannot be rendered.
    pub fn begin_stinger_render(
        &mut self,
        frame: &FrameResult,
        project: &NativeProjectPlan,
        stinger: Result<StingerFramePlan, OutsideFailure>,
    ) -> (heard: Result<StingerRender, NativeMasterError>)
        requires
            old(self).wf(),
            project.wf(),
        ensures
            final(self).wf(),
            final(self).lane@ == old(self).lane@,
            ({
                let asked = audio_mix::stinger_request(*project, *frame, stinger);
                match (old(self).stinger_audio, final(self).stinger_audio) {
                    (Some(before), Some(after)) => (after@, heard) == called(
                        before@,
                        asked,
                        *frame,
                    ),
                    (None, None) => heard == (match asked {
                        Err(error) => Err(error),
                        Ok(request) => if needs_no_clip(request) {
                            Ok(StingerRender::Nothing)
                        } else {
                            Err::<StingerRender, NativeMasterError>(
                                NativeMasterError::InvalidFormat,
                            )
                        },
                    }),
                    _ => false,
                }
            }),
    {
        match &mut self.stinger_audio {
            Some(playback) => playback.begin_render(frame, project, stinger),
            None => match stinger_audio_request(project, frame, stinger) {
                Err(error) => Err(error),
                Ok(None) => Ok(StingerRender::Nothing),
                Ok(Some(request)) => if request.policy == StingerAudioPolicy::Muted {
                    Ok(StingerRender::Nothing)
                } else {
                    Err(NativeMasterError::InvalidFormat)
                },
            },
        }
    }
}

} // verus!
