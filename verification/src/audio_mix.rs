//! What the Master mixes during one frame.
use vstd::prelude::*;

use crate::audio_limits::{NativeMasterError, MAX_NATIVE_AUDIO_STRIPS};
use crate::audio_route::NativeAudioRoute;
use crate::audio_source::{AudioBlock, ChannelLayout, NativeAudioSource, Synchronizer};
use crate::audio_timing;
use crate::model::{
    FrameResult, InputAudioStripState, InputId, OutsideFailure, ProgramFrame, StingerAudioPolicy,
    StingerSlotId, SwitcherTransitionKind,
};
use crate::ordered::OrderedMap;
use crate::project_plan::{NativeProjectPlan, NativeStingerConfig};
use crate::render;
use crate::render::{StingerBase, StingerFramePlan};

verus! {

/// A gain that moves evenly from one ratio to another over a frame.
#[derive(Clone, Copy, Debug, PartialEq, Eq, Structural)]
pub struct SourceGain {
    pub start_numerator: u32,
    pub end_numerator: u32,
    pub denominator: u32,
}

/// A source that is heard as it is.
pub open spec fn unity() -> SourceGain {
    SourceGain { start_numerator: 1, end_numerator: 1, denominator: 1 }
}

impl SourceGain {
    /// A source that is heard as it is.
    pub fn unity() -> (gain: Self)
        ensures
            gain == unity(),
    {
        SourceGain { start_numerator: 1, end_numerator: 1, denominator: 1 }
    }
}

/// The inputs that a frame mixes and how loud each is.
#[derive(Clone, Copy, Debug, PartialEq, Eq)]
pub struct NativeAudioMixPlan {
    pub primary: InputId,
    pub primary_gain: SourceGain,
    pub secondary: Option<(InputId, SourceGain)>,
}

/// What the mixer says of the gains of a frame, and what the compositor makes of its Stinger.
#[derive(Clone, Copy, Debug)]
pub struct AudioMixVerdict {
    pub gains: Result<(), OutsideFailure>,
    pub stinger: Result<StingerFramePlan, OutsideFailure>,
}

/// Whether the mix of a frame is told by ratios that do not exceed the whole.
pub open spec fn ratios_fit(program: ProgramFrame) -> bool {
    program.mix_start_numerator <= program.mix_denominator && program.mix_end_numerator
        <= program.mix_denominator
}

/// A frame that hears one input as it is.
pub open spec fn alone(input: InputId) -> NativeAudioMixPlan {
    NativeAudioMixPlan { primary: input, primary_gain: unity(), secondary: None }
}

/// A frame that moves from one input to another: what one gains, the other loses.
pub open spec fn crossfade(program: ProgramFrame, secondary: InputId) -> NativeAudioMixPlan {
    NativeAudioMixPlan {
        primary: program.primary,
        primary_gain: SourceGain {
            start_numerator: (program.mix_denominator - program.mix_start_numerator) as u32,
            end_numerator: (program.mix_denominator - program.mix_end_numerator) as u32,
            denominator: program.mix_denominator,
        },
        secondary: Some(
            (
                secondary,
                SourceGain {
                    start_numerator: program.mix_start_numerator,
                    end_numerator: program.mix_end_numerator,
                    denominator: program.mix_denominator,
                },
            ),
        ),
    }
}

/// Plans a frame that moves from one input to another. `gains` tells whether the mixer takes
/// the gains.
pub fn sample_linear_audio_mix_plan(
    program: ProgramFrame,
    secondary: InputId,
    gains: Result<(), OutsideFailure>,
) -> (plan: Result<NativeAudioMixPlan, NativeMasterError>)
    requires
        gains is Ok ==> ratios_fit(program),
    ensures
        plan == (match gains {
            Err(error) => Err(NativeMasterError::Audio(error)),
            Ok(()) => Ok(crossfade(program, secondary)),
        }),
{
    match gains {
        Err(error) => Err(NativeMasterError::Audio(error)),
        Ok(()) => Ok(
            NativeAudioMixPlan {
                primary: program.primary,
                primary_gain: SourceGain {
                    start_numerator: program.mix_denominator - program.mix_start_numerator,
                    end_numerator: program.mix_denominator - program.mix_end_numerator,
                    denominator: program.mix_denominator,
                },
                secondary: Some(
                    (
                        secondary,
                        SourceGain {
                            start_numerator: program.mix_start_numerator,
                            end_numerator: program.mix_end_numerator,
                            denominator: program.mix_denominator,
                        },
                    ),
                ),
            },
        ),
    }
}

/// While one input passes into another, the two gains make up the whole at both ends of the
/// frame.
pub proof fn crossfade_gains_make_up_the_whole(program: ProgramFrame, secondary: InputId)
    requires
        ratios_fit(program),
    ensures
        crossfade(program, secondary).secondary matches Some((_, gain)) && {
            let other = crossfade(program, secondary).primary_gain;
            &&& gain.start_numerator + other.start_numerator == program.mix_denominator
            &&& gain.end_numerator + other.end_numerator == program.mix_denominator
            &&& gain.denominator == other.denominator == program.mix_denominator
        },
{
}

/// What a frame without a Stinger mixes.
pub open spec fn program_mix(program: ProgramFrame, gains: Result<(), OutsideFailure>) -> Result<
    NativeAudioMixPlan,
    NativeMasterError,
> {
    match render::preview_of(program) {
        None => Ok(alone(program.primary)),
        Some(secondary) => match program.transition_kind {
            None => Err(NativeMasterError::MissingAudioTransitionKind),
            Some(SwitcherTransitionKind::Stinger(slot)) => Err(
                NativeMasterError::UnsupportedAudioTransition(
                    SwitcherTransitionKind::Stinger(slot),
                ),
            ),
            Some(_) => match gains {
                Err(error) => Err(NativeMasterError::Audio(error)),
                Ok(()) => Ok(crossfade(program, secondary)),
            },
        },
    }
}

/// Plans what a frame without a Stinger mixes.
pub fn native_audio_mix_plan(program: ProgramFrame, gains: Result<(), OutsideFailure>) -> (plan: Result<
    NativeAudioMixPlan,
    NativeMasterError,
>)
    requires
        gains is Ok && render::preview_of(program) is Some ==> ratios_fit(program),
    ensures
        plan == program_mix(program, gains),
{
    let single: NativeAudioMixPlan = NativeAudioMixPlan {
        primary: program.primary,
        primary_gain: SourceGain::unity(),
        secondary: None,
    };
    let secondary: InputId = match program.secondary {
        None => {
            return Ok(single);
        },
        Some(secondary) => secondary,
    };
    if secondary == program.primary {
        return Ok(single);
    }
    match program.transition_kind {
        None => Err(NativeMasterError::MissingAudioTransitionKind),
        Some(SwitcherTransitionKind::Stinger(slot)) => Err(
            NativeMasterError::UnsupportedAudioTransition(SwitcherTransitionKind::Stinger(slot)),
        ),
        Some(_) => sample_linear_audio_mix_plan(program, secondary, gains),
    }
}

/// What a frame of a project mixes. Under a Stinger only one input is heard: the program up to
/// the cut and the preview from the cut on.
pub open spec fn project_mix(
    project: NativeProjectPlan,
    program: ProgramFrame,
    verdict: AudioMixVerdict,
) -> Result<NativeAudioMixPlan, NativeMasterError> {
    match program.transition_kind {
        Some(SwitcherTransitionKind::Stinger(slot)) => match render::preview_of(program) {
            None => Err(NativeMasterError::MissingAudioTransitionKind),
            Some(preview) => match project.stingers.lookup(slot) {
                None => Err(NativeMasterError::MissingStingerConfiguration(slot)),
                Some(config) => match verdict.stinger {
                    Err(error) => Err(NativeMasterError::InvalidStinger(error)),
                    Ok(frame) => Ok(
                        alone(
                            match frame.base {
                                StingerBase::Program => program.primary,
                                StingerBase::Preview => preview,
                            },
                        ),
                    ),
                },
            },
        },
        _ => program_mix(program, verdict.gains),
    }
}

/// Plans what a frame of a project mixes.
pub fn native_project_audio_mix_plan(
    project: &NativeProjectPlan,
    program: ProgramFrame,
    verdict: AudioMixVerdict,
) -> (plan: Result<NativeAudioMixPlan, NativeMasterError>)
    requires
        project.wf(),
        verdict.gains is Ok && render::preview_of(program) is Some ==> ratios_fit(program),
    ensures
        plan == project_mix(*project, program, verdict),
{
    let slot: StingerSlotId = match program.transition_kind {
        Some(SwitcherTransitionKind::Stinger(slot)) => slot,
        _ => {
            return native_audio_mix_plan(program, verdict.gains);
        },
    };
    let preview: InputId = match program.secondary {
        None => {
            return Err(NativeMasterError::MissingAudioTransitionKind);
        },
        Some(preview) => preview,
    };
    if preview == program.primary {
        return Err(NativeMasterError::MissingAudioTransitionKind);
    }
    match project.stinger(slot) {
        None => {
            return Err(NativeMasterError::MissingStingerConfiguration(slot));
        },
        Some(_) => {},
    }
    let frame: StingerFramePlan = match verdict.stinger {
        Err(error) => {
            return Err(NativeMasterError::InvalidStinger(error));
        },
        Ok(frame) => frame,
    };
    let base: InputId = match frame.base {
        StingerBase::Program => program.primary,
        StingerBase::Preview => preview,
    };
    Ok(NativeAudioMixPlan { primary: base, primary_gain: SourceGain::unity(), secondary: None })
}

/// Sound and picture part at the same frame: under a Stinger, what is heard is the input that
/// is seen under it.
pub proof fn stinger_sound_follows_its_picture(
    project: NativeProjectPlan,
    program: ProgramFrame,
    gains: Result<(), OutsideFailure>,
    compositor: render::CompositorVerdict,
)
    requires
        program.transition_kind is Some,
        program.transition_kind->Some_0 is Stinger,
    ensures
        render::mix_plan(render::mix_request(project, program), program, compositor) matches Ok(
            picture,
        ) ==> picture matches render::NativeProjectMixPlan::Stinger(stinger) && project_mix(
            project,
            program,
            AudioMixVerdict { gains, stinger: compositor.stinger },
        ) == Ok::<NativeAudioMixPlan, NativeMasterError>(
            alone(
                match stinger.frame.base {
                    StingerBase::Program => stinger.program,
                    StingerBase::Preview => stinger.preview,
                },
            ),
        ),
{
}

/// Which showing of a Stinger is meant: where it began tells one from the next.
#[derive(Clone, Copy, Debug, PartialEq, Eq, Structural)]
pub struct NativeStingerAudioTrigger {
    pub slot: StingerSlotId,
    pub media: InputId,
    pub cadence_origin_frame: u64,
}

/// The audio that a Stinger needs for one frame.
#[derive(Clone, Copy, Debug, PartialEq, Eq, Structural)]
pub struct NativeStingerAudioRequest {
    pub trigger: NativeStingerAudioTrigger,
    pub frame_index: u32,
    pub policy: StingerAudioPolicy,
}

/// The audio that the Stinger of a frame needs, if it has one.
pub open spec fn stinger_request(
    project: NativeProjectPlan,
    frame: FrameResult,
    stinger: Result<StingerFramePlan, OutsideFailure>,
) -> Result<Option<NativeStingerAudioRequest>, NativeMasterError> {
    match frame.program.transition_kind {
        Some(SwitcherTransitionKind::Stinger(slot)) => match project.stingers.lookup(slot) {
            None => Err(NativeMasterError::MissingStingerConfiguration(slot)),
            Some(config) => match stinger {
                Err(error) => Err(NativeMasterError::InvalidStinger(error)),
                Ok(_) => if frame.frame < frame.program.mix_numerator {
                    Err(NativeMasterError::BoundsExceeded)
                } else {
                    Ok(
                        Some(
                            NativeStingerAudioRequest {
                                trigger: NativeStingerAudioTrigger {
                                    slot,
                                    media: config.media_input,
                                    cadence_origin_frame: (frame.frame
                                        - frame.program.mix_numerator) as u64,
                                },
                                frame_index: frame.program.mix_numerator,
                                policy: config.audio_policy,
                            },
                        ),
                    )
                },
            },
        },
        _ => Ok(None),
    }
}

/// Finds the audio that the Stinger of a frame needs.
pub fn stinger_audio_request(
    project: &NativeProjectPlan,
    frame: &FrameResult,
    stinger: Result<StingerFramePlan, OutsideFailure>,
) -> (request: Result<Option<NativeStingerAudioRequest>, NativeMasterError>)
    requires
        project.wf(),
    ensures
        request == stinger_request(*project, *frame, stinger),
{
    let slot: StingerSlotId = match frame.program.transition_kind {
        Some(SwitcherTransitionKind::Stinger(slot)) => slot,
        _ => {
            return Ok(None);
        },
    };
    let config: NativeStingerConfig = match project.stinger(slot) {
        None => {
            return Err(NativeMasterError::MissingStingerConfiguration(slot));
        },
        Some(config) => config,
    };
    match stinger {
        Err(error) => {
            return Err(NativeMasterError::InvalidStinger(error));
        },
        Ok(_) => {},
    }
    match frame.frame.checked_sub(frame.program.mix_numerator as u64) {
        None => Err(NativeMasterError::BoundsExceeded),
        Some(cadence_origin_frame) => Ok(
            Some(
                NativeStingerAudioRequest {
                    trigger: NativeStingerAudioTrigger {
                        slot,
                        media: config.media_input,
                        cadence_origin_frame,
                    },
                    frame_index: frame.program.mix_numerator,
                    policy: config.audio_policy,
                },
            ),
        ),
    }
}

/// All frames of one showing of a Stinger name the same trigger.
pub proof fn a_showing_keeps_its_trigger(
    project: NativeProjectPlan,
    first: FrameResult,
    later: FrameResult,
    stinger: Result<StingerFramePlan, OutsideFailure>,
)
    requires
        first.program.transition_kind == later.program.transition_kind,
        later.frame - later.program.mix_numerator == first.frame - first.program.mix_numerator,
    ensures
        match (
            stinger_request(project, first, stinger),
            stinger_request(project, later, stinger),
        ) {
            (Ok(Some(a)), Ok(Some(b))) => a.trigger == b.trigger && a.policy == b.policy,
            (Ok(a), Ok(b)) => a is None && b is None,
            (Err(a), Err(b)) => a == b,
            _ => false,
        },
{
}

/// How loud an input is during a frame; one that the frame does not mix is heard as it is.
pub open spec fn gain_of(program: NativeAudioMixPlan, input: InputId) -> SourceGain {
    if input == program.primary {
        program.primary_gain
    } else {
        match program.secondary {
            Some((secondary, gain)) => if secondary == input {
                gain
            } else {
                unity()
            },
            None => unity(),
        }
    }
}

/// Tells how loud an input is during a frame.
pub fn logical_source_gain(program: NativeAudioMixPlan, input: InputId) -> (gain: SourceGain)
    ensures
        gain == gain_of(program, input),
{
    if input == program.primary {
        return program.primary_gain;
    }
    match program.secondary {
        Some((secondary, gain)) => if secondary == input {
            gain
        } else {
            SourceGain::unity()
        },
        None => SourceGain::unity(),
    }
}

/// The settings of an input's strip as the mixer takes them: whole decibels, and thousandths
/// with the same sign.
#[derive(Clone, Copy, Debug, PartialEq, Eq, Structural)]
pub struct StripState {
    pub whole_db: i16,
    pub fractional_milli_db: i16,
    pub muted: bool,
    pub follow_video: bool,
}

/// Whether the gain of a strip is one that a project may hold.
pub open spec fn gain_is_bounded(state: InputAudioStripState) -> bool {
    -32_768_999 <= state.gain_milli_db <= 32_767_999
}

/// Whether the gains of all strips are ones that a project may hold.
pub open spec fn gains_are_bounded(project: NativeProjectPlan) -> bool {
    forall|input: InputId| #[trigger]
        project.audio_strips@.contains_key(input) ==> gain_is_bounded(project.audio_strips@[input])
}

/// The settings of a strip as the mixer takes them.
pub open spec fn strip_of(state: InputAudioStripState) -> StripState {
    let whole = audio_timing::truncated(state.gain_milli_db as int, 1000);
    StripState {
        whole_db: whole as i16,
        fractional_milli_db: (state.gain_milli_db - whole * 1000) as i16,
        muted: state.muted,
        follow_video: state.follow_video,
    }
}

/// A strip says in whole and thousandths what the project says in thousandths, with the
/// fraction on the side of the sign.
pub proof fn strips_keep_the_gain(state: InputAudioStripState)
    requires
        gain_is_bounded(state),
    ensures
        strip_of(state).whole_db * 1000 + strip_of(state).fractional_milli_db
            == state.gain_milli_db,
        -1000 < strip_of(state).fractional_milli_db < 1000,
        state.gain_milli_db >= 0 ==> strip_of(state).fractional_milli_db >= 0,
        state.gain_milli_db <= 0 ==> strip_of(state).fractional_milli_db <= 0,
{
}

/// What the project says of an input's strip.
pub open spec fn strip_state(project: NativeProjectPlan, input: InputId) -> Result<
    StripState,
    NativeMasterError,
> {
    match project.audio_strips.lookup(input) {
        None => Err(NativeMasterError::MissingAudioRoute { input }),
        Some(state) => Ok(strip_of(state)),
    }
}

/// Finds the settings of an input's strip.
pub fn native_input_state(project: &NativeProjectPlan, input: InputId) -> (state: Result<
    StripState,
    NativeMasterError,
>)
    requires
        project.wf(),
        gains_are_bounded(*project),
    ensures
        state == strip_state(*project, input),
{
    match project.audio_strip(input) {
        None => Err(NativeMasterError::MissingAudioRoute { input }),
        Some(state) => {
            assert(project.audio_strips@.contains_key(input));
            let whole: i32 = state.gain_milli_db / 1000;
            let fraction: i32 = state.gain_milli_db % 1000;
            Ok(
                StripState {
                    whole_db: whole as i16,
                    fractional_milli_db: fraction as i16,
                    muted: state.muted,
                    follow_video: state.follow_video,
                },
            )
        },
    }
}

/// One rendered source that is handed to the mixer.
#[derive(Clone, Copy, Debug, PartialEq, Eq, Structural)]
pub struct AudioSubmission {
    /// The input as the mixer knows it.
    pub input: InputId,
    /// The source whose rendered samples are heard.
    pub physical: InputId,
    pub layout: ChannelLayout,
    pub source_gain: SourceGain,
}

/// What is handed to the mixer for an input whose audio comes from `physical`; nothing for a
/// source that is never heard.
pub open spec fn submission_of(
    sources: OrderedMap<InputId, NativeAudioSource>,
    logical: InputId,
    physical: InputId,
    source_gain: SourceGain,
) -> Result<Option<AudioSubmission>, NativeMasterError> {
    match sources.lookup(physical) {
        None => Err(NativeMasterError::DecodeContract { input: physical }),
        Some(source) => if source.explicit_silence {
            Ok(None)
        } else {
            match source.synchronizer {
                None => Err(NativeMasterError::DecodeContract { input: physical }),
                Some(synchronizer) => Ok(
                    Some(
                        AudioSubmission {
                            input: logical,
                            physical,
                            layout: synchronizer.layout,
                            source_gain,
                        },
                    ),
                ),
            }
        },
    }
}

/// Finds what is handed to the mixer for an input.
pub fn planar_audio_submission(
    logical: InputId,
    physical: InputId,
    source_gain: SourceGain,
    sources: &OrderedMap<InputId, NativeAudioSource>,
) -> (submission: Result<Option<AudioSubmission>, NativeMasterError>)
    requires
        sources.wf(),
    ensures
        submission == submission_of(*sources, logical, physical, source_gain),
{
    let source: NativeAudioSource = match sources.get(physical) {
        None => {
            return Err(NativeMasterError::DecodeContract { input: physical });
        },
        Some(source) => *source,
    };
    if source.explicit_silence {
        return Ok(None);
    }
    let synchronizer: Synchronizer = match source.synchronizer {
        None => {
            return Err(NativeMasterError::DecodeContract { input: physical });
        },
        Some(synchronizer) => synchronizer,
    };
    Ok(
        Some(
            AudioSubmission { input: logical, physical, layout: synchronizer.layout, source_gain },
        ),
    )
}

/// What a project hands to the mixer for one more of its routes.
pub open spec fn with_submission(
    sources: OrderedMap<InputId, NativeAudioSource>,
    program: NativeAudioMixPlan,
    submissions: Seq<AudioSubmission>,
    logical: InputId,
    route: NativeAudioRoute,
) -> Result<Seq<AudioSubmission>, NativeMasterError> {
    match route {
        NativeAudioRoute::Silence => Ok(submissions),
        NativeAudioRoute::Leaf(physical) => match submission_of(
            sources,
            logical,
            physical,
            gain_of(program, logical),
        ) {
            Err(error) => Err(error),
            Ok(None) => Ok(submissions),
            Ok(Some(submission)) => if submissions.len() >= MAX_NATIVE_AUDIO_STRIPS {
                Err(NativeMasterError::BoundsExceeded)
            } else {
                Ok(submissions.push(submission))
            },
        },
    }
}

/// What a project hands to the mixer: every input whose audio comes from a source that may be
/// heard, in the order of the inputs, each with its own gain.
pub open spec fn project_submissions(
    sources: OrderedMap<InputId, NativeAudioSource>,
    program: NativeAudioMixPlan,
    routes: Seq<(InputId, NativeAudioRoute)>,
) -> Result<Seq<AudioSubmission>, NativeMasterError>
    decreases routes.len(),
{
    if routes.len() == 0 {
        Ok(Seq::empty())
    } else {
        match project_submissions(sources, program, routes.drop_last()) {
            Err(error) => Err(error),
            Ok(submissions) => with_submission(
                sources,
                program,
                submissions,
                routes.last().0,
                routes.last().1,
            ),
        }
    }
}

proof fn lemma_broken_submissions(
    sources: OrderedMap<InputId, NativeAudioSource>,
    program: NativeAudioMixPlan,
    routes: Seq<(InputId, NativeAudioRoute)>,
    count: int,
)
    requires
        0 <= count <= routes.len(),
        project_submissions(sources, program, routes.take(count)) is Err,
    ensures
        project_submissions(sources, program, routes) == project_submissions(
            sources,
            program,
            routes.take(count),
        ),
    decreases routes.len() - count,
{
    if count == routes.len() {
        assert(routes.take(count) =~= routes);
    } else {
        assert(routes.take(count + 1).drop_last() =~= routes.take(count));
        lemma_broken_submissions(sources, program, routes, count + 1);
    }
}

/// Finds what a project hands to the mixer.
pub fn project_audio_submissions(
    project: &NativeProjectPlan,
    program: NativeAudioMixPlan,
    sources: &OrderedMap<InputId, NativeAudioSource>,
) -> (submissions: Result<Vec<AudioSubmission>, NativeMasterError>)
    requires
        project.wf(),
        sources.wf(),
    ensures
        match submissions {
            Ok(submissions) => project_submissions(
                *sources,
                program,
                project.audio_routes.entries@,
            ) == Ok::<Seq<AudioSubmission>, NativeMasterError>(submissions@),
            Err(error) => project_submissions(*sources, program, project.audio_routes.entries@)
                == Err::<Seq<AudioSubmission>, NativeMasterError>(error),
        },
{
    let ghost routes = project.audio_routes.entries@;
    let mut submissions: Vec<AudioSubmission> = Vec::new();
    let mut i: usize = 0;
    assert(routes.take(0) =~= Seq::<(InputId, NativeAudioRoute)>::empty());
    assert(submissions@ =~= Seq::<AudioSubmission>::empty());
    while i < project.audio_routes.entries.len()
        invariant
            i <= routes.len(),
            routes == project.audio_routes.entries@,
            sources.wf(),
            project_submissions(*sources, program, routes.take(i as int)) == Ok::<
                Seq<AudioSubmission>,
                NativeMasterError,
            >(submissions@),
        decreases routes.len() - i,
    {
        assert(routes.take(i + 1).drop_last() =~= routes.take(i as int));
        assert(routes.take(i + 1).last() == routes[i as int]);
        let logical: InputId = project.audio_routes.entries[i].0;
        match project.audio_routes.entries[i].1 {
            NativeAudioRoute::Silence => {},
            NativeAudioRoute::Leaf(physical) => {
                match planar_audio_submission(
                    logical,
                    physical,
                    logical_source_gain(program, logical),
                    sources,
                ) {
                    Err(error) => {
                        proof {
                            lemma_broken_submissions(*sources, program, routes, i + 1);
                        }
                        return Err(error);
                    },
                    Ok(None) => {},
                    Ok(Some(submission)) => {
                        if submissions.len() >= MAX_NATIVE_AUDIO_STRIPS {
                            proof {
                                lemma_broken_submissions(*sources, program, routes, i + 1);
                            }
                            return Err(NativeMasterError::BoundsExceeded);
                        }
                        submissions.push(submission);
                    },
                }
            },
        }
        i = i + 1;
    }
    assert(routes.take(i as int) =~= routes);
    Ok(submissions)
}

/// Every input that a project hands to the mixer is one of its own, in order, and plays the
/// source it is routed to with its own gain; there are never more than may be mixed.
pub proof fn submissions_follow_the_routes(
    sources: OrderedMap<InputId, NativeAudioSource>,
    program: NativeAudioMixPlan,
    routes: Seq<(InputId, NativeAudioRoute)>,
)
    ensures
        project_submissions(sources, program, routes) matches Ok(submissions) ==> {
            &&& submissions.len() <= MAX_NATIVE_AUDIO_STRIPS
            &&& forall|i: int|
                #![trigger submissions[i]]
                0 <= i < submissions.len() ==> submissions[i].source_gain == gain_of(
                    program,
                    submissions[i].input,
                ) && routes.contains(
                    (submissions[i].input, NativeAudioRoute::Leaf(submissions[i].physical)),
                )
        },
    decreases routes.len(),
{
    if routes.len() > 0 {
        let shorter = routes.drop_last();
        submissions_follow_the_routes(sources, program, shorter);
        if let Ok(submissions) = project_submissions(sources, program, routes) {
            let before = project_submissions(sources, program, shorter)->Ok_0;
            assert forall|i: int| #![trigger submissions[i]] 0 <= i < submissions.len() implies submissions[i].source_gain
                == gain_of(program, submissions[i].input) && routes.contains(
                (submissions[i].input, NativeAudioRoute::Leaf(submissions[i].physical)),
            ) by {
                if i < before.len() {
                    assert(submissions[i] == before[i]);
                    let entry = (
                        before[i].input,
                        NativeAudioRoute::Leaf(before[i].physical),
                    );
                    let j = choose|j: int| 0 <= j < shorter.len() && shorter[j] == entry;
                    assert(routes[j] == entry);
                } else {
                    assert(routes[routes.len() - 1] == routes.last());
                }
            }
        }
    }
}

/// What a frame without a project hands to the mixer: its inputs, each its own source.
pub open spec fn program_submissions(
    sources: OrderedMap<InputId, NativeAudioSource>,
    plan: NativeAudioMixPlan,
) -> Result<Seq<AudioSubmission>, NativeMasterError> {
    match submission_of(sources, plan.primary, plan.primary, plan.primary_gain) {
        Err(error) => Err(error),
        Ok(primary) => {
            let first = match primary {
                None => Seq::empty(),
                Some(submission) => seq![submission],
            };
            match plan.secondary {
                None => Ok(first),
                Some((input, gain)) => match submission_of(sources, input, input, gain) {
                    Err(error) => Err(error),
                    Ok(None) => Ok(first),
                    Ok(Some(submission)) => Ok(first.push(submission)),
                },
            }
        },
    }
}

/// Finds what a frame without a project hands to the mixer.
pub fn program_audio_submissions(
    plan: NativeAudioMixPlan,
    sources: &OrderedMap<InputId, NativeAudioSource>,
) -> (submissions: Result<Vec<AudioSubmission>, NativeMasterError>)
    requires
        sources.wf(),
    ensures
        match submissions {
            Ok(submissions) => program_submissions(*sources, plan) == Ok::<
                Seq<AudioSubmission>,
                NativeMasterError,
            >(submissions@),
            Err(error) => program_submissions(*sources, plan) == Err::<
                Seq<AudioSubmission>,
                NativeMasterError,
            >(error),
        },
{
    let mut submissions: Vec<AudioSubmission> = Vec::new();
    assert(submissions@ =~= Seq::<AudioSubmission>::empty());
    match planar_audio_submission(plan.primary, plan.primary, plan.primary_gain, sources) {
        Err(error) => {
            return Err(error);
        },
        Ok(None) => {},
        Ok(Some(submission)) => {
            submissions.push(submission);
            assert(submissions@ =~= seq![submission]);
        },
    }
    match plan.secondary {
        None => {},
        Some((input, gain)) => match planar_audio_submission(input, input, gain, sources) {
            Err(error) => {
                return Err(error);
            },
            Ok(None) => {},
            Ok(Some(submission)) => {
                submissions.push(submission);
            },
        },
    }
    Ok(submissions)
}

/// What becomes of the program's samples while the clip of a Stinger plays.
#[derive(Clone, Copy, Debug, PartialEq, Eq, Structural)]
pub enum ClipMix {
    /// They stay as they are.
    Keep,
    /// The clip's samples take their place.
    Replace,
    /// Silence takes their place.
    Silence,
    /// The clip's samples are added to them.
    Sum,
}

/// What becomes of the program's samples, if the clip has the form of the Master.
pub open spec fn clip_mix_of(
    planes: usize,
    samples: usize,
    policy: StingerAudioPolicy,
    clip: Option<AudioBlock>,
    sample_rate: u32,
    layout: ChannelLayout,
) -> Result<ClipMix, NativeMasterError> {
    if planes != layout.channels || (clip matches Some(clip) && (clip.sample_rate != sample_rate
        || clip.layout != layout || clip.sample_count != samples)) {
        Err(NativeMasterError::InvalidFormat)
    } else {
        Ok(
            match (policy, clip) {
                (StingerAudioPolicy::Muted, _) => ClipMix::Keep,
                (StingerAudioPolicy::StingerOnly, Some(_)) => ClipMix::Replace,
                (StingerAudioPolicy::StingerOnly, None) => ClipMix::Silence,
                (StingerAudioPolicy::MixWithProgram, Some(_)) => ClipMix::Sum,
                (StingerAudioPolicy::MixWithProgram, None) => ClipMix::Keep,
            },
        )
    }
}

/// Decides what becomes of the program's samples while the clip of a Stinger plays.
pub fn clip_local_stinger_mix(
    planes: usize,
    samples: usize,
    policy: StingerAudioPolicy,
    clip: Option<AudioBlock>,
    sample_rate: u32,
    layout: ChannelLayout,
) -> (mix: Result<ClipMix, NativeMasterError>)
    ensures
        mix == clip_mix_of(planes, samples, policy, clip, sample_rate, layout),
{
    if planes != layout.channels {
        return Err(NativeMasterError::InvalidFormat);
    }
    let heard: bool = match clip {
        None => false,
        Some(clip) => {
            if clip.sample_rate != sample_rate || clip.layout != layout || clip.sample_count
                != samples {
                return Err(NativeMasterError::InvalidFormat);
            }
            true
        },
    };
    match policy {
        StingerAudioPolicy::Muted => Ok(ClipMix::Keep),
        StingerAudioPolicy::StingerOnly => if heard {
            Ok(ClipMix::Replace)
        } else {
            Ok(ClipMix::Silence)
        },
        StingerAudioPolicy::MixWithProgram => if heard {
            Ok(ClipMix::Sum)
        } else {
            Ok(ClipMix::Keep)
        },
    }
}

/// The inputs that are seen during a frame.
pub open spec fn seen_inputs(plan: NativeAudioMixPlan) -> Seq<InputId> {
    match plan.secondary {
        None => seq![plan.primary],
        Some((secondary, _)) => seq![plan.primary, secondary],
    }
}

/// Lists the inputs that are seen during a frame.
pub fn active_video_inputs(plan: NativeAudioMixPlan) -> (inputs: Vec<InputId>)
    ensures
        inputs@ == seen_inputs(plan),
{
    let mut inputs: Vec<InputId> = Vec::new();
    inputs.push(plan.primary);
    match plan.secondary {
        None => {},
        Some((secondary, _)) => {
            inputs.push(secondary);
        },
    }
    assert(inputs@ =~= seen_inputs(plan));
    inputs
}

} // verus!
