//! What is heard of the program in a frame.
use vstd::prelude::*;

use crate::audio_limits::{NativeAudioCharge, NativeMasterError, MAX_NATIVE_AUDIO_STRIPS};
use crate::audio_master::LaneModel;
use crate::audio_mix;
use crate::audio_mix::{
    AudioMixVerdict, AudioSubmission, ClipMix, NativeAudioMixPlan, SourceGain,
};
use crate::audio_render;
use crate::audio_render::AudioFramePlan;
use crate::audio_route::NativeAudioRoute;
use crate::audio_source::{AudioBlock, ChannelLayout, NativeAudioSource};
use crate::model::{
    FrameResult, InputAudioStripState, InputId, OutsideFailure, ProgramFrame, StingerAudioPolicy,
    SwitcherTransitionKind,
};
use crate::ordered;
use crate::ordered::{OrderedMap, Ranked};
use crate::project_plan::NativeProjectPlan;
use crate::render::{StingerBase, StingerFramePlan};

verus! {

/// The sample that is heard where the program has one and the clip has one.
pub open spec fn heard_sample(mix: ClipMix, program: int, clip: int) -> int {
    match mix {
        ClipMix::Keep => program,
        ClipMix::Replace => clip,
        ClipMix::Silence => 0,
        ClipMix::Sum => program + clip,
    }
}

/// Whether a clip can be mixed with the Master: it has its rate, its layout and as many samples.
pub open spec fn is_of_form(
    samples: usize,
    clip: Option<AudioBlock>,
    sample_rate: u32,
    layout: ChannelLayout,
) -> bool {
    clip matches Some(block) ==> block.sample_rate == sample_rate && block.layout == layout
        && block.sample_count == samples
}

/// Under a policy that lets only the Stinger be heard, the clip is heard alone, and where there
/// is none, nothing is.
pub proof fn only_the_stinger_is_heard(
    planes: usize,
    samples: usize,
    clip: Option<AudioBlock>,
    sample_rate: u32,
    layout: ChannelLayout,
    program_sample: int,
    clip_sample: int,
)
    requires
        planes == layout.channels,
        is_of_form(samples, clip, sample_rate, layout),
    ensures
        audio_mix::clip_mix_of(
            planes,
            samples,
            StingerAudioPolicy::StingerOnly,
            clip,
            sample_rate,
            layout,
        ) matches Ok(mix) && heard_sample(mix, program_sample, clip_sample) == (if clip is Some {
            clip_sample
        } else {
            0
        }),
{
}

/// Under a policy that mixes, the clip is heard on top of the program, and where there is none,
/// the program alone.
pub proof fn the_stinger_is_heard_with_the_program(
    planes: usize,
    samples: usize,
    clip: Option<AudioBlock>,
    sample_rate: u32,
    layout: ChannelLayout,
    program_sample: int,
    clip_sample: int,
)
    requires
        planes == layout.channels,
        is_of_form(samples, clip, sample_rate, layout),
    ensures
        audio_mix::clip_mix_of(
            planes,
            samples,
            StingerAudioPolicy::MixWithProgram,
            clip,
            sample_rate,
            layout,
        ) matches Ok(mix) && heard_sample(mix, program_sample, clip_sample) == program_sample + (
        if clip is Some {
            clip_sample
        } else {
            0
        }),
{
}

/// A Stinger that is muted leaves the program as it is.
pub proof fn a_muted_stinger_is_not_heard(
    planes: usize,
    samples: usize,
    clip: Option<AudioBlock>,
    sample_rate: u32,
    layout: ChannelLayout,
    program_sample: int,
    clip_sample: int,
)
    requires
        planes == layout.channels,
        is_of_form(samples, clip, sample_rate, layout),
    ensures
        audio_mix::clip_mix_of(
            planes,
            samples,
            StingerAudioPolicy::Muted,
            clip,
            sample_rate,
            layout,
        ) matches Ok(mix) && heard_sample(mix, program_sample, clip_sample) == program_sample,
{
}

/// A clip that does not have the form of the Master is refused under every policy.
pub proof fn clips_of_another_form_are_refused(
    planes: usize,
    samples: usize,
    policy: StingerAudioPolicy,
    clip: Option<AudioBlock>,
    sample_rate: u32,
    layout: ChannelLayout,
)
    ensures
        ({
            let mix = audio_mix::clip_mix_of(planes, samples, policy, clip, sample_rate, layout);
            &&& mix is Ok <==> planes == layout.channels && is_of_form(
                samples,
                clip,
                sample_rate,
                layout,
            )
            &&& mix matches Err(error) ==> error is InvalidFormat
        }),
{
}

/// Whether a gain leaves a source as it is through the whole frame.
pub open spec fn is_whole(gain: SourceGain) -> bool {
    &&& gain.denominator > 0
    &&& gain.start_numerator == gain.denominator
    &&& gain.end_numerator == gain.denominator
}

/// Whether a frame hears one input, as it is.
pub open spec fn hears_alone(plan: NativeAudioMixPlan, input: InputId) -> bool {
    plan.primary == input && is_whole(plan.primary_gain) && plan.secondary is None
}

/// A program that stays on its input hears that input as it is. One that moves to another hears
/// the other as far as it has come, from the begin of the frame to its end, and its own input by
/// what is left of the whole.
pub proof fn the_program_is_heard_as_it_is_seen(
    program: ProgramFrame,
    gains: Result<(), OutsideFailure>,
)
    requires
        gains is Ok ==> audio_mix::ratios_fit(program),
    ensures
        ({
            let mix = audio_mix::program_mix(program, gains);
            let moves = program.secondary is Some && program.secondary->Some_0
                != program.primary;
            &&& !moves ==> (mix matches Ok(plan) && hears_alone(plan, program.primary))
            &&& moves && mix is Ok ==> {
                let plan = mix->Ok_0;
                &&& plan.primary == program.primary
                &&& plan.secondary matches Some((input, gain)) && {
                    &&& input == program.secondary->Some_0
                    &&& gain.denominator == program.mix_denominator
                    &&& gain.start_numerator == program.mix_start_numerator
                    &&& gain.end_numerator == program.mix_end_numerator
                    &&& plan.primary_gain.denominator == program.mix_denominator
                    &&& plan.primary_gain.start_numerator + program.mix_start_numerator
                        == program.mix_denominator
                    &&& plan.primary_gain.end_numerator + program.mix_end_numerator
                        == program.mix_denominator
                }
            }
            // It is refused only where it moves without a transition that can be heard, or the
            // mixer does not take the gains.
            &&& moves ==> (mix is Err <==> {
                ||| program.transition_kind is None
                ||| program.transition_kind->Some_0 is Stinger
                ||| gains is Err
            })
        }),
{
}

/// Under a Stinger one input is heard as it is: the one that is seen under the clip. Without one
/// a project hears what the program says.
pub proof fn stingers_let_one_input_be_heard(
    project: NativeProjectPlan,
    program: ProgramFrame,
    verdict: AudioMixVerdict,
)
    requires
        project.wf(),
    ensures
        ({
            let mix = audio_mix::project_mix(project, program, verdict);
            match program.transition_kind {
                Some(SwitcherTransitionKind::Stinger(slot)) => {
                    &&& mix is Ok <==> {
                        &&& program.secondary is Some
                        &&& program.secondary->Some_0 != program.primary
                        &&& exists|k: int|
                            0 <= k < project.stingers.entries@.len() && (
                            #[trigger] project.stingers.entries@[k]).0 == slot
                        &&& verdict.stinger is Ok
                    }
                    &&& mix matches Ok(plan) ==> match verdict.stinger->Ok_0.base {
                        StingerBase::Program => hears_alone(plan, program.primary),
                        StingerBase::Preview => hears_alone(plan, program.secondary->Some_0),
                    }
                },
                _ => mix == audio_mix::program_mix(program, verdict.gains),
            }
        }),
{
    if let Some(SwitcherTransitionKind::Stinger(slot)) = program.transition_kind {
        project.stingers.lemma_lookup(slot);
        if project.stingers.lookup(slot) is Some {
            let k = choose|k: int|
                0 <= k < project.stingers.entries@.len() && #[trigger] project.stingers.entries@[k]
                    == (slot, project.stingers.lookup(slot)->Some_0);
            assert(project.stingers.entries@[k].0 == slot);
        }
    }
}

/// A frame with a Stinger asks for the audio of the clip in its slot, under the policy of that
/// slot, at the frame of the clip that has come; the showing began as many frames ago.
pub proof fn stingers_ask_for_their_clip(
    project: NativeProjectPlan,
    frame: FrameResult,
    stinger: Result<StingerFramePlan, OutsideFailure>,
)
    requires
        project.wf(),
    ensures
        ({
            let asked = audio_mix::stinger_request(project, frame, stinger);
            match frame.program.transition_kind {
                Some(SwitcherTransitionKind::Stinger(slot)) => {
                    &&& asked matches Ok(request) ==> request is Some
                    &&& asked matches Ok(Some(request)) ==> {
                        &&& request.trigger.slot == slot
                        &&& request.frame_index == frame.program.mix_numerator
                        &&& request.trigger.cadence_origin_frame + request.frame_index
                            == frame.frame
                        &&& exists|k: int|
                            {
                                &&& 0 <= k < project.stingers.entries@.len()
                                &&& (#[trigger] project.stingers.entries@[k]).0 == slot
                                &&& project.stingers.entries@[k].1.media_input
                                    == request.trigger.media
                                &&& project.stingers.entries@[k].1.audio_policy == request.policy
                            }
                    }
                    &&& asked is Err <==> {
                        ||| forall|k: int|
                            0 <= k < project.stingers.entries@.len() ==> (
                            #[trigger] project.stingers.entries@[k]).0 != slot
                        ||| stinger is Err
                        ||| frame.frame < frame.program.mix_numerator
                    }
                },
                _ => asked matches Ok(request) && request is None,
            }
        }),
{
    if let Some(SwitcherTransitionKind::Stinger(slot)) = frame.program.transition_kind {
        project.stingers.lemma_lookup(slot);
        if project.stingers.lookup(slot) is Some {
            let k = choose|k: int|
                0 <= k < project.stingers.entries@.len() && #[trigger] project.stingers.entries@[k]
                    == (slot, project.stingers.lookup(slot)->Some_0);
            assert(project.stingers.entries@[k].0 == slot);
        }
    }
}

/// Each input of a frame is as loud as the frame says, and every other is heard as it is.
pub proof fn inputs_are_as_loud_as_planned(plan: NativeAudioMixPlan, input: InputId)
    ensures
        input == plan.primary ==> audio_mix::gain_of(plan, input) == plan.primary_gain,
        input != plan.primary ==> match plan.secondary {
            Some((other, gain)) => if other == input {
                audio_mix::gain_of(plan, input) == gain
            } else {
                is_whole(audio_mix::gain_of(plan, input))
            },
            None => is_whole(audio_mix::gain_of(plan, input)),
        },
{
}

/// A strip keeps whether its input is muted and whether it follows the picture.
pub proof fn strips_keep_their_switches(
    project: NativeProjectPlan,
    input: InputId,
    state: InputAudioStripState,
)
    requires
        project.wf(),
        exists|k: int|
            0 <= k < project.audio_strips.entries@.len()
                && #[trigger] project.audio_strips.entries@[k] == (input, state),
        audio_mix::gain_is_bounded(state),
    ensures
        audio_mix::strip_state(project, input) matches Ok(strip) && {
            &&& strip.muted == state.muted
            &&& strip.follow_video == state.follow_video
            &&& strip.whole_db * 1000 + strip.fractional_milli_db == state.gain_milli_db
            &&& -1000 < strip.fractional_milli_db < 1000
            &&& state.gain_milli_db >= 0 ==> strip.fractional_milli_db >= 0
            &&& state.gain_milli_db <= 0 ==> strip.fractional_milli_db <= 0
        },
{
    project.audio_strips.lemma_lookup(input);
    let k = choose|k: int|
        0 <= k < project.audio_strips.entries@.len() && #[trigger] project.audio_strips.entries@[k]
            == (input, state);
    assert(project.audio_strips.entries@[k].0 == input);
    audio_mix::strips_keep_the_gain(state);
}

/// Whether a source is handed to the mixer: it is there, and it may be heard.
pub open spec fn may_be_heard(
    sources: OrderedMap<InputId, NativeAudioSource>,
    physical: InputId,
) -> bool {
    exists|k: int|
        0 <= k < sources.entries@.len() && (#[trigger] sources.entries@[k]).0 == physical
            && !sources.entries@[k].1.explicit_silence
}

/// Whether a submission is that of an input which plays a source.
pub open spec fn plays(
    sources: OrderedMap<InputId, NativeAudioSource>,
    plan: NativeAudioMixPlan,
    submission: AudioSubmission,
    logical: InputId,
    physical: InputId,
) -> bool {
    &&& submission.input == logical
    &&& submission.physical == physical
    &&& submission.source_gain == audio_mix::gain_of(plan, logical)
    &&& exists|k: int|
        0 <= k < sources.entries@.len() && (#[trigger] sources.entries@[k]).0 == physical && (
        sources.entries@[k].1.synchronizer matches Some(synchronizer) && synchronizer.layout
            == submission.layout)
}

proof fn lemma_submission(
    sources: OrderedMap<InputId, NativeAudioSource>,
    plan: NativeAudioMixPlan,
    logical: InputId,
    physical: InputId,
)
    requires
        sources.wf(),
    ensures
        ({
            let found = audio_mix::submission_of(
                sources,
                logical,
                physical,
                audio_mix::gain_of(plan, logical),
            );
            &&& found matches Ok(Some(submission)) ==> plays(
                sources,
                plan,
                submission,
                logical,
                physical,
            ) && may_be_heard(sources, physical)
            &&& found matches Ok(None) ==> !may_be_heard(sources, physical)
        }),
{
    sources.lemma_lookup(physical);
    if let Some(source) = sources.lookup(physical) {
        let k = choose|k: int|
            0 <= k < sources.entries@.len() && #[trigger] sources.entries@[k] == (physical, source);
        assert(sources.entries@[k].0 == physical);
    }
}

/// Every input of a project whose audio comes from a source that may be heard is handed to the
/// mixer, once for each, and no other; they come in the order of the routes.
pub proof fn every_input_that_may_be_heard_is_mixed(
    sources: OrderedMap<InputId, NativeAudioSource>,
    plan: NativeAudioMixPlan,
    routes: Seq<(InputId, NativeAudioRoute)>,
)
    requires
        sources.wf(),
    ensures
        audio_mix::project_submissions(sources, plan, routes) matches Ok(submissions) ==> {
            &&& submissions.len() <= MAX_NATIVE_AUDIO_STRIPS
            &&& submissions.len() <= routes.len()
            &&& exists|places: Seq<int>| is_order_of(sources, plan, routes, submissions, places)
        },
    decreases routes.len(),
{
    if routes.len() == 0 {
        let places = Seq::<int>::empty();
        assert(is_order_of(sources, plan, routes, Seq::<AudioSubmission>::empty(), places));
    } else {
        let init = routes.drop_last();
        let last = routes.len() - 1;
        every_input_that_may_be_heard_is_mixed(sources, plan, init);
        if let Ok(submissions) = audio_mix::project_submissions(sources, plan, routes) {
            let before = audio_mix::project_submissions(sources, plan, init)->Ok_0;
            let old_places = choose|places: Seq<int>|
                is_order_of(sources, plan, init, before, places);
            let (logical, route) = routes[last];
            if let NativeAudioRoute::Leaf(physical) = route {
                lemma_submission(sources, plan, logical, physical);
            }
            let places = if submissions.len() == before.len() {
                old_places
            } else {
                old_places.push(last)
            };
            assert forall|a: int| 0 <= a < submissions.len() implies is_submission_of(
                sources,
                plan,
                routes,
                #[trigger] submissions[a],
                places[a],
            ) by {
                if a < before.len() {
                    assert(is_submission_of(sources, plan, init, before[a], old_places[a]));
                    assert(init[old_places[a]] == routes[old_places[a]]);
                }
            }
            assert forall|i: int| 0 <= i < routes.len() && is_heard(
                sources,
                #[trigger] routes[i].1,
            ) implies places.contains(i) by {
                if i < last {
                    assert(init[i] == routes[i]);
                    assert(is_heard(sources, init[i].1));
                    assert(old_places.contains(i));
                    let a = choose|a: int| 0 <= a < old_places.len() && old_places[a] == i;
                    assert(places[a] == i);
                } else {
                    assert(places[before.len() as int] == i);
                }
            }
            assert forall|a: int, b: int| 0 <= a < b < places.len() implies places[a]
                < places[b] by {
                if b < before.len() {
                    assert(old_places[a] < old_places[b]);
                } else {
                    assert(is_submission_of(sources, plan, init, before[a], old_places[a]));
                }
            }
            assert(is_order_of(sources, plan, routes, submissions, places));
        }
    }
}

/// Whether a route leads to a source that may be heard.
pub open spec fn is_heard(
    sources: OrderedMap<InputId, NativeAudioSource>,
    route: NativeAudioRoute,
) -> bool {
    route matches NativeAudioRoute::Leaf(physical) && may_be_heard(sources, physical)
}

/// Whether a submission is that of the route at this place.
pub open spec fn is_submission_of(
    sources: OrderedMap<InputId, NativeAudioSource>,
    plan: NativeAudioMixPlan,
    routes: Seq<(InputId, NativeAudioRoute)>,
    submission: AudioSubmission,
    place: int,
) -> bool {
    &&& 0 <= place < routes.len()
    &&& routes[place].1 matches NativeAudioRoute::Leaf(physical) && plays(
        sources,
        plan,
        submission,
        routes[place].0,
        physical,
    )
}

/// Whether submissions stand for the routes at these places, which are all that may be heard.
pub open spec fn is_order_of(
    sources: OrderedMap<InputId, NativeAudioSource>,
    plan: NativeAudioMixPlan,
    routes: Seq<(InputId, NativeAudioRoute)>,
    submissions: Seq<AudioSubmission>,
    places: Seq<int>,
) -> bool {
    &&& places.len() == submissions.len()
    &&& forall|a: int, b: int| 0 <= a < b < places.len() ==> places[a] < places[b]
    &&& forall|a: int|
        0 <= a < submissions.len() ==> is_submission_of(
            sources,
            plan,
            routes,
            #[trigger] submissions[a],
            places[a],
        )
    &&& forall|i: int|
        0 <= i < routes.len() && is_heard(sources, #[trigger] routes[i].1) ==> places.contains(i)
}

/// A frame without a project hands its inputs to the mixer: each that may be heard plays its own
/// source, as loud as the frame says.
pub proof fn inputs_without_a_project_play_themselves(
    sources: OrderedMap<InputId, NativeAudioSource>,
    plan: NativeAudioMixPlan,
)
    requires
        sources.wf(),
        plan.secondary matches Some((other, _)) ==> other != plan.primary,
    ensures
        audio_mix::program_submissions(sources, plan) matches Ok(submissions) ==> {
            &&& forall|a: int|
                0 <= a < submissions.len() ==> plays(
                    sources,
                    plan,
                    #[trigger] submissions[a],
                    submissions[a].input,
                    submissions[a].input,
                ) && (submissions[a].input == plan.primary || (plan.secondary matches Some(
                    (other, _),
                ) && submissions[a].input == other))
            &&& may_be_heard(sources, plan.primary) ==> submissions.len() > 0
                && submissions[0].input == plan.primary
            &&& plan.secondary matches Some((other, _)) ==> (may_be_heard(sources, other)
                ==> submissions.len() > 0 && submissions[submissions.len() - 1].input == other)
            &&& submissions.len() == (if may_be_heard(sources, plan.primary) {
                1int
            } else {
                0
            }) + (if plan.secondary is Some && may_be_heard(sources, plan.secondary->Some_0.0) {
                1int
            } else {
                0
            })
        },
{
    lemma_submission(sources, plan, plan.primary, plan.primary);
    if let Some((other, _)) = plan.secondary {
        lemma_submission(sources, plan, other, other);
    }
}

/// The inputs that are seen are those that the frame mixes.
pub proof fn inputs_that_are_mixed_are_seen(plan: NativeAudioMixPlan, input: InputId)
    ensures
        audio_mix::seen_inputs(plan).contains(input) <==> {
            ||| input == plan.primary
            ||| plan.secondary matches Some((other, _)) && input == other
        },
        audio_mix::seen_inputs(plan)[0] == plan.primary,
{
    let seen = audio_mix::seen_inputs(plan);
    assert(seen[0] == plan.primary);
    if let Some((other, _)) = plan.secondary {
        assert(seen[1] == other);
    }
}

/// A frame is rendered only if it is the next one and its samples are at hand; it spans those
/// samples and is numbered as the frame is.
pub proof fn only_the_next_frame_is_rendered(
    lane: LaneModel,
    frame: FrameResult,
    project: Option<&NativeProjectPlan>,
    sink_rejects: bool,
    verdict: AudioMixVerdict,
)
    requires
        lane.wf(),
    ensures
        audio_render::frame_plan(lane, frame, project, sink_rejects, verdict) matches Ok(plan)
            ==> {
            &&& !lane.failed && !sink_rejects
            &&& plan.frame == frame.frame == lane.expected_next_frame
            &&& lane.ready_frame matches Some(ready) && ready.frame == plan.frame
                && ready.start_sample == plan.start_sample && ready.end_sample == plan.end_sample
            &&& plan.samples == plan.end_sample - plan.start_sample
            &&& plan.timing.sequence == plan.frame
            &&& plan.timing.original.ticks == plan.start_sample
            &&& plan.timing.clock_domain == lane.clock_domain
            &&& project matches Some(project) ==> audio_mix::project_mix(
                *project,
                frame.program,
                verdict,
            ) == Ok::<NativeAudioMixPlan, NativeMasterError>(plan.strip_plan)
            &&& project is None ==> audio_mix::program_mix(frame.program, verdict.gains) == Ok::<
                NativeAudioMixPlan,
                NativeMasterError,
            >(plan.strip_plan)
        },
        audio_render::frame_plan(lane, frame, project, sink_rejects, verdict) matches Err(error)
            ==> {
            &&& error is Failed <==> lane.failed
            &&& error is UnexpectedFrame <==> !lane.failed && frame.frame
                != lane.expected_next_frame
            &&& error is SinkRejected ==> sink_rejects
            &&& error is FrameNotReady ==> lane.ready_frame is None
                || lane.ready_frame->Some_0.frame != frame.frame
        },
{
}

/// A source fills a frame from where its audio begins to the end of the frame, and nothing of a
/// frame that ends before its audio begins.
pub proof fn sources_fill_the_frame_from_their_begin(
    lane: LaneModel,
    input: InputId,
    source: NativeAudioSource,
    plan: AudioFramePlan,
)
    requires
        audio_render::plan_is_whole(plan),
        source.explicit_silence || source.synchronizer is Some,
    ensures
        audio_render::part_of(lane, input, source, plan) matches Ok(part) ==> {
            &&& part is None <==> source.explicit_silence || plan.end_sample
                <= source.audio_start_master_sample
            &&& part matches Some(part) ==> {
                let first = plan.start_sample + part.output_offset;
                &&& part.output_offset + part.samples == plan.samples
                &&& first >= source.audio_start_master_sample
                &&& part.output_offset > 0 ==> first == source.audio_start_master_sample
                &&& part.timing.original.ticks == first
                &&& part.timing.sequence == plan.frame
            }
        },
        audio_render::part_of(lane, input, source, plan) matches Err(error) ==> error
            is BoundsExceeded,
{
}

/// Once a frame is rendered the next one is expected, and what changes besides is only what is
/// counted.
pub proof fn rendering_moves_on_by_one(lane: LaneModel, plan: AudioFramePlan)
    ensures
        ({
            let (after, outcome) = audio_render::rendered(lane, plan);
            &&& outcome is Ok <==> lane.expected_next_frame < u64::MAX
            &&& outcome is Ok ==> after.expected_next_frame == lane.expected_next_frame + 1
                && after.ready_frame is None
            &&& after.sources == lane.sources
            &&& after.failed == lane.failed
            &&& after.cadence_origin_frame == lane.cadence_origin_frame
            &&& after.sample_rate == lane.sample_rate && after.frame_rate == lane.frame_rate
            &&& after.limits == lane.limits
        }),
{
}

/// How many samples of one source are silent in a frame because its audio has not begun.
pub open spec fn silent_before_begin(source: NativeAudioSource, start: u64, end: u64) -> int {
    if source.explicit_silence || source.audio_start_master_sample <= start || end <= start {
        0
    } else if source.audio_start_master_sample < end {
        source.audio_start_master_sample - start
    } else {
        end - start
    }
}

/// The silence that is counted is that of all the sources together, as far as it can be counted.
pub proof fn all_silence_is_counted(
    sources: Seq<(InputId, NativeAudioSource)>,
    source: (InputId, NativeAudioSource),
    start: u64,
    end: u64,
)
    ensures
        ({
            let before = audio_render::leading_silence(sources, start, end);
            let after = audio_render::leading_silence(sources.push(source), start, end);
            let sum = before + silent_before_begin(source.1, start, end);
            after == (if sum <= u64::MAX {
                sum
            } else {
                u64::MAX as int
            })
        }),
        audio_render::leading_silence(Seq::empty(), start, end) == 0,
{
    assert(sources.push(source).drop_last() =~= sources);
}

/// The source of an input stands at the place of that input, and there only.
pub proof fn lemma_source_at(lane: LaneModel, input: InputId, i: int)
    requires
        lane.wf(),
        0 <= i < lane.sources.len(),
    ensures
        ({
            let slot = ordered::lower_bound(lane.inputs(), input);
            &&& lane.sources[i].0 == input ==> slot == i && lane.source(input) == Some(
                lane.sources[i].1,
            )
            &&& lane.source(input) matches Some(source) ==> 0 <= slot < lane.sources.len()
                && lane.sources[slot] == (input, source)
            &&& lane.source(input) is Some && lane.sources[i].0 != input ==> slot != i
        }),
{
    let keys = lane.inputs();
    let slot = ordered::lower_bound(keys, input);
    ordered::lemma_lower_bound(keys, input);
    ordered::lemma_contains_at_lower_bound(keys, input);
    ordered::lemma_entries_match_map(lane.sources);
    assert(keys[i] == lane.sources[i].0);
    if lane.sources[i].0 == input {
        assert(keys.contains(input));
        assert(keys[slot] == lane.sources[slot].0);
        if i < slot {
            assert(keys[i].rank() < keys[slot].rank());
        } else if slot < i {
            assert(keys[slot].rank() < keys[i].rank());
        }
    }
    if lane.source(input) is Some {
        assert(keys.contains(input));
        assert(keys[slot] == lane.sources[slot].0);
    }
}

/// A synchronizer that has played its part holds what it says, and no other source changes.
pub proof fn playing_changes_what_one_source_holds(
    lane: LaneModel,
    input: InputId,
    buffered: NativeAudioCharge,
    i: int,
)
    requires
        lane.wf(),
        0 <= i < lane.sources.len(),
    ensures
        ({
            let (after, outcome) = audio_render::played(lane, input, Ok(buffered));
            let (other, source) = lane.sources[i];
            &&& other == input ==> (outcome is Ok <==> source.synchronizer is Some)
            &&& outcome is Ok ==> {
                &&& after.sources.len() == lane.sources.len()
                &&& after.sources[i].0 == other
                &&& other != input ==> after.sources[i] == lane.sources[i]
                &&& other == input ==> (after.sources[i].1.synchronizer matches Some(playing)
                    && playing.buffered == buffered && playing.layout
                    == source.synchronizer->Some_0.layout && playing.source_rate
                    == source.synchronizer->Some_0.source_rate)
                &&& other == input ==> after.sources[i].1.next_sample == source.next_sample
                    && after.sources[i].1.in_flight == source.in_flight
                    && after.sources[i].1.end_of_stream == source.end_of_stream
            }
            &&& outcome is Err ==> after == lane
        }),
{
    lemma_source_at(lane, input, i);
}

} // verus!
